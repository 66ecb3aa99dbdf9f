use vstd::prelude::*;
use vstd::string::StrSliceExecFns;
use crate::json::{found, step, convert_value_and_get, Json};

verus! {

/// The pieces of `s` between occurrences of `sep`, in order; adjacent
/// separators give empty pieces.
pub open spec fn split(s: Seq<char>, sep: char) -> Seq<Seq<char>>
    decreases s.len(),
{
    if s.len() == 0 {
        seq![Seq::empty()]
    } else {
        let init = split(s.drop_last(), sep);
        if s.last() == sep {
            init.push(Seq::empty())
        } else {
            init.update(init.len() - 1, init.last().push(s.last()))
        }
    }
}

/// Splitting never yields an empty list of pieces.
pub proof fn lemma_split_nonempty(s: Seq<char>, sep: char)
    ensures
        split(s, sep).len() >= 1,
    decreases s.len(),
{
    if s.len() > 0 {
        lemma_split_nonempty(s.drop_last(), sep);
    }
}

/// The value that `segs` lead to from `v`, one `step` per segment; nothing
/// as soon as one step finds nothing. No segment leads to `v` itself.
pub open spec fn resolve(v: Json, segs: Seq<Seq<char>>) -> Option<Json>
    decreases segs.len(),
{
    if segs.len() == 0 {
        Some(v)
    } else {
        match step(v, segs[0]) {
            Some(w) => resolve(w, segs.drop_first()),
            None => None,
        }
    }
}

/// The views of a list of strings.
pub open spec fn views(v: Seq<String>) -> Seq<Seq<char>> {
    v.map_values(|x: String| x@)
}

/// An ordered list of segments that leads through a tree-shaped value.
#[derive(Debug)]
pub struct Pattern(pub Vec<String>);

impl Pattern {
    /// The segments, as character sequences.
    pub open spec fn segs(&self) -> Seq<Seq<char>> {
        views(self.0@)
    }

    /// Builds a path from a `/`-separated string. It never fails and always
    /// holds at least one segment.
    pub fn parse(s: &str) -> (r: Pattern)
        ensures
            r.segs() == split(s@, '/'),
            r.0@.len() >= 1,
    {
        let parts = split_on(s, '/');
        proof {
            lemma_split_nonempty(s@, '/');
        }
        Pattern(parts)
    }

    /// The value that this path leads to from `v`, as `resolve` says.
    pub fn resolve<'a>(&self, v: &'a Json) -> (r: Option<&'a Json>)
        ensures
            found(r) == resolve(*v, self.segs()),
    {
        let ghost segs = self.segs();
        let mut cur: &'a Json = v;
        let mut i: usize = 0;
        assert(segs.subrange(0, segs.len() as int) =~= segs);
        while i < self.0.len()
            invariant
                segs == self.segs(),
                0 <= i <= segs.len(),
                resolve(*v, segs) == resolve(*cur, segs.subrange(i as int, segs.len() as int)),
            decreases self.0.len() - i,
        {
            let ghost rest = segs.subrange(i as int, segs.len() as int);
            assert(rest.drop_first() =~= segs.subrange(i + 1, segs.len() as int));
            assert(rest[0] == self.0@[i as int]@);
            match convert_value_and_get(cur, self.0[i].as_str()) {
                Some(w) => {
                    cur = w;
                },
                None => {
                    return None;
                },
            }
            i += 1;
        }
        assert(segs.subrange(i as int, segs.len() as int) =~= Seq::<Seq<char>>::empty());
        Some(cur)
    }
}

/// Splits `s` at each `sep`, as `split` says.
pub fn split_on(s: &str, sep: char) -> (r: Vec<String>)
    ensures
        views(r@) == split(s@, sep),
{
    let n = s.unicode_len();
    let mut parts: Vec<String> = Vec::new();
    let mut start: usize = 0;
    let mut i: usize = 0;
    assert(s@.subrange(0, 0) =~= Seq::<char>::empty());
    assert(views(parts@).push(Seq::empty()) =~= split(Seq::empty(), sep));
    while i < n
        invariant
            n == s@.len(),
            0 <= start <= i <= n,
            split(s@.subrange(0, i as int), sep) == views(parts@).push(s@.subrange(start as int, i as int)),
        decreases n - i,
    {
        let c = s.get_char(i);
        let ghost pre = s@.subrange(0, i as int);
        let ghost next = s@.subrange(0, i + 1);
        assert(next.drop_last() =~= pre);
        assert(next.last() == c);
        if c == sep {
            let piece = s.substring_char(start, i).to_owned();
            parts.push(piece);
            start = i + 1;
            assert(views(parts@) =~= split(pre, sep));
            assert(s@.subrange(start as int, i + 1) =~= Seq::<char>::empty());
            assert(views(parts@).push(Seq::empty()) =~= split(next, sep));
        } else {
            assert(s@.subrange(start as int, i + 1) =~= s@.subrange(start as int, i as int).push(c));
            assert(views(parts@).push(s@.subrange(start as int, i + 1)) =~= split(next, sep));
        }
        i += 1;
    }
    let last = s.substring_char(start, n).to_owned();
    parts.push(last);
    assert(s@.subrange(0, n as int) =~= s@);
    assert(views(parts@) =~= split(s@, sep));
    parts
}

} // verus!
