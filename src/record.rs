use vstd::prelude::*;
use crate::filter::Filter;
use crate::json::{convert_value_and_get, lookup, Json};
use crate::path::{resolve, Pattern};

verus! {

/// The record's timestamp: the `"time"` entry of a top-level object, read
/// as a float (its bit pattern). Nothing where the record is no object or
/// the entry is missing or no number.
pub open spec fn time_of(v: Json) -> Option<u64> {
    match v {
        Json::Object(entries) => match lookup(entries@, "time"@) {
            Some(Json::Number(num)) => Some(num.float_bits),
            _ => None,
        },
        _ => None,
    }
}

/// Every filter of `fs` matches `v`.
pub open spec fn all_match(fs: Seq<Filter>, v: Json) -> bool {
    forall|i: int| 0 <= i < fs.len() ==> (#[trigger] fs[i]).matches(v)
}

/// Every filter, if any are given, matches `v`.
pub open spec fn passes(v: Json, filters: Option<Seq<Filter>>) -> bool {
    match filters {
        None => true,
        Some(fs) => all_match(fs, v),
    }
}

/// Every pattern leads somewhere from `v`.
pub open spec fn all_resolve(v: Json, patterns: Seq<Pattern>) -> bool {
    forall|i: int| 0 <= i < patterns.len() ==> (#[trigger] resolve(v, patterns[i].segs())) is Some
}

/// The filters as a sequence, if given.
pub open spec fn filter_seq(filter: Option<&[Filter]>) -> Option<Seq<Filter>> {
    match filter {
        Some(fs) => Some(fs@),
        None => None,
    }
}

/// The row that `value` gives: its timestamp and the value that each
/// pattern leads to, in order. Nothing where the record has no numeric
/// `"time"` entry, where a filter does not match, or where a pattern leads
/// nowhere.
pub fn get_item<'a>(value: &'a Json, patterns: &[Pattern], filter: Option<&[Filter]>) -> (r: Option<(u64, Vec<&'a Json>)>)
    ensures
        r is Some <==> {
            &&& time_of(*value) is Some
            &&& passes(*value, filter_seq(filter))
            &&& all_resolve(*value, patterns@)
        },
        time_of(*value) is None ==> r is None,
        (exists|i: int| 0 <= i < patterns@.len() && (#[trigger] resolve(*value, patterns@[i].segs())) is None) ==> r is None,
        r matches Some((t, vals)) ==> {
            &&& Some(t) == time_of(*value)
            &&& vals@.len() == patterns@.len()
            &&& forall|i: int| 0 <= i < vals@.len() ==> Some(*#[trigger] vals@[i]) == resolve(*value, patterns@[i].segs())
        },
{
    let time = match value {
        Json::Object(_) => match convert_value_and_get(value, "time") {
            Some(Json::Number(num)) => num.float_bits,
            _ => {
                return None;
            },
        },
        _ => {
            return None;
        },
    };
    match filter {
        Some(fs) => {
            let mut i: usize = 0;
            while i < fs.len()
                invariant
                    Some(time) == time_of(*value),
                    filter_seq(filter) == Some(fs@),
                    0 <= i <= fs@.len(),
                    forall|j: int| 0 <= j < i ==> (#[trigger] fs@[j]).matches(*value),
                decreases fs.len() - i,
            {
                if !fs[i].filter(value) {
                    return None;
                }
                i += 1;
            }
        },
        None => {},
    }
    let mut vals: Vec<&'a Json> = Vec::new();
    let mut i: usize = 0;
    while i < patterns.len()
        invariant
            Some(time) == time_of(*value),
            passes(*value, filter_seq(filter)),
            0 <= i <= patterns@.len(),
            vals@.len() == i,
            forall|j: int| 0 <= j < i ==> Some(*#[trigger] vals@[j]) == resolve(*value, patterns@[j].segs()),
        decreases patterns.len() - i,
    {
        match patterns[i].resolve(value) {
            Some(w) => {
                vals.push(w);
            },
            None => {
                return None;
            },
        }
        i += 1;
    }
    assert(all_resolve(*value, patterns@)) by {
        assert forall|j: int| 0 <= j < patterns@.len() implies (#[trigger] resolve(*value, patterns@[j].segs())) is Some by {
            assert(Some(*vals@[j]) == resolve(*value, patterns@[j].segs()));
        }
    }
    Some((time, vals))
}

/// The last segment of a pattern, or nothing where it has none.
pub open spec fn column_label(p: Pattern) -> Seq<char> {
    if p.0@.len() == 0 {
        Seq::empty()
    } else {
        p.0@.last()@
    }
}

/// The header row: `"time"`, then the last segment of each pattern.
pub fn header(patterns: &[Pattern]) -> (r: Vec<String>)
    ensures
        r@.len() == patterns@.len() + 1,
        r@[0]@ == "time"@,
        forall|i: int| 0 <= i < patterns@.len() ==> (#[trigger] r@[i + 1])@ == column_label(patterns@[i]),
{
    let mut r: Vec<String> = Vec::new();
    r.push(String::from_str("time"));
    let mut i: usize = 0;
    while i < patterns.len()
        invariant
            0 <= i <= patterns@.len(),
            r@.len() == i + 1,
            r@[0]@ == "time"@,
            forall|j: int| 0 <= j < i ==> (#[trigger] r@[j + 1])@ == column_label(patterns@[j]),
        decreases patterns.len() - i,
    {
        let segs = &patterns[i].0;
        let label = if segs.len() == 0 {
            String::new()
        } else {
            segs[segs.len() - 1].clone()
        };
        r.push(label);
        i += 1;
    }
    r
}

} // verus!
