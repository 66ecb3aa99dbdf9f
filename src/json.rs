use vstd::prelude::*;

verus! {

broadcast use vstd::std_specs::vec::group_vec_axioms;

/// A JSON number, held as the two readings that the engine makes of it.
#[derive(Clone, Copy, Debug, PartialEq, Eq, Structural)]
pub struct JsonNumber {
    /// The value as an unsigned 64-bit integer, where the number is one.
    pub unsigned: Option<u64>,
    /// The IEEE-754 bit pattern of the value read as a 64-bit float.
    pub float_bits: u64,
}

/// A tree-shaped record: objects, arrays and scalars.
///
/// An object keeps its entries in order; a lookup finds the first entry
/// with the key.
#[derive(Debug, PartialEq)]
pub enum Json {
    Null,
    Bool(bool),
    Number(JsonNumber),
    Str(String),
    Array(Vec<Json>),
    Object(Vec<(String, Json)>),
}

/// The value that a borrowed result refers to, if any.
pub open spec fn found(r: Option<&Json>) -> Option<Json> {
    match r {
        Some(x) => Some(*x),
        None => None,
    }
}

/// The value of the first entry whose key is `key`.
pub open spec fn lookup(entries: Seq<(String, Json)>, key: Seq<char>) -> Option<Json>
    decreases entries.len(),
{
    if entries.len() == 0 {
        None
    } else if entries[0].0@ == key {
        Some(entries[0].1)
    } else {
        lookup(entries.drop_first(), key)
    }
}

/// One traversal step: a key lookup in an object, the first hit among the
/// elements of an array, nothing on a scalar.
pub open spec fn step(v: Json, seg: Seq<char>) -> Option<Json>
    decreases v,
{
    match v {
        Json::Object(entries) => lookup(entries@, seg),
        Json::Array(items) => step_first(items@, seg),
        _ => None,
    }
}

/// The first result of `step` over the elements, in order.
pub open spec fn step_first(items: Seq<Json>, seg: Seq<char>) -> Option<Json>
    decreases items,
{
    if items.len() == 0 {
        None
    } else {
        match step(items[0], seg) {
            Some(r) => Some(r),
            None => step_first(items.drop_first(), seg),
        }
    }
}

/// The value under `key` in the entries of an object, first entry first.
fn object_get<'a>(entries: &'a Vec<(String, Json)>, key: &String) -> (r: Option<&'a Json>)
    ensures
        found(r) == lookup(entries@, key@),
{
    let mut i: usize = 0;
    assert(entries@.subrange(0, entries@.len() as int) =~= entries@);
    while i < entries.len()
        invariant
            0 <= i <= entries@.len(),
            lookup(entries@, key@) == lookup(entries@.subrange(i as int, entries@.len() as int), key@),
        decreases entries.len() - i,
    {
        let ghost rest = entries@.subrange(i as int, entries@.len() as int);
        assert(rest.drop_first() =~= entries@.subrange(i + 1, entries@.len() as int));
        if entries[i].0 == *key {
            return Some(&entries[i].1);
        }
        i += 1;
    }
    None
}

/// Applies one traversal step, as `step` says.
fn step_by<'a>(v: &'a Json, key: &String) -> (r: Option<&'a Json>)
    ensures
        found(r) == step(*v, key@),
    decreases v,
{
    match v {
        Json::Object(entries) => object_get(entries, key),
        Json::Array(items) => {
            let mut i: usize = 0;
            assert(items@.subrange(0, items@.len() as int) =~= items@);
            while i < items.len()
                invariant
                    *v == Json::Array(*items),
                    0 <= i <= items@.len(),
                    step_first(items@, key@) == step_first(items@.subrange(i as int, items@.len() as int), key@),
                decreases items.len() - i,
            {
                let ghost rest = items@.subrange(i as int, items@.len() as int);
                assert(rest.drop_first() =~= items@.subrange(i + 1, items@.len() as int));
                assert(rest[0] == items@[i as int]);
                assert(decreases_to!(*v => *items));
                assert(decreases_to!(*items => items[i as int]));
                let r = step_by(&items[i], key);
                if r.is_some() {
                    return r;
                }
                i += 1;
            }
            None
        },
        _ => None,
    }
}

/// The value that one path segment leads to from `v`: under the key in an
/// object; in an array, the first result among its elements, in order;
/// nothing on a scalar.
pub fn convert_value_and_get<'a>(v: &'a Json, p: &str) -> (r: Option<&'a Json>)
    ensures
        found(r) == step(*v, p@),
{
    let key = p.to_owned();
    step_by(v, &key)
}

} // verus!
