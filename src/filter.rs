use vstd::prelude::*;
use crate::json::Json;
use crate::literal::{literal_from, Literal};
use crate::path::{resolve, split, split_on, Pattern};

verus! {

/// Why a filter could not be built.
#[derive(Debug, PartialEq, Eq, Structural)]
pub enum FilterError {
    /// The string split into no segment at all.
    NoSegments,
}

/// A path and the literal that the value it leads to must equal.
#[derive(Debug)]
pub struct Filter {
    /// Leads from a record to the value compared.
    pub pattern: Pattern,
    /// What the value must equal.
    pub value: Literal,
}

impl Filter {
    /// The path leads from `v` to a value that equals the literal; a path
    /// that leads nowhere never matches.
    pub open spec fn matches(&self, v: Json) -> bool {
        match resolve(v, self.pattern.segs()) {
            Some(w) => self.value.matches(w),
            None => false,
        }
    }

    /// Builds a filter from a `/`-separated string: the last segment is the
    /// literal, the ones before it the path. `last_as_float` is the bit
    /// pattern of the last segment read as a 64-bit float, or `None` where
    /// it does not read as one. It fails only where the string has no
    /// segment, which splitting never gives.
    pub fn parse(s: &str, last_as_float: Option<u64>) -> (r: Result<Filter, FilterError>)
        ensures
            r is Err <==> split(s@, '/').len() == 0,
            r is Ok,
            r matches Ok(f) ==> {
                &&& f.pattern.segs() == split(s@, '/').drop_last()
                &&& literal_from(f.value, split(s@, '/').last(), last_as_float)
            },
    {
        let mut entries = split_on(s, '/');
        let ghost parts = split(s@, '/');
        proof {
            crate::path::lemma_split_nonempty(s@, '/');
        }
        match entries.pop() {
            None => Err(FilterError::NoSegments),
            Some(last) => {
                let value = Literal::from_token(last.as_str(), last_as_float);
                let pattern = Pattern(entries);
                assert(pattern.segs() =~= parts.drop_last());
                Ok(Filter { pattern, value })
            },
        }
    }

    /// Whether `value` passes this filter, as `matches` says.
    pub fn filter(&self, value: &Json) -> (r: bool)
        ensures
            r == self.matches(*value),
    {
        match self.pattern.resolve(value) {
            Some(w) => self.value.cmp_value(w),
            None => false,
        }
    }
}

} // verus!
