use vstd::prelude::*;
use vstd::string::StrSliceExecFns;
use crate::json::Json;

verus! {

pub open spec fn is_digit(c: char) -> bool {
    '0' <= c && c <= '9'
}

pub open spec fn all_digits(s: Seq<char>) -> bool {
    forall|i: int| 0 <= i < s.len() ==> is_digit(#[trigger] s[i])
}

/// The base-10 value of a string of digits.
pub open spec fn digits_value(s: Seq<char>) -> nat
    decreases s.len(),
{
    if s.len() == 0 {
        0
    } else {
        digits_value(s.drop_last()) * 10 + (s.last() as nat - '0' as nat) as nat
    }
}

/// `s` read as an unsigned 64-bit integer in base 10: one or more digits,
/// no sign, and a value that fits.
pub open spec fn decimal_u64(s: Seq<char>) -> Option<u64> {
    if s.len() > 0 && all_digits(s) && digits_value(s) <= u64::MAX {
        Some(digits_value(s) as u64)
    } else {
        None
    }
}

/// A longer run of digits is worth at least as much as its prefix.
proof fn lemma_digits_value_prefix(s: Seq<char>, i: int)
    requires
        all_digits(s),
        0 <= i <= s.len(),
    ensures
        digits_value(s.subrange(0, i)) <= digits_value(s),
    decreases s.len(),
{
    if i < s.len() {
        let init = s.drop_last();
        assert(init.subrange(0, i) =~= s.subrange(0, i));
        lemma_digits_value_prefix(init, i);
    } else {
        assert(s.subrange(0, i) =~= s);
    }
}

/// Reads `s` as an unsigned integer in base 10, as `decimal_u64` says.
pub fn parse_u64(s: &str) -> (r: Option<u64>)
    ensures
        r == decimal_u64(s@),
{
    let n = s.unicode_len();
    if n == 0 {
        return None;
    }
    let mut acc: u64 = 0;
    let mut i: usize = 0;
    assert(s@.subrange(0, 0) =~= Seq::<char>::empty());
    while i < n
        invariant
            n == s@.len(),
            0 <= i <= n,
            all_digits(s@.subrange(0, i as int)),
            acc as nat == digits_value(s@.subrange(0, i as int)),
        decreases n - i,
    {
        let c = s.get_char(i);
        let ghost pre = s@.subrange(0, i as int);
        let ghost next = s@.subrange(0, i + 1);
        assert(next.drop_last() =~= pre);
        if c < '0' || c > '9' {
            assert(!is_digit(s@[i as int]));
            return None;
        }
        assert(all_digits(next)) by {
            assert forall|j: int| 0 <= j < next.len() implies is_digit(#[trigger] next[j]) by {
                if j < i {
                    assert(next[j] == pre[j]);
                }
            }
        }
        let d = (c as u32 - '0' as u32) as u64;
        assert(digits_value(next) == digits_value(pre) * 10 + d);
        if acc > (u64::MAX - d) / 10 {
            assert(digits_value(next) > u64::MAX) by (nonlinear_arith)
                requires
                    acc > (u64::MAX - d) / 10,
                    digits_value(next) == acc * 10 + d,
                    d <= 9,
            ;
            proof {
                if all_digits(s@) {
                    lemma_digits_value_prefix(s@, i + 1);
                }
            }
            return None;
        }
        assert(acc * 10 + d <= u64::MAX) by (nonlinear_arith)
            requires
                acc <= (u64::MAX - d) / 10,
                d <= 9,
        ;
        acc = acc * 10 + d;
        i += 1;
    }
    assert(s@.subrange(0, n as int) =~= s@);
    Some(acc)
}

/// The bit pattern of a float is a NaN.
pub open spec fn is_nan_bits(b: u64) -> bool {
    (b >> 52u64) & 0x7ffu64 == 0x7ffu64 && b & 0xf_ffff_ffff_ffffu64 != 0
}

/// The bit pattern of a float is positive or negative zero.
pub open spec fn is_zero_bits(b: u64) -> bool {
    b & 0x7fff_ffff_ffff_ffffu64 == 0
}

/// IEEE-754 equality of two floats given by their bit patterns: a NaN
/// equals nothing, and the two zeros are equal.
pub open spec fn float_eq(a: u64, b: u64) -> bool {
    !is_nan_bits(a) && !is_nan_bits(b) && (a == b || (is_zero_bits(a) && is_zero_bits(b)))
}

/// IEEE-754 equality on bit patterns, as `float_eq` says.
pub fn float_bits_eq(a: u64, b: u64) -> (r: bool)
    ensures
        r == float_eq(a, b),
{
    let a_nan = (a >> 52u64) & 0x7ffu64 == 0x7ffu64 && a & 0xf_ffff_ffff_ffffu64 != 0;
    let b_nan = (b >> 52u64) & 0x7ffu64 == 0x7ffu64 && b & 0xf_ffff_ffff_ffffu64 != 0;
    let zeros = a & 0x7fff_ffff_ffff_ffffu64 == 0 && b & 0x7fff_ffff_ffff_ffffu64 == 0;
    !a_nan && !b_nan && (a == b || zeros)
}

/// A typed scalar that a filter compares a value with. A float is held as
/// its IEEE-754 bit pattern.
#[derive(Debug, PartialEq)]
pub enum Literal {
    Int(u64),
    Float(u64),
    Str(String),
}

/// `r` is the literal read from `token`: an integer where `token` is one;
/// else the float `float` where `token` reads as one; else `token` itself.
pub open spec fn literal_from(r: Literal, token: Seq<char>, float: Option<u64>) -> bool {
    match decimal_u64(token) {
        Some(n) => r == Literal::Int(n),
        None => match float {
            Some(b) => r == Literal::Float(b),
            None => r matches Literal::Str(s) && s@ == token,
        },
    }
}

impl Literal {
    /// Reads a literal from `token`, trying an unsigned integer first, then
    /// a float, then keeping the text. `float` is the bit pattern of `token`
    /// read as a 64-bit float, or `None` where it does not read as one.
    pub fn from_token(token: &str, float: Option<u64>) -> (r: Literal)
        ensures
            literal_from(r, token@, float),
    {
        match parse_u64(token) {
            Some(n) => Literal::Int(n),
            None => match float {
                Some(b) => Literal::Float(b),
                None => Literal::Str(token.to_owned()),
            },
        }
    }

    /// `v` holds a value of this literal's kind that equals it.
    pub open spec fn matches(&self, v: Json) -> bool {
        match self {
            Literal::Int(n) => v matches Json::Number(num) && num.unsigned == Some(*n),
            Literal::Float(b) => v matches Json::Number(num) && float_eq(num.float_bits, *b),
            Literal::Str(s) => v matches Json::Str(t) && t@ == s@,
        }
    }

    /// Compares `v` with this literal, kind for kind: no coercion between
    /// integers, floats and strings.
    pub fn cmp_value(&self, v: &Json) -> (r: bool)
        ensures
            r == self.matches(*v),
    {
        match (self, v) {
            (Literal::Int(n), Json::Number(num)) => match num.unsigned {
                Some(u) => u == *n,
                None => false,
            },
            (Literal::Float(b), Json::Number(num)) => float_bits_eq(num.float_bits, *b),
            (Literal::Str(s), Json::Str(t)) => *t == *s,
            _ => false,
        }
    }
}

} // verus!
