use vstd::prelude::*;
use vstd::string::*;

use crate::value::{value_view, Value, ValueV};

verus! {

/// How a path segment is turned into a value.
#[derive(Debug, Copy, Clone, PartialEq, Eq, Structural)]
pub enum ParamKind {
    /// The text, percent-decoded; it does not convert where the decoded
    /// bytes are not UTF-8.
    Text,
    /// An unsigned decimal number of at most 64 bits: one or more ASCII
    /// digits and nothing else.
    Uint,
}

pub open spec fn is_digit(c: char) -> bool {
    '0' <= c && c <= '9'
}

/// The number that a string of decimal digits spells.
pub open spec fn digits_value(s: Seq<char>) -> nat
    decreases s.len(),
{
    if s.len() == 0 {
        0
    } else {
        digits_value(s.drop_last()) * 10 + ((s.last() as u32) - ('0' as u32)) as nat
    }
}

/// The unsigned number that `s` spells, if it spells one that fits in 64
/// bits.
pub open spec fn parse_uint(s: Seq<char>) -> Option<u64> {
    if s.len() > 0 && (forall|i: int| 0 <= i < s.len() ==> is_digit(#[trigger] s[i]))
        && digits_value(s) <= u64::MAX {
        Some(digits_value(s) as u64)
    } else {
        None
    }
}

/// Whether a text holds a `%`.
pub open spec fn has_percent(s: Seq<char>) -> bool {
    s.contains('%')
}

/// The percent-decoding of a text, if the decoded bytes are UTF-8.
pub uninterp spec fn percent_decoded(s: Seq<char>) -> Option<Seq<char>>;

/// Relies on `percent_encoding::percent_decode` and
/// `PercentDecode::decode_utf8`: the result depends on the text alone, and a
/// text without `%` decodes to itself.
#[verifier::external_body]
fn decode_segment(s: &str) -> (r: Option<String>)
    ensures
        r matches Some(t) ==> percent_decoded(s@) == Some(t@),
        r is None ==> percent_decoded(s@) is None,
        !has_percent(s@) ==> (r is Some && r->0@ == s@),
{
    match percent_encoding::percent_decode(s.as_bytes()).decode_utf8() {
        Ok(t) => Some(t.into_owned()),
        Err(_) => None,
    }
}

/// The value that `s` converts to under `kind`, if it converts. A text
/// without `%` converts to itself.
pub open spec fn convert_spec(kind: ParamKind, s: Seq<char>) -> Option<ValueV> {
    match kind {
        ParamKind::Text => if !has_percent(s) {
            Some(ValueV::Text(s))
        } else {
            match percent_decoded(s) {
                Some(t) => Some(ValueV::Text(t)),
                None => None,
            }
        },
        ParamKind::Uint => match parse_uint(s) {
            Some(n) => Some(ValueV::Uint(n)),
            None => None,
        },
    }
}

proof fn lemma_digits_grow(s: Seq<char>, j: int)
    requires
        0 <= j <= s.len(),
        forall|i: int| 0 <= i < s.len() ==> is_digit(#[trigger] s[i]),
    ensures
        digits_value(s.subrange(0, j)) <= digits_value(s),
    decreases s.len(),
{
    if j < s.len() {
        let t = s.drop_last();
        assert(t.subrange(0, j) =~= s.subrange(0, j));
        lemma_digits_grow(t, j);
    } else {
        assert(s.subrange(0, j) =~= s);
    }
}

/// Parses an unsigned decimal number.
pub fn parse_decimal(s: &str) -> (r: Option<u64>)
    ensures
        r == parse_uint(s@),
{
    let n = s.unicode_len();
    if n == 0 {
        return None;
    }
    let mut v: u64 = 0;
    let mut i: usize = 0;
    while i < n
        invariant
            n == s@.len(),
            i <= n,
            forall|k: int| 0 <= k < i ==> is_digit(#[trigger] s@[k]),
            v as nat == digits_value(s@.subrange(0, i as int)),
        decreases n - i,
    {
        let c = s.get_char(i);
        if !('0' <= c && c <= '9') {
            return None;
        }
        let d = (c as u32 - '0' as u32) as u64;
        assert(s@.subrange(0, i + 1).drop_last() =~= s@.subrange(0, i as int));
        if v > (u64::MAX - d) / 10 {
            proof {
                assert(digits_value(s@.subrange(0, i + 1)) > u64::MAX) by (nonlinear_arith)
                    requires
                        digits_value(s@.subrange(0, i + 1)) == v * 10 + d,
                        v > (u64::MAX - d) / 10,
                        d <= 9,
                ;
                if forall|k: int| 0 <= k < s@.len() ==> is_digit(#[trigger] s@[k]) {
                    lemma_digits_grow(s@, i + 1);
                }
            }
            return None;
        }
        assert(v * 10 + d <= u64::MAX) by (nonlinear_arith)
            requires
                v <= (u64::MAX - d) / 10,
                d <= 9,
        ;
        v = v * 10 + d;
        i = i + 1;
    }
    assert(s@.subrange(0, n as int) =~= s@);
    Some(v)
}

/// Converts the text of a segment under `kind`.
pub fn convert(kind: ParamKind, s: &str) -> (r: Option<Value>)
    ensures
        r is None <==> convert_spec(kind, s@) is None,
        r matches Some(v) ==> convert_spec(kind, s@) == Some(value_view(v)),
{
    match kind {
        ParamKind::Text => match decode_segment(s) {
            Some(t) => Some(Value::Text(t)),
            None => None,
        },
        ParamKind::Uint => match parse_decimal(s) {
            Some(n) => Some(Value::Uint(n)),
            None => None,
        },
    }
}

} // verus!
