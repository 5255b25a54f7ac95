//! Textual numeric fields of the COR format.
//!
//! A coordinate travels through the library as the IEEE-754 bit pattern
//! of a double-precision number. Turning such a value into decimal text
//! and back is the only work delegated to an outside crate — the
//! software floating-point arithmetic of `rustc_apfloat`, which works
//! on bit patterns directly. Everything around it — trimming a data
//! line, and all reasoning over the named results — is verified.

use rustc_apfloat::Float;
use vstd::prelude::*;

verus! {

/// Whitespace that is trimmed from a data line before numeric parsing.
pub open spec fn is_ws(c: char) -> bool {
    c == ' ' || c == '\t' || c == '\r' || c == '\n'
}

/// `s` without its leading whitespace.
pub open spec fn trim_start_spec(s: Seq<char>) -> Seq<char>
    decreases s.len(),
{
    if s.len() > 0 && is_ws(s[0]) {
        trim_start_spec(s.drop_first())
    } else {
        s
    }
}

/// `s` without its trailing whitespace.
pub open spec fn trim_end_spec(s: Seq<char>) -> Seq<char>
    decreases s.len(),
{
    if s.len() > 0 && is_ws(s.last()) {
        trim_end_spec(s.drop_last())
    } else {
        s
    }
}

/// `s` without leading and trailing whitespace.
pub open spec fn trim_spec(s: Seq<char>) -> Seq<char> {
    trim_end_spec(trim_start_spec(s))
}

/// Whether `b` is a NaN bit pattern of a double-precision number:
/// exponent all ones and a nonzero fraction.
pub open spec fn is_nan_bits(b: u64) -> bool {
    (b >> 52) & 0x7ff == 0x7ff && (b & 0xf_ffff_ffff_ffff) != 0
}

/// The bit pattern that parsing `s` as a double-precision number with
/// `rustc_apfloat::ieee::Double::from_str` yields, or `None` where `s`
/// is not the text of a number.
pub uninterp spec fn parsed_f64_bits(s: Seq<char>) -> Option<u64>;

/// The decimal text that `rustc_apfloat::ieee::Double`'s `Display`
/// implementation prints for the value with bit pattern `b`.
pub uninterp spec fn fmt_f64_bits(b: u64) -> Seq<char>;

/// Relies on `rustc_apfloat::ieee::Double::from_str`: whether the text
/// parses, and the value it parses to, depend on the characters alone.
#[verifier::external_body]
pub fn parse_f64_bits(s: &str) -> (r: Option<u64>)
    ensures
        r == parsed_f64_bits(s@),
{
    match s.parse::<rustc_apfloat::ieee::Double>() {
        Ok(v) => Some(v.to_bits() as u64),
        Err(_) => None,
    }
}

/// Relies on `rustc_apfloat::ieee::Double`'s `Display` implementation:
/// it prints a nonempty, whitespace-free decimal text that depends on
/// the value alone, with enough digits that parsing the text yields the
/// value back exactly (bit for bit, except for NaN patterns).
#[verifier::external_body]
pub fn format_f64_bits(b: u64) -> (r: String)
    ensures
        r@ == fmt_f64_bits(b),
        r@.len() > 0,
        forall|i: int| 0 <= i < r@.len() ==> !is_ws(#[trigger] r@[i]),
        !is_nan_bits(b) ==> parsed_f64_bits(r@) == Some(b),
{
    format!("{}", rustc_apfloat::ieee::Double::from_bits(b as u128))
}

/// Trimming a whitespace-free text with one leading space yields the
/// text itself.
pub proof fn lemma_trim_padded(s: Seq<char>)
    requires
        s.len() > 0,
        forall|i: int| 0 <= i < s.len() ==> !is_ws(#[trigger] s[i]),
    ensures
        trim_spec(seq![' '].add(s)) == s,
{
    let padded = seq![' '].add(s);
    assert(is_ws(padded[0]));
    assert(padded.drop_first() =~= s);
    assert(trim_start_spec(padded) == trim_start_spec(s));
    assert(!is_ws(s[0]));
    assert(!is_ws(s.last()));
}

/// `s` with leading and trailing whitespace removed; the executable
/// counterpart of `trim_spec`.
pub fn trim_line(s: &str) -> (r: &str)
    ensures
        r@ == trim_spec(s@),
{
    let n = s.unicode_len();
    proof {
        assert(s@.subrange(0, n as int) =~= s@);
    }
    let mut i: usize = 0;
    while i < n && is_ws_char(s.get_char(i))
        invariant
            0 <= i <= n,
            n == s@.len(),
            trim_start_spec(s@) == trim_start_spec(s@.subrange(i as int, n as int)),
        decreases n - i,
    {
        proof {
            let cur = s@.subrange(i as int, n as int);
            assert(cur[0] == s@[i as int]);
            assert(cur.drop_first() =~= s@.subrange(i as int + 1, n as int));
        }
        i = i + 1;
    }
    proof {
        let cur = s@.subrange(i as int, n as int);
        if i < n {
            assert(cur[0] == s@[i as int]);
        }
        assert(trim_start_spec(cur) == cur);
    }
    let mut j: usize = n;
    while j > i && is_ws_char(s.get_char(j - 1))
        invariant
            i <= j <= n,
            n == s@.len(),
            trim_start_spec(s@) == s@.subrange(i as int, n as int),
            i < n ==> !is_ws(s@[i as int]),
            i == n ==> j == i,
            trim_end_spec(s@.subrange(i as int, n as int)) == trim_end_spec(
                s@.subrange(i as int, j as int),
            ),
        decreases j,
    {
        proof {
            let cur = s@.subrange(i as int, j as int);
            assert(cur.last() == s@[j - 1int]);
            assert(cur.drop_last() =~= s@.subrange(i as int, j as int - 1));
        }
        j = j - 1;
    }
    proof {
        let cur = s@.subrange(i as int, j as int);
        if j > i {
            assert(cur.last() == s@[j - 1int]);
        }
        assert(trim_end_spec(cur) == cur);
    }
    s.substring_char(i, j)
}

/// Executable test for `is_ws`.
pub fn is_ws_char(c: char) -> (r: bool)
    ensures
        r == is_ws(c),
{
    c == ' ' || c == '\t' || c == '\r' || c == '\n'
}

} // verus!
