//! Verified text of the chrome labels: the live comment counter and the
//! two plugin diagnostics.

use vstd::prelude::*;
use vstd::string::StringExecFns;

verus! {

/// The decimal digit character for `d`.
pub open spec fn digit_char(d: int) -> char
    recommends
        0 <= d <= 9,
{
    if d == 0 {
        '0'
    } else if d == 1 {
        '1'
    } else if d == 2 {
        '2'
    } else if d == 3 {
        '3'
    } else if d == 4 {
        '4'
    } else if d == 5 {
        '5'
    } else if d == 6 {
        '6'
    } else if d == 7 {
        '7'
    } else if d == 8 {
        '8'
    } else {
        '9'
    }
}

/// Decimal digits of `n`, most significant first, no leading zeros
/// except for zero itself.
pub open spec fn dec_digits(n: int) -> Seq<char>
    recommends
        0 <= n,
    decreases n,
{
    if n < 10 {
        seq![digit_char(n)]
    } else {
        dec_digits(n / 10).push(digit_char(n % 10))
    }
}

/// The text of the live comment counter.
pub open spec fn spec_comments_label(n: int) -> Seq<char> {
    dec_digits(n) + " comments"@
}

/// The text of the plugin version diagnostic.
pub open spec fn spec_version_label(v: int) -> Seq<char> {
    "DLL ver: "@ + dec_digits(v)
}

/// The text of the probe countdown diagnostic.
pub open spec fn spec_ticks_label(t: int) -> Seq<char> {
    "ticks: "@ + dec_digits(t)
}

/// The one-character string for a digit.
fn digit_str(d: u64) -> (s: &'static str)
    requires
        d <= 9,
    ensures
        s@ == seq![digit_char(d as int)],
{
    let s: &'static str = if d == 0 {
        "0"
    } else if d == 1 {
        "1"
    } else if d == 2 {
        "2"
    } else if d == 3 {
        "3"
    } else if d == 4 {
        "4"
    } else if d == 5 {
        "5"
    } else if d == 6 {
        "6"
    } else if d == 7 {
        "7"
    } else if d == 8 {
        "8"
    } else {
        "9"
    };
    proof {
        reveal_strlit("0");
        reveal_strlit("1");
        reveal_strlit("2");
        reveal_strlit("3");
        reveal_strlit("4");
        reveal_strlit("5");
        reveal_strlit("6");
        reveal_strlit("7");
        reveal_strlit("8");
        reveal_strlit("9");
        assert(s@ =~= seq![digit_char(d as int)]);
    }
    s
}

/// Decimal rendering of a 64-bit count.
pub fn u64_to_decimal(n: u64) -> (s: String)
    ensures
        s@ == dec_digits(n as int),
    decreases n,
{
    if n < 10 {
        String::from_str(digit_str(n))
    } else {
        let mut s = u64_to_decimal(n / 10);
        s.append(digit_str(n % 10));
        proof {
            assert(s@ =~= dec_digits((n / 10) as int).push(digit_char((n % 10) as int)));
        }
        s
    }
}

/// The live counter text, `"<n> comments"`.
pub fn comments_label(n: u64) -> (s: String)
    ensures
        s@ == spec_comments_label(n as int),
{
    let mut s = u64_to_decimal(n);
    s.append(" comments");
    s
}

/// The plugin version diagnostic text.
pub fn version_label(v: u64) -> (s: String)
    ensures
        s@ == spec_version_label(v as int),
{
    let digits = u64_to_decimal(v);
    let mut s = String::from_str("DLL ver: ");
    s.append(digits.as_str());
    s
}

/// The probe countdown diagnostic text.
pub fn ticks_label(t: u64) -> (s: String)
    ensures
        s@ == spec_ticks_label(t as int),
{
    let digits = u64_to_decimal(t);
    let mut s = String::from_str("ticks: ");
    s.append(digits.as_str());
    s
}

} // verus!
