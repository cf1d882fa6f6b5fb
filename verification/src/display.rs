//! Rendering a number of seconds as an `MM:SS` string.
//!
//! The seconds field always has exactly two digits; the minutes field has at
//! least two digits and grows as wide as needed (`7425` seconds render as
//! `"123:45"`).

use vstd::prelude::*;
use vstd::string::StringExecFns;

verus! {

/// The decimal digit character for a single digit.
pub open spec fn digit_char(d: nat) -> char {
    if d == 0 {
        '0'
    } else if d == 1 {
        '1'
    } else if d == 2 {
        '2'
    } else if d == 3 {
        '3'
    } else if d == 4 {
        '4'
    } else if d == 5 {
        '5'
    } else if d == 6 {
        '6'
    } else if d == 7 {
        '7'
    } else if d == 8 {
        '8'
    } else {
        '9'
    }
}

/// The decimal digits of `n`, most significant first, with no leading zeros
/// (a single `'0'` for zero).
pub open spec fn spec_decimal(n: nat) -> Seq<char>
    decreases n,
{
    if n < 10 {
        seq![digit_char(n)]
    } else {
        spec_decimal(n / 10).push(digit_char(n % 10))
    }
}

/// The decimal digits of `n`, zero-padded on the left to at least two digits.
pub open spec fn spec_zero_padded(n: nat) -> Seq<char> {
    if n < 10 {
        seq!['0', digit_char(n)]
    } else {
        spec_decimal(n)
    }
}

/// `sec` whole seconds rendered as minutes and seconds, `MM:SS`.
pub open spec fn spec_mm_ss(sec: nat) -> Seq<char> {
    spec_zero_padded(sec / 60) + seq![':'] + spec_zero_padded(sec % 60)
}

/// A decimal rendering has at least one digit, and at least two once the
/// number reaches ten.
proof fn lemma_spec_decimal_len(n: nat)
    ensures
        spec_decimal(n).len() >= 1,
        n >= 10 ==> spec_decimal(n).len() >= 2,
    decreases n,
{
    if n >= 10 {
        lemma_spec_decimal_len(n / 10);
    }
}

/// Law: for every number of seconds, the rendered string is the zero-padded
/// minutes, a colon, and the seconds within the minute; the seconds field is
/// exactly the two digits of a value in `00..=59`, and the minutes field has
/// at least two digits and no fixed upper width.
pub proof fn lemma_mm_ss_shape(sec: nat)
    ensures
        spec_mm_ss(sec) == spec_zero_padded(sec / 60) + seq![':'] + spec_zero_padded(sec % 60),
        sec % 60 < 60,
        spec_zero_padded(sec % 60) == seq![
            digit_char((sec % 60) / 10),
            digit_char((sec % 60) % 10),
        ],
        spec_zero_padded(sec / 60).len() >= 2,
{
    let s = sec % 60;
    if s < 10 {
        assert(spec_zero_padded(s) =~= seq![digit_char(s / 10), digit_char(s % 10)]);
    } else {
        assert(spec_decimal(s) == spec_decimal(s / 10).push(digit_char(s % 10)));
        assert(spec_zero_padded(s) =~= seq![digit_char(s / 10), digit_char(s % 10)]);
    }
    if sec / 60 >= 10 {
        lemma_spec_decimal_len(sec / 60);
    }
}

fn digit_str(d: u64) -> (s: &'static str)
    requires
        d < 10,
    ensures
        s@ == seq![digit_char(d as nat)],
{
    let s: &'static str = if d == 0 {
        "0"
    } else if d == 1 {
        "1"
    } else if d == 2 {
        "2"
    } else if d == 3 {
        "3"
    } else if d == 4 {
        "4"
    } else if d == 5 {
        "5"
    } else if d == 6 {
        "6"
    } else if d == 7 {
        "7"
    } else if d == 8 {
        "8"
    } else {
        "9"
    };
    proof {
        reveal_strlit("0");
        reveal_strlit("1");
        reveal_strlit("2");
        reveal_strlit("3");
        reveal_strlit("4");
        reveal_strlit("5");
        reveal_strlit("6");
        reveal_strlit("7");
        reveal_strlit("8");
        reveal_strlit("9");
        assert(s@ =~= seq![digit_char(d as nat)]);
    }
    s
}

fn push_decimal(s: &mut String, n: u64)
    ensures
        final(s)@ == old(s)@ + spec_decimal(n as nat),
    decreases n,
{
    if n < 10 {
        s.append(digit_str(n));
        proof {
            assert(s@ =~= old(s)@ + spec_decimal(n as nat));
        }
    } else {
        push_decimal(s, n / 10);
        s.append(digit_str(n % 10));
        proof {
            assert(s@ =~= old(s)@ + spec_decimal(n as nat));
        }
    }
}

fn push_zero_padded(s: &mut String, n: u64)
    ensures
        final(s)@ == old(s)@ + spec_zero_padded(n as nat),
{
    if n < 10 {
        s.append("0");
        s.append(digit_str(n));
        proof {
            reveal_strlit("0");
            assert(s@ =~= old(s)@ + spec_zero_padded(n as nat));
        }
    } else {
        push_decimal(s, n);
    }
}

/// Render `sec` whole seconds as an `MM:SS` string.
pub fn format_mm_ss(sec: u64) -> (s: String)
    ensures
        s@ == spec_mm_ss(sec as nat),
{
    let mut s = String::new();
    push_zero_padded(&mut s, sec / 60);
    s.append(":");
    push_zero_padded(&mut s, sec % 60);
    proof {
        reveal_strlit(":");
        assert(s@ =~= spec_mm_ss(sec as nat));
    }
    s
}

} // verus!
