//! Formatting the remaining whole seconds as a clock string: `MM:SS` while
//! the hours component is zero, `HH:MM:SS` once an hour or more remains,
//! every field zero-padded to at least two digits.

use vstd::prelude::*;

verus! {

/// The decimal digit character for a value below ten.
pub open spec fn spec_digit_char(d: nat) -> char
    recommends
        d < 10,
{
    if d == 0 {
        '0'
    } else if d == 1 {
        '1'
    } else if d == 2 {
        '2'
    } else if d == 3 {
        '3'
    } else if d == 4 {
        '4'
    } else if d == 5 {
        '5'
    } else if d == 6 {
        '6'
    } else if d == 7 {
        '7'
    } else if d == 8 {
        '8'
    } else {
        '9'
    }
}

/// The decimal digit characters of `n`, most significant first, with no
/// leading zeros; `0` is written as the single digit `0`.
pub open spec fn spec_dec(n: nat) -> Seq<char>
    decreases n,
{
    if n < 10 {
        seq![spec_digit_char(n)]
    } else {
        spec_dec(n / 10).push(spec_digit_char(n % 10))
    }
}

/// `n` in decimal, zero-padded on the left to at least two digits.
pub open spec fn spec_pad2(n: nat) -> Seq<char> {
    if n < 10 {
        seq!['0'] + spec_dec(n)
    } else {
        spec_dec(n)
    }
}

/// The clock string for `n` remaining seconds: `MM:SS` when the hours
/// component is zero, else `HH:MM:SS`, each field zero-padded to two digits.
pub open spec fn spec_fmt(n: nat) -> Seq<char> {
    let hours = n / 3600;
    let minutes = (n % 3600) / 60;
    let seconds = n % 60;
    if hours == 0 {
        spec_pad2(minutes) + seq![':'] + spec_pad2(seconds)
    } else {
        spec_pad2(hours) + seq![':'] + spec_pad2(minutes) + seq![':'] + spec_pad2(seconds)
    }
}

/// The one-character string for a decimal digit value.
fn digit_str(d: u64) -> (r: &'static str)
    requires
        d < 10,
    ensures
        r@ == seq![spec_digit_char(d as nat)],
{
    if d == 0 {
        proof {
            reveal_strlit("0");
            assert("0"@ =~= seq![spec_digit_char(0)]);
        }
        "0"
    } else if d == 1 {
        proof {
            reveal_strlit("1");
            assert("1"@ =~= seq![spec_digit_char(1)]);
        }
        "1"
    } else if d == 2 {
        proof {
            reveal_strlit("2");
            assert("2"@ =~= seq![spec_digit_char(2)]);
        }
        "2"
    } else if d == 3 {
        proof {
            reveal_strlit("3");
            assert("3"@ =~= seq![spec_digit_char(3)]);
        }
        "3"
    } else if d == 4 {
        proof {
            reveal_strlit("4");
            assert("4"@ =~= seq![spec_digit_char(4)]);
        }
        "4"
    } else if d == 5 {
        proof {
            reveal_strlit("5");
            assert("5"@ =~= seq![spec_digit_char(5)]);
        }
        "5"
    } else if d == 6 {
        proof {
            reveal_strlit("6");
            assert("6"@ =~= seq![spec_digit_char(6)]);
        }
        "6"
    } else if d == 7 {
        proof {
            reveal_strlit("7");
            assert("7"@ =~= seq![spec_digit_char(7)]);
        }
        "7"
    } else if d == 8 {
        proof {
            reveal_strlit("8");
            assert("8"@ =~= seq![spec_digit_char(8)]);
        }
        "8"
    } else {
        proof {
            reveal_strlit("9");
            assert("9"@ =~= seq![spec_digit_char(9)]);
        }
        "9"
    }
}

/// Append the decimal digits of `n` to `out`.
fn append_dec(out: &mut String, n: u64)
    ensures
        final(out)@ == old(out)@ + spec_dec(n as nat),
    decreases n,
{
    if n < 10 {
        out.append(digit_str(n));
    } else {
        append_dec(out, n / 10);
        out.append(digit_str(n % 10));
        proof {
            assert(old(out)@ + spec_dec((n / 10) as nat) + seq![spec_digit_char((n % 10) as nat)]
                =~= old(out)@ + spec_dec(n as nat));
        }
    }
}

/// Append `n` zero-padded to at least two decimal digits.
fn append_pad2(out: &mut String, n: u64)
    ensures
        final(out)@ == old(out)@ + spec_pad2(n as nat),
{
    if n < 10 {
        proof {
            reveal_strlit("0");
            assert("0"@ =~= seq!['0']);
        }
        out.append("0");
        append_dec(out, n);
        proof {
            assert(old(out)@ + seq!['0'] + spec_dec(n as nat)
                =~= old(out)@ + spec_pad2(n as nat));
        }
    } else {
        append_dec(out, n);
    }
}

/// Format the remaining whole seconds as the clock string `spec_fmt` gives:
/// a pure function of its argument alone.
pub fn remain_to_fmt(remain: u64) -> (r: String)
    ensures
        r@ == spec_fmt(remain as nat),
{
    let hours: u64 = remain / 3600;
    let minutes: u64 = (remain % 3600) / 60;
    let seconds: u64 = remain % 60;
    let mut out = String::new();
    proof {
        reveal_strlit(":");
        assert(":"@ =~= seq![':']);
    }
    if hours == 0 {
        append_pad2(&mut out, minutes);
        out.append(":");
        append_pad2(&mut out, seconds);
    } else {
        append_pad2(&mut out, hours);
        out.append(":");
        append_pad2(&mut out, minutes);
        out.append(":");
        append_pad2(&mut out, seconds);
    }
    proof {
        assert(out@ =~= spec_fmt(remain as nat));
    }
    out
}

} // verus!
