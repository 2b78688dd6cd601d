//! Decimal rendering of integers, for the human-readable list output.

use vstd::prelude::*;
use vstd::string::StringExecFns;

verus! {

/// The character for the decimal digit `d`.
pub open spec fn digit_char(d: int) -> char {
    if d == 0 {
        '0'
    } else if d == 1 {
        '1'
    } else if d == 2 {
        '2'
    } else if d == 3 {
        '3'
    } else if d == 4 {
        '4'
    } else if d == 5 {
        '5'
    } else if d == 6 {
        '6'
    } else if d == 7 {
        '7'
    } else if d == 8 {
        '8'
    } else {
        '9'
    }
}

/// The decimal digits of `n`, most significant first, with no leading
/// zeroes except for `n` itself being zero.
pub open spec fn dec_nat(n: nat) -> Seq<char>
    decreases n,
{
    if n < 10 {
        seq![digit_char(n as int)]
    } else {
        dec_nat(n / 10) + seq![digit_char((n % 10) as int)]
    }
}

/// The decimal rendering of `v`: its digits, preceded by a minus sign when
/// `v` is negative.
pub open spec fn dec_int(v: int) -> Seq<char> {
    if v >= 0 {
        dec_nat(v as nat)
    } else {
        seq!['-'] + dec_nat((-v) as nat)
    }
}

/// The one-character string that holds the decimal digit `d`.
fn digit_str(d: u64) -> (r: &'static str)
    requires
        d < 10,
    ensures
        r@ == seq![digit_char(d as int)],
{
    if d == 0 {
        proof {
            reveal_strlit("0");
            assert("0"@ =~= seq![digit_char(0)]);
        }
        "0"
    } else if d == 1 {
        proof {
            reveal_strlit("1");
            assert("1"@ =~= seq![digit_char(1)]);
        }
        "1"
    } else if d == 2 {
        proof {
            reveal_strlit("2");
            assert("2"@ =~= seq![digit_char(2)]);
        }
        "2"
    } else if d == 3 {
        proof {
            reveal_strlit("3");
            assert("3"@ =~= seq![digit_char(3)]);
        }
        "3"
    } else if d == 4 {
        proof {
            reveal_strlit("4");
            assert("4"@ =~= seq![digit_char(4)]);
        }
        "4"
    } else if d == 5 {
        proof {
            reveal_strlit("5");
            assert("5"@ =~= seq![digit_char(5)]);
        }
        "5"
    } else if d == 6 {
        proof {
            reveal_strlit("6");
            assert("6"@ =~= seq![digit_char(6)]);
        }
        "6"
    } else if d == 7 {
        proof {
            reveal_strlit("7");
            assert("7"@ =~= seq![digit_char(7)]);
        }
        "7"
    } else if d == 8 {
        proof {
            reveal_strlit("8");
            assert("8"@ =~= seq![digit_char(8)]);
        }
        "8"
    } else {
        proof {
            reveal_strlit("9");
            assert("9"@ =~= seq![digit_char(9)]);
        }
        "9"
    }
}

/// Appends the decimal digits of `n` to `out`.
pub(crate) fn write_nat(n: u64, out: &mut String)
    ensures
        final(out)@ == old(out)@ + dec_nat(n as nat),
    decreases n,
{
    if n < 10 {
        out.append(digit_str(n));
        proof {
            assert(out@ =~= old(out)@ + dec_nat(n as nat));
        }
    } else {
        write_nat(n / 10, out);
        out.append(digit_str(n % 10));
        proof {
            assert((n / 10) as nat == (n as nat) / 10);
            assert((n % 10) as nat == (n as nat) % 10);
            assert(out@ =~= old(out)@ + dec_nat(n as nat));
        }
    }
}

/// Appends the decimal rendering of `v` to `out`.
pub(crate) fn write_int(v: i64, out: &mut String)
    ensures
        final(out)@ == old(out)@ + dec_int(v as int),
{
    if v >= 0 {
        write_nat(v as u64, out);
    } else {
        out.append("-");
        let m: u64 = (-(v as i128)) as u64;
        proof {
            reveal_strlit("-");
            assert("-"@ =~= seq!['-']);
            assert(m as nat == (-(v as int)) as nat);
        }
        write_nat(m, out);
        proof {
            assert(out@ =~= old(out)@ + dec_int(v as int));
        }
    }
}

} // verus!
