//! Decimal rendering of test identifiers, exit codes and counts for report
//! text.

use vstd::prelude::*;
use vstd::string::{StrSliceExecFns, StringExecFns};

verus! {

/// The decimal digit character for `d`.
pub open spec fn digit_char(d: int) -> char {
    if d == 0 {
        '0'
    } else if d == 1 {
        '1'
    } else if d == 2 {
        '2'
    } else if d == 3 {
        '3'
    } else if d == 4 {
        '4'
    } else if d == 5 {
        '5'
    } else if d == 6 {
        '6'
    } else if d == 7 {
        '7'
    } else if d == 8 {
        '8'
    } else {
        '9'
    }
}

/// The decimal digits of a non-negative number, most significant first.
pub open spec fn dec_digits(n: int) -> Seq<char>
    decreases n,
{
    if n < 10 {
        seq![digit_char(n)]
    } else {
        dec_digits(n / 10).push(digit_char(n % 10))
    }
}

/// A signed number in decimal, with a leading minus sign when negative.
pub open spec fn dec_int(n: int) -> Seq<char> {
    if n < 0 {
        seq!['-'] + dec_digits(-n)
    } else {
        dec_digits(n)
    }
}

/// `n` spaces (none when `n` is not positive).
pub open spec fn spaces(n: int) -> Seq<char> {
    Seq::new(
        if n >= 0 {
            n as nat
        } else {
            0
        },
        |i: int| ' ',
    )
}

/// The decimal digits of `n`, right-aligned to at least `w` characters.
pub open spec fn padded_dec(n: int, w: int) -> Seq<char> {
    spaces(w - dec_digits(n).len()) + dec_digits(n)
}

fn digit_str(d: u64) -> (s: &'static str)
    requires
        d < 10,
    ensures
        s@ == seq![digit_char(d as int)],
{
    let s: &'static str = if d == 0 {
        "0"
    } else if d == 1 {
        "1"
    } else if d == 2 {
        "2"
    } else if d == 3 {
        "3"
    } else if d == 4 {
        "4"
    } else if d == 5 {
        "5"
    } else if d == 6 {
        "6"
    } else if d == 7 {
        "7"
    } else if d == 8 {
        "8"
    } else {
        "9"
    };
    proof {
        reveal_strlit("0");
        reveal_strlit("1");
        reveal_strlit("2");
        reveal_strlit("3");
        reveal_strlit("4");
        reveal_strlit("5");
        reveal_strlit("6");
        reveal_strlit("7");
        reveal_strlit("8");
        reveal_strlit("9");
        assert(s@ =~= seq![digit_char(d as int)]);
    }
    s
}

/// Appends the decimal digits of `n`.
pub fn push_dec(n: u64, out: &mut String)
    ensures
        final(out)@ == old(out)@ + dec_digits(n as int),
    decreases n,
{
    if n >= 10 {
        push_dec(n / 10, out);
    }
    let s = digit_str(n % 10);
    out.append(s);
    proof {
        if n < 10 {
            assert(out@ =~= old(out)@ + dec_digits(n as int));
        } else {
            assert(dec_digits(n as int) == dec_digits(n as int / 10).push(
                digit_char(n as int % 10),
            ));
            assert(out@ =~= old(out)@ + dec_digits(n as int));
        }
    }
}

/// Renders `n` in decimal.
pub fn decimal_string(n: u64) -> (r: String)
    ensures
        r@ == dec_digits(n as int),
{
    let mut out = String::new();
    push_dec(n, &mut out);
    proof {
        assert(out@ =~= dec_digits(n as int));
    }
    out
}

/// Appends `n` in decimal, right-aligned to at least `width` characters.
#[verifier::loop_isolation(false)]
pub fn push_padded_dec(n: u64, width: usize, out: &mut String)
    ensures
        final(out)@ == old(out)@ + padded_dec(n as int, width as int),
{
    let mut digits = String::new();
    push_dec(n, &mut digits);
    let dl = digits.as_str().unicode_len();
    let pad_n: usize = if dl >= width {
        0
    } else {
        width - dl
    };
    proof {
        reveal_strlit(" ");
        assert(spaces(0) =~= Seq::<char>::empty());
        assert(out@ + spaces(0) =~= out@);
    }
    let ghost start = out@;
    let mut k: usize = 0;
    while k < pad_n
        invariant
            k <= pad_n,
            out@ == start + spaces(k as int),
        decreases pad_n - k,
    {
        out.append(" ");
        proof {
            assert(spaces(k + 1) =~= spaces(k as int).push(' '));
            assert(out@ =~= start + spaces(k + 1));
        }
        k = k + 1;
    }
    out.append(digits.as_str());
    proof {
        assert(spaces(pad_n as int) =~= spaces(width - dec_digits(n as int).len()));
        assert(out@ =~= start + padded_dec(n as int, width as int));
    }
}

/// Appends a possibly negative exit code in decimal.
pub fn push_dec_i32(c: i32, out: &mut String)
    ensures
        final(out)@ == old(out)@ + dec_int(c as int),
{
    if c < 0 {
        proof {
            reveal_strlit("-");
        }
        out.append("-");
        let m = (-(c as i64)) as u64;
        proof {
            assert(m as int == -(c as int));
        }
        push_dec(m, out);
        proof {
            assert(out@ =~= old(out)@ + dec_int(c as int));
        }
    } else {
        push_dec(c as u64, out);
    }
}

} // verus!
