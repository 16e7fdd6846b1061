//! Exact decimal rendering of scaled quantities.
//!
//! A metric is held as an integer count of a small base unit (hertz,
//! thousandths of a degree Celsius, bytes) and displayed in a larger unit
//! (megahertz, degrees Celsius, mebibytes).  The quotient is rendered
//! exactly — scaling only, no rounding: the integer part in full, then a
//! decimal point and the fractional digits with trailing zeros trimmed, and
//! no point at all when the fraction is zero.

use vstd::prelude::*;

use crate::sensor::Temperature;

verus! {

/// The character for the decimal digit `d` (0 through 9).
pub open spec fn digit_char(d: nat) -> char {
    if d == 0 {
        '0'
    } else if d == 1 {
        '1'
    } else if d == 2 {
        '2'
    } else if d == 3 {
        '3'
    } else if d == 4 {
        '4'
    } else if d == 5 {
        '5'
    } else if d == 6 {
        '6'
    } else if d == 7 {
        '7'
    } else if d == 8 {
        '8'
    } else {
        '9'
    }
}

/// The decimal digits of `n`, most significant first, with no leading zeros
/// (`"0"` for zero).
pub open spec fn dec_str(n: nat) -> Seq<char>
    decreases n,
{
    if n < 10 {
        seq![digit_char(n)]
    } else {
        dec_str(n / 10) + seq![digit_char(n % 10)]
    }
}

/// Ten to the power `width`.
pub open spec fn pow10(width: nat) -> nat
    decreases width,
{
    if width == 0 {
        1
    } else {
        10 * pow10((width - 1) as nat)
    }
}

/// Exactly `width` decimal digits of `n`, zero-padded at the left
/// (meaningful for `n < 10^width`).
pub open spec fn pad_str(n: nat, width: nat) -> Seq<char>
    decreases width,
{
    if width == 0 {
        Seq::<char>::empty()
    } else {
        pad_str(n / 10, (width - 1) as nat) + seq![digit_char(n % 10)]
    }
}

/// The rendered fractional part of the quantity `n / 10^width`: a decimal
/// point followed by the digits of `n` zero-padded to `width`, with trailing
/// zeros trimmed; empty when the fraction is zero.
pub open spec fn frac_str(n: nat, width: nat) -> Seq<char>
    decreases width,
{
    if n == 0 || width == 0 {
        Seq::<char>::empty()
    } else if n % 10 == 0 {
        frac_str(n / 10, (width - 1) as nat)
    } else {
        seq!['.'] + pad_str(n, width)
    }
}

/// The exact decimal rendering of the quantity `n / 10^width`.
pub open spec fn scaled_str(n: nat, width: nat) -> Seq<char> {
    dec_str(n / pow10(width)) + frac_str(n % pow10(width), width)
}

/// The exact decimal rendering of a temperature in degrees Celsius; the
/// reading is held in thousandths of a degree, so the displayed quantity is
/// its value over 10^3, signed.
pub open spec fn temp_str(millidegrees: int) -> Seq<char> {
    if millidegrees < 0 {
        seq!['-'] + scaled_str((-millidegrees) as nat, 3)
    } else {
        scaled_str(millidegrees as nat, 3)
    }
}

/// The exact decimal rendering of a byte count in mebibytes, with
/// 1 MiB = 1,048,576 bytes: the integer part is `bytes / 1,048,576`, and the
/// remainder over 2^20 is rendered exactly as the 20-digit decimal fraction
/// `remainder * 5^20` over 10^20 (5^20 = 95,367,431,640,625).
pub open spec fn mem_str(bytes: nat) -> Seq<char> {
    dec_str(bytes / 1048576) + frac_str((bytes % 1048576) * 95367431640625, 20)
}

/// Append the single decimal digit `d`.
fn append_digit(s: &mut String, d: u8)
    requires
        d < 10,
    ensures
        final(s)@ == old(s)@ + seq![digit_char(d as nat)],
{
    proof {
        reveal_strlit("0");
        reveal_strlit("1");
        reveal_strlit("2");
        reveal_strlit("3");
        reveal_strlit("4");
        reveal_strlit("5");
        reveal_strlit("6");
        reveal_strlit("7");
        reveal_strlit("8");
        reveal_strlit("9");
    }
    if d == 0 {
        s.append("0");
        proof {
            assert("0"@ =~= seq![digit_char(0)]);
        }
    } else if d == 1 {
        s.append("1");
        proof {
            assert("1"@ =~= seq![digit_char(1)]);
        }
    } else if d == 2 {
        s.append("2");
        proof {
            assert("2"@ =~= seq![digit_char(2)]);
        }
    } else if d == 3 {
        s.append("3");
        proof {
            assert("3"@ =~= seq![digit_char(3)]);
        }
    } else if d == 4 {
        s.append("4");
        proof {
            assert("4"@ =~= seq![digit_char(4)]);
        }
    } else if d == 5 {
        s.append("5");
        proof {
            assert("5"@ =~= seq![digit_char(5)]);
        }
    } else if d == 6 {
        s.append("6");
        proof {
            assert("6"@ =~= seq![digit_char(6)]);
        }
    } else if d == 7 {
        s.append("7");
        proof {
            assert("7"@ =~= seq![digit_char(7)]);
        }
    } else if d == 8 {
        s.append("8");
        proof {
            assert("8"@ =~= seq![digit_char(8)]);
        }
    } else {
        s.append("9");
        proof {
            assert("9"@ =~= seq![digit_char(9)]);
        }
    }
}

/// Append the decimal digits of `n`, most significant first.
fn append_dec(s: &mut String, n: u128)
    ensures
        final(s)@ == old(s)@ + dec_str(n as nat),
    decreases n,
{
    if n < 10 {
        append_digit(s, n as u8);
    } else {
        append_dec(s, n / 10);
        append_digit(s, (n % 10) as u8);
        proof {
            assert(old(s)@ + dec_str((n / 10) as nat) + seq![digit_char((n % 10) as nat)] =~= old(
                s,
            )@ + dec_str(n as nat));
        }
    }
}

/// Append exactly `width` decimal digits of `n`, zero-padded at the left.
fn append_pad(s: &mut String, n: u128, width: u32)
    requires
        n < pow10(width as nat),
    ensures
        final(s)@ == old(s)@ + pad_str(n as nat, width as nat),
    decreases width,
{
    if width == 0 {
        proof {
            assert(old(s)@ + pad_str(n as nat, 0) =~= old(s)@);
        }
    } else {
        proof {
            assert(((n / 10) as nat) < pow10((width - 1) as nat));
        }
        append_pad(s, n / 10, width - 1);
        append_digit(s, (n % 10) as u8);
        proof {
            assert(old(s)@ + pad_str((n / 10) as nat, (width - 1) as nat) + seq![
                digit_char((n % 10) as nat),
            ] =~= old(s)@ + pad_str(n as nat, width as nat));
        }
    }
}

/// Append the rendered fraction `n / 10^width`: nothing when `n` is zero,
/// else a decimal point and the padded digits with trailing zeros trimmed.
fn append_frac(s: &mut String, n: u128, width: u32)
    requires
        n < pow10(width as nat),
    ensures
        final(s)@ == old(s)@ + frac_str(n as nat, width as nat),
    decreases width,
{
    if n == 0 {
        proof {
            assert(old(s)@ + frac_str(0, width as nat) =~= old(s)@);
        }
    } else {
        assert(width > 0);
        if n % 10 == 0 {
            proof {
                assert(((n / 10) as nat) < pow10((width - 1) as nat));
            }
            append_frac(s, n / 10, width - 1);
        } else {
            s.append(".");
            append_pad(s, n, width);
            proof {
                reveal_strlit(".");
                assert("."@ =~= seq!['.']);
                assert(old(s)@ + "."@ + pad_str(n as nat, width as nat) =~= old(s)@ + frac_str(
                    n as nat,
                    width as nat,
                ));
            }
        }
    }
}

/// Append the exact decimal rendering of `n / 10^width`; `divisor` is the
/// value of `10^width`.
pub(crate) fn append_scaled(s: &mut String, n: u128, divisor: u128, width: u32)
    requires
        divisor == pow10(width as nat),
    ensures
        final(s)@ == old(s)@ + scaled_str(n as nat, width as nat),
{
    proof {
        lemma_pow10_positive(width as nat);
    }
    append_dec(s, n / divisor);
    append_frac(s, n % divisor, width);
    proof {
        assert(old(s)@ + dec_str((n / divisor) as nat) + frac_str(
            (n % divisor) as nat,
            width as nat,
        ) =~= old(s)@ + scaled_str(n as nat, width as nat));
    }
}

/// Ten to any power is positive.
proof fn lemma_pow10_positive(width: nat)
    ensures
        pow10(width) > 0,
    decreases width,
{
    if width > 0 {
        lemma_pow10_positive((width - 1) as nat);
    }
}

/// Append the exact decimal rendering of a temperature, in degrees Celsius.
pub(crate) fn append_temp(s: &mut String, t: Temperature)
    ensures
        final(s)@ == old(s)@ + temp_str(t.millidegrees as int),
{
    let m = t.millidegrees;
    proof {
        reveal_with_fuel(pow10, 4);
    }
    if m < 0 {
        s.append("-");
        let magnitude: u128 = (-(m as i128)) as u128;
        append_scaled(s, magnitude, 1000, 3);
        proof {
            reveal_strlit("-");
            assert("-"@ =~= seq!['-']);
            assert(old(s)@ + "-"@ + scaled_str(magnitude as nat, 3) =~= old(s)@ + temp_str(
                m as int,
            ));
        }
    } else {
        append_scaled(s, m as u128, 1000, 3);
    }
}

/// Append the exact decimal rendering of a byte count, in mebibytes
/// (1 MiB = 1,048,576 bytes).
pub(crate) fn append_mem(s: &mut String, bytes: u64)
    ensures
        final(s)@ == old(s)@ + mem_str(bytes as nat),
{
    let whole: u64 = bytes / 1048576;
    let remainder: u64 = bytes % 1048576;
    let numerator: u128 = (remainder as u128) * 95367431640625;
    proof {
        reveal_with_fuel(pow10, 21);
        assert(pow10(20) == 100000000000000000000);
        assert(numerator < 100000000000000000000) by (nonlinear_arith)
            requires
                numerator == (remainder as u128) * 95367431640625,
                remainder < 1048576,
        ;
        assert(numerator < pow10(20));
    }
    append_dec(s, whole as u128);
    append_frac(s, numerator, 20);
    proof {
        assert(old(s)@ + dec_str(whole as nat) + frac_str(numerator as nat, 20) =~= old(s)@
            + mem_str(bytes as nat));
    }
}

} // verus!
