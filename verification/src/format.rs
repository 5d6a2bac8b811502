//! Deterministic text rendering of byte counts and rates on the
//! binary-unit ladder (1024-based steps), with two fractional digits
//! relative to the chosen unit.  Pure functions of their numeric
//! input: no locale, no time dependence.

use vstd::prelude::*;
use vstd::string::StringExecFns;

verus! {

/// The character for one decimal digit.
pub open spec fn spec_digit_char(d: int) -> char
    recommends
        0 <= d < 10,
{
    if d == 0 {
        '0'
    } else if d == 1 {
        '1'
    } else if d == 2 {
        '2'
    } else if d == 3 {
        '3'
    } else if d == 4 {
        '4'
    } else if d == 5 {
        '5'
    } else if d == 6 {
        '6'
    } else if d == 7 {
        '7'
    } else if d == 8 {
        '8'
    } else {
        '9'
    }
}

/// The decimal digits of a non-negative number, most significant
/// first.
pub open spec fn spec_decimal(n: int) -> Seq<char>
    recommends
        n >= 0,
    decreases n,
{
    if n < 10 {
        seq![spec_digit_char(n)]
    } else {
        spec_decimal(n / 10) + seq![spec_digit_char(n % 10)]
    }
}

/// The magnitude tier of a value on the binary-unit ladder:
/// 0 bytes, 1 KiB, 2 MiB, 3 GiB, 4 TiB.
pub open spec fn spec_tier(v: u64) -> int {
    if v >= 1099511627776 {
        4
    } else if v >= 1073741824 {
        3
    } else if v >= 1048576 {
        2
    } else if v >= 1024 {
        1
    } else {
        0
    }
}

/// The divisor of a tier: 1024 to the tier's power.
pub open spec fn spec_unit_divisor(t: int) -> int {
    if t <= 0 {
        1
    } else if t == 1 {
        1024
    } else if t == 2 {
        1048576
    } else if t == 3 {
        1073741824
    } else {
        1099511627776
    }
}

/// The unit suffix of a tier.
pub open spec fn spec_suffix(t: int) -> Seq<char> {
    if t <= 0 {
        seq!['B']
    } else if t == 1 {
        seq!['K', 'i', 'B']
    } else if t == 2 {
        seq!['M', 'i', 'B']
    } else if t == 3 {
        seq!['G', 'i', 'B']
    } else {
        seq!['T', 'i', 'B']
    }
}

/// The value scaled to hundredths of its tier's unit, rounded down.
pub open spec fn spec_hundredths(v: u64) -> int {
    v * 100 / spec_unit_divisor(spec_tier(v))
}

/// A quantity on the binary-unit ladder: the whole part, a dot, two
/// fractional digits, a space and the unit suffix.
pub open spec fn spec_format_quantity(v: u64) -> Seq<char> {
    let h = spec_hundredths(v);
    spec_decimal(h / 100) + seq!['.', spec_digit_char(h / 10 % 10), spec_digit_char(h % 10), ' ']
        + spec_suffix(spec_tier(v))
}

/// A cumulative byte count, e.g. a running total.
pub open spec fn spec_format_bytes(v: u64) -> Seq<char> {
    spec_format_quantity(v)
}

/// A rate in bytes/second: the same ladder with a `/s` tail.
pub open spec fn spec_format_speed(v: u64) -> Seq<char> {
    spec_format_quantity(v) + seq!['/', 's']
}

/// One decimal digit as a string slice.
fn digit_str(d: u64) -> (r: &'static str)
    requires
        d < 10,
    ensures
        r@ == seq![spec_digit_char(d as int)],
{
    proof {
        reveal_strlit("0");
        reveal_strlit("1");
        reveal_strlit("2");
        reveal_strlit("3");
        reveal_strlit("4");
        reveal_strlit("5");
        reveal_strlit("6");
        reveal_strlit("7");
        reveal_strlit("8");
        reveal_strlit("9");
    }
    if d == 0 {
        "0"
    } else if d == 1 {
        "1"
    } else if d == 2 {
        "2"
    } else if d == 3 {
        "3"
    } else if d == 4 {
        "4"
    } else if d == 5 {
        "5"
    } else if d == 6 {
        "6"
    } else if d == 7 {
        "7"
    } else if d == 8 {
        "8"
    } else {
        "9"
    }
}

/// A non-negative number in decimal.
pub fn format_u64(n: u64) -> (r: String)
    ensures
        r@ == spec_decimal(n as int),
    decreases n,
{
    if n < 10 {
        String::from_str(digit_str(n))
    } else {
        proof {
            assert(n / 10 < n) by (nonlinear_arith)
                requires
                    n >= 10,
            ;
        }
        let mut s = format_u64(n / 10);
        s.append(digit_str(n % 10));
        s
    }
}

/// A byte count with binary-unit suffix and two fractional digits.
pub fn format_bytes(v: u64) -> (r: String)
    ensures
        r@ == spec_format_bytes(v),
{
    let (divisor, suffix): (u64, &'static str) = if v >= 1099511627776 {
        proof {
            reveal_strlit("TiB");
        }
        (1099511627776, "TiB")
    } else if v >= 1073741824 {
        proof {
            reveal_strlit("GiB");
        }
        (1073741824, "GiB")
    } else if v >= 1048576 {
        proof {
            reveal_strlit("MiB");
        }
        (1048576, "MiB")
    } else if v >= 1024 {
        proof {
            reveal_strlit("KiB");
        }
        (1024, "KiB")
    } else {
        proof {
            reveal_strlit("B");
        }
        (1, "B")
    };
    proof {
        assert(suffix@ == spec_suffix(spec_tier(v)));
        vstd::arithmetic::div_mod::lemma_div_pos_is_pos(v as int * 100, divisor as int);
        vstd::arithmetic::div_mod::lemma_multiply_divide_lt(
            v as int * 100,
            divisor as int,
            0x10000000000000000,
        );
        assert(v as int * 100 < divisor as int * 0x10000000000000000) by (nonlinear_arith)
            requires
                (divisor == 1 && v < 1024) || (divisor >= 1024 && v <= u64::MAX),
        ;
    }
    let h128: u128 = (v as u128) * 100 / (divisor as u128);
    let h: u64 = h128 as u64;
    let mut s = format_u64(h / 100);
    proof {
        reveal_strlit(".");
        reveal_strlit(" ");
    }
    s.append(".");
    s.append(digit_str(h / 10 % 10));
    s.append(digit_str(h % 10));
    s.append(" ");
    s.append(suffix);
    proof {
        assert(h as int == spec_hundredths(v));
        assert(s@ =~= spec_format_quantity(v));
    }
    s
}

/// A rate in bytes/second with binary-unit suffix.
pub fn format_speed(v: u64) -> (r: String)
    ensures
        r@ == spec_format_speed(v),
{
    let mut s = format_bytes(v);
    proof {
        reveal_strlit("/s");
    }
    s.append("/s");
    proof {
        assert(s@ =~= spec_format_speed(v));
    }
    s
}

} // verus!
