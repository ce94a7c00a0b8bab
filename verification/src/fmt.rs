//! Decimal rendering of micro-unit values for the serializers.
//!
//! A coordinate prints with exactly two fraction digits, after rounding the
//! micro-unit value to centi-units with the crate's rounding rule; rendering
//! is deterministic by construction, which the library merge relies on.

use vstd::prelude::*;
use vstd::arithmetic::div_mod::lemma_fundamental_div_mod_converse;
use vstd::arithmetic::div_mod::lemma_div_is_ordered;
use crate::num::spec_round_div;
use crate::num::round_div_i128;

verus! {

/// Bound on what the formatter accepts: four times the coordinate range, room
/// for any sum a transform can produce.
pub const FMT_MAX: i64 = 4_000_000_000_000_000;

/// The decimal digit characters.
pub open spec fn digit_char(d: int) -> char {
    if d == 0 {
        '0'
    } else if d == 1 {
        '1'
    } else if d == 2 {
        '2'
    } else if d == 3 {
        '3'
    } else if d == 4 {
        '4'
    } else if d == 5 {
        '5'
    } else if d == 6 {
        '6'
    } else if d == 7 {
        '7'
    } else if d == 8 {
        '8'
    } else {
        '9'
    }
}

/// The decimal digit string of `n`, most significant first.
pub open spec fn spec_digits(n: int) -> Seq<char>
    decreases n,
{
    if n < 10 {
        seq![digit_char(n)]
    } else {
        spec_digits(n / 10).push(digit_char(n % 10))
    }
}

/// One digit as a string slice.
fn digit_str(d: u64) -> (r: &'static str)
    requires
        d < 10,
    ensures
        r@ =~= seq![digit_char(d as int)],
{
    proof {
        reveal_strlit("0");
        reveal_strlit("1");
        reveal_strlit("2");
        reveal_strlit("3");
        reveal_strlit("4");
        reveal_strlit("5");
        reveal_strlit("6");
        reveal_strlit("7");
        reveal_strlit("8");
        reveal_strlit("9");
    }
    if d == 0 {
        "0"
    } else if d == 1 {
        "1"
    } else if d == 2 {
        "2"
    } else if d == 3 {
        "3"
    } else if d == 4 {
        "4"
    } else if d == 5 {
        "5"
    } else if d == 6 {
        "6"
    } else if d == 7 {
        "7"
    } else if d == 8 {
        "8"
    } else {
        "9"
    }
}

/// Renders an unsigned value in decimal.
pub fn fmt_u64(n: u64) -> (r: String)
    ensures
        r@ == spec_digits(n as int),
    decreases n,
{
    if n < 10 {
        let s = digit_str(n);
        let r = s.to_owned();
        proof {
            assert(r@ == seq![digit_char(n as int)]);
        }
        r
    } else {
        proof {
            assert((n as int) / 10 < n as int) by (nonlinear_arith)
                requires
                    n as int >= 10,
            ;
        }
        let mut r = fmt_u64(n / 10);
        let d = n % 10;
        r.append(digit_str(d));
        proof {
            assert(spec_digits((n as int) / 10) + seq![digit_char((n as int) % 10)] =~= spec_digits(
                (n as int) / 10,
            ).push(digit_char((n as int) % 10)));
        }
        r
    }
}

/// What a micro-unit value prints as: an optional sign, the integral part,
/// a dot, and two fraction digits of the rounded centi-unit value.
pub open spec fn spec_fmt_micro(c: int) -> Seq<char> {
    let centi = spec_round_div(c, 10_000);
    let m = if centi < 0 {
        -centi
    } else {
        centi
    };
    let sign: Seq<char> = if centi < 0 {
        seq!['-']
    } else {
        Seq::empty()
    };
    sign + spec_digits(m / 100) + seq!['.'] + seq![digit_char((m % 100) / 10)] + seq![
        digit_char(m % 10),
    ]
}

/// Renders a micro-unit value with two fraction digits.
pub fn fmt_micro(c: i64) -> (r: String)
    requires
        -FMT_MAX <= c <= FMT_MAX,
    ensures
        r@ == spec_fmt_micro(c as int),
{
    let centi128: i128 = round_div_i128(c as i128, 10_000);
    proof {
        let top = FMT_MAX as int + 5_000;
        lemma_fundamental_div_mod_converse(top, 10_000, 400_000_000_000, 5_000);
        if c >= 0 {
            lemma_div_is_ordered(c as int + 5_000, top, 10_000);
            lemma_div_is_ordered(0, c as int + 5_000, 10_000);
            lemma_fundamental_div_mod_converse(0, 10_000, 0, 0);
        } else {
            lemma_div_is_ordered(-(c as int) + 5_000, top, 10_000);
            lemma_div_is_ordered(0, -(c as int) + 5_000, 10_000);
            lemma_fundamental_div_mod_converse(0, 10_000, 0, 0);
        }
    }
    let neg = centi128 < 0;
    let m: u64 = if neg {
        (-centi128) as u64
    } else {
        centi128 as u64
    };
    let mut r = String::new();
    if neg {
        proof {
            reveal_strlit("-");
        }
        r.append("-");
        proof {
            assert(r@ =~= seq!['-']);
        }
    }
    let ip = fmt_u64(m / 100);
    r.append(ip.as_str());
    proof {
        reveal_strlit(".");
    }
    r.append(".");
    let fr: u64 = m % 100;
    proof {
        assert(fr < 100);
    }
    r.append(digit_str(fr / 10));
    r.append(digit_str(fr % 10));
    proof {
        let centi = spec_round_div(c as int, 10_000);
        let mm = if centi < 0 {
            -centi
        } else {
            centi
        };
        assert(m as int == mm);
        assert((m % 100) as int % 10 == m as int % 10) by (nonlinear_arith);
        assert(r@ =~= spec_fmt_micro(c as int));
    }
    r
}

} // verus!
