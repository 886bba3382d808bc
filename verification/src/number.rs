//! The value of a decimal numeral as a fixed-point number.
//!
//! A numeral is a run of mantissa digits with a decimal point somewhere in
//! it and an optional power of ten. Its value in millionths is found the
//! way it is done on paper: move the decimal point six places (plus the
//! exponent) to the right, keep the digits in front of it, and add one if
//! the first digit behind it is five or more.

use vstd::prelude::*;
use crate::fixed::{saturate, Fixed};

verus! {

/// Whether `c` is one of `0` to `9`.
pub open spec fn is_digit(c: char) -> bool {
    '0' <= c && c <= '9'
}

/// The number that the digit `c` stands for.
pub open spec fn digit_of(c: char) -> nat {
    (c as int - '0' as int) as nat
}

/// Whether every element of `ds` is a digit.
pub open spec fn all_digits(ds: Seq<char>) -> bool {
    forall|i: int| 0 <= i < ds.len() ==> is_digit(#[trigger] ds[i])
}

/// The number that a run of digits denotes in base ten; the empty run
/// denotes zero.
pub open spec fn digits_value(ds: Seq<char>) -> nat
    decreases ds.len(),
{
    if ds.len() == 0 {
        0
    } else {
        digits_value(ds.drop_last()) * 10 + digit_of(ds.last())
    }
}

/// `count` zeros.
pub open spec fn zeros(count: nat) -> Seq<char> {
    Seq::new(count, |i: int| '0')
}

/// The digits of `ds * 10^shift` that stand in front of the decimal point.
pub open spec fn shifted(ds: Seq<char>, shift: int) -> Seq<char> {
    if shift >= 0 {
        ds + zeros(shift as nat)
    } else if ds.len() + shift >= 0 {
        ds.take(ds.len() + shift)
    } else {
        Seq::empty()
    }
}

/// Whether the first digit of `ds * 10^shift` behind the decimal point is
/// five or more.
pub open spec fn rounds_up(ds: Seq<char>, shift: int) -> bool {
    shift < 0 && ds.len() + shift >= 0 && digit_of(ds[ds.len() + shift]) >= 5
}

/// `ds * 10^shift` rounded to the nearest whole number, a tie going up.
pub open spec fn scaled_value(ds: Seq<char>, shift: int) -> nat {
    digits_value(shifted(ds, shift)) + if rounds_up(ds, shift) {
        1nat
    } else {
        0nat
    }
}

/// The parts of a numeral: the mantissa digits with the decimal point taken
/// out, how many of them stood behind the point, and the exponent.
pub struct Numeral {
    pub negative: bool,
    pub digits: Seq<char>,
    pub fraction_len: nat,
    pub exponent_negative: bool,
    pub exponent_digits: Seq<char>,
}

impl Numeral {
    /// The power of ten that takes the mantissa digits, read as a whole
    /// number, to the numeral's value in millionths.
    pub open spec fn shift(self) -> int {
        let e = digits_value(self.exponent_digits) as int;
        (if self.exponent_negative {
            -e
        } else {
            e
        }) - self.fraction_len + 6
    }

    /// The numeral's value in millionths, rounded to the nearest whole
    /// number (a tie going away from zero) and clamped to `i64`.
    pub open spec fn micros(self) -> int {
        let m = scaled_value(self.digits, self.shift()) as int;
        saturate(
            if self.negative {
                -m
            } else {
                m
            },
        )
    }
}

/// Ten to the power `k`.
pub open spec fn pow10(k: nat) -> nat
    decreases k,
{
    if k == 0 {
        1
    } else {
        10 * pow10((k - 1) as nat)
    }
}

/// The smaller of two numbers.
pub open spec fn at_most(v: int, cap: int) -> int {
    if v < cap {
        v
    } else {
        cap
    }
}

/// Above this a magnitude is clamped whatever its sign: ten to the power 19.
pub const MAGNITUDE_CAP: u128 = 10_000_000_000_000_000_000;

/// Above this an exponent moves every digit out of range: ten to the power 30.
pub const EXPONENT_CAP: u128 = 1_000_000_000_000_000_000_000_000_000_000;

/// A digit appended multiplies the value by ten and adds the digit.
proof fn lemma_value_push(ds: Seq<char>, c: char)
    ensures
        digits_value(ds.push(c)) == digits_value(ds) * 10 + digit_of(c),
{
    assert(ds.push(c).drop_last() =~= ds);
}

/// `k` zeros appended multiply the value by ten to the power `k`.
proof fn lemma_value_zeros(ds: Seq<char>, k: nat)
    ensures
        digits_value(ds + zeros(k)) == digits_value(ds) * pow10(k),
    decreases k,
{
    let v = digits_value(ds) as int;
    if k == 0 {
        assert(ds + zeros(0) =~= ds);
        assert(pow10(0) == 1);
        assert(v * 1 == v);
    } else {
        let j = (k - 1) as nat;
        lemma_value_zeros(ds, j);
        assert(ds + zeros(k) =~= (ds + zeros(j)).push('0'));
        lemma_value_push(ds + zeros(j), '0');
        let pj = pow10(j) as int;
        assert(pow10(k) == 10 * pj);
        assert(digit_of('0') == 0);
        assert(v * pj * 10 == v * (10 * pj)) by (nonlinear_arith);
    }
}

/// A larger exponent gives no smaller power of ten.
proof fn lemma_pow10_grows(j: nat, k: nat)
    requires
        j <= k,
    ensures
        1 <= pow10(j) <= pow10(k),
    decreases k,
{
    if k == 0 {
    } else if j == k {
        lemma_pow10_grows(0, (k - 1) as nat);
    } else {
        lemma_pow10_grows(j, (k - 1) as nat);
    }
}

/// Ten to the power 19, written out.
proof fn lemma_pow10_19()
    ensures
        pow10(19) == 10_000_000_000_000_000_000nat,
{
    reveal_with_fuel(pow10, 20);
}

/// Once appended zeros have taken a value to zero or past the cap, more of
/// them leave it there.
proof fn lemma_zeros_settle(ds: Seq<char>, j: nat, k: nat, cap: int)
    requires
        j <= k,
        cap >= 0,
        digits_value(ds + zeros(j)) == 0 || digits_value(ds + zeros(j)) >= cap,
    ensures
        at_most(digits_value(ds + zeros(k)) as int, cap) == at_most(
            digits_value(ds + zeros(j)) as int,
            cap,
        ),
{
    lemma_value_zeros(ds, j);
    lemma_value_zeros(ds, k);
    lemma_pow10_grows(j, k);
    let v = digits_value(ds) as int;
    let pj = pow10(j) as int;
    let pk = pow10(k) as int;
    if v * pj == 0 {
        assert(v == 0) by (nonlinear_arith)
            requires
                v * pj == 0,
                pj >= 1,
                v >= 0,
        ;
        assert(v * pk == 0) by (nonlinear_arith)
            requires
                v == 0,
        ;
    } else {
        assert(v * pk >= v * pj) by (nonlinear_arith)
            requires
                v >= 0,
                pk >= pj,
        ;
    }
}

/// With nineteen or more zeros appended, a value is zero or past the cap.
proof fn lemma_zeros_far(ds: Seq<char>, k: nat)
    requires
        k >= 19,
    ensures
        at_most(digits_value(ds + zeros(k)) as int, MAGNITUDE_CAP as int) == if digits_value(ds)
            == 0 {
            0
        } else {
            MAGNITUDE_CAP as int
        },
{
    lemma_value_zeros(ds, k);
    lemma_pow10_grows(19, k);
    lemma_pow10_19();
    let v = digits_value(ds) as int;
    let pk = pow10(k) as int;
    if v == 0 {
        assert(v * pk == 0) by (nonlinear_arith)
            requires
                v == 0,
        ;
    } else {
        assert(v * pk >= pk) by (nonlinear_arith)
            requires
                v >= 1,
                pk >= 0,
        ;
    }
}

/// The value of the first `count` digits of `digits`, or `cap` if that is
/// smaller.
pub fn capped_value(digits: &Vec<char>, count: usize, cap: u128) -> (r: u128)
    requires
        count <= digits@.len(),
        all_digits(digits@),
        cap <= EXPONENT_CAP,
    ensures
        r as int == at_most(digits_value(digits@.take(count as int)) as int, cap as int),
{
    let mut acc: u128 = 0;
    let mut i: usize = 0;
    assert(digits@.take(0) =~= Seq::<char>::empty());
    while i < count
        invariant
            i <= count <= digits@.len(),
            all_digits(digits@),
            cap <= EXPONENT_CAP,
            acc as int == at_most(digits_value(digits@.take(i as int)) as int, cap as int),
        decreases count - i,
    {
        let c: char = digits[i];
        assert(is_digit(digits@[i as int]));
        let d: u128 = (c as u32 - '0' as u32) as u128;
        proof {
            assert(digits@.take(i + 1) =~= digits@.take(i as int).push(c));
            lemma_value_push(digits@.take(i as int), c);
        }
        let next: u128 = acc * 10 + d;
        acc = if next < cap {
            next
        } else {
            cap
        };
        i = i + 1;
    }
    acc
}

/// `scaled_value(digits, shift)`, or `MAGNITUDE_CAP` if that is smaller.
pub fn capped_scaled_value(digits: &Vec<char>, shift: i128) -> (r: u128)
    requires
        all_digits(digits@),
    ensures
        r as int == at_most(scaled_value(digits@, shift as int) as int, MAGNITUDE_CAP as int),
{
    let n: i128 = digits.len() as i128;
    if shift >= 0 {
        let mut acc: u128 = capped_value(digits, digits.len(), MAGNITUDE_CAP);
        let mut j: i128 = 0;
        proof {
            assert(digits@.take(digits@.len() as int) =~= digits@);
            assert(digits@ + zeros(0) =~= digits@);
        }
        while j < shift && acc != 0 && acc < MAGNITUDE_CAP
            invariant
                0 <= j <= shift,
                acc as int == at_most(
                    digits_value(digits@ + zeros(j as nat)) as int,
                    MAGNITUDE_CAP as int,
                ),
            decreases MAGNITUDE_CAP - acc,
        {
            proof {
                assert(digits@ + zeros((j + 1) as nat) =~= (digits@ + zeros(j as nat)).push('0'));
                lemma_value_push(digits@ + zeros(j as nat), '0');
            }
            let next: u128 = acc * 10;
            acc = if next < MAGNITUDE_CAP {
                next
            } else {
                MAGNITUDE_CAP
            };
            j = j + 1;
        }
        proof {
            if j < shift {
                lemma_zeros_settle(digits@, j as nat, shift as nat, MAGNITUDE_CAP as int);
            }
        }
        acc
    } else if n + shift >= 0 {
        let keep: usize = (n + shift) as usize;
        let floor: u128 = capped_value(digits, keep, MAGNITUDE_CAP);
        let c: char = digits[keep];
        assert(is_digit(digits@[keep as int]));
        if c >= '5' && floor < MAGNITUDE_CAP {
            floor + 1
        } else {
            floor
        }
    } else {
        0
    }
}

/// The fixed-point value of the numeral whose mantissa digits are `digits`,
/// the last `fraction_len` of them behind the decimal point, and whose
/// exponent digits are `exponent_digits`.
pub fn numeral_value(
    negative: bool,
    digits: &Vec<char>,
    fraction_len: usize,
    exponent_negative: bool,
    exponent_digits: &Vec<char>,
) -> (r: Fixed)
    requires
        all_digits(digits@),
        all_digits(exponent_digits@),
        fraction_len <= digits@.len(),
    ensures
        r.micros as int == (Numeral {
            negative,
            digits: digits@,
            fraction_len: fraction_len as nat,
            exponent_negative,
            exponent_digits: exponent_digits@,
        }).micros(),
{
    let ghost numeral = Numeral {
        negative,
        digits: digits@,
        fraction_len: fraction_len as nat,
        exponent_negative,
        exponent_digits: exponent_digits@,
    };
    let n: usize = digits.len();
    let e: u128 = capped_value(exponent_digits, exponent_digits.len(), EXPONENT_CAP);
    assert(exponent_digits@.take(exponent_digits@.len() as int) =~= exponent_digits@);
    let signed: i128 = if exponent_negative {
        -(e as i128)
    } else {
        e as i128
    };
    let shift: i128 = signed - fraction_len as i128 + 6;
    let m: u128 = capped_scaled_value(digits, shift);
    proof {
        let true_shift = numeral.shift();
        if e < EXPONENT_CAP {
            assert(true_shift == shift);
        } else if exponent_negative {
            assert(n as int + shift < 0);
            assert(digits@.len() + true_shift < 0);
        } else {
            lemma_zeros_far(digits@, shift as nat);
            lemma_zeros_far(digits@, true_shift as nat);
        }
        assert(m as int == at_most(
            scaled_value(digits@, true_shift) as int,
            MAGNITUDE_CAP as int,
        ));
    }
    let micros: i64 = if negative {
        if m > 9_223_372_036_854_775_808u128 {
            i64::MIN
        } else {
            (-(m as i128)) as i64
        }
    } else {
        if m > 9_223_372_036_854_775_807u128 {
            i64::MAX
        } else {
            m as i64
        }
    };
    Fixed { micros }
}

} // verus!
