//! Writing fixed-point numbers as decimal text.

use vstd::prelude::*;
use crate::fixed::{div_round, div_round_exec, magnitude, magnitude_of, Fixed};
use crate::number::pow10;

verus! {

/// The character for the digit `d`.
pub open spec fn digit_char(d: int) -> char {
    if d == 0 {
        '0'
    } else if d == 1 {
        '1'
    } else if d == 2 {
        '2'
    } else if d == 3 {
        '3'
    } else if d == 4 {
        '4'
    } else if d == 5 {
        '5'
    } else if d == 6 {
        '6'
    } else if d == 7 {
        '7'
    } else if d == 8 {
        '8'
    } else {
        '9'
    }
}

/// The digits of `n` in base ten, without leading zeros; zero is `0`.
pub open spec fn nat_text(n: nat) -> Seq<char>
    decreases n,
{
    if n < 10 {
        seq![digit_char(n as int)]
    } else {
        nat_text(n / 10).push(digit_char((n % 10) as int))
    }
}

/// The last `width` digits of `n` in base ten, with leading zeros.
pub open spec fn padded_text(n: nat, width: nat) -> Seq<char>
    decreases width,
{
    if width == 0 {
        Seq::empty()
    } else {
        padded_text(n / 10, (width - 1) as nat).push(digit_char((n % 10) as int))
    }
}

/// `micros` millionths written with `places` digits behind the decimal
/// point, at most six: rounded to the nearest such number, a tie going away
/// from zero; a minus sign in front if the rounded number is negative; no
/// decimal point if `places` is zero.
pub open spec fn fixed_text(micros: int, places: nat) -> Seq<char> {
    let rounded = div_round(micros, pow10((6 - places) as nat) as int);
    let whole = (magnitude(rounded) / pow10(places) as int) as nat;
    let part = (magnitude(rounded) % pow10(places) as int) as nat;
    (if rounded < 0 {
        seq!['-']
    } else {
        Seq::empty()
    }) + nat_text(whole) + (if places > 0 {
        seq!['.'] + padded_text(part, places)
    } else {
        Seq::empty()
    })
}

/// The least number of digits behind the decimal point that write
/// `micros` millionths exactly.
pub open spec fn needed_places(micros: int) -> nat {
    let m = magnitude(micros);
    if m % 1_000_000 == 0 {
        0
    } else if m % 100_000 == 0 {
        1
    } else if m % 10_000 == 0 {
        2
    } else if m % 1_000 == 0 {
        3
    } else if m % 100 == 0 {
        4
    } else if m % 10 == 0 {
        5
    } else {
        6
    }
}

/// `micros` millionths written exactly with as few digits behind the
/// decimal point as that takes.
pub open spec fn shortest_text(micros: int) -> Seq<char> {
    fixed_text(micros, needed_places(micros))
}

/// The character for the digit `d`.
fn digit_to_char(d: u64) -> (c: char)
    requires
        d < 10,
    ensures
        c == digit_char(d as int),
{
    if d == 0 {
        '0'
    } else if d == 1 {
        '1'
    } else if d == 2 {
        '2'
    } else if d == 3 {
        '3'
    } else if d == 4 {
        '4'
    } else if d == 5 {
        '5'
    } else if d == 6 {
        '6'
    } else if d == 7 {
        '7'
    } else if d == 8 {
        '8'
    } else {
        '9'
    }
}

/// Ten to the power `k` for `k` up to six.
fn power_of_ten(k: u8) -> (r: u64)
    requires
        k <= 6,
    ensures
        r == pow10(k as nat),
        1 <= r <= 1_000_000,
{
    proof {
        reveal_with_fuel(pow10, 7);
    }
    if k == 0 {
        1
    } else if k == 1 {
        10
    } else if k == 2 {
        100
    } else if k == 3 {
        1_000
    } else if k == 4 {
        10_000
    } else if k == 5 {
        100_000
    } else {
        1_000_000
    }
}

/// Appends the digits of `n`.
pub fn push_nat(out: &mut String, n: u64)
    ensures
        final(out)@ == old(out)@ + nat_text(n as nat),
    decreases n,
{
    if n >= 10 {
        push_nat(out, n / 10);
    }
    let ghost before = out@;
    out.push(digit_to_char(n % 10));
    proof {
        if n >= 10 {
            assert(out@ =~= old(out)@ + nat_text((n / 10) as nat).push(
                digit_char((n % 10) as int),
            ));
        } else {
            assert(out@ =~= old(out)@ + seq![digit_char(n as int)]);
        }
    }
}

/// Appends the last `width` digits of `n`.
pub fn push_padded(out: &mut String, n: u64, width: u8)
    ensures
        final(out)@ == old(out)@ + padded_text(n as nat, width as nat),
    decreases width,
{
    if width == 0 {
        assert(out@ =~= old(out)@ + Seq::<char>::empty());
    } else {
        push_padded(out, n / 10, width - 1);
        out.push(digit_to_char(n % 10));
        assert(out@ =~= old(out)@ + padded_text((n / 10) as nat, (width - 1) as nat).push(
            digit_char((n % 10) as int),
        ));
    }
}

/// Appends `value` written with `places` digits behind the decimal point.
pub fn push_fixed(out: &mut String, value: Fixed, places: u8)
    requires
        places <= 6,
    ensures
        final(out)@ == old(out)@ + fixed_text(value.micros as int, places as nat),
{
    let unit: u64 = power_of_ten(6 - places);
    let base: u64 = power_of_ten(places);
    let rounded: i128 = div_round_exec(value.micros as i128, unit as i128);
    let size: u128 = magnitude_of(rounded);
    let whole: u64 = (size / base as u128) as u64;
    let part: u64 = (size % base as u128) as u64;
    let ghost start = out@;
    if rounded < 0 {
        out.push('-');
    }
    let ghost signed = out@;
    push_nat(out, whole);
    let ghost counted = out@;
    if places > 0 {
        out.push('.');
        push_padded(out, part, places);
    }
    proof {
        let sign = if rounded < 0 {
            seq!['-']
        } else {
            Seq::<char>::empty()
        };
        let tail = if places > 0 {
            seq!['.'] + padded_text(part as nat, places as nat)
        } else {
            Seq::<char>::empty()
        };
        assert(signed =~= start + sign);
        assert(out@ =~= counted + tail);
        assert(out@ =~= start + (sign + nat_text(whole as nat) + tail));
    }
}

/// Appends `value` written exactly with as few digits behind the decimal
/// point as that takes.
pub fn push_shortest(out: &mut String, value: Fixed)
    ensures
        final(out)@ == old(out)@ + shortest_text(value.micros as int),
{
    let m: u128 = magnitude_of(value.micros as i128);
    let places: u8 = if m % 1_000_000 == 0 {
        0
    } else if m % 100_000 == 0 {
        1
    } else if m % 10_000 == 0 {
        2
    } else if m % 1_000 == 0 {
        3
    } else if m % 100 == 0 {
        4
    } else if m % 10 == 0 {
        5
    } else {
        6
    };
    push_fixed(out, value, places);
}

} // verus!
