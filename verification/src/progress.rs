//! Byte counts as people read them, and the progress text of a download.

use vstd::prelude::*;
use vstd::string::*;
use vstd::arithmetic::div_mod::lemma_fundamental_div_mod;
use crate::text::{decimal, decimal_string, digit_char, push_char};

verus! {

/// Two to the power `e`.
pub open spec fn pow2(e: nat) -> nat
    decreases e,
{
    if e == 0 { 1 } else { 2 * pow2((e - 1) as nat) }
}

/// The number of low bits that a double drops from `v`: the least `e` from
/// `start` on with `v < 2^(53 + e)`.
pub open spec fn float_shift(v: nat, e: nat) -> nat
    decreases 64 - e,
{
    if e >= 64 || v < pow2(53 + e) { e } else { float_shift(v, e + 1) }
}

/// `q` rounded by the remainder `r` of a division by `unit`: to the nearest
/// whole number, ties to an even one.
pub open spec fn round_half_even(q: nat, r: nat, unit: nat) -> nat {
    if 2 * r > unit || (2 * r == unit && q % 2 == 1) { q + 1 } else { q }
}

/// The value that an unsigned number takes as a double: the nearest number
/// with a 53-bit significand, ties to an even significand.
pub open spec fn as_double(v: nat) -> nat {
    let unit = pow2(float_shift(v, 0));
    round_half_even(v / unit, v % unit, unit) * unit
}

/// `x / unit` in tenths, rounded to the nearest tenth, ties to an even one.
pub open spec fn tenths(x: nat, unit: nat) -> nat {
    round_half_even(x * 10 / unit, x * 10 % unit, unit)
}

/// A number of tenths written with one decimal place.
pub open spec fn one_decimal(t: nat) -> Seq<char> {
    decimal(t / 10) + "."@ + seq![digit_char(t % 10)]
}

/// A byte count as it is shown: in MiB with one decimal place from 1 MiB on,
/// in KiB from 1 KiB on, else in bytes. The count is first taken as a
/// double, as the display does.
pub open spec fn byte_size_text(v: nat) -> Seq<char> {
    let x = as_double(v);
    if x >= 1048576 {
        one_decimal(tenths(x, 1048576)) + " MiB"@
    } else if x >= 1024 {
        one_decimal(tenths(x, 1024)) + " KiB"@
    } else {
        decimal(x) + " B"@
    }
}

/// Counts below 2^53 keep their exact value as doubles.
pub proof fn lemma_small_counts_exact(v: nat)
    requires
        v < 9007199254740992,
    ensures
        as_double(v) == v,
{
    reveal_with_fuel(pow2, 54);
    assert(pow2(53) == 9007199254740992);
    assert(float_shift(v, 0) == 0);
    assert(pow2(0) == 1);
}

proof fn lemma_pow2_add53(e: nat)
    ensures
        pow2(53 + e) == 9007199254740992 * pow2(e),
    decreases e,
{
    if e == 0 {
        reveal_with_fuel(pow2, 54);
        assert(pow2(53) == 9007199254740992);
    } else {
        lemma_pow2_add53((e - 1) as nat);
        assert(pow2(53 + e) == 2 * pow2((53 + e - 1) as nat));
    }
}

fn double_value(value: u64) -> (x: u128)
    ensures
        x == as_double(value as nat),
        x <= 0x1_0000_0000_0000_1000,
{
    let v = value as u128;
    let mut unit: u128 = 1;
    let mut e: u64 = 0;
    while e < 64 && v >= 9007199254740992 * unit
        invariant
            v == value,
            e <= 64,
            unit == pow2(e as nat),
            1 <= unit <= 4096,
            float_shift(v as nat, 0) == float_shift(v as nat, e as nat),
        decreases 64 - e,
    {
        proof {
            lemma_pow2_add53(e as nat);
            assert(float_shift(v as nat, e as nat) == float_shift(v as nat, (e + 1) as nat));
            assert(unit * 2 <= 4096) by (nonlinear_arith)
                requires
                    v >= 9007199254740992 * unit,
                    v < 0x1_0000_0000_0000_0000,
            ;
        }
        unit = unit * 2;
        e = e + 1;
    }
    proof {
        lemma_pow2_add53(e as nat);
        assert(float_shift(v as nat, e as nat) == e);
        lemma_fundamental_div_mod(v as int, unit as int);
    }
    let q = v / unit;
    let r = v % unit;
    let rounded = if 2 * r > unit || (2 * r == unit && q % 2 == 1) { q + 1 } else { q };
    proof {
        assert(rounded * unit <= v + unit) by (nonlinear_arith)
            requires
                rounded <= q + 1,
                v == unit * q + r,
                r >= 0,
                unit >= 1,
        ;
    }
    rounded * unit
}

fn tenths_of(x: u128, unit: u128) -> (t: u128)
    requires
        1024 <= unit <= 1048576,
        x <= 0x1_0000_0000_0000_1000,
    ensures
        t == tenths(x as nat, unit as nat),
        t <= 0x1000_0000_0000_0000,
{
    let x10 = x * 10;
    proof {
        assert(x10 / unit <= x10 / 1024) by (nonlinear_arith)
            requires
                unit >= 1024,
                x10 >= 0,
        ;
    }
    let q = x10 / unit;
    let r = x10 % unit;
    assert(r < unit);
    if 2 * r > unit || (2 * r == unit && q % 2 == 1) { q + 1 } else { q }
}

fn one_decimal_string(t: u128) -> (s: String)
    requires
        t <= 0x1000_0000_0000_0000,
    ensures
        s@ == one_decimal(t as nat),
{
    let whole = (t / 10) as u64;
    let tenth = (t % 10) as u64;
    let mut s = decimal_string(whole);
    s.append(".");
    let d = decimal_string(tenth);
    proof {
        assert(decimal(tenth as nat) == seq![digit_char(tenth as nat)]);
    }
    s.concat(d.as_str())
}

/// A byte count as it is shown, as `byte_size_text` describes it.
pub fn bytes(value: u64) -> (text: String)
    ensures
        text@ == byte_size_text(value as nat),
{
    let x = double_value(value);
    if x >= 1048576 {
        let t = tenths_of(x, 1048576);
        one_decimal_string(t).concat(" MiB")
    } else if x >= 1024 {
        let t = tenths_of(x, 1024);
        one_decimal_string(t).concat(" KiB")
    } else {
        decimal_string(x as u64).concat(" B")
    }
}

/// The progress line of a download: both sizes when the total is known and
/// above zero, else the size so far and `downloaded`.
pub open spec fn progress_line(downloaded: u64, total: Option<u64>) -> Seq<char> {
    match total {
        Some(t) if t > 0 => byte_size_text(downloaded as nat) + " / "@ + byte_size_text(t as nat),
        _ => byte_size_text(downloaded as nat) + " downloaded"@,
    }
}

/// The progress line of a download, as `progress_line` describes it.
pub fn progress_text(downloaded: u64, total: Option<u64>) -> (text: String)
    ensures
        text@ == progress_line(downloaded, total),
{
    match total {
        Some(t) if t > 0 => bytes(downloaded).concat(" / ").concat(bytes(t).as_str()),
        _ => bytes(downloaded).concat(" downloaded"),
    }
}

} // verus!
