//! Human-readable byte sizes ("512 B", "1.00 KB", "14.92 GB").
//!
//! A size is shown as the number of bytes below 1024, and otherwise as the
//! value in the largest binary unit (KB, MB, GB, TB, each 1024 times the
//! one before) that it reaches, with two decimals. The value is rounded up
//! to the next hundredth, so a size is never shown smaller than it is; the
//! whole computation is done on integers.
use vstd::prelude::*;
use vstd::arithmetic::div_mod::lemma_fundamental_div_mod;
use crate::text::{decimal, digit_char, digit_to_char, push_decimal};

verus! {

/// `a / d` rounded up to the next integer.
pub open spec fn div_ceil(a: nat, d: nat) -> nat {
    (a + d - 1) as nat / d
}

pub open spec fn kib() -> nat {
    1024
}

/// The unit that a size is shown in: 0 for bytes, then 1 to 4 for
/// KB, MB, GB, TB.
pub open spec fn unit_index(v: nat) -> nat {
    if v < kib() {
        0
    } else if v < kib() * kib() {
        1
    } else if v < kib() * kib() * kib() {
        2
    } else if v < kib() * kib() * kib() * kib() {
        3
    } else {
        4
    }
}

/// The number of bytes in unit `k`: 1024^k.
pub open spec fn unit_bytes(k: nat) -> nat {
    if k == 0 {
        1
    } else if k == 1 {
        kib()
    } else if k == 2 {
        kib() * kib()
    } else if k == 3 {
        kib() * kib() * kib()
    } else {
        kib() * kib() * kib() * kib()
    }
}

/// " KB", " MB", " GB" or " TB" for units 1 to 4.
pub open spec fn unit_suffix(k: nat) -> Seq<char> {
    if k == 1 {
        seq![' ', 'K', 'B']
    } else if k == 2 {
        seq![' ', 'M', 'B']
    } else if k == 3 {
        seq![' ', 'G', 'B']
    } else {
        seq![' ', 'T', 'B']
    }
}

/// A count of hundredths written with two decimals: 1234 is "12.34".
pub open spec fn two_decimals(h: nat) -> Seq<char> {
    decimal(h / 100) + seq!['.', digit_char((h / 10) % 10), digit_char(h % 10)]
}

/// The human-readable form of a size in bytes.
pub open spec fn human_size(size: nat) -> Seq<char> {
    let k = unit_index(size);
    if k == 0 {
        decimal(size) + seq![' ', 'B']
    } else {
        two_decimals(div_ceil(size * 100, unit_bytes(k))) + unit_suffix(k)
    }
}

/// Law: the hundredths shown for a size are the fewest that reach it: a
/// size is never shown smaller than it is, and less than a hundredth of the
/// unit larger.
pub proof fn lemma_shown_hundredths_reach_the_size(size: nat, unit: nat)
    requires
        unit > 0,
    ensures
        div_ceil(size * 100, unit) * unit >= size * 100,
        div_ceil(size * 100, unit) * unit < size * 100 + unit,
{
    let a = size * 100;
    let h = div_ceil(a, unit);
    let b = (a + unit - 1) as nat;
    lemma_fundamental_div_mod(b as int, unit as int);
    assert(b % unit < unit);
    assert(h * unit == unit * h) by (nonlinear_arith);
}

/// Formats a size in bytes for people: "512 B", "1.00 KB", "14.92 GB".
pub fn format_size(size: u64) -> (s: String)
    ensures
        s@ == human_size(size as nat),
{
    let v: u128 = size as u128;
    let mut out = String::new();
    if v < 1024 {
        push_decimal(&mut out, v);
        out.push(' ');
        out.push('B');
        assert(out@ =~= human_size(size as nat));
        return out;
    }
    let (unit, k): (u128, u8) = if v < 1024 * 1024 {
        (1024, 1)
    } else if v < 1024 * 1024 * 1024 {
        (1024 * 1024, 2)
    } else if v < 1024 * 1024 * 1024 * 1024 {
        (1024 * 1024 * 1024, 3)
    } else {
        (1024 * 1024 * 1024 * 1024, 4)
    };
    assert(unit_index(v as nat) == k);
    assert(unit_bytes(k as nat) == unit);
    let h: u128 = (v * 100 + (unit - 1)) / unit;
    push_decimal(&mut out, h / 100);
    out.push('.');
    out.push(digit_to_char((h / 10) % 10));
    out.push(digit_to_char(h % 10));
    out.push(' ');
    if k == 1 {
        out.push('K');
    } else if k == 2 {
        out.push('M');
    } else if k == 3 {
        out.push('G');
    } else {
        out.push('T');
    }
    out.push('B');
    assert(out@ =~= human_size(size as nat));
    out
}

} // verus!
