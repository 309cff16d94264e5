//! Byte counts for people.

use vstd::prelude::*;
use vstd::string::StringExecFns;

use crate::text;

verus! {

/// `n / d`, rounded to the nearest integer, halves to the even one.
pub open spec fn rounded_even(n: int, d: int) -> int {
    let q = n / d;
    let r = n % d;
    if 2 * r < d || (2 * r == d && q % 2 == 0) {
        q
    } else {
        q + 1
    }
}

fn round_even(n: u128, d: u128) -> (out: u128)
    requires
        0 < d <= 0x1_0000_0000_0000_0000,
        n <= 0x1_0000_0000_0000_0000_0000_0000,
    ensures
        out == rounded_even(n as int, d as int),
{
    let q: u128 = n / d;
    let r: u128 = n % d;
    assert(q <= n) by (nonlinear_arith)
        requires
            q == n as int / d as int,
            d > 0,
            n >= 0,
    ;
    if 2 * r < d || (2 * r == d && q % 2 == 0) {
        q
    } else {
        q + 1
    }
}

/// The step between neighboring double-precision numbers of the size of `n`,
/// where that is more than one.
pub open spec fn step_at(n: int) -> int {
    if n < 0x20_0000_0000_0000 {
        1
    } else if n < 0x40_0000_0000_0000 {
        2
    } else if n < 0x80_0000_0000_0000 {
        4
    } else if n < 0x100_0000_0000_0000 {
        8
    } else if n < 0x200_0000_0000_0000 {
        16
    } else if n < 0x400_0000_0000_0000 {
        32
    } else if n < 0x800_0000_0000_0000 {
        64
    } else if n < 0x1000_0000_0000_0000 {
        128
    } else if n < 0x2000_0000_0000_0000 {
        256
    } else if n < 0x4000_0000_0000_0000 {
        512
    } else if n < 0x8000_0000_0000_0000 {
        1024
    } else {
        2048
    }
}

fn find_step(n: u64) -> (step: u128)
    ensures
        step == step_at(n as int),
        1 <= step <= 2048,
{
    if n < 0x20_0000_0000_0000 {
        1
    } else if n < 0x40_0000_0000_0000 {
        2
    } else if n < 0x80_0000_0000_0000 {
        4
    } else if n < 0x100_0000_0000_0000 {
        8
    } else if n < 0x200_0000_0000_0000 {
        16
    } else if n < 0x400_0000_0000_0000 {
        32
    } else if n < 0x800_0000_0000_0000 {
        64
    } else if n < 0x1000_0000_0000_0000 {
        128
    } else if n < 0x2000_0000_0000_0000 {
        256
    } else if n < 0x4000_0000_0000_0000 {
        512
    } else if n < 0x8000_0000_0000_0000 {
        1024
    } else {
        2048
    }
}

/// The double-precision number nearest to `n`: one of 53 significant bits.
pub open spec fn nearest_double(n: int) -> int {
    rounded_even(n, step_at(n)) * step_at(n)
}

/// One unit of each size, in bytes.
pub open spec fn unit_bytes(i: int) -> int {
    if i <= 0 {
        1
    } else if i == 1 {
        0x400
    } else if i == 2 {
        0x10_0000
    } else if i == 3 {
        0x4000_0000
    } else {
        0x100_0000_0000
    }
}

/// The largest unit that `v` bytes fill, up to terabytes.
pub open spec fn unit_of(v: int) -> int {
    if v < 0x400 {
        0
    } else if v < 0x10_0000 {
        1
    } else if v < 0x4000_0000 {
        2
    } else if v < 0x100_0000_0000 {
        3
    } else {
        4
    }
}

/// The names of the units.
pub const UNITS: [&'static str; 5] = ["B", "KB", "MB", "GB", "TB"];

/// The number of hundredths of its unit that `n` bytes are, rounded.
pub open spec fn hundredths(n: int) -> int {
    rounded_even(nearest_double(n) * 100, unit_bytes(unit_of(nearest_double(n))))
}

/// A byte count with two decimals and its unit.
pub open spec fn byte_text(n: int) -> Seq<char> {
    let h = hundredths(n);
    text::decimal((h / 100) as nat) + "."@ + text::two_digits(h % 100) + " "@
        + UNITS@[unit_of(nearest_double(n))]@
}

/// Writes a byte count with two decimals and the largest unit that it fills,
/// up to terabytes.
pub fn human_bytes(n: u64) -> (out: String)
    ensures
        out@ == byte_text(n as int),
{
    let step: u128 = find_step(n);
    let q: u128 = round_even(n as u128, step);
    proof {
        assert(q <= n as int / step as int + 1);
        assert(q * step <= n + step) by (nonlinear_arith)
            requires
                q <= n as int / step as int + 1,
                step > 0,
                n >= 0,
        ;
    }
    let v: u128 = q * step;
    let i: usize = if v < 0x400 {
        0
    } else if v < 0x10_0000 {
        1
    } else if v < 0x4000_0000 {
        2
    } else if v < 0x100_0000_0000 {
        3
    } else {
        4
    };
    let unit: u128 = if i == 0 {
        1
    } else if i == 1 {
        0x400
    } else if i == 2 {
        0x10_0000
    } else if i == 3 {
        0x4000_0000
    } else {
        0x100_0000_0000
    };
    let h: u128 = round_even(v * 100, unit);
    proof {
        assert(h <= v as int * 100 / unit as int + 1);
        assert(h / 100 <= 0x1_0000_0000_0000) by {
            if i <= 3 {
                assert(v * 100 / unit as int <= v * 100) by (nonlinear_arith)
                    requires
                        unit > 0,
                        v >= 0,
                ;
            }
        }
    }
    let mut out: String = text::decimal_text((h / 100) as u64);
    out.append(".");
    text::push_two_digits(&mut out, (h % 100) as u8);
    out.append(" ");
    out.append(UNITS[i]);
    out
}

/// Counts below 2^53 are not rounded before they are scaled.
pub proof fn small_counts_are_exact(n: int)
    requires
        0 <= n < 0x20_0000_0000_0000,
    ensures
        nearest_double(n) == n,
{
}

/// The amount shown is off by half a hundredth of its unit at most.
pub proof fn shown_amount_is_near(n: int)
    requires
        0 <= n,
    ensures
        ({
            let v = nearest_double(n);
            let unit = unit_bytes(unit_of(v));
            -unit <= 2 * (hundredths(n) * unit - v * 100) <= unit
        }),
{
    let v = nearest_double(n);
    let unit = unit_bytes(unit_of(v));
    let a = v * 100;
    let q = a / unit;
    vstd::arithmetic::div_mod::lemma_fundamental_div_mod(a, unit);
    vstd::arithmetic::div_mod::lemma_mod_bound(a, unit);
    assert((q + 1) * unit == unit * q + unit) by (nonlinear_arith);
    assert(q * unit == unit * q) by (nonlinear_arith);
}

/// A count below a kilobyte is written exactly.
pub proof fn small_counts_are_written_out(n: int)
    requires
        0 <= n < 1024,
    ensures
        byte_text(n) == text::decimal(n as nat) + ".00 B"@,
{
    reveal_strlit(".");
    reveal_strlit(" ");
    reveal_strlit("B");
    reveal_strlit(".00 B");
    assert(hundredths(n) == n * 100);
    assert(UNITS@[0]@ == "B"@);
    assert(byte_text(n) =~= text::decimal(n as nat) + ".00 B"@);
}

/// A byte count is written as a number of hundredths of its unit, and is off by
/// half of one at most. The unit is the largest one that the count fills: from
/// bytes over kilobytes, megabytes and gigabytes to terabytes, each 1024 times
/// the one before.
pub proof fn counts_are_written_in_their_unit(n: int) -> (h: int)
    requires
        0 <= n < 0x20_0000_0000_0000,
    ensures
        ({
            let (unit, name) = if n < 1024 {
                (1, "B"@)
            } else if n < 1024 * 1024 {
                (1024, "KB"@)
            } else if n < 1024 * 1024 * 1024 {
                (1024 * 1024, "MB"@)
            } else if n < 1024 * 1024 * 1024 * 1024 {
                (1024 * 1024 * 1024, "GB"@)
            } else {
                (1024 * 1024 * 1024 * 1024, "TB"@)
            };
            &&& byte_text(n) == text::decimal((h / 100) as nat) + "."@ + text::two_digits(h % 100)
                + " "@ + name
            &&& -unit <= 2 * (h * unit - n * 100) <= unit
            &&& h >= 0
        }),
{
    small_counts_are_exact(n);
    shown_amount_is_near(n);
    assert(UNITS@[0]@ == "B"@ && UNITS@[1]@ == "KB"@ && UNITS@[2]@ == "MB"@ && UNITS@[3]@ == "GB"@
        && UNITS@[4]@ == "TB"@);
    let h = hundredths(n);
    let unit = unit_bytes(unit_of(n));
    assert(h >= 0) by {
        assert(n * 100 / unit >= 0) by (nonlinear_arith)
            requires
                n >= 0,
                unit > 0,
        ;
    }
    h
}

/// A count that cannot be held exactly is rounded to one that can, no farther
/// away than half the distance between two of those.
pub proof fn large_counts_are_rounded(n: int)
    requires
        0x20_0000_0000_0000 <= n < 0x1_0000_0000_0000_0000,
    ensures
        nearest_double(n) % step_at(n) == 0,
        -step_at(n) <= 2 * (nearest_double(n) - n) <= step_at(n),
        step_at(n) * 0x10_0000_0000_0000 <= n <= step_at(n) * 0x20_0000_0000_0000,
{
    let d = step_at(n);
    let q = rounded_even(n, d);
    vstd::arithmetic::div_mod::lemma_fundamental_div_mod(n, d);
    vstd::arithmetic::div_mod::lemma_mod_bound(n, d);
    assert((q * d) % d == 0) by {
        vstd::arithmetic::div_mod::lemma_mod_multiples_basic(q, d);
    }
    assert((n / d + 1) * d == d * (n / d) + d) by (nonlinear_arith);
    assert(n / d * d == d * (n / d)) by (nonlinear_arith);
}

/// Rounding takes the nearest whole number, and of two that are as near the
/// even one.
pub proof fn rounding_takes_the_nearest(n: int, d: int)
    requires
        0 <= n,
        0 < d,
    ensures
        -d <= 2 * (rounded_even(n, d) * d - n) <= d,
        2 * (rounded_even(n, d) * d - n) == d || 2 * (rounded_even(n, d) * d - n) == -d
            ==> rounded_even(n, d) % 2 == 0,
{
    let q = n / d;
    let r = n % d;
    vstd::arithmetic::div_mod::lemma_fundamental_div_mod(n, d);
    assert(d * q == q * d && (q + 1) * d == q * d + d) by (nonlinear_arith);
}

} // verus!
