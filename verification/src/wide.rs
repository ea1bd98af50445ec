//! Non-negative integers of up to 256 bits, for exact products of wide
//! numerators.

use crate::fixed::is_isqrt;
use crate::fixed::isqrt;
use crate::fixed::lemma_isqrt_is;
use vstd::prelude::*;

verus! {

/// Two to the power of 64.
pub open spec fn limb() -> int {
    0x1_0000_0000_0000_0000
}

/// Two to the power of 128.
pub open spec fn half() -> int {
    0x1_0000_0000_0000_0000_0000_0000_0000_0000int
}

/// The integer `high * 2^128 + low`.
#[derive(Clone, Copy, Debug, PartialEq, Eq, Structural)]
pub struct Wide {
    pub high: u128,
    pub low: u128,
}

impl View for Wide {
    type V = int;

    open spec fn view(&self) -> int {
        self.high * half() + self.low
    }
}

/// The product of two numbers in limbs of 64 bits.
proof fn lemma_limb_product(a1: int, a0: int, b1: int, b0: int, k: int)
    ensures
        (a1 * k + a0) * (b1 * k + b0) == (a1 * b1) * (k * k) + (a1 * b0 + a0 * b1) * k + a0 * b0,
{
    let x = a1 * k;
    let y = b1 * k;
    assert((x + a0) * (y + b0) == x * y + x * b0 + a0 * y + a0 * b0) by (nonlinear_arith);
    assert(x * y == (a1 * b1) * (k * k)) by (nonlinear_arith)
        requires
            x == a1 * k,
            y == b1 * k,
    ;
    assert(x * b0 == (a1 * b0) * k) by (nonlinear_arith)
        requires
            x == a1 * k,
    ;
    assert(a0 * y == (a0 * b1) * k) by (nonlinear_arith)
        requires
            y == b1 * k,
    ;
    assert((a1 * b0 + a0 * b1) * k == (a1 * b0) * k + (a0 * b1) * k) by (nonlinear_arith);
}

/// The exact product of two numbers below `2^72`.
pub fn wide_product(a: u128, b: u128) -> (p: Wide)
    requires
        a < 0x100_0000_0000_0000_0000,
        b < 0x100_0000_0000_0000_0000,
    ensures
        p@ == a * b,
        p.high < 0x1_0000,
{
    let a1: u128 = a / 0x1_0000_0000_0000_0000;
    let a0: u128 = a % 0x1_0000_0000_0000_0000;
    let b1: u128 = b / 0x1_0000_0000_0000_0000;
    let b0: u128 = b % 0x1_0000_0000_0000_0000;
    proof {
        lemma_limb_product(a1 as int, a0 as int, b1 as int, b0 as int, limb());
        assert(a0 * b0 <= 0xFFFF_FFFF_FFFF_FFFF * 0xFFFF_FFFF_FFFF_FFFF) by (nonlinear_arith)
            requires
                0 <= a0 <= 0xFFFF_FFFF_FFFF_FFFF,
                0 <= b0 <= 0xFFFF_FFFF_FFFF_FFFF,
        ;
        assert(a1 * b0 <= 255 * 0xFFFF_FFFF_FFFF_FFFF) by (nonlinear_arith)
            requires
                0 <= a1 <= 255,
                0 <= b0 <= 0xFFFF_FFFF_FFFF_FFFF,
        ;
        assert(a0 * b1 <= 0xFFFF_FFFF_FFFF_FFFF * 255) by (nonlinear_arith)
            requires
                0 <= b1 <= 255,
                0 <= a0 <= 0xFFFF_FFFF_FFFF_FFFF,
        ;
        assert(a1 * b1 <= 65025) by (nonlinear_arith)
            requires
                0 <= a1 <= 255,
                0 <= b1 <= 255,
        ;
    }
    let p00: u128 = a0 * b0;
    let mid: u128 = a1 * b0 + a0 * b1;
    let p11: u128 = a1 * b1;
    let m1: u128 = mid / 0x1_0000_0000_0000_0000;
    let m0: u128 = mid % 0x1_0000_0000_0000_0000;
    let shifted: u128 = m0 * 0x1_0000_0000_0000_0000;
    proof {
        assert(limb() * limb() == half());
        assert(a == a1 * limb() + a0 && b == b1 * limb() + b0);
        assert(a * b == p11 * half() + mid * limb() + p00);
        assert(mid * limb() == m1 * half() + shifted) by (nonlinear_arith)
            requires
                mid == m1 * limb() + m0,
                shifted == m0 * limb(),
                limb() * limb() == half(),
        ;
    }
    proof {
        assert((p11 + m1 + 1) * half() == p11 * half() + m1 * half() + half())
            by (nonlinear_arith);
        assert((p11 + m1) * half() == p11 * half() + m1 * half()) by (nonlinear_arith);
        assert(u128::MAX == half() - 1);
    }
    if p00 > u128::MAX - shifted {
        Wide { high: p11 + m1 + 1, low: p00 - (u128::MAX - shifted) - 1 }
    } else {
        Wide { high: p11 + m1, low: p00 + shifted }
    }
}

/// The sum of two wide numbers that fits.
pub fn wide_sum(a: Wide, b: Wide) -> (s: Wide)
    requires
        a.high < 0x1_0000_0000,
        b.high < 0x1_0000_0000,
    ensures
        s@ == a@ + b@,
{
    proof {
        assert((a.high + b.high + 1) * half() == a.high * half() + b.high * half() + half())
            by (nonlinear_arith);
        assert((a.high + b.high) * half() == a.high * half() + b.high * half())
            by (nonlinear_arith);
    }
    if a.low > u128::MAX - b.low {
        Wide { high: a.high + b.high + 1, low: a.low - (u128::MAX - b.low) - 1 }
    } else {
        Wide { high: a.high + b.high, low: a.low + b.low }
    }
}

/// Whether `a` is at most `b`.
pub fn wide_le(a: Wide, b: Wide) -> (r: bool)
    ensures
        r == (a@ <= b@),
{
    a.high < b.high || (a.high == b.high && a.low <= b.low)
}

/// The difference of two wide numbers, the smaller taken from the larger.
pub fn wide_difference(a: Wide, b: Wide) -> (d: Wide)
    requires
        b@ <= a@,
    ensures
        d@ == a@ - b@,
        d.high <= a.high,
{
    if a.low >= b.low {
        Wide { high: a.high - b.high, low: a.low - b.low }
    } else {
        Wide { high: a.high - b.high - 1, low: u128::MAX - b.low + a.low + 1 }
    }
}

/// The integer square root, rounded down, of a wide number below `2^144`.
pub fn wide_isqrt(n: Wide) -> (r: u128)
    requires
        n.high < 0x1_0000,
    ensures
        r == isqrt(n@),
        is_isqrt(n@, r as int),
        r < 0x100_0000_0000_0000_0000,
{
    let mut lo: u128 = 0;
    let mut hi: u128 = 0x100_0000_0000_0000_0000;
    proof {
        assert(hi * hi == 0x1_0000 * half()) by (nonlinear_arith)
            requires
                hi == 0x100_0000_0000_0000_0000,
                half() == 0x1_0000_0000_0000_0000_0000_0000_0000_0000int,
        ;
        assert(lo * lo == 0) by (nonlinear_arith)
            requires
                lo == 0,
        ;
    }
    while hi - lo > 1
        invariant
            lo < hi <= 0x100_0000_0000_0000_0000,
            lo * lo <= n@,
            n@ < hi * hi,
        decreases hi - lo,
    {
        let mid: u128 = lo + (hi - lo) / 2;
        let square = wide_product(mid, mid);
        if wide_le(square, n) {
            lo = mid;
        } else {
            hi = mid;
        }
    }
    proof {
        lemma_isqrt_is(n@, lo as int);
    }
    lo
}

} // verus!
