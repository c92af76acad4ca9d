//! Floating-point numbers seen as bit patterns: widening and narrowing between
//! the 16-bit and the 32-bit format, 8-bit power-of-two scales, and the order of
//! the numbers that 32-bit and 64-bit patterns stand for.

use vstd::arithmetic::div_mod::*;
use vstd::arithmetic::power2::*;
use vstd::prelude::*;

verus! {

// ---------------------------------------------------------------------------
// Fields
// ---------------------------------------------------------------------------

/// The exponent field of a 16-bit pattern.
pub open spec fn exp16(h: u16) -> int {
    h as int / 1024 % 32
}

/// The fraction field of a 16-bit pattern.
pub open spec fn frac16(h: u16) -> int {
    h as int % 1024
}

/// A pattern that stands for no number.
pub open spec fn is_nan16(h: u16) -> bool {
    exp16(h) == 31 && frac16(h) != 0
}

/// The absolute value of a finite 16-bit number, in units of 2 to the -24.
pub open spec fn magnitude16(h: u16) -> int {
    if exp16(h) == 0 {
        frac16(h)
    } else {
        (1024 + frac16(h)) * pow2((exp16(h) - 1) as nat)
    }
}

/// The exponent field of a 32-bit pattern.
pub open spec fn exp32(b: u32) -> int {
    b as int / 0x80_0000 % 256
}

/// The fraction field of a 32-bit pattern.
pub open spec fn frac32(b: u32) -> int {
    b as int % 0x80_0000
}

/// A pattern that stands for no number.
pub open spec fn is_nan32(b: u32) -> bool {
    exp32(b) == 255 && frac32(b) != 0
}

/// The absolute value of a finite 32-bit number, in units of 2 to the -149.
pub open spec fn magnitude32(b: u32) -> int {
    if exp32(b) == 0 {
        frac32(b)
    } else {
        (0x80_0000 + frac32(b)) * pow2((exp32(b) - 1) as nat)
    }
}

/// The exponent field of a 64-bit pattern.
pub open spec fn exp64(b: u64) -> int {
    b as int / 0x10_0000_0000_0000 % 2048
}

/// The fraction field of a 64-bit pattern.
pub open spec fn frac64(b: u64) -> int {
    b as int % 0x10_0000_0000_0000
}

/// A pattern that stands for no number.
pub open spec fn is_nan64(b: u64) -> bool {
    exp64(b) == 2047 && frac64(b) != 0
}

/// The absolute value of a finite 64-bit number, in units of 2 to the -1074.
pub open spec fn magnitude64(b: u64) -> int {
    if exp64(b) == 0 {
        frac64(b)
    } else {
        (0x10_0000_0000_0000 + frac64(b)) * pow2((exp64(b) - 1) as nat)
    }
}

// ---------------------------------------------------------------------------
// Widening
// ---------------------------------------------------------------------------

/// How often a fraction must be doubled to reach 1024.
pub open spec fn norm_shift(m: int) -> nat
    decreases 2048 - m,
{
    if m <= 0 || m >= 1024 {
        0
    } else {
        1 + norm_shift(2 * m)
    }
}

/// The 32-bit pattern of the number that a 16-bit pattern stands for.
pub open spec fn single_of_half(h: u16) -> int {
    let sign = h as int / 32768 * 0x8000_0000;
    let e = exp16(h);
    let m = frac16(h);
    if e == 31 {
        sign + 0x7F80_0000 + m * 8192
    } else if e != 0 {
        sign + (e + 112) * 0x80_0000 + m * 8192
    } else if m == 0 {
        sign
    } else {
        let k = norm_shift(m);
        sign + (113 - k) * 0x80_0000 + (m * pow2(k) - 1024) * 8192
    }
}

proof fn lemma_norm_shift(m: int)
    requires
        0 < m < 2048,
    ensures
        m < 1024 ==> 1024 <= m * pow2(norm_shift(m)) < 2048,
        norm_shift(m) <= 10,
        m >= 512 ==> norm_shift(m) <= 1,
        m >= 256 ==> norm_shift(m) <= 2,
        m >= 128 ==> norm_shift(m) <= 3,
        m >= 64 ==> norm_shift(m) <= 4,
        m >= 32 ==> norm_shift(m) <= 5,
        m >= 16 ==> norm_shift(m) <= 6,
        m >= 8 ==> norm_shift(m) <= 7,
        m >= 4 ==> norm_shift(m) <= 8,
        m >= 2 ==> norm_shift(m) <= 9,
    decreases 2048 - m,
{
    if m < 1024 {
        lemma_norm_shift(2 * m);
        let k = norm_shift(2 * m);
        lemma_pow2_unfold((k + 1) as nat);
        assert(m * (2 * pow2(k)) == 2 * m * pow2(k)) by (nonlinear_arith);
        if 2 * m >= 1024 {
            lemma2_to64();
        }
    }
}

/// Widening keeps the sign and the number.
pub proof fn widening_is_exact(h: u16)
    ensures
        0 <= single_of_half(h) <= u32::MAX,
        single_of_half(h) / 0x8000_0000 == h as int / 32768,
        exp16(h) != 31 ==> exp32(single_of_half(h) as u32) < 255 && magnitude32(
            single_of_half(h) as u32,
        ) == magnitude16(h) * pow2(125),
        exp16(h) == 31 ==> exp32(single_of_half(h) as u32) == 255 && frac32(
            single_of_half(h) as u32,
        ) == frac16(h) * 8192,
{
    let e = exp16(h);
    let m = frac16(h);
    let r = single_of_half(h);
    let s = h as int / 32768;
    if e == 31 {
        assert(r == s * 0x8000_0000 + 255 * 0x80_0000 + m * 8192);
        lemma_fields32(r, s, 255, m * 8192);
    } else if e != 0 {
        lemma_fields32(r, s, e + 112, m * 8192);
        let p = pow2((e - 1) as nat);
        lemma_pow2_adds((e - 1) as nat, 112);
        lemma_pow2_adds(13, 112);
        lemma2_to64();
        assert(magnitude32(r as u32) == (0x80_0000 + m * 8192) * pow2((e + 111) as nat));
        assert((0x80_0000 + m * 8192) * (p * pow2(112)) == (1024 + m) * p * (8192 * pow2(112)))
            by (nonlinear_arith);
    } else if m == 0 {
        lemma_fields32(r, s, 0, 0);
        assert(0 * pow2(125) == 0);
    } else {
        lemma_norm_shift(m);
        let k = norm_shift(m);
        let f = m * pow2(k) - 1024;
        lemma_fields32(r, s, 113 - k, f * 8192);
        lemma_pow2_adds(k, (112 - k) as nat);
        lemma_pow2_adds(13, 112);
        lemma2_to64();
        assert((0x80_0000 + f * 8192) * pow2((112 - k) as nat) == m * (8192 * (pow2(k) * pow2(
            (112 - k) as nat,
        )))) by (nonlinear_arith)
            requires
                f == m * pow2(k) - 1024,
        ;
    }
}

/// A 32-bit pattern put together from its fields.
proof fn lemma_fields32(r: int, s: int, e: int, f: int)
    requires
        0 <= s <= 1,
        0 <= e <= 255,
        0 <= f < 0x80_0000,
        r == s * 0x8000_0000 + e * 0x80_0000 + f,
    ensures
        0 <= r <= u32::MAX,
        r / 0x8000_0000 == s,
        exp32(r as u32) == e,
        frac32(r as u32) == f,
{
    assert(r / 0x80_0000 == s * 256 + e);
}

/// The 32-bit pattern of the number that a 16-bit pattern stands for.
pub fn f16_to_f32_bits(h: u16) -> (r: u32)
    ensures
        r == single_of_half(h),
{
    proof {
        widening_is_exact(h);
    }
    let sign: u32 = (h / 32768) as u32 * 0x8000_0000;
    let e: u32 = (h / 1024 % 32) as u32;
    let m: u32 = (h % 1024) as u32;
    if e == 31 {
        return sign + 0x7F80_0000 + m * 8192;
    }
    if e != 0 {
        return sign + (e + 112) * 0x80_0000 + m * 8192;
    }
    if m == 0 {
        return sign;
    }
    let mut f: u32 = m;
    let mut k: u32 = 0;
    proof {
        lemma_norm_shift(m as int);
        lemma2_to64();
    }
    while f < 1024
        invariant
            0 < m < 1024,
            0 < f < 2048,
            k + norm_shift(f as int) == norm_shift(m as int) <= 10,
            f == m * pow2(k as nat),
        decreases 2048 - f,
    {
        proof {
            lemma_pow2_unfold((k + 1) as nat);
            assert(m * (2 * pow2(k as nat)) == 2 * (m * pow2(k as nat))) by (nonlinear_arith);
        }
        f = f * 2;
        k = k + 1;
    }
    sign + (113 - k) * 0x80_0000 + (f - 1024) * 8192
}

// ---------------------------------------------------------------------------
// Narrowing
// ---------------------------------------------------------------------------

/// The 16-bit pattern that a 32-bit number is rounded to: the nearest, the
/// larger magnitude where two are equally near. Numbers too large become
/// infinite, numbers too small become zero, and no-numbers stay no-numbers.
pub open spec fn half_of_single(b: u32) -> int {
    let sign = b as int / 0x8000_0000 * 0x8000;
    let e = exp32(b);
    let f = frac32(b);
    if e == 255 {
        sign + 0x7C00 + (if f == 0 {
            0int
        } else {
            0x200
        })
    } else if e >= 143 {
        sign + 0x7C00
    } else if e > 112 {
        sign + (e - 112) * 1024 + (f + 4096) / 8192
    } else if e >= 102 {
        sign + (f + 0x80_0000 + pow2((125 - e) as nat)) / pow2((126 - e) as nat) as int
    } else {
        sign
    }
}

fn power_of_two(k: u32) -> (p: u32)
    requires
        k < 32,
    ensures
        p == pow2(k as nat),
{
    let mut p: u32 = 1;
    let mut i: u32 = 0;
    proof {
        lemma2_to64();
    }
    while i < k
        invariant
            i <= k < 32,
            p == pow2(i as nat),
        decreases k - i,
    {
        proof {
            lemma_pow2_unfold((i + 1) as nat);
            lemma2_to64();
            if i + 1 < 31 {
                lemma_pow2_strictly_increases((i + 1) as nat, 31);
            }
        }
        p = p * 2;
        i = i + 1;
    }
    p
}

/// The 16-bit pattern that a 32-bit number is rounded to.
pub fn f32_to_f16_bits(b: u32) -> (h: u16)
    ensures
        h == half_of_single(b),
{
    let sign: u16 = (b / 0x8000_0000) as u16 * 0x8000;
    let e: u32 = b / 0x80_0000 % 256;
    let f: u32 = b % 0x80_0000;
    if e == 255 {
        let nan: u16 = if f == 0 {
            0
        } else {
            0x200
        };
        return sign + 0x7C00 + nan;
    }
    if e >= 143 {
        return sign + 0x7C00;
    }
    if e > 112 {
        let magnitude: u32 = (e - 112) * 1024 + (f + 4096) / 8192;
        assert(magnitude <= 30 * 1024 + 1024);
        return sign + magnitude as u16;
    }
    if e < 102 {
        return sign;
    }
    let unit: u32 = power_of_two(126 - e);
    let half_unit: u32 = power_of_two(125 - e);
    proof {
        lemma2_to64();
        lemma_pow2_unfold((126 - e) as nat);
        assert(half_unit <= pow2(23)) by {
            if 125 - e < 23 {
                lemma_pow2_strictly_increases((125 - e) as nat, 23);
            }
        }
        assert(unit >= pow2(14)) by {
            if 14 < 126 - e {
                lemma_pow2_strictly_increases(14, (126 - e) as nat);
            }
        }
    }
    let sum: u32 = f + 0x80_0000 + half_unit;
    let magnitude: u32 = sum / unit;
    assert(magnitude <= 2048) by (nonlinear_arith)
        requires
            magnitude == sum / unit,
            unit >= 16384,
            sum <= 0x200_0000,
    ;
    sign + magnitude as u16
}

/// A number that fits 16 bits comes back unchanged from 32 bits. The pattern of
/// a no-number keeps its sign only.
pub proof fn narrowing_undoes_widening(h: u16)
    requires
        !is_nan16(h),
    ensures
        half_of_single(single_of_half(h) as u32) == h,
{
    widening_is_exact(h);
    let e = exp16(h);
    let m = frac16(h);
    let s = h as int / 32768;
    let r = single_of_half(h);
    assert(h as int == s * 32768 + e * 1024 + m);
    if e == 31 {
        lemma_fields32(r, s, 255, m * 8192);
    } else if e != 0 {
        lemma_fields32(r, s, e + 112, m * 8192);
        assert((m * 8192 + 4096) / 8192 == m);
    } else if m == 0 {
        lemma_fields32(r, s, 0, 0);
    } else {
        lemma_norm_shift(m);
        let k = norm_shift(m);
        let f = (m * pow2(k) - 1024) * 8192;
        lemma_fields32(r, s, 113 - k, f);
        let half_unit = pow2((k + 12) as nat) as int;
        let unit = pow2((k + 13) as nat) as int;
        lemma_pow2_unfold((k + 13) as nat);
        lemma_pow2_adds(k, 13);
        lemma_pow2_pos((k + 12) as nat);
        lemma2_to64();
        assert(f + 0x80_0000 == m * unit) by (nonlinear_arith)
            requires
                f == (m * pow2(k) - 1024) * 8192,
                unit == pow2(k) * 8192,
        ;
        assert((m * unit + half_unit) / unit == m) by (nonlinear_arith)
            requires
                unit == 2 * half_unit,
                half_unit > 0,
        ;
    }
}

/// The distance of two numbers.
pub open spec fn apart(a: int, b: int) -> int {
    if a < b {
        b - a
    } else {
        a - b
    }
}

/// A number in the range of normal 16-bit numbers is rounded to one that is at most
/// half a unit of the last place away, or to an infinity where none is that near.
/// Where two are equally near it is the larger one in size. Its sign stays.
pub proof fn narrowing_is_nearest(b: u32)
    requires
        112 < exp32(b) < 143,
    ensures
        ({
            let h = half_of_single(b) as u16;
            &&& 0 <= half_of_single(b) <= u16::MAX
            &&& h >= 0x8000 <==> b >= 0x8000_0000
            &&& exp16(h) < 31 ==> 2 * apart(magnitude16(h) * pow2(125), magnitude32(b)) <= pow2(
                (exp32(b) + 12) as nat,
            )
            &&& exp16(h) < 31 ==> 2 * (magnitude32(b) - magnitude16(h) * pow2(125)) < pow2(
                (exp32(b) + 12) as nat,
            )
            &&& exp16(h) == 31 ==> exp32(b) == 142 && frac32(b) >= 0x80_0000 - 4096 && frac16(h)
                == 0
        }),
{
    let e = exp32(b);
    let f = frac32(b);
    let s = b as int / 0x8000_0000;
    let r = (f + 4096) / 8192;
    let h = half_of_single(b);
    assert(b as int == s * 0x8000_0000 + e * 0x80_0000 + f);
    assert(0 <= s <= 1);
    assert(h == s * 0x8000 + (e - 112) * 1024 + r);
    assert(0 <= r <= 1024);
    let (k, m) = if r < 1024 {
        (e - 112, r)
    } else {
        (e - 111, 0int)
    };
    assert(h == s * 0x8000 + k * 1024 + m);
    let x = h as u16;
    assert(exp16(x) == k && frac16(x) == m) by {
        assert(x as int / 1024 == s * 32 + k);
    }
    if k < 31 {
        let p = pow2((e - 113) as nat) as int;
        lemma_pow2_unfold((e - 112) as nat);
        assert(magnitude16(x) == (1024 + r) * p) by {
            if r == 1024 {
                assert(pow2((k - 1) as nat) == 2 * p);
                assert(1024 * (2 * p) == (1024 + 1024) * p) by (nonlinear_arith);
            }
        }
        lemma_pow2_adds((e - 113) as nat, 125);
        lemma_pow2_adds((e - 1) as nat, 13);
        lemma2_to64();
        let u = pow2((e - 1) as nat) as int;
        assert((1024 + r) * p * pow2(125) == ((1024 + r) * 8192) * u) by (nonlinear_arith)
            requires
                p * pow2(125) == 8192 * u,
        ;
        assert(magnitude32(b) == (0x80_0000 + f) * u);
        let d = apart((1024 + r) * 8192, 0x80_0000 + f);
        assert(d <= 4096);
        lemma_pow2_pos((e - 1) as nat);
        assert(apart(((1024 + r) * 8192) * u, (0x80_0000 + f) * u) == d * u) by (nonlinear_arith)
            requires
                u > 0,
                d == apart((1024 + r) * 8192, 0x80_0000 + f),
        ;
        assert(2 * (d * u) <= 8192 * u) by (nonlinear_arith)
            requires
                0 <= d <= 4096,
                u > 0,
        ;
        let (near, far) = ((1024 + r) * 8192, 0x80_0000 + f);
        assert(far - near < 4096);
        assert(2 * (far * u - near * u) < 8192 * u) by (nonlinear_arith)
            requires
                far - near < 4096,
                u > 0,
        ;
    }
}

/// A number below the normal 16-bit numbers is rounded to one that is at most half
/// of the smallest one away, the larger one in size where two are equally near.
pub proof fn small_narrowing_is_nearest(b: u32)
    requires
        exp32(b) <= 112,
    ensures
        ({
            let h = half_of_single(b) as u16;
            &&& 0 <= half_of_single(b) <= u16::MAX
            &&& h >= 0x8000 <==> b >= 0x8000_0000
            &&& 2 * apart(magnitude16(h) * pow2(125), magnitude32(b)) <= pow2(125)
            &&& 2 * (magnitude32(b) - magnitude16(h) * pow2(125)) < pow2(125)
        }),
{
    let e = exp32(b);
    let f = frac32(b);
    let s = b as int / 0x8000_0000;
    let h = half_of_single(b);
    assert(b as int == s * 0x8000_0000 + e * 0x80_0000 + f);
    assert(0 <= s <= 1);
    lemma2_to64();
    lemma_pow2_unfold(125);
    if e < 102 {
        assert(h == s * 0x8000);
        let x = h as u16;
        assert(exp16(x) == 0 && frac16(x) == 0);
        let m = if e == 0 {
            f
        } else {
            0x80_0000 + f
        };
        let k = if e == 0 {
            0nat
        } else {
            (e - 1) as nat
        };
        assert(magnitude32(b) == m * pow2(k));
        if k < 100 {
            lemma_pow2_strictly_increases(k, 100);
        }
        lemma_pow2_pos(k);
        lemma_pow2_adds(24, 100);
        assert(m * pow2(k) < 0x100_0000 * pow2(100)) by (nonlinear_arith)
            requires
                0 <= m < 0x100_0000,
                0 < pow2(k) <= pow2(100),
        ;
        assert(0 <= m * pow2(k)) by (nonlinear_arith)
            requires
                0 <= m,
                0 < pow2(k),
        ;
        assert(0 * pow2(125) == 0);
    } else {
        let unit = pow2((126 - e) as nat) as int;
        let half = pow2((125 - e) as nat) as int;
        let u = pow2((e - 1) as nat) as int;
        lemma_pow2_unfold((126 - e) as nat);
        lemma_pow2_pos((125 - e) as nat);
        lemma_pow2_pos((e - 1) as nat);
        lemma_pow2_adds((126 - e) as nat, (e - 1) as nat);
        lemma_pow2_adds((125 - e) as nat, (e - 1) as nat);
        if 14 < 126 - e {
            lemma_pow2_strictly_increases(14, (126 - e) as nat);
        }
        let q = (f + 0x80_0000 + half) / unit;
        let n = f + 0x80_0000;
        assert(q * unit <= n + half < q * unit + unit) by (nonlinear_arith)
            requires
                q == (n + half) / unit,
                unit > 0,
                n + half >= 0,
        ;
        assert(0 <= q <= 1024) by {
            if 126 - e < 24 {
                lemma_pow2_strictly_increases((126 - e) as nat, 24);
            }
            assert(0 <= q) by (nonlinear_arith)
                requires
                    q * unit + unit > 0,
                    unit > 0,
            ;
            assert(q < 1025) by (nonlinear_arith)
                requires
                    q * unit <= n + half,
                    n < 0x100_0000,
                    unit >= 16384,
                    unit == 2 * half,
            ;
        }
        assert(h == s * 0x8000 + q);
        let x = h as u16;
        assert(magnitude16(x) == q) by {
            if q == 1024 {
                assert(x as int / 1024 == s * 32 + 1);
                assert(exp16(x) == 1 && frac16(x) == 0);
            } else {
                assert(x as int / 1024 == s * 32);
                assert(exp16(x) == 0 && frac16(x) == q);
            }
        }
        assert(q * pow2(125) == (q * unit) * u) by (nonlinear_arith)
            requires
                pow2(125) == unit * u,
        ;
        assert(magnitude32(b) == n * u);
        let d = apart(q * unit, n);
        assert(d <= half);
        assert(apart((q * unit) * u, n * u) == d * u) by (nonlinear_arith)
            requires
                u > 0,
                d == apart(q * unit, n),
        ;
        assert(2 * (d * u) <= 2 * (half * u)) by (nonlinear_arith)
            requires
                0 <= d <= half,
                u > 0,
        ;
        let near = q * unit;
        assert(n - near < half);
        assert(2 * (n * u - near * u) < 2 * (half * u)) by (nonlinear_arith)
            requires
                n - near < half,
                u > 0,
        ;
    }
}

/// Numbers from 65536 on and infinities become infinite, and what is no number
/// stays none, with their signs.
pub proof fn large_narrowing_overflows(b: u32)
    requires
        exp32(b) >= 143,
    ensures
        ({
            let h = half_of_single(b) as u16;
            &&& 0 <= half_of_single(b) <= u16::MAX
            &&& h >= 0x8000 <==> b >= 0x8000_0000
            &&& exp16(h) == 31
            &&& is_nan16(h) <==> is_nan32(b)
        }),
{
    let s = b as int / 0x8000_0000;
    assert(0 <= s <= 1);
    let x = half_of_single(b) as u16;
    assert(x as int / 1024 == s * 32 + 31);
}

/// The 32-bit pattern of an 8-bit power-of-two scale: 2 to the (`raw` - 127),
/// also for `raw == 0`, where the pattern is that of a subnormal number.
pub fn decode_f8_e8m0(raw: u8) -> (b: u32)
    ensures
        b == (if raw == 0 {
            0x40_0000int
        } else {
            raw * 0x80_0000
        }),
{
    if raw == 0 {
        0x40_0000
    } else {
        raw as u32 * 0x80_0000
    }
}

/// The scale that a finite 8-bit pattern decodes to is 2 to the (`raw` - 127).
pub proof fn e8m0_is_power_of_two(raw: u8)
    requires
        raw < 255,
    ensures
        magnitude32(
            (if raw == 0 {
                0x40_0000int
            } else {
                raw * 0x80_0000
            }) as u32,
        ) == pow2((raw + 22) as nat),
{
    lemma2_to64();
    if raw > 0 {
        lemma_fields32(raw * 0x80_0000, 0, raw as int, 0);
        lemma_pow2_adds(23, (raw - 1) as nat);
    }
}

// ---------------------------------------------------------------------------
// Order
// ---------------------------------------------------------------------------

/// A number that orders 32-bit patterns as the numbers they stand for.
pub open spec fn key32(b: u32) -> int {
    if b < 0x8000_0000 {
        b as int
    } else {
        0x8000_0000 - b
    }
}

/// A number that orders 64-bit patterns as the numbers they stand for.
pub open spec fn key64(b: u64) -> int {
    if b < 0x8000_0000_0000_0000 {
        b as int
    } else {
        0x8000_0000_0000_0000 - b
    }
}

/// `a` stands for a smaller number than `b`.
pub open spec fn less32(a: u32, b: u32) -> bool {
    !is_nan32(a) && !is_nan32(b) && key32(a) < key32(b)
}

/// `a` stands for a smaller number than `b`.
pub open spec fn less64(a: u64, b: u64) -> bool {
    !is_nan64(a) && !is_nan64(b) && key64(a) < key64(b)
}

/// The finite 32-bit number, in units of 2 to the -149.
pub open spec fn value32(b: u32) -> int {
    if b < 0x8000_0000 {
        magnitude32(b)
    } else {
        -magnitude32(b)
    }
}

/// The finite 64-bit number, in units of 2 to the -1074.
pub open spec fn value64(b: u64) -> int {
    if b < 0x8000_0000_0000_0000 {
        magnitude64(b)
    } else {
        -magnitude64(b)
    }
}

/// The larger of two exponent-and-fraction pairs makes the larger number.
proof fn lemma_scaled_order(one: int, e: int, f: int, e2: int, f2: int)
    requires
        one > 0,
        0 <= e,
        0 <= e2,
        0 <= f < one,
        0 <= f2 < one,
        e * one + f < e2 * one + f2,
    ensures
        (if e == 0 {
            f
        } else {
            (one + f) * pow2((e - 1) as nat)
        }) < (if e2 == 0 {
            f2
        } else {
            (one + f2) * pow2((e2 - 1) as nat)
        }),
{
    assert(e <= e2) by (nonlinear_arith)
        requires
            one > 0,
            f >= 0,
            f2 < one,
            e * one + f < e2 * one + f2,
    ;
    if e == e2 {
        if e > 0 {
            let p = pow2((e - 1) as nat) as int;
            lemma_pow2_pos((e - 1) as nat);
            assert((one + f) * p < (one + f2) * p) by (nonlinear_arith)
                requires
                    f < f2,
                    p > 0,
            ;
        }
    } else {
        let q = pow2((e2 - 1) as nat) as int;
        lemma_pow2_pos((e2 - 1) as nat);
        if e == 0 {
            assert(f < (one + f2) * q) by (nonlinear_arith)
                requires
                    0 <= f < one,
                    0 <= f2,
                    q >= 1,
            ;
        } else {
            let p = pow2((e - 1) as nat) as int;
            lemma_pow2_pos((e - 1) as nat);
            lemma_pow2_unfold(e as nat);
            if e < e2 - 1 {
                lemma_pow2_strictly_increases(e as nat, (e2 - 1) as nat);
            }
            assert(2 * p <= q);
            assert((one + f) * p < (one + f2) * q) by (nonlinear_arith)
                requires
                    0 <= f < one,
                    0 <= f2,
                    p > 0,
                    2 * p <= q,
            ;
        }
    }
}

/// The fields are those of the pattern without its sign.
proof fn lemma_unsigned32(a: u32)
    ensures
        exp32(a) == (a % 0x8000_0000) as int / 0x80_0000,
        frac32(a) == (a % 0x8000_0000) as int % 0x80_0000,
{
}

proof fn lemma_magnitude_order32(a: u32, b: u32)
    requires
        a % 0x8000_0000 < b % 0x8000_0000,
    ensures
        magnitude32(a) < magnitude32(b),
{
    lemma_unsigned32(a);
    lemma_unsigned32(b);
    lemma_scaled_order(0x80_0000, exp32(a), frac32(a), exp32(b), frac32(b));
}

/// The fields are those of the pattern without its sign.
proof fn lemma_unsigned64(a: u64)
    ensures
        exp64(a) == (a % 0x8000_0000_0000_0000) as int / 0x10_0000_0000_0000,
        frac64(a) == (a % 0x8000_0000_0000_0000) as int % 0x10_0000_0000_0000,
{
}

proof fn lemma_magnitude_order64(a: u64, b: u64)
    requires
        a % 0x8000_0000_0000_0000 < b % 0x8000_0000_0000_0000,
    ensures
        magnitude64(a) < magnitude64(b),
{
    lemma_unsigned64(a);
    lemma_unsigned64(b);
    lemma_scaled_order(0x10_0000_0000_0000, exp64(a), frac64(a), exp64(b), frac64(b));
}

proof fn lemma_magnitude_zero32(a: u32)
    ensures
        magnitude32(a) >= 0,
        (magnitude32(a) == 0) == (a % 0x8000_0000 == 0),
{
    if a % 0x8000_0000 > 0 {
        lemma_magnitude_order32(0, a);
    }
}

proof fn lemma_magnitude_zero64(a: u64)
    ensures
        magnitude64(a) >= 0,
        (magnitude64(a) == 0) == (a % 0x8000_0000_0000_0000 == 0),
{
    if a % 0x8000_0000_0000_0000 > 0 {
        lemma_magnitude_order64(0, a);
    }
}

/// Signs carry an order of magnitudes over to the signed numbers.
proof fn lemma_signed_order(a_neg: bool, x: int, p: int, b_neg: bool, y: int, q: int)
    requires
        x >= 0,
        y >= 0,
        p >= 0,
        q >= 0,
        (p == 0) == (x == 0),
        (q == 0) == (y == 0),
        x < y ==> p < q,
        y < x ==> q < p,
        x == y ==> p == q,
    ensures
        ((if a_neg {
            -x
        } else {
            x
        }) < (if b_neg {
            -y
        } else {
            y
        })) == ((if a_neg {
            -p
        } else {
            p
        }) < (if b_neg {
            -q
        } else {
            q
        })),
{
}

/// The order of the patterns is the order of the finite 32-bit numbers.
pub proof fn order_is_numeric32(a: u32, b: u32)
    requires
        exp32(a) < 255,
        exp32(b) < 255,
    ensures
        less32(a, b) == (value32(a) < value32(b)),
{
    let x = a % 0x8000_0000;
    let y = b % 0x8000_0000;
    lemma_magnitudes32(a, b);
    lemma_signed_order(
        a >= 0x8000_0000,
        x as int,
        magnitude32(a),
        b >= 0x8000_0000,
        y as int,
        magnitude32(b),
    );
}

proof fn lemma_magnitudes32(a: u32, b: u32)
    ensures
        magnitude32(a) >= 0,
        magnitude32(b) >= 0,
        (magnitude32(a) == 0) == (a % 0x8000_0000 == 0),
        (magnitude32(b) == 0) == (b % 0x8000_0000 == 0),
        a % 0x8000_0000 < b % 0x8000_0000 ==> magnitude32(a) < magnitude32(b),
        b % 0x8000_0000 < a % 0x8000_0000 ==> magnitude32(b) < magnitude32(a),
        a % 0x8000_0000 == b % 0x8000_0000 ==> magnitude32(a) == magnitude32(b),
{
    lemma_magnitude_zero32(a);
    lemma_magnitude_zero32(b);
    if a % 0x8000_0000 < b % 0x8000_0000 {
        lemma_magnitude_order32(a, b);
    } else if b % 0x8000_0000 < a % 0x8000_0000 {
        lemma_magnitude_order32(b, a);
    } else {
        lemma_unsigned32(a);
        lemma_unsigned32(b);
    }
}

/// The order of the patterns is the order of the finite 64-bit numbers.
pub proof fn order_is_numeric64(a: u64, b: u64)
    requires
        exp64(a) < 2047,
        exp64(b) < 2047,
    ensures
        less64(a, b) == (value64(a) < value64(b)),
{
    let x = a % 0x8000_0000_0000_0000;
    let y = b % 0x8000_0000_0000_0000;
    lemma_magnitudes64(a, b);
    lemma_signed_order(
        a >= 0x8000_0000_0000_0000,
        x as int,
        magnitude64(a),
        b >= 0x8000_0000_0000_0000,
        y as int,
        magnitude64(b),
    );
}

proof fn lemma_magnitudes64(a: u64, b: u64)
    ensures
        magnitude64(a) >= 0,
        magnitude64(b) >= 0,
        (magnitude64(a) == 0) == (a % 0x8000_0000_0000_0000 == 0),
        (magnitude64(b) == 0) == (b % 0x8000_0000_0000_0000 == 0),
        a % 0x8000_0000_0000_0000 < b % 0x8000_0000_0000_0000 ==> magnitude64(a) < magnitude64(b),
        b % 0x8000_0000_0000_0000 < a % 0x8000_0000_0000_0000 ==> magnitude64(b) < magnitude64(a),
        a % 0x8000_0000_0000_0000 == b % 0x8000_0000_0000_0000 ==> magnitude64(a) == magnitude64(b),
{
    lemma_magnitude_zero64(a);
    lemma_magnitude_zero64(b);
    if a % 0x8000_0000_0000_0000 < b % 0x8000_0000_0000_0000 {
        lemma_magnitude_order64(a, b);
    } else if b % 0x8000_0000_0000_0000 < a % 0x8000_0000_0000_0000 {
        lemma_magnitude_order64(b, a);
    } else {
        lemma_unsigned64(a);
        lemma_unsigned64(b);
    }
}

/// Whether `a` stands for a smaller number than `b`. False where either stands
/// for no number.
pub fn is_less32(a: u32, b: u32) -> (r: bool)
    ensures
        r == less32(a, b),
{
    let a_nan = a / 0x80_0000 % 256 == 255 && a % 0x80_0000 != 0;
    let b_nan = b / 0x80_0000 % 256 == 255 && b % 0x80_0000 != 0;
    let x: i64 = if a < 0x8000_0000 {
        a as i64
    } else {
        0x8000_0000 - a as i64
    };
    let y: i64 = if b < 0x8000_0000 {
        b as i64
    } else {
        0x8000_0000 - b as i64
    };
    !a_nan && !b_nan && x < y
}

/// Whether `a` stands for a smaller number than `b`. False where either stands
/// for no number.
pub fn is_less64(a: u64, b: u64) -> (r: bool)
    ensures
        r == less64(a, b),
{
    let a_nan = a / 0x10_0000_0000_0000 % 2048 == 2047 && a % 0x10_0000_0000_0000 != 0;
    let b_nan = b / 0x10_0000_0000_0000 % 2048 == 2047 && b % 0x10_0000_0000_0000 != 0;
    let x: i128 = if a < 0x8000_0000_0000_0000 {
        a as i128
    } else {
        0x8000_0000_0000_0000 - a as i128
    };
    let y: i128 = if b < 0x8000_0000_0000_0000 {
        b as i128
    } else {
        0x8000_0000_0000_0000 - b as i128
    };
    !a_nan && !b_nan && x < y
}

/// `a` stands for a number that is not above the one of `b`.
pub open spec fn at_most64(a: u64, b: u64) -> bool {
    !is_nan64(a) && !is_nan64(b) && key64(a) <= key64(b)
}

/// Whether `a` stands for a number that is not above the one of `b`. False where
/// either stands for no number.
pub fn is_at_most64(a: u64, b: u64) -> (r: bool)
    ensures
        r == at_most64(a, b),
{
    let a_nan = a / 0x10_0000_0000_0000 % 2048 == 2047 && a % 0x10_0000_0000_0000 != 0;
    let b_nan = b / 0x10_0000_0000_0000 % 2048 == 2047 && b % 0x10_0000_0000_0000 != 0;
    !a_nan && !b_nan && !is_less64(b, a)
}

/// The positive 32-bit number that is nearest to the fraction `p / q`: it is off by at most half a unit of its last place.
pub open spec fn nearest32(b: u32, p: int, q: int) -> bool {
    let unit = pow2((150 - exp32(b)) as nat) as int;
    let off = (0x80_0000 + frac32(b)) * q - p * unit;
    0 < q && b < 0x8000_0000 && 0 < exp32(b) <= 150 && -q <= 2 * off <= q
}

/// The positive 64-bit number that is nearest to the fraction `p / q`: it is off
/// by at most half a unit of its last place.
pub open spec fn nearest64(b: u64, p: int, q: int) -> bool {
    let unit = pow2((1075 - exp64(b)) as nat) as int;
    let off = (0x10_0000_0000_0000 + frac64(b)) * q - p * unit;
    0 < q && b < 0x8000_0000_0000_0000 && 0 < exp64(b) <= 1075 && -q <= 2 * off <= q
}

// ---------------------------------------------------------------------------
// Whole parts
// ---------------------------------------------------------------------------

/// The whole part of a 64-bit number times 2 to the `shift`, held to the range of
/// 64 unsigned bits. What is negative or no number gives zero.
pub open spec fn scaled_whole(b: u64, shift: nat) -> int {
    if is_nan64(b) || b >= 0x8000_0000_0000_0000 {
        0
    } else if exp64(b) == 2047 {
        u64::MAX as int
    } else {
        let whole = (magnitude64(b) * pow2(shift)) / pow2(1074) as int;
        if whole <= u64::MAX {
            whole
        } else {
            u64::MAX as int
        }
    }
}

/// Dividing a number of the form `m * 2^a` by `2^(a + j)` divides `m` by `2^j`.
proof fn lemma_cancel(m: int, a: nat, j: nat)
    requires
        m >= 0,
    ensures
        (m * pow2(a)) / pow2(a + j) as int == m / pow2(j) as int,
{
    let (p, q) = (pow2(a) as int, pow2(j) as int);
    lemma_pow2_pos(a);
    lemma_pow2_pos(j);
    lemma_pow2_adds(a, j);
    lemma_div_denominator(m * p, p, q);
    lemma_div_by_multiple(m, p);
}

/// What the shifted number is, by the distance of its exponent from the unit.
proof fn lemma_scaled(b: u64, shift: nat)
    requires
        b < 0x7ff0_0000_0000_0000,
        shift <= 30,
    ensures
        exp64(b) < 2047,
        exp64(b) == 0 ==> (magnitude64(b) * pow2(shift)) / pow2(1074) as int == 0,
        exp64(b) > 0 && exp64(b) + shift >= 1075 ==> (magnitude64(b) * pow2(shift)) / pow2(
            1074,
        ) as int == (0x10_0000_0000_0000 + frac64(b)) * pow2((exp64(b) + shift - 1075) as nat),
        exp64(b) > 0 && exp64(b) + shift < 1075 ==> (magnitude64(b) * pow2(shift)) / pow2(
            1074,
        ) as int == (0x10_0000_0000_0000 + frac64(b)) / pow2(
            (1075 - shift - exp64(b)) as nat,
        ) as int,
{
    let e = exp64(b);
    let f = frac64(b);
    let unit = pow2(1074) as int;
    assert(e < 2047);
    lemma_pow2_pos(1074);
    if e == 0 {
        lemma2_to64_rest();
        lemma_pow2_adds(52, shift);
        lemma_pow2_strictly_increases(52 + shift, 1074);
        lemma_pow2_pos(shift);
        assert(f * pow2(shift) < pow2(52) * pow2(shift)) by (nonlinear_arith)
            requires
                f < pow2(52),
                pow2(shift) > 0,
        ;
        assert(0 <= f * pow2(shift)) by (nonlinear_arith)
            requires
                f >= 0,
                pow2(shift) > 0,
        ;
        lemma_basic_div(f * pow2(shift), unit);
    } else {
        let m = 0x10_0000_0000_0000 + f;
        let a = (e - 1 + shift) as nat;
        lemma_pow2_adds((e - 1) as nat, shift);
        assert((m * pow2((e - 1) as nat)) * pow2(shift) == m * (pow2((e - 1) as nat) * pow2(shift)))
            by (nonlinear_arith);
        assert(magnitude64(b) * pow2(shift) == m * pow2(a));
        if e + shift >= 1075 {
            let k = (e + shift - 1075) as nat;
            lemma_pow2_adds(1074, k);
            assert(m * (unit * pow2(k)) == (m * pow2(k)) * unit) by (nonlinear_arith);
            lemma_div_by_multiple(m * pow2(k), unit);
        } else {
            lemma_cancel(m, a, (1075 - shift - e) as nat);
        }
    }
}

/// The whole part of a 64-bit number times 2 to the `shift`, held to the range of
/// 64 unsigned bits.
pub fn scaled_to_u64(b: u64, shift: u32) -> (n: u64)
    requires
        shift <= 30,
    ensures
        n == scaled_whole(b, shift as nat),
{
    if b >= 0x8000_0000_0000_0000 || b > 0x7ff0_0000_0000_0000 {
        return 0;
    }
    if b == 0x7ff0_0000_0000_0000 {
        return u64::MAX;
    }
    let e: u64 = b / 0x10_0000_0000_0000 % 2048;
    let m: u64 = 0x10_0000_0000_0000 + b % 0x10_0000_0000_0000;
    proof {
        lemma_scaled(b, shift as nat);
    }
    if e == 0 {
        return 0;
    }
    let at: u64 = e + shift as u64;
    let mut n: u64 = m;
    let mut i: u64 = 0;
    proof {
        lemma2_to64();
    }
    if at >= 1075 {
        let k: u64 = at - 1075;
        if k > 11 {
            proof {
                if k > 12 {
                    lemma_pow2_strictly_increases(12, k as nat);
                }
                assert(m * pow2(k as nat) >= 0x10_0000_0000_0000 * 4096) by (nonlinear_arith)
                    requires
                        m >= 0x10_0000_0000_0000,
                        pow2(k as nat) >= 4096,
                ;
            }
            return u64::MAX;
        }
        while i < k
            invariant
                i <= k <= 11,
                m < 0x20_0000_0000_0000,
                n == m * pow2(i as nat),
            decreases k - i,
        {
            proof {
                lemma_pow2_unfold((i + 1) as nat);
                lemma2_to64();
                if i + 1 < 11 {
                    lemma_pow2_strictly_increases((i + 1) as nat, 11);
                }
                assert(m * (2 * pow2(i as nat)) == 2 * (m * pow2(i as nat))) by (nonlinear_arith);
                assert(m * pow2((i + 1) as nat) <= 0x1f_ffff_ffff_ffff * 2048) by (nonlinear_arith)
                    requires
                        m <= 0x1f_ffff_ffff_ffff,
                        pow2((i + 1) as nat) <= 2048,
                ;
            }
            n = n * 2;
            i = i + 1;
        }
        return n;
    }
    let j: u64 = 1075 - at;
    while i < j
        invariant
            i <= j,
            n == m as int / pow2(i as nat) as int,
        decreases j - i,
    {
        proof {
            lemma_pow2_unfold((i + 1) as nat);
            lemma_pow2_pos(i as nat);
            lemma_div_denominator(m as int, pow2(i as nat) as int, 2);
        }
        n = n / 2;
        i = i + 1;
    }
    n
}

/// The whole part of a product is not above it, and the next number is.
pub proof fn whole_parts_are_below(b: u64, shift: nat)
    requires
        b < 0x8000_0000_0000_0000,
        exp64(b) < 2047,
        scaled_whole(b, shift) < u64::MAX,
    ensures
        scaled_whole(b, shift) * pow2(1074) <= magnitude64(b) * pow2(shift),
        magnitude64(b) * pow2(shift) < (scaled_whole(b, shift) + 1) * pow2(1074),
{
    let (x, d) = (magnitude64(b) * pow2(shift), pow2(1074) as int);
    lemma_pow2_pos(1074);
    lemma_fundamental_div_mod(x, d);
    lemma_mod_bound(x, d);
    let n = x / d;
    assert(d * n == n * d && (n + 1) * d == n * d + d) by (nonlinear_arith);
}

/// Of two finite numbers one is at most the other as their values are, and nothing is
/// said of what is not a number.
pub proof fn at_most_is_numeric64(a: u64, b: u64)
    ensures
        exp64(a) < 2047 && exp64(b) < 2047 ==> at_most64(a, b) == (value64(a) <= value64(b)),
        is_nan64(a) || is_nan64(b) ==> !at_most64(a, b),
{
    if exp64(a) < 2047 && exp64(b) < 2047 {
        order_is_numeric64(b, a);
        assert(!is_nan64(a) && !is_nan64(b));
        assert(at_most64(a, b) == !less64(b, a));
    }
}

} // verus!
