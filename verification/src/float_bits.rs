//! Conversions between IEEE-754 binary32 values, held by their bit pattern,
//! and integers: the saturating truncation of Rust's float-to-integer `as`
//! casts and the round-to-nearest-even of its integer-to-float casts.

use vstd::prelude::*;
use vstd::arithmetic::power2::{
    pow2, lemma_pow2_adds, lemma_pow2_pos, lemma_pow2_strictly_increases, lemma_pow2_unfold,
    lemma2_to64,
};
use vstd::arithmetic::div_mod::{
    lemma_div_by_multiple, lemma_div_multiples_vanish_fancy, lemma_fundamental_div_mod,
    lemma_mod_multiples_vanish,
};
use vstd::bits::{lemma_u64_shl_is_mul, lemma_u64_shr_is_div};

verus! {

/// The biased exponent field of binary32 bits.
pub open spec fn exponent_field(b: u32) -> nat {
    ((b as nat) / 0x80_0000) % 0x100
}

/// The fraction field of binary32 bits.
pub open spec fn fraction_field(b: u32) -> nat {
    (b as nat) % 0x80_0000
}

/// Whether the sign bit is set.
pub open spec fn sign_bit(b: u32) -> bool {
    b >= 0x8000_0000
}

/// Whether the bits encode a NaN.
pub open spec fn is_nan_bits(b: u32) -> bool {
    exponent_field(b) == 0xff && fraction_field(b) != 0
}

/// Whether the bits encode an infinity.
pub open spec fn is_infinite_bits(b: u32) -> bool {
    exponent_field(b) == 0xff && fraction_field(b) == 0
}

/// The magnitude of a finite value rounded toward zero to an integer:
/// `(1.fraction) × 2^(exponent − 127)`, where subnormals are below one.
pub open spec fn truncated_magnitude(b: u32) -> nat {
    let e = exponent_field(b);
    let m = fraction_field(b) + 0x80_0000;
    if e == 0 {
        0
    } else if e >= 150 {
        m * pow2((e - 150) as nat)
    } else {
        m / pow2((150 - e) as nat)
    }
}

/// The `i32` that the cast `x as i32` gives for the value with these bits:
/// NaN is 0, values are truncated toward zero and saturate at the bounds.
pub open spec fn bits_to_i32(b: u32) -> i32 {
    if is_nan_bits(b) {
        0
    } else if is_infinite_bits(b) {
        if sign_bit(b) {
            i32::MIN
        } else {
            i32::MAX
        }
    } else {
        let t = truncated_magnitude(b);
        if sign_bit(b) {
            if t >= 0x8000_0000 {
                i32::MIN
            } else {
                (0 - t) as i32
            }
        } else {
            if t >= 0x7fff_ffff {
                i32::MAX
            } else {
                t as i32
            }
        }
    }
}

/// The `u32` that the cast `x as u32` gives for the value with these bits:
/// NaN and negative values are 0, values are truncated toward zero and
/// saturate at `u32::MAX`.
pub open spec fn bits_to_u32(b: u32) -> u32 {
    if is_nan_bits(b) {
        0
    } else if sign_bit(b) {
        0
    } else if is_infinite_bits(b) {
        u32::MAX
    } else {
        let t = truncated_magnitude(b);
        if t >= 0xffff_ffff {
            u32::MAX
        } else {
            t as u32
        }
    }
}

/// Magnitude of a finite value truncated toward zero, or `None` when it is
/// at least `2^32`.
fn truncate_magnitude(b: u32) -> (r: Option<u64>)
    requires
        exponent_field(b) != 0xff,
    ensures
        match r {
            Some(t) => t == truncated_magnitude(b) && t < 0x1_0000_0000,
            None => truncated_magnitude(b) >= 0x1_0000_0000,
        },
{
    let e: u32 = (b >> 23) & 0xff;
    let f: u32 = b & 0x7f_ffff;
    proof {
        assert(e == (b / 0x80_0000) % 0x100) by (bit_vector)
            requires
                e == (b >> 23) & 0xff,
        ;
        assert(f == b % 0x80_0000) by (bit_vector)
            requires
                f == b & 0x7f_ffff,
        ;
    }
    if e == 0 {
        return Some(0);
    }
    let m: u64 = (f as u64) + 0x80_0000;
    if e >= 150 {
        let k: u64 = (e - 150) as u64;
        if k >= 9 {
            proof {
                if k > 9 {
                    lemma_pow2_strictly_increases(9, k as nat);
                }
                lemma2_to64();
                assert(m * pow2(k as nat) >= 0x80_0000 * pow2(9)) by (nonlinear_arith)
                    requires
                        m >= 0x80_0000,
                        pow2(k as nat) >= pow2(9),
                ;
            }
            return None;
        }
        proof {
            lemma2_to64();
            if k < 9 {
                lemma_pow2_strictly_increases(k as nat, 9);
            }
            assert(m * pow2(k as nat) <= 0x100_0000 * pow2(9)) by (nonlinear_arith)
                requires
                    m <= 0x100_0000,
                    pow2(k as nat) <= pow2(9),
            ;
            lemma_u64_shl_is_mul(m, k);
        }
        let t: u64 = m << k;
        proof {
            if k == 8 {
                assert(pow2(8) == 0x100);
            }
            assert(t < 0x1_0000_0000) by (nonlinear_arith)
                requires
                    t == m * pow2(k as nat),
                    m < 0x100_0000,
                    pow2(k as nat) <= 0x100,
            ;
        }
        Some(t)
    } else {
        let k: u64 = (150 - e) as u64;
        if k >= 32 {
            proof {
                lemma2_to64();
                lemma_pow2_strictly_increases(24, k as nat);
                assert(m as nat / pow2(k as nat) == 0) by (nonlinear_arith)
                    requires
                        m < 0x100_0000,
                        pow2(k as nat) > pow2(24),
                        pow2(24) == 0x100_0000,
                ;
            }
            return Some(0);
        }
        proof {
            lemma_pow2_pos(k as nat);
            lemma_u64_shr_is_div(m, k);
        }
        let t: u64 = m >> k;
        proof {
            assert(t <= m) by (nonlinear_arith)
                requires
                    t == m as nat / pow2(k as nat),
                    pow2(k as nat) > 0,
            ;
        }
        Some(t)
    }
}

/// `x as i32` for the value `x` with binary32 bits `b`.
pub fn bits_as_i32(b: u32) -> (r: i32)
    ensures
        r == bits_to_i32(b),
{
    let e: u32 = (b >> 23) & 0xff;
    let f: u32 = b & 0x7f_ffff;
    let negative = b >= 0x8000_0000;
    proof {
        assert(e == (b / 0x80_0000) % 0x100) by (bit_vector)
            requires
                e == (b >> 23) & 0xff,
        ;
        assert(f == b % 0x80_0000) by (bit_vector)
            requires
                f == b & 0x7f_ffff,
        ;
    }
    if e == 0xff {
        if f != 0 {
            return 0;
        }
        return if negative { i32::MIN } else { i32::MAX };
    }
    match truncate_magnitude(b) {
        None => if negative { i32::MIN } else { i32::MAX },
        Some(t) => {
            if negative {
                if t >= 0x8000_0000 {
                    i32::MIN
                } else {
                    let v: i64 = 0 - (t as i64);
                    v as i32
                }
            } else {
                if t >= 0x7fff_ffff {
                    i32::MAX
                } else {
                    t as i32
                }
            }
        },
    }
}

/// `x as u32` for the value `x` with binary32 bits `b`.
pub fn bits_as_u32(b: u32) -> (r: u32)
    ensures
        r == bits_to_u32(b),
{
    let e: u32 = (b >> 23) & 0xff;
    let f: u32 = b & 0x7f_ffff;
    proof {
        assert(e == (b / 0x80_0000) % 0x100) by (bit_vector)
            requires
                e == (b >> 23) & 0xff,
        ;
        assert(f == b % 0x80_0000) by (bit_vector)
            requires
                f == b & 0x7f_ffff,
        ;
    }
    if e == 0xff && f != 0 {
        return 0;
    }
    if b >= 0x8000_0000 {
        return 0;
    }
    if e == 0xff {
        return u32::MAX;
    }
    match truncate_magnitude(b) {
        None => u32::MAX,
        Some(t) => {
            if t >= 0xffff_ffff {
                u32::MAX
            } else {
                t as u32
            }
        },
    }
}

/// The position of the highest set bit of a positive natural, `⌊log₂ n⌋`.
pub open spec fn highest_bit(n: nat) -> nat
    decreases n,
{
    if n < 2 {
        0
    } else {
        1 + highest_bit(n / 2)
    }
}

/// The binary32 bits of the value nearest to the natural `n`, ties going to
/// the even significand: the bits of `n as f32` for `n < 2^32`.
pub open spec fn nearest_bits(n: nat) -> u32 {
    if n == 0 {
        0
    } else {
        let p = highest_bit(n);
        if p <= 23 {
            ((p + 127) * 0x80_0000 + (n * pow2((23 - p) as nat) - 0x80_0000)) as u32
        } else {
            let s = (p - 23) as nat;
            let q = n / pow2(s);
            let r = n % pow2(s);
            let half = pow2((s - 1) as nat);
            let m = if r > half || (r == half && q % 2 == 1) {
                q + 1
            } else {
                q
            };
            if m == 0x100_0000 {
                ((p + 128) * 0x80_0000) as u32
            } else {
                ((p + 127) * 0x80_0000 + (m - 0x80_0000)) as u32
            }
        }
    }
}

/// The bits of `n as f32`.
pub open spec fn u32_to_bits(n: u32) -> u32 {
    nearest_bits(n as nat)
}

/// The bits of `n as f32`: the sign bit over the bits of the magnitude.
pub open spec fn i32_to_bits(n: i32) -> u32 {
    if n < 0 {
        (0x8000_0000 + nearest_bits((0 - n) as nat)) as u32
    } else {
        nearest_bits(n as nat)
    }
}

proof fn lemma_highest_bit_bounds(n: nat)
    requires
        n >= 1,
    ensures
        pow2(highest_bit(n)) <= n < pow2(highest_bit(n) + 1),
    decreases n,
{
    if n >= 2 {
        let p = highest_bit(n / 2);
        lemma_highest_bit_bounds(n / 2);
        lemma_pow2_unfold(p + 1);
        lemma_pow2_unfold(p + 2);
        assert(highest_bit(n) == p + 1);
    } else {
        lemma2_to64();
    }
}

/// `2^e`, for `e <= 23`.
fn pow2_u64(e: u64) -> (r: u64)
    requires
        e <= 23,
    ensures
        r == pow2(e as nat),
{
    let mut r: u64 = 1;
    let mut i: u64 = 0;
    proof {
        lemma2_to64();
    }
    while i < e
        invariant
            i <= e <= 23,
            r == pow2(i as nat),
        decreases e - i,
    {
        proof {
            lemma_pow2_unfold((i + 1) as nat);
            lemma_pow2_strictly_increases((i + 1) as nat, 24);
            lemma2_to64();
        }
        r = r * 2;
        i = i + 1;
    }
    r
}

/// The bits of the binary32 value nearest to `n`.
fn nearest_bits_of(n: u64) -> (r: u32)
    requires
        n < 0x1_0000_0000,
    ensures
        r == nearest_bits(n as nat),
        r < 0x8000_0000,
{
    if n == 0 {
        return 0;
    }
    proof {
        lemma_highest_bit_bounds(n as nat);
        lemma2_to64();
        if highest_bit(n as nat) >= 32 {
            if highest_bit(n as nat) > 32 {
                lemma_pow2_strictly_increases(32, highest_bit(n as nat));
            }
        }
    }
    let mut p: u64 = 0;
    let mut t: u64 = n;
    while t >= 2
        invariant
            1 <= t <= n < 0x1_0000_0000,
            p + highest_bit(t as nat) == highest_bit(n as nat),
            highest_bit(n as nat) < 32,
        decreases t,
    {
        t = t / 2;
        p = p + 1;
    }
    let ghost hb = highest_bit(n as nat);
    assert(p == hb);
    proof {
        lemma_pow2_adds(p as nat, 1);
    }
    if p <= 23 {
        let k: u64 = 23 - p;
        let d = pow2_u64(k);
        proof {
            lemma_pow2_adds(p as nat, k as nat);
            lemma_pow2_adds((p + 1) as nat, k as nat);
            assert(n * d < 0x100_0000 && n * d >= 0x80_0000) by (nonlinear_arith)
                requires
                    pow2(p as nat) <= n < pow2((p + 1) as nat),
                    pow2(p as nat) * d == 0x80_0000,
                    pow2((p + 1) as nat) * d == 0x100_0000,
                    d > 0,
            ;
        }
        let mant: u64 = n * d;
        let bits: u64 = (p + 127) * 0x80_0000 + (mant - 0x80_0000);
        bits as u32
    } else {
        let s: u64 = p - 23;
        let d = pow2_u64(s);
        let q: u64 = n / d;
        let r: u64 = n % d;
        let half: u64 = d / 2;
        proof {
            lemma_pow2_adds(23, s as nat);
            lemma_pow2_adds(24, s as nat);
            lemma_pow2_unfold(s as nat);
            lemma_fundamental_div_mod(n as int, d as int);
            assert(pow2((p + 1) as nat) == pow2(24) * d);
            assert(0x80_0000 <= q < 0x100_0000) by (nonlinear_arith)
                requires
                    0x80_0000 * d <= n < 0x100_0000 * d,
                    d * q + r == n,
                    0 <= r < d,
                    d > 0,
            ;
        }
        let m: u64 = if r > half || (r == half && q % 2 == 1) {
            q + 1
        } else {
            q
        };
        if m == 0x100_0000 {
            let bits: u64 = (p + 128) * 0x80_0000;
            bits as u32
        } else {
            let bits: u64 = (p + 127) * 0x80_0000 + (m - 0x80_0000);
            bits as u32
        }
    }
}

/// `n as f32`, by its bits.
pub fn u32_as_bits(n: u32) -> (r: u32)
    ensures
        r == u32_to_bits(n),
{
    nearest_bits_of(n as u64)
}

/// `n as f32`, by its bits.
pub fn i32_as_bits(n: i32) -> (r: u32)
    ensures
        r == i32_to_bits(n),
{
    if n < 0 {
        let m: i64 = 0 - (n as i64);
        let b = nearest_bits_of(m as u64);
        0x8000_0000 + b
    } else {
        nearest_bits_of(n as u64)
    }
}

/// An integer below `2^24` survives the round trip through a float:
/// `(n as f32) as u32 == n`.
pub proof fn small_integers_round_trip(n: u32)
    requires
        n < 0x100_0000,
    ensures
        bits_to_u32(u32_to_bits(n)) == n,
{
    if n == 0 {
        return;
    }
    lemma_highest_bit_bounds(n as nat);
    lemma2_to64();
    let p = highest_bit(n as nat);
    if p > 23 {
        lemma_pow2_strictly_increases(24, p);
    }
    assert(p <= 23);
    let k = (23 - p) as nat;
    lemma_pow2_adds(p, k);
    lemma_pow2_adds(p + 1, k);
    lemma_pow2_pos(k);
    let mant: int = n * pow2(k);
    assert(0x80_0000 <= mant < 0x100_0000) by (nonlinear_arith)
        requires
            pow2(p) <= n < pow2(p + 1),
            pow2(p) * pow2(k) == 0x80_0000,
            pow2(p + 1) * pow2(k) == 0x100_0000,
            mant == n * pow2(k),
    ;
    let f = (mant - 0x80_0000) as nat;
    let e = (p + 127) as nat;
    let b = nearest_bits(n as nat);
    assert(b == e * 0x80_0000 + f);
    lemma_div_multiples_vanish_fancy(e as int, f as int, 0x80_0000);
    assert((b as int) / 0x80_0000 == e) by (nonlinear_arith)
        requires
            b == e * 0x80_0000 + f,
            (0x80_0000 * e + f) / 0x80_0000 == e,
    ;
    lemma_fundamental_div_mod(b as int, 0x80_0000);
    assert(exponent_field(b) == e);
    assert(fraction_field(b) == f);
    assert(fraction_field(b) + 0x80_0000 == mant);
    lemma_div_by_multiple(n as int, pow2(k) as int);
    assert(mant / (pow2(k) as int) == n);
    if e >= 150 {
        assert(k == 0);
        assert(pow2(k) == 1);
        assert(mant == n) by (nonlinear_arith)
            requires
                mant == n * pow2(k),
                pow2(k) == 1,
        ;
        assert(truncated_magnitude(b) == mant * pow2(0));
    } else {
        assert((150 - e) as nat == k);
        assert(truncated_magnitude(b) == mant / (pow2(k) as int));
    }
    assert(truncated_magnitude(b) == n);
}

} // verus!
