//! Fixed-point vector normalization for vertex normals.
//!
//! Normalizing a vector needs a square root, which no exact rational carries,
//! so normals use a fixed-point unit scale: a unit vector is an integer
//! triple whose components are `NORMAL_SCALE` times the real components,
//! truncated toward zero. The scaling factor of the input cancels out, so any
//! positive multiple of a direction normalizes to the same triple, and the
//! whole pass is deterministic integer arithmetic pinned down by [`isqrt_r`].

use vstd::arithmetic::div_mod::{
    lemma_div_is_ordered, lemma_div_multiples_vanish, lemma_fundamental_div_mod,
};
use vstd::prelude::*;

verus! {

/// Fixed-point scale of unit vectors: the triple `(NORMAL_SCALE, 0, 0)`
/// is the unit vector along X.
pub const NORMAL_SCALE: i128 = 65536;

/// Magnitude bound on vector components accepted by [`normalize_fixed`];
/// far above anything the mesh generator produces, yet small enough that the
/// squared length and the scaled quotients cannot overflow.
pub const NORMAL_INPUT_BOUND: i128 = 0x8000_0000_0000;

/// The integer square root: the largest `r` with `r * r <= n`.
pub open spec fn isqrt_r(n: nat) -> nat
    decreases n,
{
    if n == 0 {
        0
    } else {
        let p = isqrt_r((n - 1) as nat);
        if (p + 1) * (p + 1) <= n {
            p + 1
        } else {
            p
        }
    }
}

/// [`isqrt_r`] squares to at most its argument, and one more already
/// overshoots.
pub proof fn lemma_isqrt_bounds(n: nat)
    ensures
        isqrt_r(n) * isqrt_r(n) <= n,
        n < (isqrt_r(n) + 1) * (isqrt_r(n) + 1),
    decreases n,
{
    if n == 0 {
        assert(isqrt_r(n) == 0);
        assert(n < (isqrt_r(n) + 1) * (isqrt_r(n) + 1)) by (nonlinear_arith)
            requires
                n == 0,
                isqrt_r(n) == 0,
        ;
    } else {
        let p = isqrt_r((n - 1) as nat);
        lemma_isqrt_bounds((n - 1) as nat);
        assert(isqrt_r(n) == if (p + 1) * (p + 1) <= n {
            p + 1
        } else {
            p
        });
        if (p + 1) * (p + 1) <= n {
            assert(n < (p + 2) * (p + 2)) by (nonlinear_arith)
                requires
                    n - 1 < (p + 1) * (p + 1),
                    p >= 0,
            ;
        }
    }
}

/// Any `r` between the two square bounds is the integer square root.
pub proof fn lemma_isqrt_unique(n: nat, r: nat)
    requires
        r * r <= n,
        n < (r + 1) * (r + 1),
    ensures
        r == isqrt_r(n),
{
    let s = isqrt_r(n);
    lemma_isqrt_bounds(n);
    if r < s {
        assert(false) by (nonlinear_arith)
            requires
                r < s,
                s * s <= n,
                n < (r + 1) * (r + 1),
                r >= 0,
        ;
    }
    if s < r {
        assert(false) by (nonlinear_arith)
            requires
                s < r,
                r * r <= n,
                n < (s + 1) * (s + 1),
                s >= 0,
        ;
    }
}

/// Computes the integer square root of `n` by bisection.
pub fn isqrt(n: u128) -> (r: u128)
    ensures
        r as nat == isqrt_r(n as nat),
        r * r <= n,
        n < (r + 1) * (r + 1),
{
    let mut lo: u128 = 0;
    let mut hi: u128 = 0x1_0000_0000_0000_0000;
    proof {
        assert((n as int) < hi * hi) by (nonlinear_arith)
            requires
                hi == 0x1_0000_0000_0000_0000,
                n <= u128::MAX,
        ;
    }
    while lo + 1 < hi
        invariant
            lo < hi <= 0x1_0000_0000_0000_0000,
            lo * lo <= n,
            (n as int) < hi * hi,
        decreases hi - lo,
    {
        let mid = lo + (hi - lo) / 2;
        proof {
            assert(lo < mid < hi);
            crate::rat::lemma_mul_in_bounds(
                mid as int,
                mid as int,
                0xFFFF_FFFF_FFFF_FFFF,
                0xFFFF_FFFF_FFFF_FFFF,
            );
        }
        if mid * mid <= n {
            lo = mid;
        } else {
            hi = mid;
        }
    }
    proof {
        assert(hi == lo + 1);
        lemma_isqrt_unique(n as nat, lo as nat);
    }
    lo
}

/// The squared length of an integer vector.
pub open spec fn sq_len(v: (int, int, int)) -> int {
    v.0 * v.0 + v.1 * v.1 + v.2 * v.2
}

/// Integer division truncating toward zero, for a positive divisor.
pub open spec fn sdiv_trunc(a: int, b: int) -> int {
    if a >= 0 {
        a / b
    } else {
        -((-a) / b)
    }
}

/// The fixed-point unit vector in the direction of `v`: each component is
/// `v_i * NORMAL_SCALE / isqrt(|v|^2)` truncated toward zero; the zero vector
/// stays zero.
pub open spec fn unit_fixed(v: (int, int, int)) -> (int, int, int) {
    let m = sq_len(v);
    if m == 0 {
        (0, 0, 0)
    } else {
        let l = isqrt_r(m as nat) as int;
        (
            sdiv_trunc(v.0 * (NORMAL_SCALE as int), l),
            sdiv_trunc(v.1 * (NORMAL_SCALE as int), l),
            sdiv_trunc(v.2 * (NORMAL_SCALE as int), l),
        )
    }
}

/// One component of [`unit_fixed`]: squared and multiplied by the squared
/// length root, it is within `2 * (l - 1) * w * NORMAL_SCALE` below the
/// exact square `(w * NORMAL_SCALE)^2`, and never above it.
proof fn lemma_trunc_sq_bounds(w: int, l: int)
    requires
        0 <= w <= l,
        1 <= l,
    ensures
        ({
            let s = NORMAL_SCALE as int;
            let q = (w * s) / l;
            &&& (q * q) * (l * l) <= (w * s) * (w * s)
            &&& (q * q) * (l * l) >= (w * s) * (w * s) - 2 * (l - 1) * (w * s)
        }),
{
    let s = NORMAL_SCALE as int;
    let a = w * s;
    let q = a / l;
    assert(0 <= a) by (nonlinear_arith)
        requires
            0 <= w,
            s > 0,
            a == w * s,
    ;
    lemma_fundamental_div_mod(a, l);
    vstd::arithmetic::div_mod::lemma_mod_bound(a, l);
    let rem = a % l;
    assert(q * l == a - rem) by (nonlinear_arith)
        requires
            a == l * q + rem,
    ;
    assert(0 <= q) by (nonlinear_arith)
        requires
            q * l == a - rem,
            0 <= a,
            0 <= rem < l,
            1 <= l,
    ;
    assert((q * l) * (q * l) <= a * a) by (nonlinear_arith)
        requires
            0 <= q * l <= a,
    ;
    assert((q * l) * (q * l) >= a * a - 2 * (l - 1) * a) by (nonlinear_arith)
        requires
            q * l == a - rem,
            0 <= rem <= l - 1,
            0 <= a,
    ;
    assert((q * q) * (l * l) == (q * l) * (q * l)) by (nonlinear_arith);
}

/// The fixed-point normalization of a nonzero vector has unit length up to
/// its integer rounding: writing `S` for the unit scale and `l` for the
/// integer square root of the input's squared length, the squared length of
/// the result is at least `S^2 - 6*S`, and at most `S^2 * |v|^2 / l^2`
/// (stated multiplied out), which is below `S^2 * (1 + 1/l)^2`.
pub proof fn lemma_unit_fixed_length(v: (int, int, int))
    requires
        sq_len(v) > 0,
    ensures
        ({
            let s = NORMAL_SCALE as int;
            let l = isqrt_r(sq_len(v) as nat) as int;
            let u = unit_fixed(v);
            &&& s * s - 6 * s <= sq_len(u)
            &&& sq_len(u) * (l * l) <= s * s * sq_len(v)
            &&& s * s * sq_len(v) < s * s * ((l + 1) * (l + 1))
        }),
{
    let s = NORMAL_SCALE as int;
    let m = sq_len(v);
    lemma_isqrt_bounds(m as nat);
    let l = isqrt_r(m as nat) as int;
    assert(l >= 1) by (nonlinear_arith)
        requires
            m > 0,
            l >= 0,
            m < (l + 1) * (l + 1),
    ;
    let w0 = abs3(v).0;
    let w1 = abs3(v).1;
    let w2 = abs3(v).2;
    assert(w0 * w0 == v.0 * v.0 && w1 * w1 == v.1 * v.1 && w2 * w2 == v.2 * v.2)
        by (nonlinear_arith)
        requires
            w0 == if v.0 >= 0 { v.0 } else { -v.0 },
            w1 == if v.1 >= 0 { v.1 } else { -v.1 },
            w2 == if v.2 >= 0 { v.2 } else { -v.2 },
    ;
    assert(w0 <= l && w1 <= l && w2 <= l) by (nonlinear_arith)
        requires
            w0 * w0 <= m,
            w1 * w1 <= m,
            w2 * w2 <= m,
            m < (l + 1) * (l + 1),
            w0 >= 0,
            w1 >= 0,
            w2 >= 0,
            l >= 0,
    ;
    let u = unit_fixed(v);
    assert(u.0 * u.0 == ((w0 * s) / l) * ((w0 * s) / l) && u.1 * u.1 == ((w1 * s) / l) * ((w1 * s)
        / l) && u.2 * u.2 == ((w2 * s) / l) * ((w2 * s) / l)) by {
        lemma_sdiv_trunc_sq(v.0, w0, l);
        lemma_sdiv_trunc_sq(v.1, w1, l);
        lemma_sdiv_trunc_sq(v.2, w2, l);
    }
    lemma_trunc_sq_bounds(w0, l);
    lemma_trunc_sq_bounds(w1, l);
    lemma_trunc_sq_bounds(w2, l);
    let q0 = (w0 * s) / l;
    let q1 = (w1 * s) / l;
    let q2 = (w2 * s) / l;
    assert(sq_len(u) * (l * l) == (q0 * q0) * (l * l) + (q1 * q1) * (l * l) + (q2 * q2) * (l * l))
        by (nonlinear_arith)
        requires
            sq_len(u) == q0 * q0 + q1 * q1 + q2 * q2,
    ;
    assert((w0 * s) * (w0 * s) + (w1 * s) * (w1 * s) + (w2 * s) * (w2 * s) == s * s * m)
        by (nonlinear_arith)
        requires
            m == w0 * w0 + w1 * w1 + w2 * w2,
    ;
    assert(sq_len(u) * (l * l) <= s * s * m);
    assert(s * s * m < s * s * ((l + 1) * (l + 1))) by (nonlinear_arith)
        requires
            m < (l + 1) * (l + 1),
            s > 0,
    ;
    assert(2 * (l - 1) * (w0 * s) + 2 * (l - 1) * (w1 * s) + 2 * (l - 1) * (w2 * s) <= 6 * (l * l)
        * s) by (nonlinear_arith)
        requires
            0 <= w0 <= l,
            0 <= w1 <= l,
            0 <= w2 <= l,
            1 <= l,
            s > 0,
    ;
    assert(sq_len(u) * (l * l) >= s * s * m - 6 * (l * l) * s);
    assert(s * s * m >= s * s * (l * l)) by (nonlinear_arith)
        requires
            m >= l * l,
            s > 0,
    ;
    assert(sq_len(u) * (l * l) >= (s * s - 6 * s) * (l * l)) by (nonlinear_arith)
        requires
            sq_len(u) * (l * l) >= s * s * (l * l) - 6 * (l * l) * s,
    ;
    assert(sq_len(u) >= s * s - 6 * s) by (nonlinear_arith)
        requires
            sq_len(u) * (l * l) >= (s * s - 6 * s) * (l * l),
            l >= 1,
    ;
}

/// The componentwise magnitudes of an integer vector.
pub open spec fn abs3(v: (int, int, int)) -> (int, int, int) {
    (
        if v.0 >= 0 {
            v.0
        } else {
            -v.0
        },
        if v.1 >= 0 {
            v.1
        } else {
            -v.1
        },
        if v.2 >= 0 {
            v.2
        } else {
            -v.2
        },
    )
}

/// Truncating division squares like the magnitude's Euclidean division.
proof fn lemma_sdiv_trunc_sq(x: int, w: int, l: int)
    requires
        w == if x >= 0 {
            x
        } else {
            -x
        },
        l >= 1,
    ensures
        sdiv_trunc(x * (NORMAL_SCALE as int), l) * sdiv_trunc(x * (NORMAL_SCALE as int), l) == ((w
            * (NORMAL_SCALE as int)) / l) * ((w * (NORMAL_SCALE as int)) / l),
{
    let s = NORMAL_SCALE as int;
    if x >= 0 {
    } else {
        assert(x * s == -(w * s)) by (nonlinear_arith)
            requires
                w == -x,
        ;
        assert(sdiv_trunc(x * s, l) == -((w * s) / l));
        assert((-((w * s) / l)) * (-((w * s) / l)) == ((w * s) / l) * ((w * s) / l))
            by (nonlinear_arith);
    }
}

/// One component of the fixed-point normalization: `a * NORMAL_SCALE / l`
/// truncated toward zero. Because `|a| <= l`, the result is within
/// `[-NORMAL_SCALE, NORMAL_SCALE]`.
fn scale_component(a: i128, l: u128) -> (r: i128)
    requires
        l > 0,
        -(l as int) <= a <= l as int,
        l <= 0x1_0000_0000_0000_0000,
    ensures
        r as int == sdiv_trunc(a * (NORMAL_SCALE as int), l as int),
        -NORMAL_SCALE <= r <= NORMAL_SCALE,
{
    let mag: u128 = if a < 0 {
        (-a) as u128
    } else {
        a as u128
    };
    proof {
        crate::rat::lemma_mul_in_bounds(
            mag as int,
            NORMAL_SCALE as int,
            0x1_0000_0000_0000_0000,
            NORMAL_SCALE as int,
        );
    }
    let q: u128 = mag * (NORMAL_SCALE as u128) / l;
    proof {
        assert(mag * (NORMAL_SCALE as u128) <= (l as int) * (NORMAL_SCALE as int))
            by (nonlinear_arith)
            requires
                0 <= mag <= l,
                mag * (NORMAL_SCALE as u128) == (mag as int) * (NORMAL_SCALE as int),
        ;
        lemma_div_is_ordered(
            (mag * (NORMAL_SCALE as u128)) as int,
            (l as int) * (NORMAL_SCALE as int),
            l as int,
        );
        lemma_div_multiples_vanish(NORMAL_SCALE as int, l as int);
        assert((l as int) * (NORMAL_SCALE as int) / (l as int) == NORMAL_SCALE as int);
        assert(q <= NORMAL_SCALE);
    }
    let qi: i128 = q as i128;
    if a < 0 {
        -qi
    } else {
        qi
    }
}

/// Normalizes the integer vector `(x, y, z)` to the fixed-point unit scale,
/// exactly as [`unit_fixed`] states; every component of the result lies in
/// `[-NORMAL_SCALE, NORMAL_SCALE]`.
pub fn normalize_fixed(x: i128, y: i128, z: i128) -> (r: (i128, i128, i128))
    requires
        -NORMAL_INPUT_BOUND <= x <= NORMAL_INPUT_BOUND,
        -NORMAL_INPUT_BOUND <= y <= NORMAL_INPUT_BOUND,
        -NORMAL_INPUT_BOUND <= z <= NORMAL_INPUT_BOUND,
    ensures
        (r.0 as int, r.1 as int, r.2 as int) == unit_fixed((x as int, y as int, z as int)),
        -NORMAL_SCALE <= r.0 <= NORMAL_SCALE,
        -NORMAL_SCALE <= r.1 <= NORMAL_SCALE,
        -NORMAL_SCALE <= r.2 <= NORMAL_SCALE,
{
    let ghost b: int = NORMAL_INPUT_BOUND as int;
    proof {
        crate::rat::lemma_mul_in_bounds(x as int, x as int, b, b);
        crate::rat::lemma_mul_in_bounds(y as int, y as int, b, b);
        crate::rat::lemma_mul_in_bounds(z as int, z as int, b, b);
        assert(x * x >= 0 && y * y >= 0 && z * z >= 0) by (nonlinear_arith);
    }
    let m: i128 = x * x + y * y + z * z;
    if m == 0 {
        proof {
            assert(x as int == 0 && y as int == 0 && z as int == 0) by (nonlinear_arith)
                requires
                    x * x + y * y + z * z == 0,
                    x * x >= 0,
                    y * y >= 0,
                    z * z >= 0,
            ;
        }
        return (0, 0, 0);
    }
    let l: u128 = isqrt(m as u128);
    proof {
        assert(l > 0) by (nonlinear_arith)
            requires
                l * l <= m,
                (m as int) < (l + 1) * (l + 1),
                m > 0,
                l >= 0,
        ;
        assert(l <= 0x1_0000_0000_0000_0000) by (nonlinear_arith)
            requires
                l * l <= m,
                m <= 3 * b * b,
                b == 0x8000_0000_0000,
                l >= 0,
        ;
        assert(-(l as int) <= x as int <= l as int) by (nonlinear_arith)
            requires
                (x as int) * (x as int) <= m,
                (m as int) < (l + 1) * (l + 1),
                l >= 0,
        ;
        assert(-(l as int) <= y as int <= l as int) by (nonlinear_arith)
            requires
                (y as int) * (y as int) <= m,
                (m as int) < (l + 1) * (l + 1),
                l >= 0,
        ;
        assert(-(l as int) <= z as int <= l as int) by (nonlinear_arith)
            requires
                (z as int) * (z as int) <= m,
                (m as int) < (l + 1) * (l + 1),
                l >= 0,
        ;
    }
    let rx = scale_component(x, l);
    let ry = scale_component(y, l);
    let rz = scale_component(z, l);
    (rx, ry, rz)
}

} // verus!
