//! Fixed-point plane vectors and the integer arithmetic the simulation uses.
use vstd::prelude::*;

verus! {

/// Fixed-point scale: one world unit is `UNIT` steps, and a unit direction
/// vector has a length of about `UNIT`.
pub const UNIT: i64 = 1000;

/// Largest coordinate magnitude the simulation accepts for positions,
/// velocities and penetration depths.
pub const COORD_MAX: i64 = 2147483648;

/// A plane vector in fixed-point thousandths.
#[derive(Clone, Copy, Debug, PartialEq, Eq, Structural)]
pub struct Vec2 {
    pub x: i64,
    pub y: i64,
}

/// Floor of `a / b` for a positive divisor.
pub open spec fn floor_div(a: int, b: int) -> int
    recommends
        b > 0,
{
    a / b
}

pub open spec fn in_coord_range(v: int) -> bool {
    -COORD_MAX <= v <= COORD_MAX
}

pub open spec fn is_bounded(v: Vec2) -> bool {
    in_coord_range(v.x as int) && in_coord_range(v.y as int)
}

/// A direction: each component lies within one unit.
pub open spec fn is_direction(v: Vec2) -> bool {
    -UNIT <= v.x <= UNIT && -UNIT <= v.y <= UNIT
}

pub open spec fn dot_spec(a: Vec2, b: Vec2) -> int {
    a.x * b.x + a.y * b.y
}

pub open spec fn norm_sq(v: Vec2) -> int {
    v.x * v.x + v.y * v.y
}

/// `r` is the integer square root of `n`.
pub open spec fn is_isqrt(n: int, r: int) -> bool {
    0 <= r && r * r <= n && n < (r + 1) * (r + 1)
}

/// Unit direction of `v` at the fixed-point scale, or zero for the zero vector.
pub open spec fn normalized(v: Vec2, len: int) -> (int, int) {
    if len == 0 {
        (0, 0)
    } else {
        (floor_div(v.x * UNIT, len), floor_div(v.y * UNIT, len))
    }
}

/// `r` is the unit direction of `v` (zero for the zero vector).
pub open spec fn is_normalized_of(v: Vec2, r: Vec2) -> bool {
    exists|len: int| is_isqrt(norm_sq(v), len) && normalized(v, len) == (r.x as int, r.y as int)
}

/// Floor division of a signed value by a positive divisor.
pub fn div_floor(a: i128, b: i128) -> (r: i128)
    requires
        b > 0,
        a > i128::MIN,
    ensures
        r == floor_div(a as int, b as int),
{
    if a >= 0 {
        a / b
    } else {
        let m: i128 = -a;
        let q: i128 = m / b;
        let rem: i128 = m % b;
        proof {
            assert(m == b * q + rem) by (nonlinear_arith)
                requires
                    q == m / b,
                    rem == m % b,
                    b > 0,
                    m >= 0,
            ;
        }
        if rem == 0 {
            proof {
                assert(a == b * (-q) + 0) by (nonlinear_arith)
                    requires
                        m == b * q + rem,
                        rem == 0,
                        a == -m,
                ;
                vstd::arithmetic::div_mod::lemma_fundamental_div_mod_converse(a as int, b as int, -q as int, 0);
            }
            -q
        } else {
            proof {
                assert(a == b * (-q - 1) + (b - rem)) by (nonlinear_arith)
                    requires
                        m == b * q + rem,
                        a == -m,
                ;
                vstd::arithmetic::div_mod::lemma_fundamental_div_mod_converse(
                    a as int,
                    b as int,
                    -q - 1,
                    b - rem,
                );
            }
            -q - 1
        }
    }
}

/// Integer square root by bisection.
pub fn isqrt(n: u64) -> (r: u64)
    ensures
        is_isqrt(n as int, r as int),
{
    let mut lo: u64 = 0;
    let mut hi: u64 = 4294967296;
    assert(hi * hi > n) by (nonlinear_arith)
        requires
            hi == 4294967296u64,
    ;
    while hi - lo > 1
        invariant
            lo < hi <= 4294967296,
            lo * lo <= n,
            n < hi * hi,
        decreases hi - lo,
    {
        let mid: u64 = lo + (hi - lo) / 2;
        assert((mid as int) * (mid as int) < 18446744073709551616) by (nonlinear_arith)
            requires
                mid < 4294967296,
        ;
        let sq: u128 = (mid as u128) * (mid as u128);
        if sq <= n as u128 {
            lo = mid;
        } else {
            hi = mid;
        }
    }
    assert(hi == lo + 1);
    lo
}

/// Dot product, exact in 128 bits.
pub fn dot(a: Vec2, b: Vec2) -> (r: i128)
    requires
        is_bounded(a),
        is_bounded(b),
    ensures
        r == dot_spec(a, b),
{
    proof {
        lemma_bounded_product(a.x as int, b.x as int);
        lemma_bounded_product(a.y as int, b.y as int);
    }
    (a.x as i128) * (b.x as i128) + (a.y as i128) * (b.y as i128)
}

pub proof fn lemma_bounded_product(a: int, b: int)
    requires
        in_coord_range(a),
        in_coord_range(b),
    ensures
        -COORD_MAX * COORD_MAX <= a * b <= COORD_MAX * COORD_MAX,
{
    assert(-COORD_MAX * COORD_MAX <= a * b <= COORD_MAX * COORD_MAX) by (nonlinear_arith)
        requires
            -COORD_MAX <= a <= COORD_MAX,
            -COORD_MAX <= b <= COORD_MAX,
    ;
}

/// The unit direction of `v`, or zero when `v` is zero (the length is the
/// integer square root of the squared length).
pub fn normalize_or_zero(v: Vec2) -> (r: Vec2)
    requires
        is_bounded(v),
    ensures
        is_normalized_of(v, r),
        is_direction(r),
{
    proof {
        lemma_bounded_product(v.x as int, v.x as int);
        lemma_bounded_product(v.y as int, v.y as int);
    }
    let sq: i128 = (v.x as i128) * (v.x as i128) + (v.y as i128) * (v.y as i128);
    assert(0 <= sq <= 2 * COORD_MAX * COORD_MAX) by (nonlinear_arith)
        requires
            sq == v.x * v.x + v.y * v.y,
            -COORD_MAX <= v.x <= COORD_MAX,
            -COORD_MAX <= v.y <= COORD_MAX,
    ;
    let len: u64 = isqrt(sq as u64);
    assert(is_isqrt(norm_sq(v), len as int));
    if len == 0 {
        let r = Vec2 { x: 0, y: 0 };
        assert(normalized(v, len as int) == (r.x as int, r.y as int));
        r
    } else {
        let l: i128 = len as i128;
        proof {
            lemma_component_within_len(v.x as int, v.y as int, len as int);
            lemma_component_within_len(v.y as int, v.x as int, len as int);
        }
        let x: i128 = div_floor((v.x as i128) * 1000, l);
        let y: i128 = div_floor((v.y as i128) * 1000, l);
        proof {
            lemma_unit_quotient(v.x as int, len as int);
            lemma_unit_quotient(v.y as int, len as int);
        }
        let r = Vec2 { x: x as i64, y: y as i64 };
        assert(normalized(v, len as int) == (r.x as int, r.y as int));
        r
    }
}

proof fn lemma_component_within_len(a: int, b: int, len: int)
    requires
        len > 0,
        a * a + b * b < (len + 1) * (len + 1),
    ensures
        -len <= a <= len,
{
    assert(a * a <= len * len + 2 * len) by (nonlinear_arith)
        requires
            a * a + b * b < (len + 1) * (len + 1),
    ;
    assert(b * b >= 0) by (nonlinear_arith);
    if a > len {
        assert(a * a >= (len + 1) * (len + 1)) by (nonlinear_arith)
            requires
                a >= len + 1,
                len > 0,
        ;
    }
    if a < -len {
        assert(a * a >= (len + 1) * (len + 1)) by (nonlinear_arith)
            requires
                a <= -len - 1,
                len > 0,
        ;
    }
}

proof fn lemma_unit_quotient(a: int, len: int)
    requires
        len > 0,
        -len <= a <= len,
    ensures
        -1000 <= floor_div(a * 1000, len) <= 1000,
{
    assert(-1000 * len <= a * 1000 <= 1000 * len) by (nonlinear_arith)
        requires
            -len <= a <= len,
    ;
    vstd::arithmetic::div_mod::lemma_div_is_ordered(a * 1000, 1000 * len, len);
    vstd::arithmetic::div_mod::lemma_div_is_ordered(-1000 * len, a * 1000, len);
    vstd::arithmetic::div_mod::lemma_div_by_multiple(1000, len);
    vstd::arithmetic::div_mod::lemma_fundamental_div_mod_converse(-1000 * len, len, -1000, 0);
}

} // verus!
