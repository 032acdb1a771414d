//! Manual contact resolution between two kinematic bodies: a symmetric
//! position correction and a collide-and-slide or speculative velocity
//! correction.
use vstd::prelude::*;
use crate::geometry::{
    div_floor, dot, dot_spec, floor_div, in_coord_range, is_bounded, is_direction, norm_sq, Vec2,
    COORD_MAX,
};

verus! {

/// Largest number of contact points in one manifold.
pub const MAX_CONTACT_POINTS: usize = 64;

/// Position and linear velocity of a kinematic body.
#[derive(Clone, Copy, Debug, PartialEq, Eq, Structural)]
pub struct Body {
    pub position: Vec2,
    pub velocity: Vec2,
}

/// Contacts sharing one surface normal, pointing from the first body to the
/// second. A positive penetration is an overlap; zero or less is a
/// speculative contact ahead of time.
#[derive(Clone, Debug)]
pub struct Manifold {
    pub normal: Vec2,
    pub penetrations: Vec<i64>,
}

impl Body {
    pub open spec fn wf(self) -> bool {
        is_bounded(self.position) && is_bounded(self.velocity)
    }
}

impl Manifold {
    pub open spec fn wf(self) -> bool {
        &&& is_direction(self.normal)
        &&& self.penetrations.len() <= MAX_CONTACT_POINTS
        &&& forall|i: int|
            0 <= i < self.penetrations.len() ==> in_coord_range(
                #[trigger] self.penetrations@[i] as int,
            )
    }
}

/// The full correction of one contact: the normal times the penetration.
pub open spec fn push_of(n: Vec2, pen: int) -> (int, int) {
    (floor_div(n.x * pen, 1000), floor_div(n.y * pen, 1000))
}

/// The share of a correction that moves the second body; the first moves by
/// the rest, the other way.
pub open spec fn half_of(c: int) -> int {
    floor_div(c, 2)
}

pub open spec fn point_step(p1: (int, int), p2: (int, int), n: Vec2, pen: int) -> ((int, int), (int, int)) {
    if pen > 0 {
        let c = push_of(n, pen);
        (
            (p1.0 - (c.0 - half_of(c.0)), p1.1 - (c.1 - half_of(c.1))),
            (p2.0 + half_of(c.0), p2.1 + half_of(c.1)),
        )
    } else {
        (p1, p2)
    }
}

/// Positions of the two bodies after the position pass over `pens`.
pub open spec fn positions_after(p1: (int, int), p2: (int, int), n: Vec2, pens: Seq<i64>) -> ((int, int), (int, int))
    decreases pens.len(),
{
    if pens.len() == 0 {
        (p1, p2)
    } else {
        let prev = positions_after(p1, p2, n, pens.drop_last());
        point_step(prev.0, prev.1, n, pens.last() as int)
    }
}

/// The deepest penetration of a non-empty list.
pub open spec fn deepest(pens: Seq<i64>) -> int
    decreases pens.len(),
{
    if pens.len() <= 1 {
        pens[0] as int
    } else {
        let d = deepest(pens.drop_last());
        if pens.last() > d {
            pens.last() as int
        } else {
            d
        }
    }
}

/// `v` with its component along `n` removed.
pub open spec fn reject_spec(v: Vec2, n: Vec2) -> (int, int) {
    let d = dot_spec(v, n);
    let nn = norm_sq(n);
    (v.x - floor_div(n.x * d, nn), v.y - floor_div(n.y * d, nn))
}

/// Velocity after a speculative contact along the half of `n`, at `deepest`
/// penetration, for a step of `dt` microseconds.
pub open spec fn speculative_spec(v: Vec2, n: Vec2, deepest: int, dt: int) -> (int, int) {
    let ns = floor_div(dot_spec(v, n), 2000);
    if ns < 0 {
        let mag = ns - floor_div(deepest * 1000000, dt);
        let ix = floor_div(mag * n.x, 2000);
        let iy = floor_div(mag * n.y, 2000);
        (v.x - ix, v.y - if iy > 0 { iy } else { 0 })
    } else {
        (v.x as int, v.y as int)
    }
}

/// Velocity of a body whose half-normal points along `n`.
pub open spec fn velocity_after(v: Vec2, n: Vec2, deepest: int, dt: int) -> (int, int) {
    if deepest > 0 {
        if dot_spec(v, n) < 0 {
            reject_spec(v, n)
        } else {
            (v.x as int, v.y as int)
        }
    } else {
        speculative_spec(v, n, deepest, dt)
    }
}

pub open spec fn neg(n: Vec2) -> Vec2 {
    Vec2 { x: (-n.x) as i64, y: (-n.y) as i64 }
}

pub open spec fn pair_of(v: Vec2) -> (int, int) {
    (v.x as int, v.y as int)
}

/// Both bodies after resolving manifold `m` over a step of `dt`.
pub open spec fn resolved(b1: Body, b2: Body, m: Manifold, dt: int) -> (Body, Body) {
    if m.penetrations.len() == 0 {
        (b1, b2)
    } else {
        let ps = positions_after(pair_of(b1.position), pair_of(b2.position), m.normal, m.penetrations@);
        let d = deepest(m.penetrations@);
        let v1 = velocity_after(b1.velocity, neg(m.normal), d, dt);
        let v2 = velocity_after(b2.velocity, m.normal, d, dt);
        (
            Body {
                position: Vec2 { x: ps.0.0 as i64, y: ps.0.1 as i64 },
                velocity: Vec2 { x: v1.0 as i64, y: v1.1 as i64 },
            },
            Body {
                position: Vec2 { x: ps.1.0 as i64, y: ps.1.1 as i64 },
                velocity: Vec2 { x: v2.0 as i64, y: v2.1 as i64 },
            },
        )
    }
}

proof fn lemma_floor_div_within(x: int, d: int, b: int)
    requires
        d >= 1,
        b >= 0,
        -b <= x <= b,
    ensures
        -b <= floor_div(x, d) <= b,
{
    let q = x / d;
    let r = x % d;
    vstd::arithmetic::div_mod::lemma_fundamental_div_mod(x, d);
    assert(0 <= r < d);
    assert(-b <= q <= b) by (nonlinear_arith)
        requires
            x == d * q + r,
            0 <= r < d,
            d >= 1,
            -b <= x <= b,
    ;
}

fn push_component(nc: i64, pen: i64) -> (r: i64)
    requires
        -1000 <= nc <= 1000,
        0 < pen <= COORD_MAX,
    ensures
        r == floor_div(nc * pen, 1000),
        -COORD_MAX <= r <= COORD_MAX,
{
    assert(-1000 * COORD_MAX <= nc * pen <= 1000 * COORD_MAX) by (nonlinear_arith)
        requires
            -1000 <= nc <= 1000,
            0 < pen <= COORD_MAX,
    ;
    proof {
        vstd::arithmetic::div_mod::lemma_div_is_ordered(nc * pen, 1000 * COORD_MAX, 1000);
        vstd::arithmetic::div_mod::lemma_div_is_ordered(-1000 * COORD_MAX, nc * pen, 1000);
        vstd::arithmetic::div_mod::lemma_div_by_multiple(COORD_MAX as int, 1000);
        vstd::arithmetic::div_mod::lemma_fundamental_div_mod_converse(
            -1000 * COORD_MAX,
            1000,
            -COORD_MAX as int,
            0,
        );
    }
    div_floor((nc as i128) * (pen as i128), 1000) as i64
}

fn half_component(c: i64) -> (r: i64)
    requires
        -COORD_MAX <= c <= COORD_MAX,
    ensures
        r == half_of(c as int),
        -COORD_MAX <= r <= COORD_MAX,
        -COORD_MAX <= c - r <= COORD_MAX,
{
    proof {
        lemma_floor_div_within(c as int, 2, COORD_MAX as int);
        vstd::arithmetic::div_mod::lemma_fundamental_div_mod(c as int, 2);
    }
    div_floor(c as i128, 2) as i64
}

/// Removes from `v` its component along `n`.
fn reject(v: Vec2, n: Vec2) -> (r: Vec2)
    requires
        is_bounded(v),
        is_direction(n),
        norm_sq(n) > 0,
    ensures
        pair_of(r) == reject_spec(v, n),
{
    let d: i128 = dot(v, n);
    assert(0 <= n.x * n.x <= 1000000 && 0 <= n.y * n.y <= 1000000) by (nonlinear_arith)
        requires
            -1000 <= n.x <= 1000,
            -1000 <= n.y <= 1000,
    ;
    let nn: i128 = (n.x as i128) * (n.x as i128) + (n.y as i128) * (n.y as i128);
    let ghost bd: int = 2000 * COORD_MAX;
    assert(-bd <= d <= bd) by (nonlinear_arith)
        requires
            d == v.x * n.x + v.y * n.y,
            -COORD_MAX <= v.x <= COORD_MAX,
            -COORD_MAX <= v.y <= COORD_MAX,
            -1000 <= n.x <= 1000,
            -1000 <= n.y <= 1000,
            bd == 2000 * COORD_MAX,
    ;
    let ghost bp: int = 1000 * bd;
    assert(-bp <= n.x * d <= bp && -bp <= n.y * d <= bp) by (nonlinear_arith)
        requires
            -bd <= d <= bd,
            -1000 <= n.x <= 1000,
            -1000 <= n.y <= 1000,
            bp == 1000 * bd,
    ;
    proof {
        lemma_floor_div_within(n.x * d, nn as int, bp);
        lemma_floor_div_within(n.y * d, nn as int, bp);
    }
    let qx: i128 = div_floor((n.x as i128) * d, nn);
    let qy: i128 = div_floor((n.y as i128) * d, nn);
    Vec2 { x: (v.x as i128 - qx) as i64, y: (v.y as i128 - qy) as i64 }
}

fn speculative(v: Vec2, n: Vec2, deepest: i64, dt: u64) -> (r: Vec2)
    requires
        is_bounded(v),
        is_direction(n),
        in_coord_range(deepest as int),
        dt > 0,
    ensures
        pair_of(r) == speculative_spec(v, n, deepest as int, dt as int),
{
    let d: i128 = dot(v, n);
    let ghost bd: int = 2000 * COORD_MAX;
    assert(-bd <= d <= bd) by (nonlinear_arith)
        requires
            d == v.x * n.x + v.y * n.y,
            -COORD_MAX <= v.x <= COORD_MAX,
            -COORD_MAX <= v.y <= COORD_MAX,
            -1000 <= n.x <= 1000,
            -1000 <= n.y <= 1000,
            bd == 2000 * COORD_MAX,
    ;
    let ns: i128 = div_floor(d, 2000);
    if ns >= 0 {
        return v;
    }
    proof {
        lemma_floor_div_within(d as int, 2000, bd);
    }
    let ghost bq: int = 1000000 * COORD_MAX;
    proof {
        lemma_floor_div_within(deepest * 1000000, dt as int, bq);
    }
    let q: i128 = div_floor((deepest as i128) * 1000000, dt as i128);
    let mag: i128 = ns - q;
    let ghost bm: int = bd + bq;
    let ghost bi: int = 1000 * bm;
    assert(-bi <= mag * n.x <= bi && -bi <= mag * n.y <= bi) by (nonlinear_arith)
        requires
            -bm <= mag <= bm,
            -1000 <= n.x <= 1000,
            -1000 <= n.y <= 1000,
            bi == 1000 * bm,
    ;
    proof {
        lemma_floor_div_within(mag * n.x, 2000, bi);
        lemma_floor_div_within(mag * n.y, 2000, bi);
    }
    let ix: i128 = div_floor(mag * (n.x as i128), 2000);
    let iy0: i128 = div_floor(mag * (n.y as i128), 2000);
    let iy: i128 = if iy0 > 0 { iy0 } else { 0 };
    Vec2 { x: (v.x as i128 - ix) as i64, y: (v.y as i128 - iy) as i64 }
}

fn correct_velocity(v: Vec2, n: Vec2, deepest: i64, dt: u64) -> (r: Vec2)
    requires
        is_bounded(v),
        is_direction(n),
        in_coord_range(deepest as int),
        dt > 0,
    ensures
        pair_of(r) == velocity_after(v, n, deepest as int, dt as int),
{
    if deepest > 0 {
        let d = dot(v, n);
        if d < 0 {
            assert(norm_sq(n) > 0) by (nonlinear_arith)
                requires
                    v.x * n.x + v.y * n.y < 0,
            ;
            reject(v, n)
        } else {
            v
        }
    } else {
        speculative(v, n, deepest, dt)
    }
}

/// Resolves one manifold between two kinematic bodies over a physics step of
/// `dt` microseconds. Every overlapping contact pushes the bodies apart along
/// the normal, half each; then a body moving into the surface slides along it
/// when they overlap, or, for a speculative contact, is slowed so that it
/// does not cross it within the step. A manifold with no contact point
/// changes nothing.
pub fn resolve_manifold(b1: &mut Body, b2: &mut Body, m: &Manifold, dt: u64)
    requires
        old(b1).wf(),
        old(b2).wf(),
        m.wf(),
        dt > 0,
    ensures
        (*final(b1), *final(b2)) == resolved(*old(b1), *old(b2), *m, dt as int),
{
    let n_pts = m.penetrations.len();
    if n_pts == 0 {
        return;
    }
    let n = m.normal;
    let mut p1 = b1.position;
    let mut p2 = b2.position;
    let mut deepest_pen: i64 = m.penetrations[0];
    let mut i: usize = 0;
    while i < n_pts
        invariant
            n_pts == m.penetrations.len(),
            m.wf(),
            0 <= i <= n_pts,
            1 <= n_pts <= MAX_CONTACT_POINTS,
            (pair_of(p1), pair_of(p2)) == positions_after(
                pair_of(b1.position),
                pair_of(b2.position),
                n,
                m.penetrations@.subrange(0, i as int),
            ),
            -2147483648 * (i + 1) <= p1.x <= 2147483648 * (i + 1),
            -2147483648 * (i + 1) <= p1.y <= 2147483648 * (i + 1),
            -2147483648 * (i + 1) <= p2.x <= 2147483648 * (i + 1),
            -2147483648 * (i + 1) <= p2.y <= 2147483648 * (i + 1),
            b1.wf(),
            b2.wf(),
            n == m.normal,
            i == 0 ==> deepest_pen == m.penetrations@[0],
            i > 0 ==> deepest_pen == deepest(m.penetrations@.subrange(0, i as int)),
            in_coord_range(deepest_pen as int),
        decreases n_pts - i,
    {
        let pen = m.penetrations[i];
        assert(in_coord_range(m.penetrations@[i as int] as int));
        let ghost before = m.penetrations@.subrange(0, i as int);
        assert(m.penetrations@.subrange(0, i + 1).drop_last() == before);
        if pen > 0 {
            let cx = push_component(n.x, pen);
            let cy = push_component(n.y, pen);
            let hx = half_component(cx);
            let hy = half_component(cy);
            p1 = Vec2 { x: p1.x - (cx - hx), y: p1.y - (cy - hy) };
            p2 = Vec2 { x: p2.x + hx, y: p2.y + hy };
        }
        if i > 0 && pen > deepest_pen {
            deepest_pen = pen;
        }
        proof {
            if i == 0 {
                assert(m.penetrations@.subrange(0, 1).len() == 1);
            }
        }
        i = i + 1;
    }
    assert(m.penetrations@.subrange(0, n_pts as int) == m.penetrations@);
    let v1 = correct_velocity(b1.velocity, Vec2 { x: -n.x, y: -n.y }, deepest_pen, dt);
    let v2 = correct_velocity(b2.velocity, n, deepest_pen, dt);
    b1.position = p1;
    b1.velocity = v1;
    b2.position = p2;
    b2.velocity = v2;
}

/// Symmetric split: one overlapping contact of depth `d` along `n` moves the
/// second body by half of the correction `d * n` and the first body by the
/// rest in the opposite direction, so that the two corrections together
/// separate the bodies by exactly `d * n`, whatever their masses; when the
/// correction halves evenly, both bodies move by the same amount.
pub proof fn lemma_symmetric_split(b1: Body, b2: Body, m: Manifold, d: i64, dt: int)
    requires
        b1.wf(),
        b2.wf(),
        m.wf(),
        m.penetrations@ == seq![d],
        d > 0,
        dt > 0,
    ensures
        ({
            let (r1, r2) = resolved(b1, b2, m, dt);
            let c = push_of(m.normal, d as int);
            &&& r2.position.x - b2.position.x == half_of(c.0)
            &&& r2.position.y - b2.position.y == half_of(c.1)
            &&& b1.position.x - r1.position.x == c.0 - half_of(c.0)
            &&& b1.position.y - r1.position.y == c.1 - half_of(c.1)
            &&& (r2.position.x - b2.position.x) + (b1.position.x - r1.position.x) == c.0
            &&& (r2.position.y - b2.position.y) + (b1.position.y - r1.position.y) == c.1
            &&& c.0 % 2 == 0 ==> r2.position.x - b2.position.x == b1.position.x - r1.position.x
            &&& c.1 % 2 == 0 ==> r2.position.y - b2.position.y == b1.position.y - r1.position.y
        }),
{
    let n = m.normal;
    assert(m.penetrations@.drop_last() =~= Seq::<i64>::empty());
    reveal_with_fuel(positions_after, 2);
    let c = push_of(n, d as int);
    let p1 = pair_of(b1.position);
    let p2 = pair_of(b2.position);
    assert(positions_after(p1, p2, n, m.penetrations@) == point_step(p1, p2, n, d as int));
    assert(in_coord_range(m.penetrations@[0] as int));
    assert(-1000 * COORD_MAX <= n.x * d <= 1000 * COORD_MAX && -1000 * COORD_MAX <= n.y * d <= 1000 * COORD_MAX) by (nonlinear_arith)
        requires
            -1000 <= n.x <= 1000,
            -1000 <= n.y <= 1000,
            0 < d <= COORD_MAX,
    ;
    lemma_floor_div_within(n.x * d, 1000, 1000 * COORD_MAX);
    lemma_floor_div_within(n.y * d, 1000, 1000 * COORD_MAX);
    vstd::arithmetic::div_mod::lemma_div_is_ordered(n.x * d, 1000 * COORD_MAX, 1000);
    vstd::arithmetic::div_mod::lemma_div_is_ordered(-1000 * COORD_MAX, n.x * d, 1000);
    vstd::arithmetic::div_mod::lemma_div_is_ordered(n.y * d, 1000 * COORD_MAX, 1000);
    vstd::arithmetic::div_mod::lemma_div_is_ordered(-1000 * COORD_MAX, n.y * d, 1000);
    vstd::arithmetic::div_mod::lemma_div_by_multiple(COORD_MAX as int, 1000);
    vstd::arithmetic::div_mod::lemma_fundamental_div_mod_converse(-1000 * COORD_MAX, 1000, -COORD_MAX as int, 0);
    vstd::arithmetic::div_mod::lemma_fundamental_div_mod(c.0, 2);
    vstd::arithmetic::div_mod::lemma_fundamental_div_mod(c.1, 2);
}

/// Both bodies after resolving `ms` in order, or `None` once a body or a
/// manifold falls outside the range the resolver accepts.
pub open spec fn resolved_all(b1: Body, b2: Body, ms: Seq<Manifold>, dt: int) -> Option<(Body, Body)>
    decreases ms.len(),
{
    if ms.len() == 0 {
        Some((b1, b2))
    } else {
        match resolved_all(b1, b2, ms.drop_last(), dt) {
            Some((a1, a2)) => if a1.wf() && a2.wf() && ms.last().wf() {
                Some(resolved(a1, a2, ms.last(), dt))
            } else {
                None
            },
            None => None,
        }
    }
}

fn coord_ok(v: i64) -> (r: bool)
    ensures
        r == in_coord_range(v as int),
{
    -COORD_MAX <= v && v <= COORD_MAX
}

fn body_ok(b: &Body) -> (r: bool)
    ensures
        r == b.wf(),
{
    coord_ok(b.position.x) && coord_ok(b.position.y) && coord_ok(b.velocity.x) && coord_ok(
        b.velocity.y,
    )
}

fn manifold_ok(m: &Manifold) -> (r: bool)
    ensures
        r == m.wf(),
{
    if !(-1000 <= m.normal.x && m.normal.x <= 1000 && -1000 <= m.normal.y && m.normal.y <= 1000) {
        return false;
    }
    if m.penetrations.len() > MAX_CONTACT_POINTS {
        return false;
    }
    let mut i: usize = 0;
    while i < m.penetrations.len()
        invariant
            i <= m.penetrations.len(),
            forall|j: int| 0 <= j < i ==> in_coord_range(#[trigger] m.penetrations@[j] as int),
        decreases m.penetrations.len() - i,
    {
        if !coord_ok(m.penetrations[i]) {
            return false;
        }
        i = i + 1;
    }
    true
}

/// Resolves every manifold between two kinematic bodies, in order, over a
/// physics step of `dt` microseconds. Returns false, leaving the bodies as the
/// manifolds before it made them, at the first manifold that itself or one of
/// whose bodies lies outside the accepted range.
pub fn resolve_contact_pair(b1: &mut Body, b2: &mut Body, manifolds: &Vec<Manifold>, dt: u64) -> (ok: bool)
    requires
        dt > 0,
    ensures
        ok == resolved_all(*old(b1), *old(b2), manifolds@, dt as int).is_some(),
        ok ==> resolved_all(*old(b1), *old(b2), manifolds@, dt as int) == Some(
            (*final(b1), *final(b2)),
        ),
        !ok ==> exists|k: int|
            0 <= k < manifolds@.len() && resolved_all(
                *old(b1),
                *old(b2),
                #[trigger] manifolds@.subrange(0, k),
                dt as int,
            ) == Some((*final(b1), *final(b2))) && !(final(b1).wf() && final(b2).wf()
                && manifolds@[k].wf()),
{
    let ghost start1 = *b1;
    let ghost start2 = *b2;
    let mut i: usize = 0;
    while i < manifolds.len()
        invariant
            i <= manifolds.len(),
            dt > 0,
            resolved_all(start1, start2, manifolds@.subrange(0, i as int), dt as int) == Some(
                (*b1, *b2),
            ),
            start1 == *old(b1),
            start2 == *old(b2),
        decreases manifolds.len() - i,
    {
        assert(manifolds@.subrange(0, i + 1).drop_last() == manifolds@.subrange(0, i as int));
        let m = &manifolds[i];
        if !(body_ok(b1) && body_ok(b2) && manifold_ok(m)) {
            proof {
                lemma_none_stays(start1, start2, manifolds@, i as int + 1, dt as int);
                assert(resolved_all(start1, start2, manifolds@.subrange(0, i as int), dt as int) == Some((*b1, *b2)));
            }
            return false;
        }
        resolve_manifold(b1, b2, m, dt);
        i = i + 1;
    }
    assert(manifolds@.subrange(0, manifolds.len() as int) == manifolds@);
    true
}

proof fn lemma_none_stays(b1: Body, b2: Body, ms: Seq<Manifold>, k: int, dt: int)
    requires
        0 < k <= ms.len(),
        resolved_all(b1, b2, ms.subrange(0, k), dt) is None,
    ensures
        resolved_all(b1, b2, ms, dt) is None,
    decreases ms.len() - k,
{
    if k < ms.len() {
        assert(ms.subrange(0, k + 1).drop_last() == ms.subrange(0, k));
        lemma_none_stays(b1, b2, ms, k + 1, dt);
    } else {
        assert(ms.subrange(0, k) == ms);
    }
}

} // verus!
