//! Movement curves and swing animations that run beside an attack, and the
//! root lock that keeps a combatant out of free movement meanwhile.
use vstd::prelude::*;
use crate::clock::{saturating_sum, Stopwatch};
use crate::geometry::{floor_div, div_floor, is_direction, Vec2};

verus! {

/// Largest speed, in whole world units per second.
pub const SPEED_MAX: i64 = 1048576;

/// Progress through a curve, in thousandths.
pub const PROGRESS_FULL: u64 = 1000;

/// Easing curves over progress in thousandths.
#[derive(Clone, Copy, Debug, PartialEq, Eq, Structural)]
pub enum Easing {
    Linear,
    QuarticOut,
}

pub open spec fn ease_spec(easing: Easing, t: int) -> int {
    match easing {
        Easing::Linear => t,
        Easing::QuarticOut => 1000 - (1000 - t) * (1000 - t) * (1000 - t) * (1000 - t) / 1000000000,
    }
}

/// Samples `easing` at progress `t` (thousandths).
pub fn ease(easing: Easing, t: u64) -> (r: u64)
    requires
        t <= PROGRESS_FULL,
    ensures
        r == ease_spec(easing, t as int),
        r <= PROGRESS_FULL,
{
    match easing {
        Easing::Linear => t,
        Easing::QuarticOut => {
            let u: u64 = 1000 - t;
            assert(u * u <= 1000000) by (nonlinear_arith)
                requires
                    u <= 1000,
            ;
            let u2: u64 = u * u;
            assert(u2 * u <= 1000000000) by (nonlinear_arith)
                requires
                    u <= 1000,
                    u2 <= 1000000,
            ;
            let u3: u64 = u2 * u;
            assert(u3 * u <= 1000000000000) by (nonlinear_arith)
                requires
                    u <= 1000,
                    u3 <= 1000000000,
            ;
            let p: u64 = u3 * u;
            assert(p == u * u * u * u) by (nonlinear_arith)
                requires
                    p == u3 * u,
                    u3 == u2 * u,
                    u2 == u * u,
            ;
            assert(p / 1000000000 <= 1000) by {
                vstd::arithmetic::div_mod::lemma_div_is_ordered(p as int, 1000000000000, 1000000000);
            }
            1000 - p / 1000000000
        },
    }
}

/// Progress (thousandths) of `elapsed` through a curve of `duration`,
/// clamped to the full curve.
pub open spec fn progress_spec(elapsed: int, duration: int) -> int {
    if elapsed * 1000 / duration > 1000 {
        1000
    } else {
        elapsed * 1000 / duration
    }
}

pub fn progress(elapsed: u64, duration: u64) -> (r: u64)
    requires
        duration > 0,
    ensures
        r == progress_spec(elapsed as int, duration as int),
        r <= PROGRESS_FULL,
{
    let q: u128 = (elapsed as u128) * 1000 / (duration as u128);
    if q > 1000 {
        1000
    } else {
        q as u64
    }
}

/// `from` eased towards `to` by `e` thousandths, times `speed`.
pub open spec fn curve_velocity(from: Vec2, to: Vec2, e: int, speed: int) -> Vec2 {
    Vec2 {
        x: floor_div((from.x * (1000 - e) + to.x * e) * speed, 1000) as i64,
        y: floor_div((from.y * (1000 - e) + to.y * e) * speed, 1000) as i64,
    }
}

proof fn lemma_lerp_bounds(a: int, b: int, e: int, speed: int)
    requires
        -1000 <= a <= 1000,
        -1000 <= b <= 1000,
        0 <= e <= 1000,
        0 <= speed <= SPEED_MAX,
    ensures
        -1000000 <= a * (1000 - e) + b * e <= 1000000,
        -1048576000000 <= (a * (1000 - e) + b * e) * speed <= 1048576000000,
        -1048576000 <= floor_div((a * (1000 - e) + b * e) * speed, 1000) <= 1048576000,
{
    assert(-1000000 <= a * (1000 - e) + b * e <= 1000000) by (nonlinear_arith)
        requires
            -1000 <= a <= 1000,
            -1000 <= b <= 1000,
            0 <= e <= 1000,
    ;
    let l = a * (1000 - e) + b * e;
    assert(-1048576000000 <= l * speed <= 1048576000000) by (nonlinear_arith)
        requires
            -1000000 <= l <= 1000000,
            0 <= speed <= 1048576,
    ;
    vstd::arithmetic::div_mod::lemma_div_is_ordered(l * speed, 1048576000000, 1000);
    vstd::arithmetic::div_mod::lemma_div_is_ordered(-1048576000000, l * speed, 1000);
}

fn lerp_component(a: i64, b: i64, e: u64, speed: i64) -> (r: i64)
    requires
        -1000 <= a <= 1000,
        -1000 <= b <= 1000,
        e <= 1000,
        0 <= speed <= SPEED_MAX,
    ensures
        r == floor_div((a * (1000 - e) + b * e) * speed, 1000),
{
    proof {
        lemma_lerp_bounds(a as int, b as int, e as int, speed as int);
    }
    let ei: i128 = e as i128;
    assert(-1000000 <= a * (1000 - e) <= 1000000 && -1000000 <= b * e <= 1000000) by (nonlinear_arith)
        requires
            -1000 <= a <= 1000,
            -1000 <= b <= 1000,
            0 <= e <= 1000,
    ;
    let l: i128 = (a as i128) * (1000 - ei) + (b as i128) * ei;
    let q: i128 = div_floor(l * (speed as i128), 1000);
    q as i64
}

/// One leg of a movement curve: once `start` has passed, the velocity eases
/// from `from * speed` to `to * speed` until the sequence's stopwatch passes
/// `duration`.
#[derive(Clone, Copy, Debug, PartialEq, Eq, Structural)]
pub struct MovementStage {
    pub start: u64,
    pub easing: Easing,
    pub speed: i64,
    pub from: Vec2,
    pub to: Vec2,
    pub duration: u64,
}

impl MovementStage {
    pub open spec fn wf(self) -> bool {
        is_direction(self.from) && is_direction(self.to) && 0 <= self.speed <= SPEED_MAX
    }
}

/// A stack of movement legs: the last entry is the active one.
#[derive(Clone, Debug)]
pub struct MovementSequence {
    pub stages: Vec<MovementStage>,
    pub stopwatch: Stopwatch,
}

#[derive(Clone, Copy, Debug, PartialEq, Eq, Structural)]
pub enum MovementStep {
    /// No leg is left: the sequence is to be removed.
    Finished,
    /// The active leg has not started.
    Idle,
    /// Set the combatant's velocity.
    Drive(Vec2),
    /// The active leg ran out and was dropped.
    Advance,
}

/// The velocity a leg gives at `elapsed` (the leg is running).
pub open spec fn stage_velocity(m: MovementStage, elapsed: int) -> Vec2 {
    curve_velocity(
        m.from,
        m.to,
        ease_spec(m.easing, progress_spec(elapsed, m.duration as int)),
        m.speed as int,
    )
}

impl MovementSequence {
    pub open spec fn wf(self) -> bool {
        forall|i: int| 0 <= i < self.stages.len() ==> #[trigger] self.stages@[i].wf()
    }

    /// One tick: advance the stopwatch, then act on the last leg.
    pub fn tick(&mut self, delta: u64) -> (r: MovementStep)
        requires
            old(self).wf(),
        ensures
            final(self).wf(),
            final(self).stopwatch.elapsed == saturating_sum(old(self).stopwatch.elapsed, delta),
            ({
                let e = final(self).stopwatch.elapsed;
                let s = old(self).stages@;
                if s.len() == 0 {
                    r == MovementStep::Finished && final(self).stages@ == s
                } else if s.last().start >= e {
                    r == MovementStep::Idle && final(self).stages@ == s
                } else if s.last().duration >= e {
                    r == MovementStep::Drive(stage_velocity(s.last(), e as int))
                        && final(self).stages@ == s
                } else {
                    r == MovementStep::Advance && final(self).stages@ == s.drop_last()
                }
            }),
    {
        self.stopwatch.tick(delta);
        let e = self.stopwatch.elapsed;
        let n = self.stages.len();
        if n == 0 {
            return MovementStep::Finished;
        }
        let m = self.stages[n - 1];
        if m.start >= e {
            return MovementStep::Idle;
        }
        if m.duration >= e {
            assert(self.stages@[n - 1].wf());
            let t = progress(e, m.duration);
            let eased = ease(m.easing, t);
            let v = Vec2 {
                x: lerp_component(m.from.x, m.to.x, eased, m.speed),
                y: lerp_component(m.from.y, m.to.y, eased, m.speed),
            };
            return MovementStep::Drive(v);
        }
        self.stages.pop();
        assert(forall|i: int| 0 <= i < self.stages.len() ==> self.stages@[i] == old(self).stages@[i]);
        MovementStep::Advance
    }
}

/// One leg of a weapon swing animation, timed like a movement leg. The host
/// holds the transforms and eases between them by the reported progress.
#[derive(Clone, Copy, Debug, PartialEq, Eq, Structural)]
pub struct SwingStage {
    pub start: u64,
    pub duration: u64,
}

/// A stack of swing legs: the last entry is the active one.
#[derive(Clone, Debug)]
pub struct SwingSequence {
    pub stages: Vec<SwingStage>,
    pub stopwatch: Stopwatch,
}

#[derive(Clone, Copy, Debug, PartialEq, Eq, Structural)]
pub enum SwingStep {
    Finished,
    Idle,
    /// Progress through the active leg, in thousandths.
    Animate(u64),
    Advance,
}

impl SwingSequence {
    /// One tick: advance the stopwatch, then act on the last leg.
    pub fn tick(&mut self, delta: u64) -> (r: SwingStep)
        ensures
            final(self).stopwatch.elapsed == saturating_sum(old(self).stopwatch.elapsed, delta),
            ({
                let e = final(self).stopwatch.elapsed;
                let s = old(self).stages@;
                if s.len() == 0 {
                    r == SwingStep::Finished && final(self).stages@ == s
                } else if s.last().start >= e {
                    r == SwingStep::Idle && final(self).stages@ == s
                } else if s.last().duration >= e {
                    r == SwingStep::Animate(progress_spec(e as int, s.last().duration as int) as u64)
                        && final(self).stages@ == s
                } else {
                    r == SwingStep::Advance && final(self).stages@ == s.drop_last()
                }
            }),
    {
        self.stopwatch.tick(delta);
        let e = self.stopwatch.elapsed;
        let n = self.stages.len();
        if n == 0 {
            return SwingStep::Finished;
        }
        let w = self.stages[n - 1];
        if w.start >= e {
            return SwingStep::Idle;
        }
        if w.duration >= e {
            return SwingStep::Animate(progress(e, w.duration));
        }
        self.stages.pop();
        SwingStep::Advance
    }
}

/// Keeps a combatant out of free movement until `duration` has elapsed.
#[derive(Clone, Copy, Debug, PartialEq, Eq, Structural)]
pub struct RootLock {
    pub duration: u64,
    pub stopwatch: Stopwatch,
}

impl RootLock {
    pub fn new(duration: u64) -> (r: RootLock)
        ensures
            r.duration == duration,
            r.stopwatch.elapsed == 0,
    {
        RootLock { duration, stopwatch: Stopwatch::new() }
    }

    /// Advances the lock and reports whether it has expired.
    pub fn tick(&mut self, delta: u64) -> (expired: bool)
        ensures
            final(self).duration == old(self).duration,
            final(self).stopwatch.elapsed == saturating_sum(old(self).stopwatch.elapsed, delta),
            expired == (final(self).stopwatch.elapsed >= final(self).duration),
    {
        self.stopwatch.tick(delta);
        self.stopwatch.elapsed >= self.duration
    }
}

} // verus!
