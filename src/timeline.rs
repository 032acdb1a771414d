//! The attack timeline: staged hitbox spawns driven by a private stopwatch.
use vstd::prelude::*;
use crate::assets::{Sound, SpriteAsset};
use crate::clock::{saturating_sum, Stopwatch};
use crate::geometry::{is_bounded, is_direction, Vec2};
use crate::layers::{attack_layers, attack_layers_spec, LayerMask, Side};

verus! {

/// Largest attack range, in whole world units.
pub const RANGE_MAX: i64 = 1048576;

/// A collider shape in fixed-point lengths.
#[derive(Clone, Copy, Debug, PartialEq, Eq, Structural)]
pub enum Shape {
    Circle { radius: i64 },
    Rectangle { width: i64, height: i64 },
}

/// Velocity of a hitbox that travels on its own: linear in thousandths of a
/// world unit per second, angular in milliradians per second.
#[derive(Clone, Copy, Debug, PartialEq, Eq, Structural)]
pub struct HitboxMotion {
    pub linear: Vec2,
    pub angular: i64,
}

/// The status-effect tag a hitbox carries.
#[derive(Clone, Copy, Debug, PartialEq, Eq, Structural)]
pub enum AttackMarker {
    AppliesMark,
    TriggersMark,
}

/// A sprite stamped onto every hitbox of an attack, with an optional size.
#[derive(Clone, Copy, Debug, PartialEq, Eq)]
pub struct HitboxSprite {
    pub image: SpriteAsset,
    pub size: Option<Vec2>,
}

/// One scheduled hitbox: when it spawns (from the start of the attack), its
/// shape, how long it lives, how it moves if it travels, and its impact sound.
#[derive(Clone, Copy, Debug, PartialEq, Eq)]
pub struct Stage {
    pub offset: u64,
    pub shape: Shape,
    pub lifetime: u64,
    pub motion: Option<HitboxMotion>,
    pub sound: Option<Sound>,
}

/// An attack in progress. `stages` is a stack: its last entry is the next to
/// spawn.
#[derive(Clone, Debug)]
pub struct AttackTimeline {
    pub stages: Vec<Stage>,
    pub direction: Vec2,
    pub range: i64,
    pub marker: Option<AttackMarker>,
    pub sprite: Option<HitboxSprite>,
    pub swing_sound: Option<(u64, Sound)>,
    pub stopwatch: Stopwatch,
}

/// A request to spawn a hitbox. A hitbox without `motion` is attached to its
/// attacker and `origin` is relative to it; one with `motion` moves on its own
/// and `origin` is a world position. `facing` is the direction its reference
/// axis turns to.
#[derive(Clone, Copy, Debug, PartialEq, Eq)]
pub struct HitboxSpawn {
    pub shape: Shape,
    pub lifetime: u64,
    pub layers: LayerMask,
    pub origin: Vec2,
    pub facing: Vec2,
    pub marker: Option<AttackMarker>,
    pub sprite: Option<HitboxSprite>,
    pub sound: Option<Sound>,
    pub motion: Option<HitboxMotion>,
}

#[derive(Clone, Copy, Debug, PartialEq, Eq)]
pub enum TimelineStep {
    /// No stage is left: the timeline is to be removed.
    Complete,
    /// The next stage is not due yet.
    Waiting,
    /// The next stage fell due and was taken off the stack.
    Spawn(HitboxSpawn),
}

/// What one tick of a timeline asks of the host.
#[derive(Clone, Copy, Debug, PartialEq, Eq)]
pub struct TimelineTick {
    pub swing_sound: Option<Sound>,
    pub step: TimelineStep,
}

/// The hitbox spawned for `stage` of timeline `t` by an attacker of `side`
/// standing at `attacker`.
pub open spec fn hitbox_for(t: AttackTimeline, stage: Stage, side: Side, attacker: Vec2) -> HitboxSpawn {
    let rel = Vec2 { x: (t.direction.x * t.range) as i64, y: (t.direction.y * t.range) as i64 };
    HitboxSpawn {
        shape: stage.shape,
        lifetime: stage.lifetime,
        layers: attack_layers_spec(side),
        origin: if stage.motion.is_some() {
            Vec2 { x: (rel.x + attacker.x) as i64, y: (rel.y + attacker.y) as i64 }
        } else {
            rel
        },
        facing: t.direction,
        marker: t.marker,
        sprite: t.sprite,
        sound: stage.sound,
        motion: stage.motion,
    }
}

impl AttackTimeline {
    pub open spec fn wf(self) -> bool {
        is_direction(self.direction) && 0 <= self.range <= RANGE_MAX
    }

    /// Whether every stage has been spawned.
    pub fn is_done(&self) -> (r: bool)
        ensures
            r == (self.stages.len() == 0),
    {
        self.stages.len() == 0
    }

    /// One tick: advance the stopwatch, emit the swing sound once it is due,
    /// then either report completion, wait, or spawn the stage on top of the
    /// stack.
    pub fn tick(&mut self, delta: u64, side: Side, attacker: Vec2) -> (r: TimelineTick)
        requires
            old(self).wf(),
            is_bounded(attacker),
        ensures
            final(self).wf(),
            final(self).stopwatch.elapsed == saturating_sum(old(self).stopwatch.elapsed, delta),
            final(self).direction == old(self).direction,
            final(self).range == old(self).range,
            final(self).marker == old(self).marker,
            final(self).sprite == old(self).sprite,
            match old(self).swing_sound {
                Some((at, s)) => if at <= final(self).stopwatch.elapsed {
                    r.swing_sound == Some(s) && final(self).swing_sound.is_none()
                } else {
                    r.swing_sound.is_none() && final(self).swing_sound == old(self).swing_sound
                },
                None => r.swing_sound.is_none() && final(self).swing_sound.is_none(),
            },
            old(self).stages.len() == 0 ==> r.step == TimelineStep::Complete
                && final(self).stages@ == old(self).stages@,
            old(self).stages.len() > 0 && old(self).stages@.last().offset
                <= final(self).stopwatch.elapsed ==> r.step == TimelineStep::Spawn(
                hitbox_for(*old(self), old(self).stages@.last(), side, attacker),
            ) && final(self).stages@ == old(self).stages@.drop_last(),
            old(self).stages.len() > 0 && old(self).stages@.last().offset
                > final(self).stopwatch.elapsed ==> r.step == TimelineStep::Waiting
                && final(self).stages@ == old(self).stages@,
    {
        self.stopwatch.tick(delta);
        let elapsed = self.stopwatch.elapsed;
        let mut swing_sound: Option<Sound> = None;
        if let Some((at, s)) = self.swing_sound {
            if at <= elapsed {
                swing_sound = Some(s);
                self.swing_sound = None;
            }
        }
        let n = self.stages.len();
        if n == 0 {
            return TimelineTick { swing_sound, step: TimelineStep::Complete };
        }
        if self.stages[n - 1].offset > elapsed {
            return TimelineTick { swing_sound, step: TimelineStep::Waiting };
        }
        let ghost before = *self;
        let stage = self.stages.pop().unwrap();
        assert(stage == before.stages@.last());
        proof {
            lemma_direction_times_range(self.direction, self.range);
        }
        let rel = Vec2 { x: self.direction.x * self.range, y: self.direction.y * self.range };
        let origin = if stage.motion.is_some() {
            Vec2 { x: rel.x + attacker.x, y: rel.y + attacker.y }
        } else {
            rel
        };
        let spawn = HitboxSpawn {
            shape: stage.shape,
            lifetime: stage.lifetime,
            layers: attack_layers(side),
            origin,
            facing: self.direction,
            marker: self.marker,
            sprite: self.sprite,
            sound: stage.sound,
            motion: stage.motion,
        };
        assert(spawn == hitbox_for(before, stage, side, attacker));
        TimelineTick { swing_sound, step: TimelineStep::Spawn(spawn) }
    }
}

proof fn lemma_direction_times_range(d: Vec2, range: i64)
    requires
        is_direction(d),
        0 <= range <= RANGE_MAX,
    ensures
        -1048576000 <= d.x * range <= 1048576000,
        -1048576000 <= d.y * range <= 1048576000,
{
    assert(-1048576000 <= d.x * range <= 1048576000) by (nonlinear_arith)
        requires
            -1000 <= d.x <= 1000,
            0 <= range <= 1048576,
    ;
    assert(-1048576000 <= d.y * range <= 1048576000) by (nonlinear_arith)
        requires
            -1000 <= d.y <= 1000,
            0 <= range <= 1048576,
    ;
}

} // verus!
