//! A combatant's attack state: free movement, or committed to an attack with
//! its timeline, movement curve and root lock.
use vstd::prelude::*;
use crate::assets::Sound;
use crate::clock::saturating_sum;
use crate::geometry::{is_bounded, Vec2};
use crate::layers::Side;
use crate::movement::{stage_velocity, MovementSequence, MovementStep, RootLock};
use crate::timeline::{hitbox_for, AttackTimeline, HitboxSpawn, TimelineStep};

verus! {

/// Everything an attack attaches to its attacker when it starts.
#[derive(Clone, Debug)]
pub struct AttackPlan {
    pub timeline: AttackTimeline,
    pub movement: MovementSequence,
    pub root: RootLock,
}

impl AttackPlan {
    pub open spec fn wf(self) -> bool {
        self.timeline.wf() && self.movement.wf()
    }
}

/// Attack state of one combatant. `moving` is the free-movement tag, which
/// the host's movement systems require.
#[derive(Clone, Debug)]
pub struct Combatant {
    pub side: Side,
    pub moving: bool,
    pub attack: Option<AttackTimeline>,
    pub movement: Option<MovementSequence>,
    pub rooted: Option<RootLock>,
}

/// What one tick of a combatant asks of the host.
#[derive(Clone, Copy, Debug, PartialEq, Eq)]
pub struct CombatantTick {
    pub swing_sound: Option<Sound>,
    pub spawn: Option<HitboxSpawn>,
    pub velocity: Option<Vec2>,
}

impl Combatant {
    pub open spec fn wf(self) -> bool {
        &&& (self.attack is Some ==> self.attack.unwrap().wf())
        &&& (self.movement is Some ==> self.movement.unwrap().wf())
        &&& (self.rooted is Some ==> !self.moving)
    }

    /// A combatant in free movement.
    pub fn new(side: Side) -> (r: Combatant)
        ensures
            r.wf(),
            r.side == side,
            r.moving,
            r.attack is None,
            r.movement is None,
            r.rooted is None,
    {
        Combatant { side, moving: true, attack: None, movement: None, rooted: None }
    }

    /// Starts an attack unless one is already running: attaches the
    /// timeline, the movement curve and the root lock, and leaves free
    /// movement. Returns whether the attack started.
    pub fn start_attack(&mut self, plan: AttackPlan) -> (started: bool)
        requires
            old(self).wf(),
            plan.wf(),
        ensures
            final(self).wf(),
            final(self).side == old(self).side,
            started == old(self).attack is None,
            started ==> {
                &&& final(self).attack == Some(plan.timeline)
                &&& final(self).movement == Some(plan.movement)
                &&& final(self).rooted == Some(plan.root)
                &&& !final(self).moving
            },
            !started ==> {
                &&& final(self).attack == old(self).attack
                &&& final(self).movement == old(self).movement
                &&& final(self).rooted == old(self).rooted
                &&& final(self).moving == old(self).moving
            },
    {
        if self.attack.is_some() {
            return false;
        }
        self.attack = Some(plan.timeline);
        self.movement = Some(plan.movement);
        self.rooted = Some(plan.root);
        self.moving = false;
        true
    }

    /// One tick, in order: the attack timeline (removed once complete), the
    /// movement curve (removed once finished) and the root lock (removed on
    /// expiry, which restores free movement).
    pub fn tick(&mut self, delta: u64, position: Vec2) -> (r: CombatantTick)
        requires
            old(self).wf(),
            is_bounded(position),
        ensures
            final(self).wf(),
            final(self).side == old(self).side,
            match old(self).attack {
                None => final(self).attack is None && r.swing_sound is None && r.spawn is None,
                Some(a) => {
                    let e = saturating_sum(a.stopwatch.elapsed, delta);
                    &&& r.swing_sound == match a.swing_sound {
                        Some((at, s)) => if at <= e {
                            Some(s)
                        } else {
                            None
                        },
                        None => None,
                    }
                    &&& (a.stages.len() == 0 <==> final(self).attack is None)
                    &&& r.spawn == if a.stages.len() > 0 && a.stages@.last().offset <= e {
                        Some(hitbox_for(a, a.stages@.last(), old(self).side, position))
                    } else {
                        None
                    }
                    &&& final(self).attack is Some ==> {
                        let b = final(self).attack.unwrap();
                        &&& b.stopwatch.elapsed == e
                        &&& b.direction == a.direction
                        &&& b.range == a.range
                        &&& b.marker == a.marker
                        &&& b.sprite == a.sprite
                        &&& b.stages@ == if a.stages@.last().offset <= e {
                            a.stages@.drop_last()
                        } else {
                            a.stages@
                        }
                    }
                },
            },
            match old(self).movement {
                None => final(self).movement is None && r.velocity is None,
                Some(m) => {
                    let e = saturating_sum(m.stopwatch.elapsed, delta);
                    let s = m.stages@;
                    &&& (s.len() == 0 <==> final(self).movement is None)
                    &&& r.velocity == if s.len() > 0 && s.last().start < e && s.last().duration >= e {
                        Some(stage_velocity(s.last(), e as int))
                    } else {
                        None
                    }
                    &&& final(self).movement is Some ==> {
                        let n = final(self).movement.unwrap();
                        &&& n.stopwatch.elapsed == e
                        &&& n.stages@ == if s.last().start < e && s.last().duration < e {
                            s.drop_last()
                        } else {
                            s
                        }
                    }
                },
            },
            match old(self).rooted {
                None => final(self).rooted is None && final(self).moving == old(self).moving,
                Some(l) => {
                    let e = saturating_sum(l.stopwatch.elapsed, delta);
                    if e >= l.duration {
                        final(self).rooted is None && final(self).moving
                    } else {
                        final(self).rooted == Some(
                            RootLock { duration: l.duration, stopwatch: crate::clock::Stopwatch { elapsed: e } },
                        ) && !final(self).moving
                    }
                },
            },
    {
        let mut swing_sound: Option<Sound> = None;
        let mut spawn: Option<HitboxSpawn> = None;
        let mut velocity: Option<Vec2> = None;
        let side = self.side;
        match self.attack.take() {
            Some(mut a) => {
                let step = a.tick(delta, side, position);
                swing_sound = step.swing_sound;
                match step.step {
                    TimelineStep::Complete => {},
                    TimelineStep::Waiting => {
                        self.attack = Some(a);
                    },
                    TimelineStep::Spawn(h) => {
                        spawn = Some(h);
                        self.attack = Some(a);
                    },
                }
            },
            None => {},
        }
        match self.movement.take() {
            Some(mut m) => {
                let step = m.tick(delta);
                match step {
                    MovementStep::Finished => {},
                    MovementStep::Idle => {
                        self.movement = Some(m);
                    },
                    MovementStep::Drive(v) => {
                        velocity = Some(v);
                        self.movement = Some(m);
                    },
                    MovementStep::Advance => {
                        self.movement = Some(m);
                    },
                }
            },
            None => {},
        }
        match self.rooted {
            Some(mut l) => {
                if l.tick(delta) {
                    self.rooted = None;
                    self.moving = true;
                } else {
                    self.rooted = Some(l);
                }
            },
            None => {},
        }
        CombatantTick { swing_sound, spawn, velocity }
    }
}

} // verus!
