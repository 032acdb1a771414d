//! The player's two attacks and free movement.
use vstd::prelude::*;
use crate::assets::{Sound, SpriteAsset};
use crate::clock::Stopwatch;
use crate::combatant::AttackPlan;
use crate::geometry::{is_bounded, is_direction, is_normalized_of, normalize_or_zero, Vec2};
use crate::health::Health;
use crate::layers::{is_mask, GameCollisionLayer, LayerMask};
use crate::movement::{Easing, MovementSequence, MovementStage, RootLock, SwingSequence, SwingStage, SPEED_MAX};
use crate::timeline::{AttackMarker, AttackTimeline, HitboxMotion, HitboxSprite, Shape, Stage};

verus! {

/// The player character: its free-movement speed in world units per second.
#[derive(Clone, Copy, Debug, PartialEq, Eq, Structural)]
pub struct Player {
    pub speed: i64,
}

/// Hit points the player starts with.
pub const PLAYER_HEALTH: i16 = 100;

/// A new player as the simulation sees it.
#[derive(Clone, Copy, Debug, PartialEq, Eq, Structural)]
pub struct PlayerBundle {
    pub player: Player,
    pub health: Health,
    pub collider: Shape,
    pub layers: LayerMask,
}

impl Player {
    /// The player with full health, a small round body, and a body that
    /// collides with enemies and their hitboxes.
    pub fn bundle(speed: i64) -> (r: PlayerBundle)
        ensures
            r.player.speed == speed,
            r.health == (Health { current: PLAYER_HEALTH, max: PLAYER_HEALTH }),
            r.collider == (Shape::Circle { radius: 5000 }),
            is_mask(
                r.layers,
                GameCollisionLayer::Player,
                |l: GameCollisionLayer| l == GameCollisionLayer::Enemy || l == GameCollisionLayer::EnemyAttack,
            ),
    {
        PlayerBundle {
            player: Player { speed },
            health: Health::new(PLAYER_HEALTH),
            collider: Shape::Circle { radius: 5000 },
            layers: GameCollisionLayer::player_body(),
        }
    }

    /// Velocity while moving freely with the given intent direction.
    pub fn velocity(&self, intent: Vec2) -> (r: Vec2)
        requires
            is_direction(intent),
            0 <= self.speed <= SPEED_MAX,
        ensures
            r.x == intent.x * self.speed,
            r.y == intent.y * self.speed,
    {
        assert(-1048576000 <= intent.x * self.speed <= 1048576000) by (nonlinear_arith)
            requires
                -1000 <= intent.x <= 1000,
                0 <= self.speed <= 1048576,
        ;
        assert(-1048576000 <= intent.y * self.speed <= 1048576000) by (nonlinear_arith)
            requires
                -1000 <= intent.y <= 1000,
                0 <= self.speed <= 1048576,
        ;
        Vec2 { x: intent.x * self.speed, y: intent.y * self.speed }
    }
}

/// The staff strike: an attack plan for the player, the weapon's swing, and
/// the point the weapon swings to.
#[derive(Clone, Debug)]
pub struct StaffStrike {
    pub plan: AttackPlan,
    pub swing: SwingSequence,
    pub weapon_target: Vec2,
}

/// The primary attack towards `looking`: after a quarter second a short
/// staff hitbox that applies a mark appears twenty units ahead; the player
/// lunges forward, then recoils, and is rooted for 0.8 s.
pub fn primary_attack(looking: Vec2, player_pos: Vec2) -> (r: StaffStrike)
    requires
        is_bounded(looking),
        is_bounded(player_pos),
    ensures
        r.plan.wf(),
        is_normalized_of(looking, r.plan.timeline.direction),
        r.plan.timeline.stages@ == seq![
            Stage {
                offset: 250000,
                shape: Shape::Rectangle { width: 4000, height: 18000 },
                lifetime: 100000,
                motion: None,
                sound: Some(Sound::StaffImpact),
            },
        ],
        r.plan.timeline.range == 20,
        r.plan.timeline.marker == Some(AttackMarker::AppliesMark),
        r.plan.timeline.sprite is None,
        r.plan.timeline.swing_sound == Some((100000u64, Sound::StaffSwing)),
        r.plan.timeline.stopwatch.elapsed == 0,
        r.plan.movement.stopwatch.elapsed == 0,
        r.plan.movement.stages@ == seq![
            MovementStage {
                start: 280000,
                easing: Easing::QuarticOut,
                speed: 600,
                from: Vec2 { x: (-r.plan.timeline.direction.x) as i64, y: (-r.plan.timeline.direction.y) as i64 },
                to: Vec2 { x: 0, y: 0 },
                duration: 1200000,
            },
            MovementStage {
                start: 0,
                easing: Easing::QuarticOut,
                speed: 500,
                from: r.plan.timeline.direction,
                to: Vec2 { x: 0, y: 0 },
                duration: 270000,
            },
        ],
        r.plan.root.duration == 800000 && r.plan.root.stopwatch.elapsed == 0,
        r.swing.stages@ == seq![SwingStage { start: 0, duration: 250000 }],
        r.swing.stopwatch.elapsed == 0,
        r.weapon_target.x == player_pos.x + 40 * r.plan.timeline.direction.x,
        r.weapon_target.y == player_pos.y + 40 * r.plan.timeline.direction.y,
{
    let n = normalize_or_zero(looking);
    let timeline = AttackTimeline {
        stages: vec![
            Stage {
                offset: 250000,
                shape: Shape::Rectangle { width: 4000, height: 18000 },
                lifetime: 100000,
                motion: None,
                sound: Some(Sound::StaffImpact),
            },
        ],
        direction: n,
        range: 20,
        marker: Some(AttackMarker::AppliesMark),
        sprite: None,
        swing_sound: Some((100000, Sound::StaffSwing)),
        stopwatch: Stopwatch::new(),
    };
    let back = Vec2 { x: -n.x, y: -n.y };
    let movement = MovementSequence {
        stages: vec![
            MovementStage {
                start: 280000,
                easing: Easing::QuarticOut,
                speed: 600,
                from: back,
                to: Vec2 { x: 0, y: 0 },
                duration: 1200000,
            },
            MovementStage {
                start: 0,
                easing: Easing::QuarticOut,
                speed: 500,
                from: n,
                to: Vec2 { x: 0, y: 0 },
                duration: 270000,
            },
        ],
        stopwatch: Stopwatch::new(),
    };
    assert(movement.stages@[0].wf() && movement.stages@[1].wf());
    let swing = SwingSequence { stages: vec![SwingStage { start: 0, duration: 250000 }], stopwatch: Stopwatch::new() };
    let weapon_target = Vec2 { x: player_pos.x + 40 * n.x, y: player_pos.y + 40 * n.y };
    let r = StaffStrike {
        plan: AttackPlan { timeline, movement, root: RootLock::new(800000) },
        swing,
        weapon_target,
    };
    assert(r.plan.timeline.stages@ =~= seq![
        Stage {
            offset: 250000,
            shape: Shape::Rectangle { width: 4000, height: 18000 },
            lifetime: 100000,
            motion: None,
            sound: Some(Sound::StaffImpact),
        },
    ]);
    r
}

/// The secondary attack towards `looking`: after a quarter second a potion
/// that triggers marks is thrown from ten units ahead, flying at 80 units per
/// second and spinning, for up to ten seconds; the player drifts along
/// `move_axis` (its movement intent) while rooted for a quarter second.
pub fn secondary_attack(looking: Vec2, move_axis: Vec2) -> (r: AttackPlan)
    requires
        is_bounded(looking),
        is_direction(move_axis),
    ensures
        r.wf(),
        is_normalized_of(looking, r.timeline.direction),
        r.timeline.stages@ == seq![
            Stage {
                offset: 250000,
                shape: Shape::Circle { radius: 3500 },
                lifetime: 10000000,
                motion: Some(
                    HitboxMotion {
                        linear: Vec2 {
                            x: (80 * r.timeline.direction.x) as i64,
                            y: (80 * r.timeline.direction.y) as i64,
                        },
                        angular: 15000,
                    },
                ),
                sound: None,
            },
        ],
        r.timeline.range == 10,
        r.timeline.marker == Some(AttackMarker::TriggersMark),
        r.timeline.sprite == Some(
            HitboxSprite { image: SpriteAsset::Potion, size: Some(Vec2 { x: 7000, y: 7000 }) },
        ),
        r.timeline.swing_sound is None,
        r.timeline.stopwatch.elapsed == 0,
        r.movement.stopwatch.elapsed == 0,
        r.movement.stages@ == seq![
            MovementStage {
                start: 0,
                easing: Easing::QuarticOut,
                speed: 50,
                from: move_axis,
                to: Vec2 { x: 0, y: 0 },
                duration: 250000,
            },
        ],
        r.root.duration == 250000 && r.root.stopwatch.elapsed == 0,
{
    let n = normalize_or_zero(looking);
    let timeline = AttackTimeline {
        stages: vec![
            Stage {
                offset: 250000,
                shape: Shape::Circle { radius: 3500 },
                lifetime: 10000000,
                motion: Some(HitboxMotion { linear: Vec2 { x: 80 * n.x, y: 80 * n.y }, angular: 15000 }),
                sound: None,
            },
        ],
        direction: n,
        range: 10,
        marker: Some(AttackMarker::TriggersMark),
        sprite: Some(HitboxSprite { image: SpriteAsset::Potion, size: Some(Vec2 { x: 7000, y: 7000 }) }),
        swing_sound: None,
        stopwatch: Stopwatch::new(),
    };
    let movement = MovementSequence {
        stages: vec![
            MovementStage {
                start: 0,
                easing: Easing::QuarticOut,
                speed: 50,
                from: move_axis,
                to: Vec2 { x: 0, y: 0 },
                duration: 250000,
            },
        ],
        stopwatch: Stopwatch::new(),
    };
    assert(movement.stages@[0].wf());
    let r = AttackPlan { timeline, movement, root: RootLock::new(250000) };
    assert(r.timeline.stages@ =~= seq![
        Stage {
            offset: 250000,
            shape: Shape::Circle { radius: 3500 },
            lifetime: 10000000,
            motion: Some(
                HitboxMotion {
                    linear: Vec2 { x: (80 * n.x) as i64, y: (80 * n.y) as i64 },
                    angular: 15000,
                },
            ),
            sound: None,
        },
    ]);
    assert(r.movement.stages@ =~= seq![
        MovementStage {
            start: 0,
            easing: Easing::QuarticOut,
            speed: 50,
            from: move_axis,
            to: Vec2 { x: 0, y: 0 },
            duration: 250000,
        },
    ]);
    r
}

} // verus!
