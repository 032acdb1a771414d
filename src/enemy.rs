//! Enemies: pursue the player, bite when close, and arrive in waves.
use vstd::prelude::*;
use crate::assets::{Sound, SpriteAsset};
use crate::clock::{RepeatingTimer, Stopwatch};
use crate::combatant::AttackPlan;
use crate::geometry::{in_coord_range, lemma_bounded_product, is_bounded, is_normalized_of, norm_sq, normalize_or_zero, Vec2};
use crate::health::{mutated, Health};
use crate::layers::{is_mask, GameCollisionLayer, LayerMask};
use crate::movement::{Easing, MovementSequence, MovementStage, RootLock, SPEED_MAX};
use crate::timeline::{AttackTimeline, HitboxSprite, Shape, Stage};

verus! {

/// Distance below which an enemy stops to bite, in thousandths.
pub const ATTACK_RANGE: i64 = 50000;

/// Damage of an enemy's bite.
pub const BITE_DAMAGE: i16 = 10;

/// Time between two waves, in microseconds.
pub const WAVE_INTERVAL: u64 = 10000000;

/// Half the side of the square around the player where a wave appears.
pub const WAVE_SPREAD: i64 = 500000;

/// An enemy: its pursuit speed in world units per second.
#[derive(Clone, Copy, Debug, PartialEq, Eq, Structural)]
pub struct Enemy {
    pub speed: i64,
}

/// A new enemy as the simulation sees it.
#[derive(Clone, Copy, Debug, PartialEq, Eq, Structural)]
pub struct EnemyBundle {
    pub enemy: Enemy,
    pub health: Health,
    pub collider: Shape,
    pub layers: LayerMask,
    pub position: Vec2,
}

impl Enemy {
    /// An enemy at `position` with full health.
    pub fn bundle(position: Vec2, speed: i64, health: i16, collider_radius: i64) -> (r: EnemyBundle)
        ensures
            r.enemy.speed == speed,
            r.health == (Health { current: health, max: health }),
            r.collider == (Shape::Circle { radius: collider_radius }),
            is_mask(
                r.layers,
                GameCollisionLayer::Enemy,
                |l: GameCollisionLayer|
                    l == GameCollisionLayer::Enemy || l == GameCollisionLayer::Player || l
                        == GameCollisionLayer::PlayerAttack,
            ),
            r.position == position,
    {
        EnemyBundle {
            enemy: Enemy { speed },
            health: Health::new(health),
            collider: Shape::Circle { radius: collider_radius },
            layers: GameCollisionLayer::enemy_body(),
            position,
        }
    }

    /// The training dummy every wave is made of.
    pub fn training_dummy(position: Vec2) -> (r: EnemyBundle)
        ensures
            r.enemy.speed == 30,
            r.health == (Health { current: 30, max: 30 }),
            r.collider == (Shape::Circle { radius: 8000 }),
            is_mask(
                r.layers,
                GameCollisionLayer::Enemy,
                |l: GameCollisionLayer|
                    l == GameCollisionLayer::Enemy || l == GameCollisionLayer::Player || l
                        == GameCollisionLayer::PlayerAttack,
            ),
            r.position == position,
    {
        Enemy::bundle(position, 30, 30, 8000)
    }
}

/// What an enemy in free movement does this tick.
#[derive(Clone, Debug)]
pub enum EnemyDecision {
    /// Head for the player along `direction` at `velocity`.
    Pursue { direction: Vec2, velocity: Vec2 },
    /// Stop, play `sound` and start biting.
    Attack { plan: AttackPlan, sound: Sound },
}

pub open spec fn offset(from: Vec2, to: Vec2) -> Vec2 {
    Vec2 { x: (to.x - from.x) as i64, y: (to.y - from.y) as i64 }
}

/// The pursuit decision of an enemy at `enemy_pos`: within `ATTACK_RANGE` of
/// the player it stops and bites towards the player, otherwise it heads for
/// the player at its speed.
pub fn move_enemy(enemy: &Enemy, enemy_pos: Vec2, player_pos: Vec2) -> (r: EnemyDecision)
    requires
        0 <= enemy.speed <= SPEED_MAX,
        in_coord_range(player_pos.x - enemy_pos.x),
        in_coord_range(player_pos.y - enemy_pos.y),
    ensures
        norm_sq(offset(enemy_pos, player_pos)) < ATTACK_RANGE * ATTACK_RANGE ==> match r {
            EnemyDecision::Attack { plan, sound } => {
                let n = plan.timeline.direction;
                &&& sound == Sound::BiteSwing
                &&& plan.wf()
                &&& is_normalized_of(offset(enemy_pos, player_pos), n)
                &&& plan.timeline.stages@ == seq![
                    Stage {
                        offset: 350000,
                        shape: Shape::Rectangle { width: 15000, height: 15000 },
                        lifetime: 250000,
                        motion: None,
                        sound: Some(Sound::BiteImpact),
                    },
                ]
                &&& plan.timeline.range == 15
                &&& plan.timeline.marker is None
                &&& plan.timeline.sprite == Some(HitboxSprite { image: SpriteAsset::Bite, size: None })
                &&& plan.timeline.swing_sound == Some((250000u64, Sound::BiteSwing))
                &&& plan.timeline.stopwatch.elapsed == 0
                &&& plan.movement.stopwatch.elapsed == 0
                &&& plan.movement.stages@ == seq![
                    MovementStage {
                        start: 250000,
                        easing: Easing::Linear,
                        speed: 250,
                        from: n,
                        to: Vec2 { x: 0, y: 0 },
                        duration: 1500000,
                    },
                ]
                &&& plan.root.duration == 1250000 && plan.root.stopwatch.elapsed == 0
            },
            EnemyDecision::Pursue { .. } => false,
        },
        norm_sq(offset(enemy_pos, player_pos)) >= ATTACK_RANGE * ATTACK_RANGE ==> match r {
            EnemyDecision::Pursue { direction, velocity } => {
                &&& is_normalized_of(offset(enemy_pos, player_pos), direction)
                &&& velocity.x == direction.x * enemy.speed
                &&& velocity.y == direction.y * enemy.speed
            },
            EnemyDecision::Attack { .. } => false,
        },
{
    let d = Vec2 { x: player_pos.x - enemy_pos.x, y: player_pos.y - enemy_pos.y };
    let n = normalize_or_zero(d);
    proof {
        lemma_bounded_product(d.x as int, d.x as int);
        lemma_bounded_product(d.y as int, d.y as int);
    }
    let sq: i128 = (d.x as i128) * (d.x as i128) + (d.y as i128) * (d.y as i128);
    if sq < 2500000000 {
        let timeline = AttackTimeline {
            stages: vec![
                Stage {
                    offset: 350000,
                    shape: Shape::Rectangle { width: 15000, height: 15000 },
                    lifetime: 250000,
                    motion: None,
                    sound: Some(Sound::BiteImpact),
                },
            ],
            direction: n,
            range: 15,
            marker: None,
            sprite: Some(HitboxSprite { image: SpriteAsset::Bite, size: None }),
            swing_sound: Some((250000, Sound::BiteSwing)),
            stopwatch: Stopwatch::new(),
        };
        let movement = MovementSequence {
            stages: vec![
                MovementStage {
                    start: 250000,
                    easing: Easing::Linear,
                    speed: 250,
                    from: n,
                    to: Vec2 { x: 0, y: 0 },
                    duration: 1500000,
                },
            ],
            stopwatch: Stopwatch::new(),
        };
        assert(movement.stages@[0].wf());
        let plan = AttackPlan { timeline, movement, root: RootLock::new(1250000) };
        assert(plan.timeline.stages@ =~= seq![
            Stage {
                offset: 350000,
                shape: Shape::Rectangle { width: 15000, height: 15000 },
                lifetime: 250000,
                motion: None,
                sound: Some(Sound::BiteImpact),
            },
        ]);
        assert(plan.movement.stages@ =~= seq![
            MovementStage {
                start: 250000,
                easing: Easing::Linear,
                speed: 250,
                from: n,
                to: Vec2 { x: 0, y: 0 },
                duration: 1500000,
            },
        ]);
        EnemyDecision::Attack { plan, sound: Sound::BiteSwing }
    } else {
        assert(-1048576000 <= n.x * enemy.speed <= 1048576000) by (nonlinear_arith)
            requires
                -1000 <= n.x <= 1000,
                0 <= enemy.speed <= 1048576,
        ;
        assert(-1048576000 <= n.y * enemy.speed <= 1048576000) by (nonlinear_arith)
            requires
                -1000 <= n.y <= 1000,
                0 <= enemy.speed <= 1048576,
        ;
        EnemyDecision::Pursue {
            direction: n,
            velocity: Vec2 { x: n.x * enemy.speed, y: n.y * enemy.speed },
        }
    }
}

/// An enemy's bite lands on the player.
pub fn enemy_attack(player_health: &mut Health)
    requires
        old(player_health).wf(),
    ensures
        final(player_health).wf(),
        final(player_health).max == old(player_health).max,
        final(player_health).current == mutated(
            old(player_health).current as int,
            old(player_health).max as int,
            -BITE_DAMAGE as int,
        ),
{
    player_health.mutate(-BITE_DAMAGE);
}

/// The clock between waves.
pub fn spawn_timer() -> (r: RepeatingTimer)
    ensures
        r.duration == WAVE_INTERVAL,
        r.elapsed == 0,
{
    RepeatingTimer::new(WAVE_INTERVAL)
}

/// Relies on `rand::Rng::random_range` with the thread-local generator of
/// `rand::rng`: a value of the half-open range `lo..hi`. It panics on an
/// empty range, which `requires` leaves out.
#[verifier::external_body]
fn random_in(lo: i64, hi: i64) -> (r: i64)
    requires
        lo < hi,
    ensures
        lo <= r < hi,
{
    rand::Rng::random_range(&mut rand::rng(), lo..hi)
}

/// Positions of a new wave: two to four enemies, each at a random point of
/// the square of half-side `WAVE_SPREAD` around the player (upper edges
/// excluded).
pub fn spawn_wave(player_pos: Vec2) -> (r: Vec<Vec2>)
    requires
        is_bounded(player_pos),
    ensures
        2 <= r@.len() <= 4,
        forall|k: int|
            0 <= k < r@.len() ==> player_pos.x - WAVE_SPREAD <= #[trigger] r@[k].x < player_pos.x
                + WAVE_SPREAD && player_pos.y - WAVE_SPREAD <= r@[k].y < player_pos.y + WAVE_SPREAD,
{
    let count = random_in(2, 5);
    let mut out: Vec<Vec2> = Vec::new();
    let mut i: i64 = 0;
    while i < count
        invariant
            2 <= count < 5,
            0 <= i <= count,
            out@.len() == i,
            is_bounded(player_pos),
            forall|k: int|
                0 <= k < out@.len() ==> player_pos.x - WAVE_SPREAD <= #[trigger] out@[k].x
                    < player_pos.x + WAVE_SPREAD && player_pos.y - WAVE_SPREAD <= out@[k].y
                    < player_pos.y + WAVE_SPREAD,
        decreases count - i,
    {
        let x = random_in(player_pos.x - WAVE_SPREAD, player_pos.x + WAVE_SPREAD);
        let y = random_in(player_pos.y - WAVE_SPREAD, player_pos.y + WAVE_SPREAD);
        out.push(Vec2 { x, y });
        i = i + 1;
    }
    out
}

} // verus!
