use combat_core::assets::{Sound, SpriteAsset};
use combat_core::clock::{OnceTimer, RepeatingTimer, Stopwatch};
use combat_core::combatant::Combatant;
use combat_core::geometry::Vec2;
use combat_core::layers::{attacker_side, GameCollisionLayer, LayerSet, Side, SideError};
use combat_core::movement::{ease, progress, Easing, MovementSequence, MovementStage, MovementStep, RootLock, SwingSequence, SwingStage, SwingStep};
use combat_core::player::{primary_attack, secondary_attack};
use combat_core::timeline::{AttackMarker, AttackTimeline, HitboxMotion, HitboxSprite, Shape, Stage, TimelineStep};

fn stage(offset: u64, lifetime: u64) -> Stage {
    Stage { offset, shape: Shape::Circle { radius: 1000 }, lifetime, motion: None, sound: None }
}

fn two_stage_timeline() -> AttackTimeline {
    AttackTimeline {
        stages: vec![stage(250_000, 100_000), stage(0, 50_000)],
        direction: Vec2 { x: 0, y: 1000 },
        range: 20,
        marker: None,
        sprite: None,
        swing_sound: None,
        stopwatch: Stopwatch::new(),
    }
}

#[test]
fn stages_spawn_from_the_top_of_the_stack() {
    let mut t = two_stage_timeline();
    let origin = Vec2 { x: 0, y: 0 };
    // t = 0.0: the stage at offset 0 is on top and spawns at once.
    let first = t.tick(0, Side::Player, origin);
    match first.step {
        TimelineStep::Spawn(h) => assert_eq!(h.lifetime, 50_000),
        other => panic!("expected a spawn, got {:?}", other),
    }
    // t = 0.1: the next stage is due at 0.25.
    assert_eq!(t.tick(100_000, Side::Player, origin).step, TimelineStep::Waiting);
    assert_eq!(t.stages.len(), 1);
    // t = 0.26: exactly one hitbox spawns.
    match t.tick(160_000, Side::Player, origin).step {
        TimelineStep::Spawn(h) => assert_eq!(h.lifetime, 100_000),
        other => panic!("expected a spawn, got {:?}", other),
    }
    assert!(t.is_done());
    // Only now does the timeline report completion.
    assert_eq!(t.tick(10_000, Side::Player, origin).step, TimelineStep::Complete);
}

#[test]
fn timeline_not_complete_while_stages_remain() {
    let mut t = two_stage_timeline();
    let origin = Vec2 { x: 0, y: 0 };
    let mut spawned = 0;
    let mut ticks = 0;
    loop {
        let step = t.tick(100_000, Side::Enemy, origin).step;
        ticks += 1;
        match step {
            TimelineStep::Complete => break,
            TimelineStep::Spawn(_) => spawned += 1,
            TimelineStep::Waiting => {}
        }
        assert!(ticks < 10);
    }
    assert_eq!(spawned, 2);
}

#[test]
fn attached_hitbox_is_relative_and_moving_one_is_world_anchored() {
    let motion = HitboxMotion { linear: Vec2 { x: 80_000, y: 0 }, angular: 15_000 };
    let mut t = AttackTimeline {
        stages: vec![
            Stage { offset: 0, shape: Shape::Rectangle { width: 4000, height: 18000 }, lifetime: 1, motion: Some(motion), sound: Some(Sound::StaffImpact) },
            stage(0, 1),
        ],
        direction: Vec2 { x: 1000, y: 0 },
        range: 15,
        marker: Some(AttackMarker::TriggersMark),
        sprite: Some(HitboxSprite { image: SpriteAsset::Potion, size: None }),
        swing_sound: None,
        stopwatch: Stopwatch::new(),
    };
    let attacker = Vec2 { x: 5_000, y: -7_000 };
    match t.tick(1, Side::Player, attacker).step {
        TimelineStep::Spawn(h) => {
            assert_eq!(h.origin, Vec2 { x: 15_000, y: 0 });
            assert_eq!(h.motion, None);
            assert_eq!(h.layers, GameCollisionLayer::player_attack());
            assert_eq!(h.marker, Some(AttackMarker::TriggersMark));
            assert_eq!(h.facing, Vec2 { x: 1000, y: 0 });
        }
        other => panic!("expected a spawn, got {:?}", other),
    }
    match t.tick(1, Side::Enemy, attacker).step {
        TimelineStep::Spawn(h) => {
            assert_eq!(h.origin, Vec2 { x: 20_000, y: -7_000 });
            assert_eq!(h.motion, Some(motion));
            assert_eq!(h.sound, Some(Sound::StaffImpact));
            assert_eq!(h.layers, GameCollisionLayer::enemy_attack());
        }
        other => panic!("expected a spawn, got {:?}", other),
    }
}

#[test]
fn swing_sound_fires_once() {
    let mut t = two_stage_timeline();
    t.stages = vec![stage(1_000_000, 1)];
    t.swing_sound = Some((100_000, Sound::StaffSwing));
    let origin = Vec2 { x: 0, y: 0 };
    assert_eq!(t.tick(50_000, Side::Player, origin).swing_sound, None);
    assert_eq!(t.tick(50_000, Side::Player, origin).swing_sound, Some(Sound::StaffSwing));
    assert_eq!(t.tick(50_000, Side::Player, origin).swing_sound, None);
    assert_eq!(t.swing_sound, None);
}

#[test]
fn attacker_side_must_be_exactly_one() {
    assert_eq!(attacker_side(true, false), Ok(Side::Enemy));
    assert_eq!(attacker_side(false, true), Ok(Side::Player));
    assert_eq!(attacker_side(true, true), Err(SideError::Both));
    assert_eq!(attacker_side(false, false), Err(SideError::Neither));
}

#[test]
fn attack_layers_are_asymmetric() {
    let enemy = GameCollisionLayer::enemy_attack();
    assert_eq!(enemy.membership, GameCollisionLayer::EnemyAttack);
    assert_eq!(enemy.filters, LayerSet::only(GameCollisionLayer::Player));
    let player = GameCollisionLayer::player_attack();
    assert_eq!(player.membership, GameCollisionLayer::PlayerAttack);
    assert_eq!(player.filters, LayerSet::only(GameCollisionLayer::Enemy));
    let mark = GameCollisionLayer::mark();
    assert_eq!(mark.membership, GameCollisionLayer::Mark);
    assert_eq!(mark.filters, LayerSet::only(GameCollisionLayer::Mark));
}

#[test]
fn body_layers() {
    let enemy = GameCollisionLayer::enemy_body();
    assert_eq!(enemy.membership, GameCollisionLayer::Enemy);
    assert!(enemy.filters.contains(GameCollisionLayer::Enemy));
    assert!(enemy.filters.contains(GameCollisionLayer::Player));
    assert!(enemy.filters.contains(GameCollisionLayer::PlayerAttack));
    assert!(!enemy.filters.contains(GameCollisionLayer::EnemyAttack));
    assert!(!enemy.filters.contains(GameCollisionLayer::Mark));
    let player = GameCollisionLayer::player_body();
    assert_eq!(player.membership, GameCollisionLayer::Player);
    assert!(player.filters.contains(GameCollisionLayer::Enemy));
    assert!(player.filters.contains(GameCollisionLayer::EnemyAttack));
    assert!(!player.filters.contains(GameCollisionLayer::PlayerAttack));
    assert!(!player.filters.contains(GameCollisionLayer::Player));
}

#[test]
fn root_lock_expires_when_its_duration_has_accumulated() {
    let mut lock = RootLock::new(350_000);
    assert!(!lock.tick(100_000));
    assert!(!lock.tick(100_000));
    assert!(!lock.tick(100_000));
    assert!(!lock.tick(49_999));
    assert!(lock.tick(1));
}

#[test]
fn combatant_regains_free_movement_when_root_expires() {
    let mut c = Combatant::new(Side::Player);
    let plan = secondary_attack(Vec2 { x: 3, y: 4 }, Vec2 { x: 0, y: 0 });
    let mut plan = plan;
    plan.root = RootLock::new(350_000);
    assert!(c.start_attack(plan));
    assert!(!c.moving);
    let pos = Vec2 { x: 0, y: 0 };
    c.tick(200_000, pos);
    assert!(!c.moving);
    c.tick(149_999, pos);
    assert!(!c.moving);
    assert!(c.rooted.is_some());
    c.tick(1, pos);
    assert!(c.moving);
    assert!(c.rooted.is_none());
}

#[test]
fn second_attack_is_refused_while_attacking() {
    let mut c = Combatant::new(Side::Player);
    assert!(c.start_attack(secondary_attack(Vec2 { x: 1, y: 0 }, Vec2 { x: 0, y: 0 })));
    assert!(!c.start_attack(primary_attack(Vec2 { x: 1, y: 0 }, Vec2 { x: 0, y: 0 }).plan));
    assert_eq!(c.attack.as_ref().unwrap().marker, Some(AttackMarker::TriggersMark));
}

#[test]
fn primary_attack_plan() {
    let strike = primary_attack(Vec2 { x: 0, y: 5 }, Vec2 { x: 1000, y: 2000 });
    let t = &strike.plan.timeline;
    assert_eq!(t.direction, Vec2 { x: 0, y: 1000 });
    assert_eq!(t.range, 20);
    assert_eq!(t.marker, Some(AttackMarker::AppliesMark));
    assert_eq!(t.swing_sound, Some((100_000, Sound::StaffSwing)));
    assert_eq!(t.stages.len(), 1);
    assert_eq!(t.stages[0].offset, 250_000);
    assert_eq!(strike.plan.root.duration, 800_000);
    assert_eq!(strike.plan.movement.stages.len(), 2);
    assert_eq!(strike.plan.movement.stages[0].from, Vec2 { x: 0, y: -1000 });
    assert_eq!(strike.plan.movement.stages[1].from, Vec2 { x: 0, y: 1000 });
    assert_eq!(strike.weapon_target, Vec2 { x: 1000, y: 42000 });
}

#[test]
fn secondary_attack_plan() {
    let plan = secondary_attack(Vec2 { x: -7, y: 0 }, Vec2 { x: 600, y: 800 });
    let t = &plan.timeline;
    assert_eq!(t.direction, Vec2 { x: -1000, y: 0 });
    assert_eq!(t.stages[0].motion, Some(HitboxMotion { linear: Vec2 { x: -80_000, y: 0 }, angular: 15_000 }));
    assert_eq!(t.stages[0].lifetime, 10_000_000);
    assert_eq!(t.marker, Some(AttackMarker::TriggersMark));
    assert_eq!(plan.movement.stages[0].from, Vec2 { x: 600, y: 800 });
    assert_eq!(plan.root.duration, 250_000);
}

#[test]
fn easing_values() {
    assert_eq!(ease(Easing::Linear, 420), 420);
    assert_eq!(ease(Easing::QuarticOut, 0), 0);
    assert_eq!(ease(Easing::QuarticOut, 500), 938);
    assert_eq!(ease(Easing::QuarticOut, 1000), 1000);
    assert_eq!(progress(135_000, 270_000), 500);
    assert_eq!(progress(300_000, 270_000), 1000);
}

#[test]
fn movement_sequence_drives_then_advances() {
    let mut m = MovementSequence {
        stages: vec![MovementStage {
            start: 0,
            easing: Easing::QuarticOut,
            speed: 500,
            from: Vec2 { x: 1000, y: 0 },
            to: Vec2 { x: 0, y: 0 },
            duration: 270_000,
        }],
        stopwatch: Stopwatch::new(),
    };
    assert_eq!(m.tick(135_000), MovementStep::Drive(Vec2 { x: 31_000, y: 0 }));
    assert_eq!(m.tick(200_000), MovementStep::Advance);
    assert_eq!(m.tick(1), MovementStep::Finished);
}

#[test]
fn movement_leg_waits_for_its_start() {
    let mut m = MovementSequence {
        stages: vec![MovementStage {
            start: 250_000,
            easing: Easing::Linear,
            speed: 250,
            from: Vec2 { x: 0, y: -1000 },
            to: Vec2 { x: 0, y: 0 },
            duration: 1_500_000,
        }],
        stopwatch: Stopwatch::new(),
    };
    assert_eq!(m.tick(250_000), MovementStep::Idle);
    // elapsed 0.75 s of 1.5 s: half way, linear.
    assert_eq!(m.tick(500_000), MovementStep::Drive(Vec2 { x: 0, y: -125_000 }));
}

#[test]
fn swing_sequence_reports_progress() {
    let mut s = SwingSequence { stages: vec![SwingStage { start: 0, duration: 250_000 }], stopwatch: Stopwatch::new() };
    assert_eq!(s.tick(0), SwingStep::Idle);
    assert_eq!(s.tick(125_000), SwingStep::Animate(500));
    assert_eq!(s.tick(200_000), SwingStep::Advance);
    assert_eq!(s.tick(0), SwingStep::Finished);
}

#[test]
fn once_timer_finishes_and_rests() {
    let mut t = OnceTimer::new(100_000);
    assert!(!t.tick(60_000));
    assert!(t.tick(60_000));
    assert_eq!(t.elapsed, 100_000);
}

#[test]
fn repeating_timer_keeps_remainder() {
    let mut t = RepeatingTimer::new(10_000_000);
    assert!(!t.tick(9_000_000));
    assert!(t.tick(1_500_000));
    assert_eq!(t.elapsed, 500_000);
}

#[test]
fn stopwatch_saturates() {
    let mut s = Stopwatch { elapsed: u64::MAX - 1 };
    s.tick(5);
    assert_eq!(s.elapsed, u64::MAX);
}
