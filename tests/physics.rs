use combat_core::enemy::{enemy_attack, move_enemy, spawn_timer, spawn_wave, Enemy, EnemyDecision, WAVE_SPREAD};
use combat_core::game::{check_input_state, pause_game, CursorState, GameState};
use combat_core::geometry::{div_floor, isqrt, normalize_or_zero, Vec2};
use combat_core::health::Health;
use combat_core::player::Player;
use combat_core::resolver::{resolve_contact_pair, resolve_manifold, Body, Manifold};
use combat_core::assets::Sound;

fn body(px: i64, py: i64, vx: i64, vy: i64) -> Body {
    Body { position: Vec2 { x: px, y: py }, velocity: Vec2 { x: vx, y: vy } }
}

#[test]
fn overlap_is_split_evenly_between_the_bodies() {
    let mut a = body(0, 0, 0, 0);
    let mut b = body(5_000, 0, 0, 0);
    let m = Manifold { normal: Vec2 { x: 1000, y: 0 }, penetrations: vec![2_000] };
    resolve_manifold(&mut a, &mut b, &m, 16_000);
    assert_eq!(a.position, Vec2 { x: -1_000, y: 0 });
    assert_eq!(b.position, Vec2 { x: 6_000, y: 0 });
}

#[test]
fn odd_correction_still_sums_to_the_full_depth() {
    let mut a = body(0, 0, 0, 0);
    let mut b = body(0, 0, 0, 0);
    let m = Manifold { normal: Vec2 { x: 0, y: 1000 }, penetrations: vec![3] };
    resolve_manifold(&mut a, &mut b, &m, 16_000);
    assert_eq!(b.position.y - a.position.y, 3);
    assert_eq!(b.position.y, 1);
    assert_eq!(a.position.y, -2);
}

#[test]
fn overlapping_body_slides_along_the_surface() {
    // Body 2 moves into the surface (against the normal) and sideways.
    let mut a = body(0, 0, 0, 0);
    let mut b = body(0, 0, -300, 400);
    let m = Manifold { normal: Vec2 { x: 1000, y: 0 }, penetrations: vec![10] };
    resolve_manifold(&mut a, &mut b, &m, 16_000);
    assert_eq!(b.velocity, Vec2 { x: 0, y: 400 });
    // Body 1 moving away keeps its velocity.
    let mut c = body(0, 0, -50, 0);
    let mut d = body(0, 0, 0, 0);
    resolve_manifold(&mut c, &mut d, &m, 16_000);
    assert_eq!(c.velocity, Vec2 { x: -50, y: 0 });
}

#[test]
fn speculative_contact_slows_an_approaching_body() {
    let mut a = body(0, 0, 0, 0);
    let mut b = body(0, 0, -4_000, 0);
    let m = Manifold { normal: Vec2 { x: 1000, y: 0 }, penetrations: vec![-16] };
    resolve_manifold(&mut a, &mut b, &m, 16_000);
    // normal speed -2000; gap 16 over 0.016 s is 1000 per second;
    // impulse (-2000 - (-1000)) * n / 2 = -500 along x.
    assert_eq!(b.velocity, Vec2 { x: -3_500, y: 0 });
    assert_eq!(b.position, Vec2 { x: 0, y: 0 });
}

#[test]
fn empty_manifold_changes_nothing() {
    let mut a = body(1, 2, 3, 4);
    let mut b = body(5, 6, 7, 8);
    let m = Manifold { normal: Vec2 { x: 1000, y: 0 }, penetrations: vec![] };
    resolve_manifold(&mut a, &mut b, &m, 16_000);
    assert_eq!(a, body(1, 2, 3, 4));
    assert_eq!(b, body(5, 6, 7, 8));
}

#[test]
fn contact_pair_resolves_every_manifold() {
    let mut a = body(0, 0, 0, 0);
    let mut b = body(0, 0, 0, 0);
    let ms = vec![
        Manifold { normal: Vec2 { x: 1000, y: 0 }, penetrations: vec![2_000] },
        Manifold { normal: Vec2 { x: 0, y: 1000 }, penetrations: vec![4_000, 1_000] },
    ];
    assert!(resolve_contact_pair(&mut a, &mut b, &ms, 16_000));
    assert_eq!(a.position, Vec2 { x: -1_000, y: -2_500 });
    assert_eq!(b.position, Vec2 { x: 1_000, y: 2_500 });
    let bad = vec![Manifold { normal: Vec2 { x: 5000, y: 0 }, penetrations: vec![1] }];
    assert!(!resolve_contact_pair(&mut a, &mut b, &bad, 16_000));
}

#[test]
fn integer_helpers() {
    assert_eq!(div_floor(-7, 2), -4);
    assert_eq!(div_floor(7, 2), 3);
    assert_eq!(isqrt(0), 0);
    assert_eq!(isqrt(24), 4);
    assert_eq!(isqrt(25), 5);
    assert_eq!(isqrt(u64::MAX), 4_294_967_295);
    assert_eq!(normalize_or_zero(Vec2 { x: 0, y: 0 }), Vec2 { x: 0, y: 0 });
    assert_eq!(normalize_or_zero(Vec2 { x: 3, y: -4 }), Vec2 { x: 600, y: -800 });
}

#[test]
fn enemy_pursues_from_afar() {
    let e = Enemy { speed: 30 };
    match move_enemy(&e, Vec2 { x: 0, y: 0 }, Vec2 { x: 100_000, y: 0 }) {
        EnemyDecision::Pursue { direction, velocity } => {
            assert_eq!(direction, Vec2 { x: 1000, y: 0 });
            assert_eq!(velocity, Vec2 { x: 30_000, y: 0 });
        }
        EnemyDecision::Attack { .. } => panic!("expected pursuit"),
    }
}

#[test]
fn enemy_bites_when_close() {
    let e = Enemy { speed: 30 };
    match move_enemy(&e, Vec2 { x: 0, y: 0 }, Vec2 { x: 0, y: -49_999 }) {
        EnemyDecision::Attack { plan, sound } => {
            assert_eq!(sound, Sound::BiteSwing);
            assert_eq!(plan.timeline.direction, Vec2 { x: 0, y: -1000 });
            assert_eq!(plan.timeline.range, 15);
            assert_eq!(plan.timeline.stages[0].offset, 350_000);
            assert_eq!(plan.root.duration, 1_250_000);
        }
        EnemyDecision::Pursue { .. } => panic!("expected a bite"),
    }
    // Exactly at the range the enemy keeps pursuing.
    assert!(matches!(
        move_enemy(&e, Vec2 { x: 0, y: 0 }, Vec2 { x: 50_000, y: 0 }),
        EnemyDecision::Pursue { .. }
    ));
}

#[test]
fn bite_damages_the_player() {
    let mut h = Player::bundle(50).health;
    enemy_attack(&mut h);
    assert_eq!(h.current, 90);
}

#[test]
fn waves_appear_around_the_player() {
    let player = Vec2 { x: 1_000_000, y: -2_000_000 };
    let mut sizes = std::collections::BTreeSet::new();
    let mut off_corner = 0;
    for _ in 0..50 {
        let wave = spawn_wave(player);
        assert!(wave.len() >= 2 && wave.len() <= 4);
        sizes.insert(wave.len());
        for p in &wave {
            assert!(p.x >= player.x - WAVE_SPREAD && p.x < player.x + WAVE_SPREAD);
            assert!(p.y >= player.y - WAVE_SPREAD && p.y < player.y + WAVE_SPREAD);
            if p.x != player.x - WAVE_SPREAD || p.y != player.y - WAVE_SPREAD {
                off_corner += 1;
            }
        }
    }
    // The draws are random: sizes vary and points are spread out.
    assert!(sizes.len() > 1);
    assert!(off_corner > 0);
    let mut timer = spawn_timer();
    assert!(!timer.tick(9_999_999));
    assert!(timer.tick(1));
}

#[test]
fn player_moves_at_its_speed() {
    let p = Player::bundle(50).player;
    assert_eq!(p.velocity(Vec2 { x: 600, y: -800 }), Vec2 { x: 30_000, y: -40_000 });
}

#[test]
fn pause_and_input_state() {
    assert_eq!(pause_game(GameState::Running), GameState::Paused);
    assert_eq!(pause_game(GameState::Paused), GameState::Running);
    assert_eq!(check_input_state(true, true), Some(CursorState::Mouse));
    assert_eq!(check_input_state(false, true), Some(CursorState::Touch));
    assert_eq!(check_input_state(false, false), None);
    let _ = Health::new(1);
}

#[test]
fn bundles_carry_body_layers() {
    let e = Enemy::training_dummy(Vec2 { x: 1, y: 2 });
    assert_eq!(e.layers, combat_core::layers::GameCollisionLayer::enemy_body());
    assert_eq!(e.health, Health { current: 30, max: 30 });
    let p = Player::bundle(50);
    assert_eq!(p.layers, combat_core::layers::GameCollisionLayer::player_body());
    assert_eq!(p.health, Health { current: 100, max: 100 });
}
