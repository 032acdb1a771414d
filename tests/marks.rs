use combat_core::health::{update_healthbar, Health, HealthBarUpdate};
use combat_core::mark::{MarkNetwork, MARK_DAMAGE};

fn network_with_enemies(n: usize) -> MarkNetwork {
    let mut net = MarkNetwork::new();
    for _ in 0..n {
        net.add_target(Health::new(30), true);
    }
    net
}

#[test]
fn mark_chain_through_a_cycle_hits_each_target_once() {
    let mut net = network_with_enemies(3);
    let a = net.apply_mark(0).unwrap();
    let b = net.apply_mark(1).unwrap();
    let c = net.apply_mark(2).unwrap();
    net.set_colliding(a, vec![b, c]);
    net.set_colliding(b, vec![a, c]);
    net.set_colliding(c, vec![a, b]);
    let chain = net.trigger_mark(0);
    assert_eq!(chain.len(), 3);
    assert_eq!(chain[0], a);
    let mut seen = chain.clone();
    seen.sort();
    assert_eq!(seen, vec![a, b, c]);
    for t in 0..3 {
        let target = net.targets[t].unwrap();
        assert_eq!(target.health.current, 30 - MARK_DAMAGE);
        assert!(!target.marked);
    }
    assert!(net.sensors.iter().all(|s| s.is_none()));
}

#[test]
fn mark_chain_stops_at_unconnected_sensors() {
    let mut net = network_with_enemies(3);
    let a = net.apply_mark(0).unwrap();
    let b = net.apply_mark(1).unwrap();
    let c = net.apply_mark(2).unwrap();
    net.set_colliding(a, vec![b]);
    net.set_colliding(b, vec![a]);
    let chain = net.trigger_mark(1);
    assert_eq!(chain, vec![b, a]);
    assert_eq!(net.targets[0].unwrap().health.current, 20);
    assert_eq!(net.targets[1].unwrap().health.current, 20);
    assert_eq!(net.targets[2].unwrap().health.current, 30);
    assert!(net.targets[2].unwrap().marked);
    assert!(net.sensors[c].is_some());
}

#[test]
fn marking_a_marked_target_is_a_no_op() {
    let mut net = network_with_enemies(1);
    assert_eq!(net.apply_mark(0), Some(0));
    assert_eq!(net.apply_mark(0), None);
    assert_eq!(net.sensors.len(), 1);
    assert!(net.targets[0].unwrap().marked);
}

#[test]
fn only_live_enemies_can_be_marked() {
    let mut net = MarkNetwork::new();
    net.add_target(Health::new(100), false);
    net.add_target(Health::new(30), true);
    net.despawn_target(1);
    assert_eq!(net.apply_mark(0), None);
    assert_eq!(net.apply_mark(1), None);
    assert_eq!(net.apply_mark(7), None);
    assert_eq!(net.sensors.len(), 0);
}

#[test]
fn trigger_skips_a_despawned_target_gracefully() {
    let mut net = network_with_enemies(2);
    let a = net.apply_mark(0).unwrap();
    let b = net.apply_mark(1).unwrap();
    net.set_colliding(a, vec![b]);
    net.despawn_target(1);
    let chain = net.trigger_mark(0);
    assert_eq!(chain, vec![a, b]);
    assert_eq!(net.targets[0].unwrap().health.current, 20);
    assert!(net.targets[1].is_none());
    assert!(net.sensors[b].is_none());
}

#[test]
fn trigger_without_a_sensor_changes_nothing() {
    let mut net = network_with_enemies(1);
    assert!(net.trigger_mark(0).is_empty());
    assert!(net.trigger_mark(5).is_empty());
    assert_eq!(net.targets[0].unwrap().health.current, 30);
}

#[test]
fn potion_finds_first_marked_enemy() {
    let mut net = network_with_enemies(3);
    net.apply_mark(2).unwrap();
    assert_eq!(net.first_marked(&vec![0, 9, 2, 1]), Some(2));
    assert_eq!(net.first_marked(&vec![0, 1]), None);
}

#[test]
fn followers_are_looked_up_by_target() {
    let mut net = network_with_enemies(2);
    let s = net.apply_mark(1).unwrap();
    assert_eq!(net.followed_by(1), vec![s]);
    assert!(net.followed_by(0).is_empty());
    assert_eq!(net.following(s), Some(1));
    assert_eq!(net.following(s + 1), None);
}

#[test]
fn health_death_removes_the_combatant() {
    let mut h = Health { current: 10, max: 30 };
    h.mutate(-15);
    assert_eq!(h.current, -5);
    assert!(h.is_dead());
    assert_eq!(update_healthbar(&h, true), HealthBarUpdate::Despawn);
}

#[test]
fn health_is_clamped() {
    let mut h = Health { current: 25, max: 30 };
    h.mutate(20);
    assert_eq!(h.current, 30);
    let mut low = Health { current: i16::MIN + 3, max: 30 };
    low.mutate(-10);
    assert_eq!(low.current, i16::MIN);
}

#[test]
fn enemy_health_bar_shows_only_when_hurt() {
    let full = Health::new(30);
    assert_eq!(update_healthbar(&full, true), HealthBarUpdate::Resize { current: 30, max: 30, visible: Some(false) });
    let hurt = Health { current: 12, max: 30 };
    assert_eq!(update_healthbar(&hurt, true), HealthBarUpdate::Resize { current: 12, max: 30, visible: Some(true) });
    assert_eq!(update_healthbar(&hurt, false), HealthBarUpdate::Resize { current: 12, max: 30, visible: None });
}
