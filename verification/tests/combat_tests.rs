use mmo::combat::{
    apply_damage, attack_mobs, dead_players, heal_players, hurt_player, revive, HealthChange, MobHitEvent, MobVitals,
    PlayerVitals,
};
use mmo::mob_logic::{
    attack_step, change_direction_for_attack, change_direction_to_target, choose_attack, choose_direction,
    heading_after_choice, AttackAction, AttackObservation, AttackTiming, Heading, MobAttackState,
};
use mmo::object::{Direction4, Direction8, ObjectId};
use mmo::tick::{Tick, TickDuration, TickRate};

fn player(id: u64, health: i32, max: i32, last: u32) -> PlayerVitals {
    PlayerVitals { id: ObjectId(id), health, max_health: max, last_damaged_at: Tick(last) }
}

#[test]
fn damage_stops_at_zero() {
    assert_eq!(apply_damage(10, 3), 7);
    assert_eq!(apply_damage(10, 10), 0);
    assert_eq!(apply_damage(10, 25), 0);
}

#[test]
fn hurt_player_reports_change() {
    let mut p = player(1, 50, 100, 0);
    let e = hurt_player(&mut p, 20, Tick(9));
    assert_eq!(p.health, 30);
    assert_eq!(p.last_damaged_at, Tick(9));
    assert_eq!(e, HealthChange { object_id: ObjectId(1), change: -20, health: 30 });
    let e = hurt_player(&mut p, 40, Tick(10));
    assert_eq!(p.health, 0);
    assert_eq!(e, HealthChange { object_id: ObjectId(1), change: -40, health: 0 });
}

#[test]
fn healing_happens_on_nth_ticks_only() {
    let mut ps = vec![player(1, 50, 100, 0)];
    let events = heal_players(Tick(25), TickRate(10), TickDuration(5), 10, &mut ps);
    assert!(events.is_empty());
    assert_eq!(ps[0].health, 50);
}

#[test]
fn healing_waits_after_damage_and_caps_at_max() {
    let mut ps = vec![
        player(1, 50, 100, 0),  // heals by 10
        player(2, 95, 100, 0),  // heals by 5, up to max
        player(3, 50, 100, 28), // damaged recently
        player(4, 100, 100, 0), // already full
    ];
    let events = heal_players(Tick(30), TickRate(10), TickDuration(5), 10, &mut ps);
    assert_eq!(
        events,
        vec![
            HealthChange { object_id: ObjectId(1), change: 10, health: 60 },
            HealthChange { object_id: ObjectId(2), change: 5, health: 100 },
        ]
    );
    assert_eq!(ps[0].health, 60);
    assert_eq!(ps[1].health, 100);
    assert_eq!(ps[2].health, 50);
    assert_eq!(ps[3].health, 100);
}

#[test]
fn healing_needs_more_than_heal_after_ticks() {
    let mut ps = vec![player(1, 50, 100, 25)];
    let events = heal_players(Tick(30), TickRate(10), TickDuration(5), 10, &mut ps);
    assert!(events.is_empty());
    let events = heal_players(Tick(40), TickRate(10), TickDuration(5), 10, &mut ps);
    assert_eq!(events.len(), 1);
}

#[test]
fn dead_players_are_found_and_revived() {
    let ps = vec![player(1, 0, 100, 0), player(2, 3, 100, 0), player(3, 0, 80, 0)];
    assert_eq!(dead_players(&ps), vec![ObjectId(1), ObjectId(3)]);
    let mut p = ps[2];
    revive(&mut p);
    assert_eq!(p.health, 80);
}

fn obs(new_target: Option<u64>, valid: bool, in_range: bool) -> AttackObservation<(i32, i32)> {
    AttackObservation {
        new_target: new_target.map(ObjectId),
        chosen_attack: 1,
        target_valid: valid,
        in_attack_range: in_range,
        target_position: (7, 8),
    }
}

const TIMING: AttackTiming = AttackTiming { telegraph_length: TickDuration(3), length: TickDuration(5) };

#[test]
fn idle_mob_acquires_target() {
    let r = attack_step(None, Tick(10), Tick(0), TickDuration(4), TIMING, obs(Some(5), false, false));
    assert_eq!(r.action, AttackAction::Acquire);
    assert_eq!(r.state, Some(MobAttackState::Targeting { target_id: ObjectId(5), attack_index: 1 }));
    let r = attack_step(None, Tick(10), Tick(0), TickDuration(4), TIMING, obs(None, false, false));
    assert_eq!(r.action, AttackAction::Idle);
    assert_eq!(r.state, None);
}

#[test]
fn targeting_mob_attacks_after_cooldown() {
    let s = Some(MobAttackState::Targeting { target_id: ObjectId(5), attack_index: 1 });
    let r = attack_step(s, Tick(10), Tick(8), TickDuration(4), TIMING, obs(None, true, true));
    assert_eq!(r.action, AttackAction::Face { start: false });
    assert_eq!(r.last_attacked_at, Tick(8));
    assert_eq!(r.state, s);
    let r = attack_step(s, Tick(12), Tick(8), TickDuration(4), TIMING, obs(None, true, true));
    assert_eq!(r.action, AttackAction::Face { start: true });
    assert_eq!(r.last_attacked_at, Tick(12));
    assert_eq!(
        r.state,
        Some(MobAttackState::Telegraphed {
            target_id: ObjectId(5),
            attack_index: 1,
            attack_started_at: Tick(12),
            attack_position: (7, 8)
        })
    );
}

#[test]
fn targeting_mob_chases_or_drops() {
    let s = Some(MobAttackState::Targeting { target_id: ObjectId(5), attack_index: 0 });
    let r = attack_step(s, Tick(10), Tick(0), TickDuration(4), TIMING, obs(None, true, false));
    assert_eq!(r.action, AttackAction::Chase);
    assert_eq!(r.state, s);
    let r = attack_step(s, Tick(10), Tick(0), TickDuration(4), TIMING, obs(None, false, true));
    assert_eq!(r.action, AttackAction::Drop);
    assert_eq!(r.state, None);
}

#[test]
fn telegraphed_attack_strikes_then_recovers() {
    let s = Some(MobAttackState::Telegraphed {
        target_id: ObjectId(5),
        attack_index: 1,
        attack_started_at: Tick(12),
        attack_position: (1, 1),
    });
    let r = attack_step(s, Tick(14), Tick(12), TickDuration(4), TIMING, obs(None, true, true));
    assert_eq!(r.action, AttackAction::Wait);
    let r = attack_step(s, Tick(15), Tick(12), TickDuration(4), TIMING, obs(None, true, true));
    assert_eq!(r.action, AttackAction::Strike);
    let d = Some(MobAttackState::DamageDealt { attack_index: 1, attack_started_at: Tick(12) });
    assert_eq!(r.state, d);
    let r = attack_step(d, Tick(16), Tick(12), TickDuration(4), TIMING, obs(None, true, true));
    assert_eq!(r.action, AttackAction::Wait);
    assert_eq!(r.state, d);
    let r = attack_step(d, Tick(17), Tick(12), TickDuration(4), TIMING, obs(None, true, true));
    assert_eq!(r.action, AttackAction::Finish);
    assert_eq!(r.state, None);
}

#[test]
fn turning_for_attack() {
    let h = Heading { direction: Some(Direction8::Left), look_direction: Direction4::Left };
    let (h2, changed) = change_direction_for_attack(h, Direction4::Up);
    assert_eq!(h2, Heading { direction: None, look_direction: Direction4::Up });
    assert!(changed);
    let (h3, changed) = change_direction_for_attack(h2, Direction4::Up);
    assert_eq!(h3, h2);
    assert!(!changed);
}

#[test]
fn turning_towards_target() {
    let h = Heading { direction: None, look_direction: Direction4::Down };
    let (h2, changed) = change_direction_to_target(h, Direction8::LeftUp, true);
    assert_eq!(h2, Heading { direction: Some(Direction8::LeftUp), look_direction: Direction4::Left });
    assert!(changed);
    let (h3, changed) = change_direction_to_target(h2, Direction8::LeftUp, true);
    assert_eq!(h3, h2);
    assert!(!changed);
    let (h4, changed) = change_direction_to_target(h2, Direction8::LeftUp, false);
    assert_eq!(h4, Heading { direction: None, look_direction: Direction4::Left });
    assert!(changed);
    let (h5, changed) = change_direction_to_target(h4, Direction8::Up, false);
    assert_eq!(h5, h4);
    assert!(!changed);
}

#[test]
fn heading_after_choosing_direction() {
    assert_eq!(
        heading_after_choice(Some(Direction8::RightDown)),
        Heading { direction: Some(Direction8::RightDown), look_direction: Direction4::Right }
    );
    assert_eq!(heading_after_choice(None), Heading { direction: None, look_direction: Direction4::Down });
}

#[test]
fn random_choices_stay_in_range() {
    for _ in 0..50 {
        assert!(choose_attack(3) < 3);
        assert_eq!(choose_attack(1), 0);
    }
    assert_eq!(choose_direction([false; 8]), None);
    for _ in 0..50 {
        let d = choose_direction([false, false, true, false, false, false, true, false]);
        assert!(d == Some(Direction8::Down) || d == Some(Direction8::Up));
    }
    assert_eq!(
        choose_direction([false, false, false, false, false, false, false, true]),
        Some(Direction8::RightUp)
    );
}

#[test]
fn attack_hits_only_marked_mobs_and_kills_depleted_ones() {
    let mut mobs = vec![
        MobVitals { id: ObjectId(1), health: 10 },
        MobVitals { id: ObjectId(2), health: 3 },
        MobVitals { id: ObjectId(3), health: 7 },
    ];
    let hits = vec![true, true, false];
    let events = attack_mobs(&mut mobs, &hits, 4);
    assert_eq!(mobs[0].health, 6);
    assert_eq!(mobs[1].health, 0);
    assert_eq!(mobs[2].health, 7);
    assert_eq!(
        events,
        vec![
            MobHitEvent::HealthChanged(HealthChange { object_id: ObjectId(1), change: -4, health: 6 }),
            MobHitEvent::HealthChanged(HealthChange { object_id: ObjectId(2), change: -4, health: 0 }),
            MobHitEvent::Disappeared(ObjectId(2)),
        ]
    );
}

#[test]
fn attack_that_hits_nothing_tells_nothing() {
    let mut mobs = vec![MobVitals { id: ObjectId(5), health: 1 }];
    let events = attack_mobs(&mut mobs, &vec![false], 100);
    assert!(events.is_empty());
    assert_eq!(mobs[0].health, 1);
}

#[test]
fn attack_with_exact_damage_kills() {
    let mut mobs = vec![MobVitals { id: ObjectId(9), health: 5 }];
    let events = attack_mobs(&mut mobs, &vec![true], 5);
    assert_eq!(mobs[0].health, 0);
    assert_eq!(events.len(), 2);
    assert_eq!(events[1], MobHitEvent::Disappeared(ObjectId(9)));
}
