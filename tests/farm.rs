use brain_farm::{
    move_player, ActionState, Config, FarmError, InputSnapshot, Money, Player, Position, Registry,
    World,
};

const SECOND: u64 = 1_000_000;

fn no_input() -> InputSnapshot {
    InputSnapshot { up: false, down: false, left: false, right: false, spawn: false }
}

fn spawn_input() -> InputSnapshot {
    InputSnapshot { spawn: true, ..no_input() }
}

fn farm(balance: i64) -> World {
    World::new(Config::default(), balance)
}

fn origin_player() -> Player {
    Player { position: Position { x: 0, y: 0 }, speed: 500 }
}

#[test]
fn default_config_values() {
    let c = Config::default();
    assert_eq!(c.spawn_cost, 10);
    assert_eq!(c.spawn_payout, 15);
    assert_eq!(c.entity_lifetime_us, 2_000_000);
    assert_eq!(c.player_speed, 500);
}

#[test]
fn can_afford_is_balance_at_least_cost() {
    let m = Money(10);
    assert!(m.can_afford(10));
    assert!(m.can_afford(9));
    assert!(!m.can_afford(11));
}

#[test]
fn debit_takes_cost_when_affordable() {
    let mut m = Money(100);
    assert_eq!(m.debit(10), Ok(()));
    assert_eq!(m.0, 90);
}

#[test]
fn debit_refuses_when_short() {
    let mut m = Money(9);
    assert_eq!(m.debit(10), Err(FarmError::InsufficientFunds));
    assert_eq!(m.0, 9);
}

#[test]
fn credit_adds_amount() {
    let mut m = Money(90);
    m.credit(15);
    assert_eq!(m.0, 105);
}

#[test]
fn action_state_from_edges() {
    assert_eq!(ActionState::observe(false, false), ActionState::Idle);
    assert_eq!(ActionState::observe(true, false), ActionState::Idle);
    assert_eq!(ActionState::observe(false, true), ActionState::JustActivated);
    assert_eq!(ActionState::observe(true, true), ActionState::Held);
}

#[test]
fn movement_moves_by_speed_times_time() {
    let input = InputSnapshot { up: true, right: true, ..no_input() };
    // 500 units per second for 16 ms is 8 units, 8_000_000 micro-units.
    let p = move_player(Position { x: 1, y: 2 }, 500, &input, 16_000);
    assert_eq!(p, Position { x: 8_000_001, y: 8_000_002 });
    let input = InputSnapshot { down: true, left: true, ..no_input() };
    let p = move_player(Position { x: 0, y: 0 }, 500, &input, 16_000);
    assert_eq!(p, Position { x: -8_000_000, y: -8_000_000 });
}

#[test]
fn opposite_directions_cancel() {
    let input = InputSnapshot { up: true, down: true, left: true, right: true, spawn: false };
    let start = Position { x: 123, y: -456 };
    let p = move_player(start, 500, &input, 20_000);
    assert_eq!(p, start);
    let input = InputSnapshot { up: true, down: true, right: true, ..no_input() };
    let p = move_player(start, 2, &input, 10);
    assert_eq!(p, Position { x: 143, y: -456 });
}

#[test]
fn registry_spawn_gives_fresh_ids() {
    let mut r = Registry::new(origin_player());
    let a = r.spawn(Position { x: 1, y: 1 }, 5);
    let b = r.spawn(Position { x: 2, y: 2 }, 7);
    assert_ne!(a, b);
    assert_eq!(r.brains.len(), 2);
    assert_eq!(r.brains[1].id, b);
    assert_eq!(r.brains[1].position, Position { x: 2, y: 2 });
    assert_eq!(r.brains[1].remaining_lifetime, 7);
}

#[test]
fn tick_all_decreases_by_exactly_elapsed() {
    let mut r = Registry::new(origin_player());
    r.spawn(Position { x: 0, y: 0 }, 2_000_000);
    let expired = r.tick_all(300_000);
    assert!(expired.is_empty());
    assert_eq!(r.brains[0].remaining_lifetime, 1_700_000);
    let expired = r.tick_all(300_000);
    assert!(expired.is_empty());
    assert_eq!(r.brains[0].remaining_lifetime, 1_400_000);
}

#[test]
fn tick_all_reports_expiry_at_exactly_zero() {
    let mut r = Registry::new(origin_player());
    let id = r.spawn(Position { x: 0, y: 0 }, 1_000);
    assert!(r.tick_all(999).is_empty());
    assert_eq!(r.tick_all(1), vec![id]);
    assert_eq!(r.brains[0].remaining_lifetime, 0);
    assert_eq!(r.brains.len(), 1);
}

#[test]
fn remove_deletes_and_reports_stale_ids() {
    let mut r = Registry::new(origin_player());
    let a = r.spawn(Position { x: 0, y: 0 }, 10);
    let b = r.spawn(Position { x: 0, y: 0 }, 10);
    assert_eq!(r.remove(a), Ok(()));
    assert_eq!(r.brains.len(), 1);
    assert_eq!(r.brains[0].id, b);
    assert_eq!(r.remove(a), Err(FarmError::EntityNotFound));
    assert_eq!(r.brains.len(), 1);
}

#[test]
fn spawn_at_exact_cost_succeeds() {
    let mut w = farm(10);
    let out = w.step(&spawn_input(), 0);
    assert_eq!(out.spawned, Some(0));
    assert_eq!(w.money.0, 0);
    assert_eq!(w.registry.brains.len(), 1);
}

#[test]
fn spawn_one_below_cost_fails() {
    let mut w = farm(9);
    let out = w.step(&spawn_input(), 0);
    assert_eq!(out.spawned, None);
    assert_eq!(w.money.0, 9);
    assert_eq!(w.registry.brains.len(), 0);
}

#[test]
fn spawn_rejected_with_balance_five() {
    let mut w = farm(5);
    assert_eq!(w.spawn_brain(ActionState::JustActivated), None);
    assert_eq!(w.money.0, 5);
    assert_eq!(w.registry.brains.len(), 0);
}

#[test]
fn held_spawn_action_spawns_once() {
    let mut w = farm(100);
    assert_eq!(w.step(&spawn_input(), 10_000).spawned, Some(0));
    assert_eq!(w.step(&spawn_input(), 10_000).spawned, None);
    assert_eq!(w.step(&no_input(), 10_000).spawned, None);
    assert_eq!(w.step(&spawn_input(), 10_000).spawned, Some(1));
    assert_eq!(w.money.0, 80);
}

#[test]
fn spawn_places_brain_at_player() {
    let mut w = farm(100);
    let input = InputSnapshot { right: true, spawn: true, ..no_input() };
    w.step(&input, 1_000);
    let brain = w.registry.brains[0];
    assert_eq!(brain.position, Position { x: 500_000, y: 0 });
    assert_eq!(w.registry.player_position(), Position { x: 500_000, y: 0 });
}

#[test]
fn spawn_then_expiry_nets_payout_minus_cost() {
    let mut w = farm(100);
    w.step(&spawn_input(), 0);
    assert_eq!(w.money.0, 90);
    assert_eq!(w.registry.brains.len(), 1);
    for _ in 0..19 {
        let out = w.step(&no_input(), 100_000);
        assert!(out.sold.is_empty());
    }
    assert_eq!(w.money.0, 90);
    let out = w.step(&no_input(), 100_000);
    assert_eq!(out.sold, vec![0]);
    assert_eq!(w.money.0, 105);
    assert_eq!(w.registry.brains.len(), 0);
}

#[test]
fn two_spawns_expire_in_creation_order() {
    let mut w = farm(100);
    let first = w.step(&spawn_input(), 0).spawned.unwrap();
    w.step(&no_input(), 100_000);
    let second = w.step(&spawn_input(), 0).spawned.unwrap();
    assert_eq!(w.money.0, 80);
    // One tick past both lifetimes sells both, first one first.
    let out = w.step(&no_input(), 2_000_000);
    assert_eq!(out.sold, vec![first, second]);
    assert_eq!(w.money.0, 110);
    assert!(w.registry.brains.is_empty());
}

#[test]
fn two_spawns_sold_one_after_another() {
    let mut w = farm(100);
    let first = w.step(&spawn_input(), 0).spawned.unwrap();
    w.step(&no_input(), 100_000);
    let second = w.step(&spawn_input(), 0).spawned.unwrap();
    let out = w.step(&no_input(), 1_900_000);
    assert_eq!(out.sold, vec![first]);
    assert_eq!(w.money.0, 95);
    let out = w.step(&no_input(), 100_000);
    assert_eq!(out.sold, vec![second]);
    assert_eq!(w.money.0, 110);
}

#[test]
fn brain_lifetime_sells_only_expired() {
    let mut w = farm(100);
    w.spawn_brain(ActionState::JustActivated);
    let sold = w.brain_lifetime(SECOND);
    assert!(sold.is_empty());
    assert_eq!(w.registry.brains[0].remaining_lifetime, 1_000_000);
    let sold = w.brain_lifetime(SECOND);
    assert_eq!(sold, vec![0]);
    assert_eq!(w.money.0, 105);
    assert!(w.registry.brains.is_empty());
}

#[test]
fn balance_never_negative_over_many_steps() {
    let mut w = farm(25);
    for i in 0..200u64 {
        let input = InputSnapshot {
            up: i % 3 == 0,
            down: i % 5 == 0,
            left: i % 7 == 0,
            right: i % 2 == 0,
            spawn: i % 2 == 0,
        };
        w.step(&input, 50_000 + (i % 4) * 100_000);
        assert!(w.money.0 >= 0);
        assert!(w.registry.brains.iter().all(|b| b.remaining_lifetime > 0));
    }
}

#[test]
fn character_movement_updates_player() {
    let mut w = farm(0);
    let input = InputSnapshot { up: true, left: true, ..no_input() };
    w.character_movement(&input, 2_000);
    assert_eq!(w.registry.player_position(), Position { x: -1_000_000, y: 1_000_000 });
}
