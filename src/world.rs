use vstd::prelude::*;

use crate::economy::Money;
use crate::movement::{fits, move_player, moved, travel, InputSnapshot, Position};
use crate::registry::{
    aged, crossed_ids, crossing, ids_increasing, lemma_crossed_iff, other_than, still_alive,
    survivors, ticked, Brain, Player, Registry,
};
use crate::seq_facts::{lemma_filter_agree, lemma_filter_all, lemma_filter_twice};

verus! {

/// What a spawn costs, in currency units.
pub const SPAWN_COST: i64 = 10;

/// What an expired brain is sold for, in currency units.
pub const SPAWN_PAYOUT: i64 = 15;

/// How long a brain lives, in microseconds.
pub const ENTITY_LIFETIME_US: i64 = 2_000_000;

/// How fast the player moves, in units per second.
pub const PLAYER_SPEED: u64 = 500;

/// What the farm starts with, in currency units.
pub const STARTING_BALANCE: i64 = 100;

/// The parameters of the farm.
#[derive(Debug, Clone, Copy, PartialEq, Eq, Structural)]
pub struct Config {
    pub spawn_cost: i64,
    pub spawn_payout: i64,
    pub entity_lifetime_us: i64,
    pub player_speed: u64,
}

impl Config {
    /// Prices are not negative and a brain lives for some time.
    pub open spec fn wf(&self) -> bool {
        &&& self.spawn_cost >= 0
        &&& self.spawn_payout >= 0
        &&& self.entity_lifetime_us > 0
    }
}

impl Default for Config {
    /// The standard parameters of the farm.
    fn default() -> (r: Config)
        ensures
            r == (Config {
                spawn_cost: SPAWN_COST,
                spawn_payout: SPAWN_PAYOUT,
                entity_lifetime_us: ENTITY_LIFETIME_US,
                player_speed: PLAYER_SPEED,
            }),
    {
        Config {
            spawn_cost: SPAWN_COST,
            spawn_payout: SPAWN_PAYOUT,
            entity_lifetime_us: ENTITY_LIFETIME_US,
            player_speed: PLAYER_SPEED,
        }
    }
}

/// The state of an action in one step, from its raw signal in this step and
/// in the one before.
#[derive(Debug, Clone, Copy, PartialEq, Eq, Structural)]
pub enum ActionState {
    Idle,
    JustActivated,
    Held,
}

impl ActionState {
    /// `Idle` when the action is inactive now, `Held` when it was active in
    /// the previous step too, `JustActivated` otherwise.
    pub open spec fn of(previous: bool, current: bool) -> ActionState {
        if !current {
            ActionState::Idle
        } else if previous {
            ActionState::Held
        } else {
            ActionState::JustActivated
        }
    }

    /// Compares this step's raw signal with the previous step's.
    pub fn observe(previous: bool, current: bool) -> (r: ActionState)
        ensures
            r == ActionState::of(previous, current),
    {
        if !current {
            ActionState::Idle
        } else if previous {
            ActionState::Held
        } else {
            ActionState::JustActivated
        }
    }
}

/// What one step did besides moving the player: the brain it spawned, if
/// any, and the brains it sold, in creation order.
#[derive(Debug)]
pub struct StepOutcome {
    pub spawned: Option<u64>,
    pub sold: Vec<u64>,
}

/// The whole state of the farm between steps.
pub struct World {
    pub config: Config,
    pub money: Money,
    pub registry: Registry,
    /// Whether the spawn action was active in the previous step.
    pub spawn_was_active: bool,
}

/// Every brain of `s` still has time to live.
pub open spec fn all_alive(s: Seq<Brain>) -> bool {
    forall|i: int| 0 <= i < s.len() ==> #[trigger] s[i].remaining_lifetime > 0
}

/// Whether a spawn happens, given the action's state and the balance.
pub open spec fn spawn_allowed(action: ActionState, balance: i64, cost: i64) -> bool {
    action == ActionState::JustActivated && balance >= cost
}

/// Brains whose identifier is not among `sold`.
pub open spec fn not_sold(sold: Seq<u64>) -> spec_fn(Brain) -> bool {
    |b: Brain| !sold.contains(b.id)
}

impl World {
    /// The balance is never negative, and no brain that has run out of time
    /// is kept past a step.
    pub open spec fn wf(&self) -> bool {
        &&& self.config.wf()
        &&& self.registry.wf()
        &&& self.money.0 >= 0
        &&& all_alive(self.registry.brains@)
    }

    /// A farm with `balance` to spend, the player at the origin and no brain.
    pub fn new(config: Config, balance: i64) -> (r: World)
        requires
            config.wf(),
            balance >= 0,
        ensures
            r.wf(),
            r.config == config,
            r.money.0 == balance,
            r.registry.player == (Player { position: Position { x: 0, y: 0 }, speed: config.player_speed }),
            r.registry.brains@.len() == 0,
            r.registry.next_id == 0,
            !r.spawn_was_active,
    {
        let player = Player { position: Position { x: 0, y: 0 }, speed: config.player_speed };
        World { config, money: Money(balance), registry: Registry::new(player), spawn_was_active: false }
    }

    /// Moves the player by the directions held in `input` over `elapsed_us`
    /// microseconds.
    pub fn character_movement(&mut self, input: &InputSnapshot, elapsed_us: u64)
        requires
            travel(old(self).registry.player.speed, elapsed_us) <= i64::MAX,
            fits(moved(old(self).registry.player.position, old(self).registry.player.speed, *input, elapsed_us)),
        ensures
            ({
                let p = moved(old(self).registry.player.position, old(self).registry.player.speed, *input, elapsed_us);
                final(self).registry.player.position.x == p.0 && final(self).registry.player.position.y == p.1
            }),
            final(self).registry.player.speed == old(self).registry.player.speed,
            final(self).registry.brains@ == old(self).registry.brains@,
            final(self).registry.next_id == old(self).registry.next_id,
            final(self).money == old(self).money,
            final(self).config == old(self).config,
            final(self).spawn_was_active == old(self).spawn_was_active,
    {
        let pos = move_player(self.registry.player_position(), self.registry.player.speed, input, elapsed_us);
        self.registry.set_player_position(pos);
    }

    /// On a fresh press of the spawn action, and only when the balance covers
    /// the spawn cost, pays that cost and spawns a brain where the player
    /// stands. Returns the new brain's identifier.
    pub fn spawn_brain(&mut self, action: ActionState) -> (r: Option<u64>)
        requires
            old(self).wf(),
            old(self).registry.next_id < u64::MAX,
        ensures
            final(self).wf(),
            final(self).config == old(self).config,
            final(self).registry.player == old(self).registry.player,
            final(self).spawn_was_active == old(self).spawn_was_active,
            spawn_allowed(action, old(self).money.0, old(self).config.spawn_cost) ==> {
                &&& r == Some(old(self).registry.next_id)
                &&& final(self).money.0 == old(self).money.0 - old(self).config.spawn_cost
                &&& final(self).registry.next_id == old(self).registry.next_id + 1
                &&& final(self).registry.brains@ == old(self).registry.brains@.push(
                    Brain {
                        id: old(self).registry.next_id,
                        position: old(self).registry.player.position,
                        remaining_lifetime: old(self).config.entity_lifetime_us,
                    },
                )
            },
            !spawn_allowed(action, old(self).money.0, old(self).config.spawn_cost) ==> {
                &&& r is None
                &&& final(self).money == old(self).money
                &&& final(self).registry.next_id == old(self).registry.next_id
                &&& final(self).registry.brains@ == old(self).registry.brains@
            },
    {
        if action != ActionState::JustActivated {
            return None;
        }
        if !self.money.can_afford(self.config.spawn_cost) {
            return None;
        }
        let paid = self.money.debit(self.config.spawn_cost);
        if paid.is_err() {
            return None;
        }
        let position = self.registry.player_position();
        let id = self.registry.spawn(position, self.config.entity_lifetime_us);
        Some(id)
    }
    /// Ages every brain by `elapsed_us` microseconds; each one whose lifetime
    /// runs out is sold, in creation order: the payout is credited, then the
    /// brain is removed. Returns the identifiers of the brains sold.
    pub fn brain_lifetime(&mut self, elapsed_us: u64) -> (sold: Vec<u64>)
        requires
            old(self).wf(),
            elapsed_us <= i64::MAX,
            old(self).money.0 + old(self).config.spawn_payout * old(self).registry.brains@.len() <= i64::MAX,
        ensures
            final(self).wf(),
            final(self).config == old(self).config,
            final(self).registry.player == old(self).registry.player,
            final(self).registry.next_id == old(self).registry.next_id,
            final(self).spawn_was_active == old(self).spawn_was_active,
            sold@ == crossed_ids(old(self).registry.brains@, elapsed_us as int),
            final(self).registry.brains@ == survivors(old(self).registry.brains@, elapsed_us as int),
            final(self).money.0 == old(self).money.0 + old(self).config.spawn_payout * sold@.len(),
    {
        let ghost s0 = self.registry.brains@;
        let ghost dt = elapsed_us as int;
        let ghost m0 = self.money.0 as int;
        let payout = self.config.spawn_payout;
        assert forall|i: int| 0 <= i < s0.len() implies #[trigger] s0[i].remaining_lifetime - dt >= i64::MIN by {
            assert(s0[i].remaining_lifetime > 0);
        }
        let sold = self.registry.tick_all(elapsed_us);
        let ghost t = self.registry.brains@;
        proof {
            s0.lemma_filter_len(crossing(dt));
            assert(sold@.len() <= s0.len());
            assert(sold@.subrange(0, 0) =~= Seq::<u64>::empty());
            lemma_filter_agree(t, not_sold(Seq::<u64>::empty()), |b: Brain| true);
            lemma_filter_all(t, |b: Brain| true);
        }
        let mut j: usize = 0;
        while j < sold.len()
            invariant
                j <= sold@.len() <= s0.len(),
                sold@ == crossed_ids(s0, dt),
                t == ticked(s0, dt),
                t.len() == s0.len(),
                self.registry.wf(),
                self.registry.player == old(self).registry.player,
                self.registry.next_id == old(self).registry.next_id,
                self.config == old(self).config,
                self.spawn_was_active == old(self).spawn_was_active,
                payout == self.config.spawn_payout,
                payout >= 0,
                m0 + payout * s0.len() <= i64::MAX,
                self.money.0 == m0 + payout * j,
                self.registry.brains@ == t.filter(not_sold(sold@.subrange(0, j as int))),
            decreases sold@.len() - j,
        {
            let id = sold[j];
            proof {
                assert(payout * (j + 1) <= payout * s0.len()) by (nonlinear_arith)
                    requires payout >= 0, j + 1 <= s0.len();
                assert(payout * (j + 1) == payout * j + payout) by (nonlinear_arith);
            }
            self.money.credit(payout);
            let _ = self.registry.remove(id);
            proof {
                let before = sold@.subrange(0, j as int);
                let after = sold@.subrange(0, j + 1);
                assert(after =~= before.push(id));
                lemma_filter_twice(t, not_sold(before), other_than(id));
                assert forall|i: int| 0 <= i < t.len() implies
                    (|b: Brain| not_sold(before)(b) && other_than(id)(b))(#[trigger] t[i]) == not_sold(after)(t[i]) by {
                    if after.contains(t[i].id) && t[i].id != id {
                        let k = choose|k: int| 0 <= k < after.len() && after[k] == t[i].id;
                        assert(before[k] == t[i].id);
                    }
                    if before.contains(t[i].id) {
                        let k = choose|k: int| 0 <= k < before.len() && before[k] == t[i].id;
                        assert(after[k] == t[i].id);
                    }
                    if t[i].id == id {
                        assert(after[j as int] == id);
                    }
                }
                lemma_filter_agree(t, |b: Brain| not_sold(before)(b) && other_than(id)(b), not_sold(after));
            }
            j = j + 1;
        }
        proof {
            assert(sold@.subrange(0, sold@.len() as int) =~= sold@);
            assert forall|i: int| 0 <= i < t.len() implies not_sold(sold@)(#[trigger] t[i]) == still_alive()(t[i]) by {
                lemma_crossed_iff(s0, dt, i);
                assert(s0[i].remaining_lifetime > 0);
            }
            lemma_filter_agree(t, not_sold(sold@), still_alive());
            let live = t.filter(still_alive());
            assert forall|i: int| 0 <= i < live.len() implies #[trigger] live[i].remaining_lifetime > 0 by {
                t.lemma_filter_pred(still_alive(), i);
            }
        }
        sold
    }
    /// One simulation step: movement, then the spawn action, then lifetimes.
    pub fn step(&mut self, input: &InputSnapshot, elapsed_us: u64) -> (r: StepOutcome)
        requires
            old(self).wf(),
            travel(old(self).registry.player.speed, elapsed_us) <= i64::MAX,
            fits(moved(old(self).registry.player.position, old(self).registry.player.speed, *input, elapsed_us)),
            old(self).registry.next_id < u64::MAX,
            elapsed_us <= i64::MAX,
            old(self).money.0 + old(self).config.spawn_payout * (old(self).registry.brains@.len() + 1) <= i64::MAX,
        ensures
            final(self).wf(),
            final(self).config == old(self).config,
            final(self).spawn_was_active == input.spawn,
            final(self).registry.player.speed == old(self).registry.player.speed,
            ({
                let p = moved(old(self).registry.player.position, old(self).registry.player.speed, *input, elapsed_us);
                final(self).registry.player.position.x == p.0 && final(self).registry.player.position.y == p.1
            }),
            ({
                let action = ActionState::of(old(self).spawn_was_active, input.spawn);
                let allowed = spawn_allowed(action, old(self).money.0, old(self).config.spawn_cost);
                let spawned = Brain {
                    id: old(self).registry.next_id,
                    position: Position {
                        x: moved(old(self).registry.player.position, old(self).registry.player.speed, *input, elapsed_us).0 as i64,
                        y: moved(old(self).registry.player.position, old(self).registry.player.speed, *input, elapsed_us).1 as i64,
                    },
                    remaining_lifetime: old(self).config.entity_lifetime_us,
                };
                let before = if allowed { old(self).registry.brains@.push(spawned) } else { old(self).registry.brains@ };
                &&& r.spawned == if allowed { Some(old(self).registry.next_id) } else { None }
                &&& final(self).registry.next_id == old(self).registry.next_id + if allowed { 1int } else { 0 }
                &&& r.sold@ == crossed_ids(before, elapsed_us as int)
                &&& final(self).registry.brains@ == survivors(before, elapsed_us as int)
                &&& final(self).money.0 == old(self).money.0 - (if allowed { old(self).config.spawn_cost } else { 0 })
                    + old(self).config.spawn_payout * r.sold@.len()
            }),
    {
        self.character_movement(input, elapsed_us);
        let action = ActionState::observe(self.spawn_was_active, input.spawn);
        self.spawn_was_active = input.spawn;
        let spawned = self.spawn_brain(action);
        proof {
            let payout = self.config.spawn_payout as int;
            let n = old(self).registry.brains@.len() as int;
            assert(payout * self.registry.brains@.len() <= payout * (n + 1)) by (nonlinear_arith)
                requires payout >= 0, self.registry.brains@.len() <= n + 1;
        }
        let sold = self.brain_lifetime(elapsed_us);
        StepOutcome { spawned, sold }
    }
}

/// A brain whose remaining lifetime is exactly used up by a tick is reported
/// as expired by that tick.
pub proof fn expires_at_zero(s: Seq<Brain>, dt: int, i: int)
    requires
        ids_increasing(s),
        0 <= i < s.len(),
        s[i].remaining_lifetime > 0,
        s[i].remaining_lifetime - dt == 0,
    ensures
        crossed_ids(s, dt).contains(s[i].id),
{
    lemma_crossed_iff(s, dt, i);
}

/// Spawning a brain and then letting at least its lifetime pass sells it:
/// it is reported after every brain that expires in the same tick, it is no
/// longer live, and the balance ends one payout above what the spawn left,
/// beyond what the other brains bring. With no other brain, the balance ends
/// at `balance - cost + payout`.
pub proof fn spawn_then_expire(s: Seq<Brain>, b: Brain, dt: int, balance: int, cost: int, payout: int)
    requires
        b.remaining_lifetime > 0,
        b.remaining_lifetime <= dt <= i64::MAX,
    ensures
        crossed_ids(s.push(b), dt) == crossed_ids(s, dt).push(b.id),
        survivors(s.push(b), dt) == survivors(s, dt),
        (balance - cost) + payout * crossed_ids(s.push(b), dt).len()
            == balance - cost + payout + payout * crossed_ids(s, dt).len(),
        s.len() == 0 ==> (balance - cost) + payout * crossed_ids(s.push(b), dt).len() == balance - cost + payout,
{
    s.lemma_filter_push(b, crossing(dt));
    let kept = s.filter(crossing(dt));
    assert(kept.push(b).map_values(|b: Brain| b.id) =~= kept.map_values(|b: Brain| b.id).push(b.id));
    assert(ticked(s.push(b), dt) =~= ticked(s, dt).push(aged(b, dt)));
    ticked(s, dt).lemma_filter_push(aged(b, dt), still_alive());
    let n = crossed_ids(s, dt).len() as int;
    assert(payout * (n + 1) == payout + payout * n) by (nonlinear_arith);
    if s.len() == 0 {
        reveal(Seq::filter);
        assert(s.filter(crossing(dt)).len() == 0);
        assert(n == 0);
        assert(payout * n == 0) by (nonlinear_arith)
            requires n == 0;
    }
}

} // verus!
