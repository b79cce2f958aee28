use vstd::prelude::*;

use crate::economy::FarmError;
use crate::movement::Position;

verus! {

/// The single player: where it stands and how fast it moves, in units per
/// second.
#[derive(Debug, Clone, Copy, PartialEq, Eq, Structural)]
pub struct Player {
    pub position: Position,
    pub speed: u64,
}

/// A spawned brain: its identifier, the place it was spawned at, and the
/// microseconds it has left to live.
#[derive(Debug, Clone, Copy, PartialEq, Eq, Structural)]
pub struct Brain {
    pub id: u64,
    pub position: Position,
    pub remaining_lifetime: i64,
}

/// The player and the live brains, kept in the order they were spawned.
pub struct Registry {
    pub player: Player,
    pub brains: Vec<Brain>,
    pub next_id: u64,
}

/// Identifiers grow strictly along `s`: they are unique and follow creation
/// order.
pub open spec fn ids_increasing(s: Seq<Brain>) -> bool {
    forall|i: int, j: int| 0 <= i < j < s.len() ==> s[i].id < s[j].id
}

/// A brain that is alive now and whose lifetime runs out after `dt` more
/// microseconds.
pub open spec fn crosses(b: Brain, dt: int) -> bool {
    b.remaining_lifetime > 0 && b.remaining_lifetime - dt <= 0
}

/// `crosses` as a predicate over brains.
pub open spec fn crossing(dt: int) -> spec_fn(Brain) -> bool {
    |b: Brain| crosses(b, dt)
}

/// Brains that do not carry `id`.
pub open spec fn other_than(id: u64) -> spec_fn(Brain) -> bool {
    |b: Brain| b.id != id
}

/// Brains with time left to live.
pub open spec fn still_alive() -> spec_fn(Brain) -> bool {
    |b: Brain| b.remaining_lifetime > 0
}

/// The identifiers, in order, of the brains of `s` whose lifetime runs out
/// within `dt` microseconds.
pub open spec fn crossed_ids(s: Seq<Brain>, dt: int) -> Seq<u64> {
    s.filter(crossing(dt)).map_values(|b: Brain| b.id)
}

/// A brain `dt` microseconds older.
pub open spec fn aged(b: Brain, dt: int) -> Brain {
    Brain { remaining_lifetime: (b.remaining_lifetime - dt) as i64, ..b }
}

/// Every brain of `s` made `dt` microseconds older.
pub open spec fn ticked(s: Seq<Brain>, dt: int) -> Seq<Brain> {
    s.map_values(|b: Brain| aged(b, dt))
}

/// The brains of `s` that are still alive after `dt` more microseconds.
pub open spec fn survivors(s: Seq<Brain>, dt: int) -> Seq<Brain> {
    ticked(s, dt).filter(still_alive())
}

/// The lifetimes of `s` can all be reduced by `dt` without leaving `i64`.
pub open spec fn can_age(s: Seq<Brain>, dt: int) -> bool {
    forall|i: int| 0 <= i < s.len() ==> #[trigger] s[i].remaining_lifetime - dt >= i64::MIN
}

impl Registry {
    /// Identifiers are unique, in creation order, and below the next one to
    /// be handed out.
    pub open spec fn wf(&self) -> bool {
        &&& ids_increasing(self.brains@)
        &&& forall|i: int| 0 <= i < self.brains@.len() ==> #[trigger] self.brains@[i].id < self.next_id
    }

    /// A registry holding `player` and no brain.
    pub fn new(player: Player) -> (r: Registry)
        ensures
            r.wf(),
            r.player == player,
            r.brains@.len() == 0,
            r.next_id == 0,
    {
        Registry { player, brains: Vec::new(), next_id: 0 }
    }

    /// Where the player stands.
    pub fn player_position(&self) -> (r: Position)
        ensures
            r == self.player.position,
    {
        self.player.position
    }

    /// Moves the player to `position`.
    pub fn set_player_position(&mut self, position: Position)
        ensures
            final(self).player.position == position,
            final(self).player.speed == old(self).player.speed,
            final(self).brains@ == old(self).brains@,
            final(self).next_id == old(self).next_id,
    {
        self.player.position = position;
    }

    /// Adds a brain at `position` with `lifetime` microseconds to live, under
    /// a fresh identifier, which is returned.
    pub fn spawn(&mut self, position: Position, lifetime: i64) -> (r: u64)
        requires
            old(self).wf(),
            old(self).next_id < u64::MAX,
        ensures
            final(self).wf(),
            r == old(self).next_id,
            final(self).next_id == old(self).next_id + 1,
            final(self).player == old(self).player,
            final(self).brains@ == old(self).brains@.push(
                Brain { id: r, position, remaining_lifetime: lifetime },
            ),
    {
        let id = self.next_id;
        self.brains.push(Brain { id, position, remaining_lifetime: lifetime });
        self.next_id = id + 1;
        id
    }

    /// Makes every brain `elapsed_us` microseconds older and returns, in
    /// creation order, the identifiers of those whose lifetime ran out in this
    /// call. No brain is removed.
    pub fn tick_all(&mut self, elapsed_us: u64) -> (r: Vec<u64>)
        requires
            old(self).wf(),
            elapsed_us <= i64::MAX,
            can_age(old(self).brains@, elapsed_us as int),
        ensures
            final(self).wf(),
            final(self).player == old(self).player,
            final(self).next_id == old(self).next_id,
            final(self).brains@ == ticked(old(self).brains@, elapsed_us as int),
            final(self).brains@.len() == old(self).brains@.len(),
            forall|i: int|
                0 <= i < old(self).brains@.len() ==> #[trigger] final(self).brains@[i].remaining_lifetime
                    == old(self).brains@[i].remaining_lifetime - elapsed_us,
            r@ == crossed_ids(old(self).brains@, elapsed_us as int),
    {
        let ghost s0 = self.brains@;
        let ghost dt = elapsed_us as int;
        let step = elapsed_us as i64;
        let mut expired: Vec<u64> = Vec::new();
        let mut i: usize = 0;
        while i < self.brains.len()
            invariant
                i <= self.brains@.len() == s0.len(),
                self.player == old(self).player,
                self.next_id == old(self).next_id,
                s0 == old(self).brains@,
                dt == elapsed_us,
                step == dt,
                can_age(s0, dt),
                forall|k: int| 0 <= k < i ==> #[trigger] self.brains@[k] == aged(s0[k], dt),
                forall|k: int| 0 <= k < i ==> #[trigger] self.brains@[k].remaining_lifetime
                    == s0[k].remaining_lifetime - dt,
                forall|k: int| i <= k < s0.len() ==> #[trigger] self.brains@[k] == s0[k],
                expired@ == crossed_ids(s0.subrange(0, i as int), dt),
            decreases s0.len() - i,
        {
            let b = self.brains[i];
            assert(b == s0[i as int]);
            assert(b.remaining_lifetime - dt >= i64::MIN);
            let nb = Brain { remaining_lifetime: b.remaining_lifetime - step, ..b };
            proof {
                let pre = s0.subrange(0, i as int);
                assert(s0.subrange(0, i + 1) =~= pre.push(b));
                pre.lemma_filter_push(b, crossing(dt));
                let kept = pre.filter(crossing(dt));
                assert(kept.push(b).map_values(|b: Brain| b.id) =~= kept.map_values(
                    |b: Brain| b.id,
                ).push(b.id));
            }
            if b.remaining_lifetime > 0 && nb.remaining_lifetime <= 0 {
                expired.push(b.id);
            }
            self.brains.set(i, nb);
            assert(nb == aged(s0[i as int], dt));
            i = i + 1;
        }
        proof {
            assert(s0.subrange(0, s0.len() as int) =~= s0);
            assert(self.brains@ =~= ticked(s0, dt));
        }
        expired
    }

    /// Deletes the brain that carries `id`. Reports `EntityNotFound`, and
    /// changes nothing, when no live brain carries it.
    pub fn remove(&mut self, id: u64) -> (r: Result<(), FarmError>)
        requires
            old(self).wf(),
        ensures
            final(self).wf(),
            final(self).player == old(self).player,
            final(self).next_id == old(self).next_id,
            final(self).brains@ == old(self).brains@.filter(other_than(id)),
            r is Ok <==> exists|i: int| 0 <= i < old(self).brains@.len() && #[trigger] old(self).brains@[i].id == id,
            r is Err ==> r == Err::<(), FarmError>(FarmError::EntityNotFound)
                && final(self).brains@ == old(self).brains@,
    {
        let ghost s0 = self.brains@;
        let mut kept: Vec<Brain> = Vec::new();
        let mut found = false;
        let mut i: usize = 0;
        while i < self.brains.len()
            invariant
                i <= self.brains@.len(),
                self.brains@ == s0,
                s0 == old(self).brains@,
                self.wf(),
                kept@ == s0.subrange(0, i as int).filter(other_than(id)),
                found <==> exists|k: int| 0 <= k < i && #[trigger] s0[k].id == id,
                !found ==> kept@ == s0.subrange(0, i as int),
                ids_increasing(kept@),
                forall|k: int| 0 <= k < kept@.len() ==> #[trigger] kept@[k].id < self.next_id,
                forall|k: int, j: int|
                    0 <= k < kept@.len() && i <= j < s0.len() ==> #[trigger] kept@[k].id < #[trigger] s0[j].id,
            decreases s0.len() - i,
        {
            let b = self.brains[i];
            proof {
                let pre = s0.subrange(0, i as int);
                assert(s0.subrange(0, i + 1) =~= pre.push(b));
                pre.lemma_filter_push(b, other_than(id));
            }
            if b.id == id {
                found = true;
            } else {
                kept.push(b);
            }
            i = i + 1;
        }
        proof {
            assert(s0.subrange(0, s0.len() as int) =~= s0);
        }
        if found {
            self.brains = kept;
            Ok(())
        } else {
            Err(FarmError::EntityNotFound)
        }
    }
}

/// Over brains with unique identifiers, a brain's identifier is among the
/// crossed ones exactly when that brain itself crosses.
pub proof fn lemma_crossed_iff(s: Seq<Brain>, dt: int, i: int)
    requires
        ids_increasing(s),
        0 <= i < s.len(),
    ensures
        crossed_ids(s, dt).contains(s[i].id) <==> crosses(s[i], dt),
{
    let filt = s.filter(crossing(dt));
    let ids = crossed_ids(s, dt);
    if crosses(s[i], dt) {
        s.lemma_filter_contains(crossing(dt), i);
        let k = choose|k: int| 0 <= k < filt.len() && filt[k] == s[i];
        assert(ids[k] == s[i].id);
    }
    if ids.contains(s[i].id) {
        let k = choose|k: int| 0 <= k < ids.len() && ids[k] == s[i].id;
        s.lemma_filter_pred(crossing(dt), k);
        assert(filt.contains(filt[k]));
        s.lemma_filter_contains_rev(crossing(dt), filt[k]);
        let m = choose|m: int| 0 <= m < s.len() && s[m] == filt[k];
        assert(m == i);
    }
}

} // verus!
