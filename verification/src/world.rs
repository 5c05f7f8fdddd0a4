//! The entity table: obstacles and coins, their leftward scroll, and the
//! queue of spawns and removals that take effect at the end of a step.
//!
//! Within a step every system sees the same set of entities. A removal only
//! marks its entity, a spawn only joins a queue; `flush` carries both out.

use vstd::prelude::*;
use crate::geometry::{boxes_overlap, overlaps};
use crate::units::{
    COIN_REACH, COORD_LIMIT, FAR_LEFT, MAX_SPEED, OBSTACLE_REACH_X, OBSTACLE_REACH_Y, OFFSCREEN_X,
};

verus! {

/// What an entity is.
#[derive(Clone, Copy, Debug, PartialEq, Eq, Structural)]
pub enum Kind {
    Obstacle,
    Coin,
}

/// One obstacle or coin. `id` names it for as long as it lives, `doomed` says
/// that it is to be removed at the end of the step.
#[derive(Clone, Copy, Debug, PartialEq, Eq, Structural)]
pub struct Entity {
    pub id: u64,
    pub kind: Kind,
    pub x: i64,
    pub y: i64,
    pub doomed: bool,
}

impl Entity {
    /// The entity lies within the range of coordinates, and is marked for
    /// removal if it has left the visible range.
    pub open spec fn wf(self) -> bool {
        &&& FAR_LEFT <= self.x <= COORD_LIMIT
        &&& -COORD_LIMIT <= self.y <= COORD_LIMIT
        &&& self.x < OFFSCREEN_X ==> self.doomed
    }

    /// The entity after the world has scrolled by `gain`. One that has left
    /// the visible range already stays where it is and awaits its removal; any
    /// other moves left, and is marked when that takes it out of the range.
    pub open spec fn scrolled(self, gain: int) -> Entity {
        if self.x < OFFSCREEN_X {
            self
        } else {
            Entity {
                x: (self.x - gain) as i64,
                doomed: self.doomed || self.x - gain < OFFSCREEN_X,
                ..self
            }
        }
    }

    /// Whether this is an obstacle whose box overlaps that of a player at
    /// `(px, py)`.
    pub open spec fn strikes(self, px: i64, py: i64) -> bool {
        self.kind == Kind::Obstacle && boxes_overlap(
            px as int,
            py as int,
            self.x as int,
            self.y as int,
            OBSTACLE_REACH_X as int,
            OBSTACLE_REACH_Y as int,
        )
    }

    /// Whether this is a coin within reach of a player at `(px, py)`.
    pub open spec fn in_reach(self, px: i64, py: i64) -> bool {
        self.kind == Kind::Coin && boxes_overlap(
            px as int,
            py as int,
            self.x as int,
            self.y as int,
            COIN_REACH as int,
            COIN_REACH as int,
        )
    }

    /// The entity after the player at `(px, py)` has gathered the coins in
    /// reach: such a coin is marked for removal.
    pub open spec fn gathered(self, px: i64, py: i64) -> Entity {
        Entity { doomed: self.doomed || self.in_reach(px, py), ..self }
    }
}

/// Whether a new entity may be placed at `(x, y)`.
pub open spec fn placeable(x: i64, y: i64) -> bool {
    OFFSCREEN_X <= x <= COORD_LIMIT && -COORD_LIMIT <= y <= COORD_LIMIT
}

/// Identifiers grow along the sequence, so no two entities share one.
pub open spec fn ascending(s: Seq<Entity>) -> bool {
    forall|i: int, j: int| 0 <= i < j < s.len() ==> s[i].id < s[j].id
}

/// The entities after a scroll by `gain`.
pub open spec fn moved(s: Seq<Entity>, gain: int) -> Seq<Entity> {
    Seq::new(s.len(), |i: int| s[i].scrolled(gain))
}

/// The entities after the coins in reach of `(px, py)` were gathered.
pub open spec fn picked(s: Seq<Entity>, px: i64, py: i64) -> Seq<Entity> {
    Seq::new(s.len(), |i: int| s[i].gathered(px, py))
}

/// Whether some obstacle overlaps a player at `(px, py)`.
pub open spec fn obstacle_in_reach(s: Seq<Entity>, px: i64, py: i64) -> bool {
    exists|i: int| 0 <= i < s.len() && (#[trigger] s[i]).strikes(px, py)
}

/// Number of coins within reach of a player at `(px, py)`.
pub open spec fn coins_in_reach(s: Seq<Entity>, px: i64, py: i64) -> nat
    decreases s.len(),
{
    if s.len() == 0 {
        0
    } else {
        coins_in_reach(s.drop_last(), px, py) + if s.last().in_reach(px, py) {
            1nat
        } else {
            0nat
        }
    }
}

/// The entities that are not marked for removal, in their order.
pub open spec fn survivors(s: Seq<Entity>) -> Seq<Entity>
    decreases s.len(),
{
    if s.len() == 0 {
        Seq::empty()
    } else if s.last().doomed {
        survivors(s.drop_last())
    } else {
        survivors(s.drop_last()).push(s.last())
    }
}

/// The entities of a session.
#[derive(Debug)]
pub struct World {
    /// The entities that the systems of the running step see.
    pub entities: Vec<Entity>,
    /// Entities spawned in the running step; they join at its end.
    pub queued: Vec<Entity>,
    /// The identifier that the next spawn gets.
    pub next_id: u64,
}

impl World {
    /// Every entity, the queued ones last.
    pub open spec fn everything(self) -> Seq<Entity> {
        self.entities@ + self.queued@
    }

    /// Every entity is well formed, queued ones are unmarked, identifiers grow
    /// along the table and lie below the next one.
    pub open spec fn wf(self) -> bool {
        &&& forall|i: int| 0 <= i < self.entities@.len() ==> (#[trigger] self.entities@[i]).wf()
        &&& forall|i: int|
            0 <= i < self.queued@.len() ==> (#[trigger] self.queued@[i]).wf()
                && !self.queued@[i].doomed
        &&& ascending(self.everything())
        &&& forall|i: int|
            0 <= i < self.everything().len() ==> (#[trigger] self.everything()[i]).id
                < self.next_id
    }

    /// An empty world.
    pub fn new() -> (w: World)
        ensures
            w.wf(),
            w.entities@.len() == 0,
            w.queued@.len() == 0,
            w.next_id == 0,
    {
        World { entities: Vec::new(), queued: Vec::new(), next_id: 0 }
    }

    /// Removes every entity, queued ones too. Identifiers are not handed out
    /// again.
    pub fn clear(&mut self)
        requires
            old(self).wf(),
        ensures
            final(self).wf(),
            final(self).entities@.len() == 0,
            final(self).queued@.len() == 0,
            final(self).next_id == old(self).next_id,
    {
        self.entities = Vec::new();
        self.queued = Vec::new();
    }

    /// Queues a new entity of the given kind at `(x, y)` and returns its
    /// identifier. `None`, with nothing changed, when the place is out of range
    /// or the identifiers are used up.
    pub fn spawn(&mut self, kind: Kind, x: i64, y: i64) -> (r: Option<u64>)
        requires
            old(self).wf(),
        ensures
            final(self).wf(),
            r is Some <==> placeable(x, y) && old(self).next_id < u64::MAX,
            r is None ==> *final(self) == *old(self),
            r matches Some(id) ==> {
                &&& id == old(self).next_id
                &&& final(self).next_id == id + 1
                &&& final(self).entities@ == old(self).entities@
                &&& final(self).queued@ == old(self).queued@.push(
                    Entity { id, kind, x, y, doomed: false },
                )
            },
    {
        if x < OFFSCREEN_X || x > COORD_LIMIT || y < -COORD_LIMIT || y > COORD_LIMIT {
            return None;
        }
        if self.next_id == u64::MAX {
            return None;
        }
        let id: u64 = self.next_id;
        let ghost before = self.everything();
        self.queued.push(Entity { id, kind, x, y, doomed: false });
        self.next_id = id + 1;
        proof {
            assert(self.everything() =~= before.push(Entity { id, kind, x, y, doomed: false }));
        }
        Some(id)
    }

    /// Moves every entity left by the distance of one step at `speed`, and
    /// marks for removal those that leave the visible range.
    pub fn scroll(&mut self, speed: u32, dt: u32)
        requires
            old(self).wf(),
            speed <= MAX_SPEED,
        ensures
            final(self).wf(),
            final(self).entities@ == moved(old(self).entities@, speed * dt),
            final(self).queued@ == old(self).queued@,
            final(self).next_id == old(self).next_id,
    {
        assert(0 <= speed * dt <= 5_153_960_754_000) by (nonlinear_arith)
            requires
                0 <= speed <= 1_200,
                0 <= dt <= 0xffff_ffff,
        ;
        let gain: i64 = (speed as i64) * (dt as i64);
        let ghost before = self.entities@;
        let ghost all = self.everything();
        let mut out: Vec<Entity> = Vec::new();
        let mut i: usize = 0;
        while i < self.entities.len()
            invariant
                i <= self.entities.len(),
                self.entities@ == before,
                forall|k: int| 0 <= k < before.len() ==> (#[trigger] before[k]).wf(),
                0 <= gain <= 5_153_960_754_000,
                out@.len() == i,
                forall|k: int|
                    0 <= k < i ==> out@[k] == (#[trigger] before[k]).scrolled(gain as int),
            decreases self.entities.len() - i,
        {
            let e: Entity = self.entities[i];
            assert(before[i as int].wf());
            if e.x < OFFSCREEN_X {
                out.push(e);
            } else {
                let x: i64 = e.x - gain;
                out.push(Entity { x, doomed: e.doomed || x < OFFSCREEN_X, ..e });
            }
            i = i + 1;
        }
        self.entities = out;
        proof {
            assert(self.entities@ =~= moved(before, gain as int));
            assert forall|k: int| 0 <= k < self.entities@.len() implies (
            #[trigger] self.entities@[k]).wf() by {
                assert(before[k].wf());
            }
            assert forall|k: int| 0 <= k < self.everything().len() implies (
            #[trigger] self.everything()[k]).id == all[k].id by {
                if k < before.len() {
                    assert(self.everything()[k] == before[k].scrolled(gain as int));
                }
            }
            assert(ascending(self.everything())) by {
                assert forall|a: int, b: int| 0 <= a < b < self.everything().len() implies
                    self.everything()[a].id < self.everything()[b].id by {
                    assert(self.everything()[a].id == all[a].id);
                    assert(self.everything()[b].id == all[b].id);
                }
            }
        }
    }

    /// Whether some obstacle overlaps a player at `(px, py)`.
    pub fn hits_obstacle(&self, px: i64, py: i64) -> (hit: bool)
        ensures
            hit == obstacle_in_reach(self.entities@, px, py),
    {
        let mut i: usize = 0;
        while i < self.entities.len()
            invariant
                i <= self.entities.len(),
                forall|k: int| 0 <= k < i ==> !(#[trigger] self.entities@[k]).strikes(px, py),
            decreases self.entities.len() - i,
        {
            let e: Entity = self.entities[i];
            let is_obstacle: bool = match e.kind {
                Kind::Obstacle => true,
                Kind::Coin => false,
            };
            if is_obstacle && overlaps(px, py, e.x, e.y, OBSTACLE_REACH_X, OBSTACLE_REACH_Y) {
                assert(self.entities@[i as int].strikes(px, py));
                return true;
            }
            i = i + 1;
        }
        false
    }

    /// Gathers the coins within reach of a player at `(px, py)`: each is
    /// marked for removal. Returns their number.
    pub fn collect_coins(&mut self, px: i64, py: i64) -> (n: usize)
        requires
            old(self).wf(),
        ensures
            final(self).wf(),
            n == coins_in_reach(old(self).entities@, px, py),
            final(self).entities@ == picked(old(self).entities@, px, py),
            final(self).queued@ == old(self).queued@,
            final(self).next_id == old(self).next_id,
    {
        let ghost before = self.entities@;
        let ghost all = self.everything();
        let mut out: Vec<Entity> = Vec::new();
        let mut n: usize = 0;
        let mut i: usize = 0;
        while i < self.entities.len()
            invariant
                i <= self.entities.len(),
                self.entities@ == before,
                out@.len() == i,
                n <= i,
                n == coins_in_reach(before.take(i as int), px, py),
                forall|k: int| 0 <= k < i ==> out@[k] == (#[trigger] before[k]).gathered(px, py),
            decreases self.entities.len() - i,
        {
            let e: Entity = self.entities[i];
            let is_coin: bool = match e.kind {
                Kind::Obstacle => false,
                Kind::Coin => true,
            };
            let reached: bool = is_coin && overlaps(px, py, e.x, e.y, COIN_REACH, COIN_REACH);
            proof {
                assert(before.take(i + 1).drop_last() =~= before.take(i as int));
                assert(before.take(i + 1).last() == before[i as int]);
                assert(reached == before[i as int].in_reach(px, py));
            }
            if reached {
                n = n + 1;
            }
            out.push(Entity { doomed: e.doomed || reached, ..e });
            i = i + 1;
        }
        self.entities = out;
        proof {
            assert(before.take(before.len() as int) =~= before);
            assert(self.entities@ =~= picked(before, px, py));
            assert forall|k: int| 0 <= k < self.entities@.len() implies (
            #[trigger] self.entities@[k]).wf() by {
                assert(before[k].wf());
            }
            assert forall|k: int| 0 <= k < self.everything().len() implies (
            #[trigger] self.everything()[k]).id == all[k].id by {
                if k < before.len() {
                    assert(self.everything()[k] == before[k].gathered(px, py));
                }
            }
            assert(ascending(self.everything())) by {
                assert forall|a: int, b: int| 0 <= a < b < self.everything().len() implies
                    self.everything()[a].id < self.everything()[b].id by {
                    assert(self.everything()[a].id == all[a].id);
                    assert(self.everything()[b].id == all[b].id);
                }
            }
        }
        n
    }

    /// Ends a step: removes the entities that were marked, then lets the
    /// queued ones join the table.
    pub fn flush(&mut self)
        requires
            old(self).wf(),
        ensures
            final(self).wf(),
            final(self).entities@ == survivors(old(self).entities@) + old(self).queued@,
            final(self).queued@.len() == 0,
            final(self).next_id == old(self).next_id,
    {
        let ghost before = self.entities@;
        let ghost waiting = self.queued@;
        let mut out: Vec<Entity> = Vec::new();
        let mut i: usize = 0;
        while i < self.entities.len()
            invariant
                i <= self.entities.len(),
                self.entities@ == before,
                out@ == survivors(before.take(i as int)),
            decreases self.entities.len() - i,
        {
            let e: Entity = self.entities[i];
            proof {
                assert(before.take(i + 1).drop_last() =~= before.take(i as int));
                assert(before.take(i + 1).last() == before[i as int]);
            }
            if !e.doomed {
                out.push(e);
            }
            i = i + 1;
        }
        proof {
            assert(before.take(before.len() as int) =~= before);
        }
        let mut j: usize = 0;
        while j < self.queued.len()
            invariant
                j <= self.queued.len(),
                self.queued@ == waiting,
                out@ == survivors(before) + waiting.take(j as int),
            decreases self.queued.len() - j,
        {
            let e: Entity = self.queued[j];
            out.push(e);
            proof {
                assert(waiting.take(j + 1) =~= waiting.take(j as int).push(waiting[j as int]));
            }
            j = j + 1;
        }
        proof {
            assert(waiting.take(waiting.len() as int) =~= waiting);
            lemma_survivors_keep_order(before, waiting);
        }
        let ghost limit = self.next_id;
        let ghost all = self.everything();
        self.entities = out;
        self.queued = Vec::new();
        proof {
            let kept = survivors(before);
            assert(self.everything() =~= kept + waiting);
            assert forall|k: int| 0 <= k < self.entities@.len() implies (
            #[trigger] self.entities@[k]).wf() && self.entities@[k].id < limit by {
                if k < kept.len() {
                    let e = kept[k];
                    assert(before.contains(e));
                    let m = choose|m: int| 0 <= m < before.len() && before[m] == e;
                    assert(all[m] == e);
                } else {
                    assert(self.entities@[k] == waiting[k - kept.len()]);
                    assert(all[before.len() + (k - kept.len())] == waiting[k - kept.len()]);
                }
            }
            assert forall|k: int| 0 <= k < self.everything().len() implies (
            #[trigger] self.everything()[k]).id < self.next_id by {
                assert(self.everything()[k] == self.entities@[k]);
            }
        }
    }
}

/// Removal keeps what it leaves: every survivor is an unmarked entity of the
/// table, and identifiers still grow along the survivors and what follows
/// them.
pub proof fn lemma_survivors_keep_order(s: Seq<Entity>, tail: Seq<Entity>)
    requires
        ascending(s + tail),
    ensures
        forall|k: int|
            0 <= k < survivors(s).len() ==> s.contains(#[trigger] survivors(s)[k])
                && !survivors(s)[k].doomed,
        survivors(s).len() <= s.len(),
        ascending(survivors(s) + tail),
    decreases s.len(),
{
    if s.len() > 0 {
        let front = s.drop_last();
        assert forall|i: int, j: int| 0 <= i < j < (front + tail).len() implies (front + tail)[i].id
            < (front + tail)[j].id by {
            let a = if i < front.len() {
                i
            } else {
                i + 1
            };
            let b = if j < front.len() {
                j
            } else {
                j + 1
            };
            assert((front + tail)[i] == (s + tail)[a]);
            assert((front + tail)[j] == (s + tail)[b]);
        }
        lemma_survivors_keep_order(front, tail);
        let kept = survivors(s);
        assert forall|k: int| 0 <= k < kept.len() implies s.contains(#[trigger] kept[k])
            && !kept[k].doomed by {
            if k < survivors(front).len() {
                let e = survivors(front)[k];
                assert(front.contains(e));
                let m = choose|m: int| 0 <= m < front.len() && front[m] == e;
                assert(s[m] == e);
            } else {
                assert(kept[k] == s.last());
                assert(s[s.len() - 1] == s.last());
            }
        }
        assert forall|i: int, j: int| 0 <= i < j < (kept + tail).len() implies (kept + tail)[i].id
            < (kept + tail)[j].id by {
            if j < kept.len() {
                if j < survivors(front).len() {
                    assert((survivors(front) + tail)[i] == kept[i]);
                    assert((survivors(front) + tail)[j] == kept[j]);
                } else {
                    let e = kept[i];
                    assert(front.contains(e));
                    let m = choose|m: int| 0 <= m < front.len() && front[m] == e;
                    assert((s + tail)[m] == e);
                    assert((s + tail)[s.len() - 1] == kept[j]);
                }
            } else if i < kept.len() {
                let e = kept[i];
                assert(s.contains(e));
                let m = choose|m: int| 0 <= m < s.len() && s[m] == e;
                assert((s + tail)[m] == e);
                assert((s + tail)[s.len() + (j - kept.len())] == (kept + tail)[j]);
            } else {
                assert((s + tail)[s.len() + (i - kept.len())] == (kept + tail)[i]);
                assert((s + tail)[s.len() + (j - kept.len())] == (kept + tail)[j]);
            }
        }
    }
}

/// The coins in reach of a table in two parts are those of the parts.
pub proof fn lemma_coins_in_reach_add(a: Seq<Entity>, b: Seq<Entity>, px: i64, py: i64)
    ensures
        coins_in_reach(a + b, px, py) == coins_in_reach(a, px, py) + coins_in_reach(b, px, py),
    decreases b.len(),
{
    if b.len() == 0 {
        assert(a + b =~= a);
    } else {
        assert((a + b).drop_last() =~= a + b.drop_last());
        assert((a + b).last() == b.last());
        lemma_coins_in_reach_add(a, b.drop_last(), px, py);
    }
}

/// A gathered coin is gone for good. Once the step has ended, no coin that was
/// in reach is left in the table, so gathering again from the same place finds
/// nothing and changes nothing.
pub proof fn lemma_gathered_coins_are_gone(s: Seq<Entity>, px: i64, py: i64)
    ensures
        coins_in_reach(survivors(picked(s, px, py)), px, py) == 0,
        picked(survivors(picked(s, px, py)), px, py) == survivors(picked(s, px, py)),
        forall|k: int|
            0 <= k < survivors(picked(s, px, py)).len() ==> !(#[trigger] survivors(
                picked(s, px, py),
            )[k]).in_reach(px, py),
    decreases s.len(),
{
    let left = survivors(picked(s, px, py));
    if s.len() > 0 {
        assert(picked(s, px, py).drop_last() =~= picked(s.drop_last(), px, py));
        lemma_gathered_coins_are_gone(s.drop_last(), px, py);
        let front = survivors(picked(s.drop_last(), px, py));
        if !picked(s, px, py).last().doomed {
            assert(left == front.push(picked(s, px, py).last()));
            assert(left.drop_last() =~= front);
        }
    }
    assert(picked(left, px, py) =~= left);
}

/// What a second gathering from the same place finds, after the step has
/// ended, are only coins that joined the table at the end of that step.
pub proof fn lemma_collect_is_idempotent(s: Seq<Entity>, joined: Seq<Entity>, px: i64, py: i64)
    ensures
        coins_in_reach(survivors(picked(s, px, py)) + joined, px, py) == coins_in_reach(
            joined,
            px,
            py,
        ),
{
    lemma_gathered_coins_are_gone(s, px, py);
    lemma_coins_in_reach_add(survivors(picked(s, px, py)), joined, px, py);
}

/// No more coins are in reach than there are entities.
pub proof fn lemma_coins_in_reach_bound(s: Seq<Entity>, px: i64, py: i64)
    ensures
        coins_in_reach(s, px, py) <= s.len(),
    decreases s.len(),
{
    if s.len() > 0 {
        lemma_coins_in_reach_bound(s.drop_last(), px, py);
    }
}

} // verus!
