//! The two spawners: each advances its accumulator by the distance of a step
//! and, when the spacing is reached, queues a new entity at the right edge.

use vstd::prelude::*;
use crate::chance::{coin_offset, in_coin_band};
use crate::pacer::{crosses, paced, travelled, SpawnerDistance};
use crate::units::{COIN_BAND_LOW, COIN_SPACING, GROUND_Y, OBSTACLE_SPACING, OBSTACLE_Y, SPAWN_X};
use crate::world::{Entity, Kind, World};

verus! {

/// The obstacle that a spawn with identifier `id` queues: at the right edge,
/// at the fixed height of obstacles.
pub open spec fn new_obstacle(id: u64) -> Entity {
    Entity { id, kind: Kind::Obstacle, x: SPAWN_X, y: OBSTACLE_Y, doomed: false }
}

/// The coin that a spawn with identifier `id` queues: at the right edge,
/// `offset` above the ground line.
pub open spec fn new_coin(id: u64, offset: i64) -> Entity {
    Entity { id, kind: Kind::Coin, x: SPAWN_X, y: (GROUND_Y + offset) as i64, doomed: false }
}

/// Whether a step makes an obstacle due.
pub open spec fn obstacle_due(spawner: SpawnerDistance, speed: u32, dt: u32) -> bool {
    crosses(spawner.obstacle_dist as nat, travelled(speed, dt), OBSTACLE_SPACING as nat)
}

/// Whether a step makes a coin due.
pub open spec fn coin_due(spawner: SpawnerDistance, speed: u32, dt: u32) -> bool {
    crosses(spawner.coin_dist as nat, travelled(speed, dt), COIN_SPACING as nat)
}

/// `after` is `before` with one more entity in the queue, under the next
/// free identifier, and nothing else changed.
pub open spec fn queues(before: World, after: World, entity: Entity) -> bool {
    &&& entity.id == before.next_id
    &&& after.next_id == before.next_id + 1
    &&& after.entities@ == before.entities@
    &&& after.queued@ == before.queued@.push(entity)
}

/// `after` holds what `before` holds.
pub open spec fn untouched(before: World, after: World) -> bool {
    &&& after.next_id == before.next_id
    &&& after.entities@ == before.entities@
    &&& after.queued@ == before.queued@
}

/// Advances the obstacle accumulator by a step of `dt` milliseconds at
/// `speed`, and queues an obstacle when one is due. Returns its identifier.
/// Nothing is queued when none is due, or when the identifiers are used up.
pub fn spawn_obstacles(
    spawner: &mut SpawnerDistance,
    world: &mut World,
    speed: u32,
    dt: u32,
) -> (id: Option<u64>)
    requires
        old(world).wf(),
    ensures
        final(world).wf(),
        final(spawner).obstacle_dist == paced(
            old(spawner).obstacle_dist as nat,
            travelled(speed, dt),
            OBSTACLE_SPACING as nat,
        ),
        final(spawner).coin_dist == old(spawner).coin_dist,
        id is Some <==> obstacle_due(*old(spawner), speed, dt) && old(world).next_id < u64::MAX,
        id is None ==> untouched(*old(world), *final(world)),
        id matches Some(i) ==> queues(*old(world), *final(world), new_obstacle(i)),
{
    if spawner.advance_obstacles(speed, dt) {
        world.spawn(Kind::Obstacle, SPAWN_X, OBSTACLE_Y)
    } else {
        None
    }
}

/// Advances the coin accumulator by a step of `dt` milliseconds at `speed`,
/// and queues a coin `offset` above the ground line when one is due. Returns
/// its identifier. Nothing is queued when none is due, or when the identifiers
/// are used up.
pub fn spawn_coins(
    spawner: &mut SpawnerDistance,
    world: &mut World,
    speed: u32,
    dt: u32,
    offset: i64,
) -> (id: Option<u64>)
    requires
        old(world).wf(),
        in_coin_band(offset),
    ensures
        final(world).wf(),
        final(spawner).coin_dist == paced(
            old(spawner).coin_dist as nat,
            travelled(speed, dt),
            COIN_SPACING as nat,
        ),
        final(spawner).obstacle_dist == old(spawner).obstacle_dist,
        id is Some <==> coin_due(*old(spawner), speed, dt) && old(world).next_id < u64::MAX,
        id is None ==> untouched(*old(world), *final(world)),
        id matches Some(i) ==> queues(*old(world), *final(world), new_coin(i, offset)),
{
    if spawner.advance_coins(speed, dt) {
        world.spawn(Kind::Coin, SPAWN_X, GROUND_Y + offset)
    } else {
        None
    }
}

/// As `spawn_coins`, with the height of the coin drawn at random from the coin
/// band when a coin is due: the outcome is that of `spawn_coins` for some
/// offset in the band.
pub fn spawn_coins_at_random(
    spawner: &mut SpawnerDistance,
    world: &mut World,
    speed: u32,
    dt: u32,
) -> (id: Option<u64>)
    requires
        old(world).wf(),
    ensures
        final(world).wf(),
        final(spawner).coin_dist == paced(
            old(spawner).coin_dist as nat,
            travelled(speed, dt),
            COIN_SPACING as nat,
        ),
        final(spawner).obstacle_dist == old(spawner).obstacle_dist,
        id is Some <==> coin_due(*old(spawner), speed, dt) && old(world).next_id < u64::MAX,
        id is None ==> untouched(*old(world), *final(world)),
        id matches Some(i) ==> exists|offset: i64|
            in_coin_band(offset) && queues(
                *old(world),
                *final(world),
                #[trigger] new_coin(i, offset),
            ),
{
    let offset: i64 = if spawner.coin_due(speed, dt) {
        coin_offset()
    } else {
        COIN_BAND_LOW
    };
    let id = spawn_coins(spawner, world, speed, dt, offset);
    proof {
        if let Some(i) = id {
            assert(in_coin_band(offset) && queues(*old(world), *world, new_coin(i, offset)));
        }
    }
    id
}

} // verus!
