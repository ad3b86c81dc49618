//! Pickups: things that lie in the level until a collector walks into them.

use crate::actor::{ActorEvent, ActorStatus};
use vstd::prelude::*;

verus! {

/// Half the height of the capsule with which a collector sweeps for
/// pickups, without its caps, in thousandths of a pixel.
pub const SWEEP_HALF_HEIGHT: i64 = 5500;

/// The radius of the capsule with which a collector sweeps for pickups.
pub const SWEEP_RADIUS: i64 = 5500;

/// The kinds of pickup.
#[derive(Clone, Copy, Debug, PartialEq, Eq, Structural)]
pub enum PickupType {
    XP,
}

/// The record of an entity that can be collected. One without a kind is
/// taken out of the level like any other, but nobody is told.
#[derive(Clone, Copy, Debug, PartialEq, Eq)]
pub struct Pickup {
    pub pickup_type: Option<PickupType>,
}

/// Marks an entity that collects the pickups it walks into.
#[derive(Clone, Copy, Debug, PartialEq, Eq)]
pub struct PickupCollector {
}

/// Told when a collector has collected a pickup.
#[derive(Clone, Copy, Debug, PartialEq, Eq)]
pub struct PickupEvent {
    pub pickup_entity: usize,
    pub pickup_type: PickupType,
    pub collector_entity: usize,
}

/// What one collector's sweep came to: whom to tell of what, and which
/// entities to take out of the level.
#[derive(Debug, PartialEq, Eq)]
pub struct PickupSweep {
    pub events: Vec<PickupEvent>,
    pub taken: Vec<usize>,
}

/// The pickup record of the entity at `entity`, where `pickups` holds each
/// entity's record at the entity's place.
pub open spec fn pickup_at(pickups: Seq<Option<Pickup>>, entity: usize) -> Option<Pickup> {
    if entity < pickups.len() {
        pickups[entity as int]
    } else {
        None
    }
}

/// The entities to take out of the level after the first `count` of
/// `overlaps`: those that are pickups, in the order in which they were found.
pub open spec fn taken_among(overlaps: Seq<usize>, pickups: Seq<Option<Pickup>>, count: nat) -> Seq<
    usize,
>
    decreases count,
{
    if count == 0 || count > overlaps.len() {
        Seq::empty()
    } else {
        let before = taken_among(overlaps, pickups, (count - 1) as nat);
        if pickup_at(pickups, overlaps[count - 1]) is Some {
            before.push(overlaps[count - 1])
        } else {
            before
        }
    }
}

/// What is to be told after the first `count` of `overlaps`: one event for
/// each pickup that has a kind, in the order in which they were found.
pub open spec fn told_among(
    collector: usize,
    overlaps: Seq<usize>,
    pickups: Seq<Option<Pickup>>,
    count: nat,
) -> Seq<PickupEvent>
    decreases count,
{
    if count == 0 || count > overlaps.len() {
        Seq::empty()
    } else {
        let before = told_among(collector, overlaps, pickups, (count - 1) as nat);
        match pickup_at(pickups, overlaps[count - 1]) {
            Some(Pickup { pickup_type: Some(kind) }) => before.push(
                PickupEvent {
                    pickup_entity: overlaps[count - 1],
                    pickup_type: kind,
                    collector_entity: collector,
                },
            ),
            _ => before,
        }
    }
}

/// The sweep of one collector. `overlaps` holds the entities that its sweep
/// found, in the order in which they were found, and `pickups` each
/// entity's pickup record at the entity's place. Every pickup found is taken
/// out of the level, and each that has a kind is told of.
pub fn check_for_pickups(
    collector_entity: usize,
    overlaps: &Vec<usize>,
    pickups: &Vec<Option<Pickup>>,
) -> (sweep: PickupSweep)
    ensures
        sweep.events@ == told_among(collector_entity, overlaps@, pickups@, overlaps@.len()),
        sweep.taken@ == taken_among(overlaps@, pickups@, overlaps@.len()),
{
    let mut events: Vec<PickupEvent> = Vec::new();
    let mut taken: Vec<usize> = Vec::new();
    let mut i: usize = 0;
    while i < overlaps.len()
        invariant
            i <= overlaps.len(),
            events@ == told_among(collector_entity, overlaps@, pickups@, i as nat),
            taken@ == taken_among(overlaps@, pickups@, i as nat),
        decreases overlaps.len() - i,
    {
        let entity = overlaps[i];
        if entity < pickups.len() {
            match pickups[entity] {
                Some(pickup) => {
                    match pickup.pickup_type {
                        Some(kind) => {
                            events.push(
                                PickupEvent {
                                    pickup_entity: entity,
                                    pickup_type: kind,
                                    collector_entity,
                                },
                            );
                        },
                        None => {},
                    }
                    taken.push(entity);
                },
                None => {},
            }
        }
        i = i + 1;
    }
    PickupSweep { events, taken }
}

/// Whether one of `events` tells of a pickup collected by `entity`.
pub open spec fn collected_by(events: Seq<PickupEvent>, entity: usize) -> bool {
    exists|i: int| 0 <= i < events.len() && (#[trigger] events[i]).collector_entity == entity
}

/// Lets a collector's status tell of a pickup: if the entity at `entity` is
/// a collector and one of `events` names it, its event becomes the pickup,
/// in place of whatever event it held.
pub fn actor_pickup_effects(
    events: &Vec<PickupEvent>,
    entity: usize,
    collector: Option<PickupCollector>,
    status: &mut ActorStatus,
)
    ensures
        *final(status) == if collector is Some && collected_by(events@, entity) {
            ActorStatus { event: Some(ActorEvent::Pickup), ..*old(status) }
        } else {
            *old(status)
        },
{
    if collector.is_none() {
        return ;
    }
    let mut i: usize = 0;
    while i < events.len()
        invariant
            i <= events.len(),
            collector is Some,
            *status == *old(status),
            forall|k: int| 0 <= k < i ==> (#[trigger] events[k]).collector_entity != entity,
        decreases events.len() - i,
    {
        if events[i].collector_entity == entity {
            assert(events@[i as int].collector_entity == entity);
            status.event = Some(ActorEvent::Pickup);
            return ;
        }
        i = i + 1;
    }
}

} // verus!
