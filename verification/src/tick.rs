//! One tick of the simulation: the steps of every component, taken over the
//! whole scene in their fixed order.
//!
//! First the contact probe, then the movement step; then the steps that set
//! and read events, the carry step and the pickups before squash and
//! stretch; then the passing of time for squash and stretch; and last of all
//! the clearing of events, so that what happened in a tick is seen in that
//! tick and in no other. The carried are placed by `actor_carry` once the
//! movement that the tick asks for has been applied.

use crate::actor::{
    actor_event_clear, actor_movement, actor_status, moved, probed, wanted_translation,
    ActorEvent, ActorStatus, Contacts,
};
use crate::carry::{
    actor_carry_startstop, carry_stepped, grab_notices, lemma_carry_step_keeps_links, links_agree,
    CarryNotice,
};
use crate::fixed::Vec2;
use crate::pickup::{actor_pickup_effects, collected_by, PickupEvent};
use crate::scene::{lemma_same_links_agree, same_links, Entity, Scene};
use crate::squash::{actor_squash_events, squash_animation, squash_states, SquashFrame};
use vstd::prelude::*;

verus! {

/// What the physics service reports of one entity at the start of a tick:
/// what the casts of the contact probe found, and how far the entity was
/// really moved in the last tick.
#[derive(Clone, Copy, Debug, PartialEq, Eq)]
pub struct Sensed {
    pub contacts: Contacts,
    pub moved: Vec2,
}

/// What a tick hands to the world around the simulation, each list holding
/// one entry for each entity, at the entity's place.
#[derive(Debug, PartialEq, Eq)]
pub struct TickReport {
    /// The way each actor asks to be moved.
    pub translations: Vec<Option<Vec2>>,
    /// What the grabs of the tick came to, in the order of the carriers.
    pub notices: Vec<CarryNotice>,
    /// Each status as it stood when all events of the tick were set, for
    /// those that show and sound what happened.
    pub seen: Vec<Option<ActorStatus>>,
    /// How each sprite with squash and stretch is to be drawn.
    pub frames: Vec<Option<SquashFrame>>,
}

/// What was sensed of the entity at `place`; nothing where `sensed` has no
/// entry for it.
pub open spec fn sense_at(sensed: Seq<Option<Sensed>>, place: int) -> Option<Sensed> {
    if 0 <= place < sensed.len() {
        sensed[place]
    } else {
        None
    }
}

/// Whether an entity has its hands full.
pub open spec fn hands_full(entity: Entity) -> bool {
    entity.carrier matches Some(hands) && hands.carrying is Some
}

/// An entity after the contact probe: one with a status of which something
/// was sensed is probed, any other is left as it is.
pub open spec fn probed_entity(entity: Entity, sensed: Option<Sensed>, dt: u64) -> Entity {
    match (entity.status, sensed) {
        (Some(status), Some(found)) => Entity {
            status: Some(
                probed(
                    status,
                    found.contacts,
                    found.moved,
                    dt,
                    hands_full(entity),
                    entity.carried is Some,
                ),
            ),
            ..entity
        },
        _ => entity,
    }
}

/// Whether an entity moves by itself: it has tuning, inputs and a status.
pub open spec fn acts(entity: Entity) -> bool {
    entity.actor is Some && entity.inputs is Some && entity.status is Some
}

/// An entity after the movement step.
pub open spec fn moved_entity(entity: Entity, dt: u64) -> Entity {
    if acts(entity) {
        Entity {
            status: Some(
                moved(
                    entity.actor->0,
                    entity.inputs->0,
                    entity.status->0,
                    entity.carried is Some,
                    dt,
                ),
            ),
            ..entity
        }
    } else {
        entity
    }
}

/// The way an entity asks to be moved in the movement step.
pub open spec fn wanted_of(entity: Entity, dt: u64) -> Option<Vec2> {
    if acts(entity) {
        wanted_translation(
            entity.actor->0,
            entity.inputs->0,
            entity.status->0,
            entity.carried is Some,
            dt,
        )
    } else {
        None
    }
}

/// Every entity that moves by itself has a speed limit that is not negative.
pub open spec fn tuned(entities: Seq<Entity>) -> bool {
    forall|i: int|
        0 <= i < entities.len() && acts(#[trigger] entities[i]) ==> entities[i].actor->0.move_speed
            >= 0
}

/// The entity at `place` after it has been told of the pickups of the tick.
/// A pickup takes the place of whatever event the status held, a landing or
/// a launch of the same tick too, which is then lost.
pub open spec fn told_entity(entity: Entity, place: int, pickups: Seq<PickupEvent>) -> Entity {
    match entity.status {
        Some(status) => if entity.collector is Some && place <= usize::MAX && collected_by(
            pickups,
            place as usize,
        ) {
            Entity {
                status: Some(ActorStatus { event: Some(ActorEvent::Pickup), ..status }),
                ..entity
            }
        } else {
            entity
        },
        None => entity,
    }
}

/// An entity after its squash and stretch has seen the event of the tick.
pub open spec fn squashed_entity(entity: Entity) -> Entity {
    match (entity.status, entity.squashy) {
        (Some(status), Some(squish)) => Entity {
            squashy: Some(squish.after_event(status.event)),
            ..entity
        },
        _ => entity,
    }
}

/// An entity after its squash and stretch has aged by `dt`.
pub open spec fn aged_entity(entity: Entity, dt: u64) -> Entity {
    match entity.squashy {
        Some(squish) => Entity { squashy: Some(squish.advanced(dt)), ..entity },
        None => entity,
    }
}

/// How an entity's sprite is to be drawn, if it has squash and stretch.
pub open spec fn frame_of(entity: Entity) -> Option<SquashFrame> {
    match entity.squashy {
        Some(squish) => Some(squish.frame()),
        None => None,
    }
}

/// An entity at the end of a tick: its event is gone.
pub open spec fn cleared_entity(entity: Entity) -> Entity {
    match entity.status {
        Some(status) => Entity { status: Some(ActorStatus { event: None, ..status }), ..entity },
        None => entity,
    }
}

pub open spec fn probed_all(entities: Seq<Entity>, sensed: Seq<Option<Sensed>>, dt: u64) -> Seq<
    Entity,
> {
    Seq::new(entities.len(), |i: int| probed_entity(entities[i], sense_at(sensed, i), dt))
}

pub open spec fn moved_all(entities: Seq<Entity>, dt: u64) -> Seq<Entity> {
    Seq::new(entities.len(), |i: int| moved_entity(entities[i], dt))
}

pub open spec fn wanted_all(entities: Seq<Entity>, dt: u64) -> Seq<Option<Vec2>> {
    Seq::new(entities.len(), |i: int| wanted_of(entities[i], dt))
}

pub open spec fn told_all(entities: Seq<Entity>, pickups: Seq<PickupEvent>) -> Seq<Entity> {
    Seq::new(entities.len(), |i: int| told_entity(entities[i], i, pickups))
}

pub open spec fn squashed_all(entities: Seq<Entity>) -> Seq<Entity> {
    Seq::new(entities.len(), |i: int| squashed_entity(entities[i]))
}

pub open spec fn aged_all(entities: Seq<Entity>, dt: u64) -> Seq<Entity> {
    Seq::new(entities.len(), |i: int| aged_entity(entities[i], dt))
}

pub open spec fn frames_of(entities: Seq<Entity>) -> Seq<Option<SquashFrame>> {
    Seq::new(entities.len(), |i: int| frame_of(entities[i]))
}

pub open spec fn statuses_of(entities: Seq<Entity>) -> Seq<Option<ActorStatus>> {
    Seq::new(entities.len(), |i: int| entities[i].status)
}

pub open spec fn cleared_all(entities: Seq<Entity>) -> Seq<Entity> {
    Seq::new(entities.len(), |i: int| cleared_entity(entities[i]))
}

/// The scene when every event of the tick has been set: after the probe,
/// the movement step, the carry step and the pickups.
pub open spec fn eventful(
    entities: Seq<Entity>,
    sensed: Seq<Option<Sensed>>,
    overlaps: Seq<Seq<usize>>,
    pickups: Seq<PickupEvent>,
    dt: u64,
) -> Seq<Entity> {
    told_all(carry_stepped(moved_all(probed_all(entities, sensed, dt), dt), overlaps), pickups)
}

/// The scene when squash and stretch has seen the events and aged.
pub open spec fn settled(
    entities: Seq<Entity>,
    sensed: Seq<Option<Sensed>>,
    overlaps: Seq<Seq<usize>>,
    pickups: Seq<PickupEvent>,
    dt: u64,
) -> Seq<Entity> {
    aged_all(squashed_all(eventful(entities, sensed, overlaps, pickups, dt)), dt)
}

/// The scene after a whole tick.
pub open spec fn ticked(
    entities: Seq<Entity>,
    sensed: Seq<Option<Sensed>>,
    overlaps: Seq<Seq<usize>>,
    pickups: Seq<PickupEvent>,
    dt: u64,
) -> Seq<Entity> {
    cleared_all(settled(entities, sensed, overlaps, pickups, dt))
}

impl Scene {
    /// The contact probe of every entity. `sensed` holds, at each entity's
    /// place, what the physics service reports of it.
    pub fn probe_all(&mut self, sensed: &Vec<Option<Sensed>>, dt: u64)
        ensures
            final(self)@ == probed_all(old(self)@, sensed@, dt),
            same_links(old(self)@, final(self)@),
    {
        let ghost before = self@;
        let count = self.entities.len();
        let mut i: usize = 0;
        while i < count
            invariant
                i <= count,
                count == before.len(),
                self@.len() == count,
                forall|k: int|
                    0 <= k < i ==> self@[k] == probed_entity(before[k], sense_at(sensed@, k), dt),
                forall|k: int| i <= k < count ==> self@[k] == before[k],
            decreases count - i,
        {
            let mut own = self.entities[i];
            if i < sensed.len() {
                match (own.status, sensed[i]) {
                    (Some(status), Some(found)) => {
                        let mut now = status;
                        let carrying = match own.carrier {
                            Some(hands) => hands.carrying.is_some(),
                            None => false,
                        };
                        actor_status(
                            &mut now,
                            found.contacts,
                            found.moved,
                            dt,
                            carrying,
                            own.carried.is_some(),
                        );
                        own.status = Some(now);
                        self.entities.set(i, own);
                    },
                    _ => {},
                }
            }
            i = i + 1;
        }
        assert(self@ =~= probed_all(before, sensed@, dt));
    }

    /// The movement step of every entity that moves by itself. The result
    /// holds, at each entity's place, the way it asks to be moved.
    pub fn move_all(&mut self, dt: u64) -> (translations: Vec<Option<Vec2>>)
        requires
            tuned(old(self)@),
        ensures
            final(self)@ == moved_all(old(self)@, dt),
            translations@ == wanted_all(old(self)@, dt),
            same_links(old(self)@, final(self)@),
    {
        let ghost before = self@;
        let count = self.entities.len();
        let mut translations: Vec<Option<Vec2>> = Vec::new();
        let mut i: usize = 0;
        while i < count
            invariant
                i <= count,
                count == before.len(),
                self@.len() == count,
                tuned(before),
                translations.len() == i,
                forall|k: int| 0 <= k < i ==> self@[k] == moved_entity(before[k], dt),
                forall|k: int| 0 <= k < i ==> translations[k] == wanted_of(before[k], dt),
                forall|k: int| i <= k < count ==> self@[k] == before[k],
            decreases count - i,
        {
            let mut own = self.entities[i];
            let mut wanted: Option<Vec2> = None;
            match (own.actor, own.inputs, own.status) {
                (Some(actor), Some(inputs), Some(status)) => {
                    assert(acts(before[i as int]));
                    let mut now = status;
                    wanted = actor_movement(&actor, &inputs, &mut now, own.carried.is_some(), dt);
                    own.status = Some(now);
                    self.entities.set(i, own);
                },
                _ => {},
            }
            translations.push(wanted);
            i = i + 1;
        }
        assert(self@ =~= moved_all(before, dt));
        assert(translations@ =~= wanted_all(before, dt));
        translations
    }

    /// Tells every collector of the pickups of the tick that name it. The
    /// pickup replaces whatever event the collector's status held.
    pub fn tell_pickups(&mut self, pickups: &Vec<PickupEvent>)
        ensures
            final(self)@ == told_all(old(self)@, pickups@),
            same_links(old(self)@, final(self)@),
    {
        let ghost before = self@;
        let count = self.entities.len();
        let mut i: usize = 0;
        while i < count
            invariant
                i <= count,
                count == before.len(),
                self@.len() == count,
                forall|k: int| 0 <= k < i ==> self@[k] == told_entity(before[k], k, pickups@),
                forall|k: int| i <= k < count ==> self@[k] == before[k],
            decreases count - i,
        {
            let mut own = self.entities[i];
            match own.status {
                Some(status) => {
                    let mut now = status;
                    actor_pickup_effects(pickups, i, own.collector, &mut now);
                    own.status = Some(now);
                    self.entities.set(i, own);
                },
                None => {},
            }
            i = i + 1;
        }
        assert(self@ =~= told_all(before, pickups@));
    }

    /// The statuses of the entities, each at its entity's place.
    pub fn statuses(&self) -> (seen: Vec<Option<ActorStatus>>)
        ensures
            seen@ == statuses_of(self@),
    {
        let mut seen: Vec<Option<ActorStatus>> = Vec::new();
        let mut i: usize = 0;
        while i < self.entities.len()
            invariant
                i <= self.entities.len(),
                seen.len() == i,
                forall|k: int| 0 <= k < i ==> seen[k] == self@[k].status,
            decreases self.entities.len() - i,
        {
            seen.push(self.entities[i].status);
            i = i + 1;
        }
        assert(seen@ =~= statuses_of(self@));
        seen
    }

    /// Lets every sprite with squash and stretch see the event of its
    /// actor.
    pub fn squash_events(&mut self)
        ensures
            final(self)@ == squashed_all(old(self)@),
            same_links(old(self)@, final(self)@),
    {
        let ghost before = self@;
        let count = self.entities.len();
        let mut i: usize = 0;
        while i < count
            invariant
                i <= count,
                count == before.len(),
                self@.len() == count,
                forall|k: int| 0 <= k < i ==> self@[k] == squashed_entity(before[k]),
                forall|k: int| i <= k < count ==> self@[k] == before[k],
            decreases count - i,
        {
            let mut own = self.entities[i];
            match (own.status, own.squashy) {
                (Some(status), Some(squish)) => {
                    let mut now = squish;
                    actor_squash_events(&status, &mut now);
                    own.squashy = Some(now);
                    self.entities.set(i, own);
                },
                _ => {},
            }
            i = i + 1;
        }
        assert(self@ =~= squashed_all(before));
    }

    /// Ages every squash and stretch by `dt`. The result holds, at each
    /// entity's place, how its sprite is then to be drawn.
    pub fn squash_advance(&mut self, dt: u64) -> (frames: Vec<Option<SquashFrame>>)
        ensures
            final(self)@ == aged_all(old(self)@, dt),
            frames@ == frames_of(final(self)@),
            same_links(old(self)@, final(self)@),
    {
        let ghost before = self@;
        let count = self.entities.len();
        let mut frames: Vec<Option<SquashFrame>> = Vec::new();
        let mut i: usize = 0;
        while i < count
            invariant
                i <= count,
                count == before.len(),
                self@.len() == count,
                frames.len() == i,
                forall|k: int| 0 <= k < i ==> self@[k] == aged_entity(before[k], dt),
                forall|k: int| 0 <= k < i ==> frames[k] == frame_of(aged_entity(before[k], dt)),
                forall|k: int| i <= k < count ==> self@[k] == before[k],
            decreases count - i,
        {
            let mut own = self.entities[i];
            let mut frame: Option<SquashFrame> = None;
            match own.squashy {
                Some(squish) => {
                    let mut now = squish;
                    squash_states(&mut now, dt);
                    frame = Some(squash_animation(&now));
                    own.squashy = Some(now);
                    self.entities.set(i, own);
                },
                None => {},
            }
            frames.push(frame);
            i = i + 1;
        }
        assert(self@ =~= aged_all(before, dt));
        assert(frames@ =~= frames_of(self@));
        frames
    }

    /// Ends the tick: the event of every status is gone.
    pub fn clear_events(&mut self)
        ensures
            final(self)@ == cleared_all(old(self)@),
            same_links(old(self)@, final(self)@),
            forall|i: int|
                0 <= i < final(self)@.len() ==> ((#[trigger] final(self)@[i]).status matches Some(
                    status,
                ) ==> status.event is None),
    {
        let ghost before = self@;
        let count = self.entities.len();
        let mut i: usize = 0;
        while i < count
            invariant
                i <= count,
                count == before.len(),
                self@.len() == count,
                forall|k: int| 0 <= k < i ==> self@[k] == cleared_entity(before[k]),
                forall|k: int| i <= k < count ==> self@[k] == before[k],
            decreases count - i,
        {
            let mut own = self.entities[i];
            match own.status {
                Some(status) => {
                    let mut now = status;
                    actor_event_clear(&mut now);
                    own.status = Some(now);
                    self.entities.set(i, own);
                },
                None => {},
            }
            i = i + 1;
        }
        assert(self@ =~= cleared_all(before));
    }
}

/// One tick of the simulation over a whole scene, `dt` long. `sensed` holds
/// what the physics service reports of each entity, `overlaps` the entities
/// within each entity's reach in the order in which they were found, and
/// `pickups` the pickups collected since the last tick, each naming its
/// collector by its place in the scene.
pub fn tick(
    scene: &mut Scene,
    sensed: &Vec<Option<Sensed>>,
    overlaps: &Vec<Vec<usize>>,
    pickups: &Vec<PickupEvent>,
    dt: u64,
) -> (report: TickReport)
    requires
        tuned(old(scene)@),
    ensures
        final(scene)@ == ticked(old(scene)@, sensed@, overlaps.deep_view(), pickups@, dt),
        final(scene)@.len() == old(scene)@.len(),
        report.translations@ == wanted_all(probed_all(old(scene)@, sensed@, dt), dt),
        report.notices@ == grab_notices(
            moved_all(probed_all(old(scene)@, sensed@, dt), dt),
            overlaps.deep_view(),
            old(scene)@.len(),
        ),
        report.seen@ == statuses_of(
            eventful(old(scene)@, sensed@, overlaps.deep_view(), pickups@, dt),
        ),
        report.frames@ == frames_of(
            settled(old(scene)@, sensed@, overlaps.deep_view(), pickups@, dt),
        ),
        links_agree(old(scene)@) ==> links_agree(final(scene)@),
        forall|i: int|
            0 <= i < final(scene)@.len() ==> ((#[trigger] final(scene)@[i]).status matches Some(
                status,
            ) ==> status.event is None),
{
    let ghost start = scene@;
    scene.probe_all(sensed, dt);
    let ghost after_probe = scene@;
    proof {
        assert forall|i: int| 0 <= i < after_probe.len() && acts(
            #[trigger] after_probe[i],
        ) implies after_probe[i].actor->0.move_speed >= 0 by {
            assert(acts(start[i]));
        }
        if links_agree(start) {
            lemma_same_links_agree(start, after_probe);
        }
    }
    let translations = scene.move_all(dt);
    let ghost after_move = scene@;
    proof {
        if links_agree(start) {
            lemma_same_links_agree(after_probe, after_move);
        }
    }
    let notices = actor_carry_startstop(scene, overlaps);
    let ghost after_carry = scene@;
    scene.tell_pickups(pickups);
    let ghost after_tell = scene@;
    proof {
        if links_agree(start) {
            lemma_same_links_agree(after_carry, after_tell);
        }
    }
    let seen = scene.statuses();
    scene.squash_events();
    let ghost after_squash = scene@;
    proof {
        if links_agree(start) {
            lemma_same_links_agree(after_tell, after_squash);
        }
    }
    let frames = scene.squash_advance(dt);
    let ghost after_age = scene@;
    proof {
        if links_agree(start) {
            lemma_same_links_agree(after_squash, after_age);
        }
    }
    scene.clear_events();
    proof {
        if links_agree(start) {
            lemma_same_links_agree(after_age, scene@);
        }
    }
    TickReport { translations, notices, seen, frames }
}

/// Whatever a tick is given, it leaves no event behind: each event is seen
/// in the tick in which it was set and is gone at the end of that tick.
pub proof fn lemma_tick_leaves_no_event(
    entities: Seq<Entity>,
    sensed: Seq<Option<Sensed>>,
    overlaps: Seq<Seq<usize>>,
    pickups: Seq<PickupEvent>,
    dt: u64,
    place: int,
)
    requires
        0 <= place < ticked(entities, sensed, overlaps, pickups, dt).len(),
    ensures
        ticked(entities, sensed, overlaps, pickups, dt)[place].status matches Some(status)
            ==> status.event is None,
{
}

/// A tick keeps the two sides of every carry in agreement: in a scene in
/// which a carrier names an entity exactly when that entity names the
/// carrier, the same holds after the tick.
pub proof fn lemma_tick_keeps_links(
    entities: Seq<Entity>,
    sensed: Seq<Option<Sensed>>,
    overlaps: Seq<Seq<usize>>,
    pickups: Seq<PickupEvent>,
    dt: u64,
)
    requires
        links_agree(entities),
    ensures
        links_agree(ticked(entities, sensed, overlaps, pickups, dt)),
{
    let after_probe = probed_all(entities, sensed, dt);
    lemma_same_links_agree(entities, after_probe);
    let after_move = moved_all(after_probe, dt);
    lemma_same_links_agree(after_probe, after_move);
    let after_carry = carry_stepped(after_move, overlaps);
    lemma_carry_step_keeps_links(after_move, overlaps);
    let after_tell = told_all(after_carry, pickups);
    lemma_same_links_agree(after_carry, after_tell);
    let after_squash = squashed_all(after_tell);
    lemma_same_links_agree(after_tell, after_squash);
    let after_age = aged_all(after_squash, dt);
    lemma_same_links_agree(after_squash, after_age);
    lemma_same_links_agree(after_age, cleared_all(after_age));
}

} // verus!
