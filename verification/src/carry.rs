//! Carrying: one entity picks another up, holds it at an offset, and lets it
//! go again.
//!
//! The entities of a scene are kept in one list and are known by their place
//! in it; a carrier and what it carries name each other by that place. The
//! two records of a carry, the carrier's `carrying` and the `held_by` of the
//! carried, are always written together.
//!
//! Within one carry step, who is in another's hands is judged by the scene
//! as the step found it. An entity that was in another's hands then neither
//! grabs nor is picked up in that step, whatever has been let go since; and
//! only such an entity can jump free in that step, so that an entity picked
//! up in a step is still carried when the step is over.

use crate::actor::{
    Actor, ActorEvent, ActorStatus, Carried, Carrier, EndCarryEvent, StartCarryEvent,
};
use crate::fixed::{Vec2, Vec3};
use crate::scene::{Entity, Scene};
use vstd::prelude::*;

verus! {

/// Half the length of the capsule that a carrier reaches out with, without
/// its caps, in thousandths of a pixel. The capsule lies along the ground.
pub const GRAB_HALF_LENGTH: i64 = 5500;

/// The radius of the capsule that a carrier reaches out with.
pub const GRAB_RADIUS: i64 = 3500;

/// What a carrier's grab came to.
#[derive(Clone, Copy, Debug, PartialEq, Eq)]
pub enum CarryNotice {
    Started(StartCarryEvent),
    Ended(EndCarryEvent),
}

/// The entity at `carrier` has a carrier's record that names `target`.
pub open spec fn carries(entities: Seq<Entity>, carrier: int, target: int) -> bool {
    &&& 0 <= carrier < entities.len()
    &&& entities[carrier].carrier matches Some(held)
    &&& held.carrying matches Some(named)
    &&& named == target
}

/// The entity at `target` has a carried record that names `carrier`.
pub open spec fn is_held_by(entities: Seq<Entity>, target: int, carrier: int) -> bool {
    &&& 0 <= target < entities.len()
    &&& entities[target].carried matches Some(held)
    &&& held.held_by == carrier
}

/// Every carry is recorded on both sides: a carrier names an entity exactly
/// when that entity names the carrier.
pub open spec fn links_agree(entities: Seq<Entity>) -> bool {
    forall|carrier: int, target: int|
        #![trigger carries(entities, carrier, target)]
        #![trigger is_held_by(entities, target, carrier)]
        carries(entities, carrier, target) <==> is_held_by(entities, target, carrier)
}

/// `entity` with its carrier's record, if it has one, naming `target`.
pub open spec fn with_carrying(entity: Entity, target: Option<usize>) -> Entity {
    match entity.carrier {
        Some(held) => Entity { carrier: Some(Carrier { carrying: target, ..held }), ..entity },
        None => entity,
    }
}

/// For each entity, whether it has a carried record.
pub open spec fn held_in(entities: Seq<Entity>) -> Seq<bool> {
    Seq::new(entities.len(), |i: int| entities[i].carried is Some)
}

/// Whether the entity at `place` was in another's hands when the pass began,
/// where `held` says so of each entity by its place.
pub open spec fn was_held(held: Seq<bool>, place: int) -> bool {
    0 <= place < held.len() && held[place]
}

/// The entity at `carrier` acts on a grab in this pass: it can carry, was in
/// nobody's hands when the pass began, and is asked to grab.
pub open spec fn grabs(held: Seq<bool>, entities: Seq<Entity>, carrier: int) -> bool {
    &&& 0 <= carrier < entities.len()
    &&& carrier <= usize::MAX
    &&& entities[carrier].carrier is Some
    &&& !was_held(held, carrier)
    &&& entities[carrier].inputs matches Some(inputs)
    &&& inputs.grab_input
}

/// The entity at `target` can be picked up by the entity at `carrier`: it is
/// another entity of the scene, can be carried, was in nobody's hands when
/// the pass began, and has not been picked up since.
pub open spec fn can_pick_up(
    held: Seq<bool>,
    entities: Seq<Entity>,
    carrier: int,
    target: usize,
) -> bool {
    &&& target != carrier
    &&& target < entities.len()
    &&& entities[target as int].carryable is Some
    &&& !was_held(held, target as int)
    &&& entities[target as int].carried is None
}

/// The first of `overlaps`, from place `from` on, that `carrier` can pick
/// up.
pub open spec fn first_target_from(
    held: Seq<bool>,
    entities: Seq<Entity>,
    carrier: int,
    overlaps: Seq<usize>,
    from: int,
) -> Option<usize>
    decreases overlaps.len() - from,
{
    if from < 0 || from >= overlaps.len() {
        None
    } else if can_pick_up(held, entities, carrier, overlaps[from]) {
        Some(overlaps[from])
    } else {
        first_target_from(held, entities, carrier, overlaps, from + 1)
    }
}

/// The first of `overlaps` that `carrier` can pick up.
pub open spec fn first_target(
    held: Seq<bool>,
    entities: Seq<Entity>,
    carrier: int,
    overlaps: Seq<usize>,
) -> Option<usize> {
    first_target_from(held, entities, carrier, overlaps, 0)
}

/// The scene after the grab of the entity at `carrier`, with `overlaps` the
/// entities found within its reach in the order in which they were found,
/// and `held` the entities that were in another's hands when the pass began.
/// A carrier with its hands full lets go; one with empty hands picks up the
/// first entity within reach that it can; and where no grab is acted on the
/// scene stays as it is.
pub open spec fn grabbed(
    held: Seq<bool>,
    entities: Seq<Entity>,
    carrier: int,
    overlaps: Seq<usize>,
) -> Seq<Entity> {
    if !grabs(held, entities, carrier) {
        entities
    } else {
        match entities[carrier].carrier->0.carrying {
            Some(target) => {
                let freed = entities.update(carrier, with_carrying(entities[carrier], None));
                if is_held_by(entities, target as int, carrier) {
                    freed.update(target as int, Entity { carried: None, ..freed[target as int] })
                } else {
                    freed
                }
            },
            None => match first_target(held, entities, carrier, overlaps) {
                Some(target) => entities.update(
                    carrier,
                    with_carrying(entities[carrier], Some(target)),
                ).update(
                    target as int,
                    Entity {
                        carried: Some(Carried { held_by: carrier as usize }),
                        ..entities[target as int]
                    },
                ),
                None => entities,
            },
        }
    }
}

/// What the grab of the entity at `carrier` is to be told of.
pub open spec fn grab_notice(
    held: Seq<bool>,
    entities: Seq<Entity>,
    carrier: int,
    overlaps: Seq<usize>,
) -> Option<CarryNotice> {
    if !grabs(held, entities, carrier) {
        None
    } else {
        match entities[carrier].carrier->0.carrying {
            Some(target) => Some(
                CarryNotice::Ended(EndCarryEvent { picked_up: target, carrier: carrier as usize }),
            ),
            None => match first_target(held, entities, carrier, overlaps) {
                Some(target) => Some(
                    CarryNotice::Started(
                        StartCarryEvent { picked_up: target, carrier: carrier as usize },
                    ),
                ),
                None => None,
            },
        }
    }
}

/// The entity at `target` jumps free in this step: it was in another's hands
/// when the step began, is an actor, and is asked to jump.
pub open spec fn jumps_free(held: Seq<bool>, entities: Seq<Entity>, target: int) -> bool {
    &&& 0 <= target < entities.len()
    &&& was_held(held, target)
    &&& entities[target].actor is Some
    &&& entities[target].inputs matches Some(inputs)
    &&& inputs.jump_input
}

/// The status of an actor that has jumped out of a carry: it rises at its
/// jump speed, and is launched if it stood on the ground.
pub open spec fn jumped(status: ActorStatus, actor: Actor) -> ActorStatus {
    ActorStatus {
        velocity: Vec2 { x: status.velocity.x, y: actor.jump_speed },
        event: if status.grounded {
            Some(ActorEvent::Launched)
        } else {
            status.event
        },
        ..status
    }
}

/// The scene after the entity at `target` has had its chance to jump out of
/// a carry, where `held` says who was in another's hands when the step
/// began. If it jumps free, its carried record goes, the hands of the carrier
/// that holds it are empty, and its status, if it has one, is that of a
/// jump. An entity that was let go earlier in the step jumps all the same:
/// it has no record and no carrier left to change, and its status is that of
/// a jump.
pub open spec fn released(held: Seq<bool>, entities: Seq<Entity>, target: int) -> Seq<Entity> {
    if !jumps_free(held, entities, target) {
        entities
    } else {
        let own = Entity {
            carried: None,
            status: match entities[target].status {
                Some(status) => Some(jumped(status, entities[target].actor->0)),
                None => None,
            },
            ..entities[target]
        };
        let freed = entities.update(target, own);
        match entities[target].carried {
            Some(hold) => if carries(entities, hold.held_by as int, target) {
                freed.update(
                    hold.held_by as int,
                    with_carrying(freed[hold.held_by as int], None),
                )
            } else {
                freed
            },
            None => freed,
        }
    }
}

/// The list of entities within reach of the entity at `carrier`; none where
/// `overlaps` has no list for it.
pub open spec fn reach_of(overlaps: Seq<Seq<usize>>, carrier: int) -> Seq<usize> {
    if 0 <= carrier < overlaps.len() {
        overlaps[carrier]
    } else {
        Seq::empty()
    }
}

/// The scene after the grabs of its first `count` entities, taken in order,
/// in the pass that found the scene as `entities`.
pub open spec fn grab_pass(entities: Seq<Entity>, overlaps: Seq<Seq<usize>>, count: nat) -> Seq<
    Entity,
>
    decreases count,
{
    if count == 0 {
        entities
    } else {
        grabbed(
            held_in(entities),
            grab_pass(entities, overlaps, (count - 1) as nat),
            count - 1,
            reach_of(overlaps, count - 1),
        )
    }
}

/// What the grabs of the first `count` entities are to be told of, in order.
pub open spec fn grab_notices(entities: Seq<Entity>, overlaps: Seq<Seq<usize>>, count: nat) -> Seq<
    CarryNotice,
>
    decreases count,
{
    if count == 0 {
        Seq::empty()
    } else {
        let told = grab_notices(entities, overlaps, (count - 1) as nat);
        match grab_notice(
            held_in(entities),
            grab_pass(entities, overlaps, (count - 1) as nat),
            count - 1,
            reach_of(overlaps, count - 1),
        ) {
            Some(notice) => told.push(notice),
            None => told,
        }
    }
}

/// The scene after its first `count` entities have had their chance to jump
/// out of a carry, taken in order, where `held` says who was in another's
/// hands when the step began.
pub open spec fn release_pass(held: Seq<bool>, entities: Seq<Entity>, count: nat) -> Seq<Entity>
    decreases count,
{
    if count == 0 {
        entities
    } else {
        released(held, release_pass(held, entities, (count - 1) as nat), count - 1)
    }
}

/// The scene after the carry step: first every grab, then every jump out of
/// a carry, both judged by who was in another's hands when the step began.
pub open spec fn carry_stepped(entities: Seq<Entity>, overlaps: Seq<Seq<usize>>) -> Seq<Entity> {
    release_pass(
        held_in(entities),
        grab_pass(entities, overlaps, entities.len()),
        entities.len(),
    )
}

/// No entity but the one at `carrier` acts on a grab in a step that finds
/// the scene as `entities`.
pub open spec fn grabs_alone(entities: Seq<Entity>, carrier: int) -> bool {
    forall|other: int|
        0 <= other < entities.len() && other != carrier ==> !#[trigger] grabs(
            held_in(entities),
            entities,
            other,
        )
}

/// Where the entity at `target` is held: at its carrier's place plus the
/// carrier's offset, if it names a carrier that names it.
pub open spec fn held_at(entities: Seq<Entity>, target: int) -> Option<Vec3> {
    if 0 <= target < entities.len() {
        match entities[target].carried {
            Some(held) => if carries(entities, held.held_by as int, target) {
                Some(
                    entities[held.held_by as int].translation.plus_spec(
                        entities[held.held_by as int].carrier->0.carry_offset,
                    ),
                )
            } else {
                None
            },
            None => None,
        }
    } else {
        None
    }
}

/// The hands of the entity at `place` once stale links are dropped: they
/// keep what they hold only if that entity names them back.
pub open spec fn settled_hands(entities: Seq<Entity>, place: int) -> Option<Carrier> {
    match entities[place].carrier {
        Some(hands) => Some(
            Carrier {
                carrying: match hands.carrying {
                    Some(target) => if is_held_by(entities, target as int, place) {
                        Some(target)
                    } else {
                        None
                    },
                    None => None,
                },
                ..hands
            },
        ),
        None => None,
    }
}

/// The carried record of the entity at `place` once stale links are
/// dropped: it stays only if the carrier it names holds the entity.
pub open spec fn settled_hold(entities: Seq<Entity>, place: int) -> Option<Carried> {
    match entities[place].carried {
        Some(held) => if carries(entities, held.held_by as int, place) {
            Some(held)
        } else {
            None
        },
        None => None,
    }
}

/// The entity at `place` after the carried have been placed.
pub open spec fn settled(entities: Seq<Entity>, place: int) -> Entity {
    Entity {
        translation: match held_at(entities, place) {
            Some(to) => to,
            None => entities[place].translation,
        },
        carrier: settled_hands(entities, place),
        carried: settled_hold(entities, place),
        ..entities[place]
    }
}

/// The scene with every carried entity moved to where it is held, and with
/// every stale link dropped: a carrier whose target is out of the scene, or
/// does not name it back, has empty hands, and an entity whose carrier is
/// out of the scene, or does not hold it, is in nobody's hands and stays
/// where it is. All are judged and placed by the scene as the step found it.
pub open spec fn synced(entities: Seq<Entity>) -> Seq<Entity> {
    Seq::new(entities.len(), |i: int| settled(entities, i))
}

proof fn lemma_first_target(
    held: Seq<bool>,
    entities: Seq<Entity>,
    carrier: int,
    overlaps: Seq<usize>,
    from: int,
)
    requires
        0 <= from <= overlaps.len(),
    ensures
        match first_target_from(held, entities, carrier, overlaps, from) {
            Some(target) => can_pick_up(held, entities, carrier, target),
            None => true,
        },
    decreases overlaps.len() - from,
{
    if from < overlaps.len() && !can_pick_up(held, entities, carrier, overlaps[from]) {
        lemma_first_target(held, entities, carrier, overlaps, from + 1);
    }
}

/// A grab keeps the two sides of every carry in agreement.
pub proof fn lemma_grab_keeps_links(
    held: Seq<bool>,
    entities: Seq<Entity>,
    carrier: int,
    overlaps: Seq<usize>,
)
    requires
        links_agree(entities),
    ensures
        links_agree(grabbed(held, entities, carrier, overlaps)),
        grabbed(held, entities, carrier, overlaps).len() == entities.len(),
{
    let after = grabbed(held, entities, carrier, overlaps);
    if grabs(held, entities, carrier) {
        match entities[carrier].carrier->0.carrying {
            Some(target) => {
                assert(carries(entities, carrier, target as int));
                assert(is_held_by(entities, target as int, carrier));
                assert forall|c: int, t: int|
                    #![trigger carries(after, c, t)]
                    #![trigger is_held_by(after, t, c)]
                    carries(after, c, t) <==> is_held_by(after, t, c) by {
                    assert(carries(entities, c, t) <==> is_held_by(entities, t, c));
                    if t == target && c != carrier {
                        assert(!is_held_by(entities, t, c));
                    }
                }
            },
            None => {
                lemma_first_target(held, entities, carrier, overlaps, 0);
                match first_target(held, entities, carrier, overlaps) {
                    Some(target) => {
                        assert forall|c: int, t: int|
                            #![trigger carries(after, c, t)]
                            #![trigger is_held_by(after, t, c)]
                            carries(after, c, t) <==> is_held_by(after, t, c) by {
                            assert(carries(entities, c, t) <==> is_held_by(entities, t, c));
                            if c == carrier && t != target {
                                assert(!carries(entities, c, t));
                            }
                            if t == target && c != carrier {
                                assert(!is_held_by(entities, t, c));
                            }
                        }
                    },
                    None => {},
                }
            },
        }
    }
}

/// A grab gives no new carried record to an entity that was in another's
/// hands when the pass began: such an entity keeps the record it has or
/// loses it.
pub proof fn lemma_grab_leaves_the_held(
    held: Seq<bool>,
    entities: Seq<Entity>,
    carrier: int,
    overlaps: Seq<usize>,
    place: int,
)
    requires
        0 <= place < entities.len(),
        was_held(held, place),
    ensures
        grabbed(held, entities, carrier, overlaps).len() == entities.len(),
        grabbed(held, entities, carrier, overlaps)[place].carried is None || grabbed(
            held,
            entities,
            carrier,
            overlaps,
        )[place].carried == entities[place].carried,
{
    lemma_first_target(held, entities, carrier, overlaps, 0);
}

/// Through a whole pass of grabs, an entity that was in another's hands when
/// the pass began ends in the same hands or in none: once let go, it is not
/// picked up again in that pass, by anyone.
pub proof fn lemma_let_go_is_not_picked_up(
    entities: Seq<Entity>,
    overlaps: Seq<Seq<usize>>,
    count: nat,
    place: int,
)
    requires
        0 <= place < entities.len(),
        entities[place].carried is Some,
    ensures
        grab_pass(entities, overlaps, count).len() == entities.len(),
        grab_pass(entities, overlaps, count)[place].carried is None || grab_pass(
            entities,
            overlaps,
            count,
        )[place].carried == entities[place].carried,
    decreases count,
{
    if count > 0 {
        lemma_let_go_is_not_picked_up(entities, overlaps, (count - 1) as nat, place);
        lemma_grab_leaves_the_held(
            held_in(entities),
            grab_pass(entities, overlaps, (count - 1) as nat),
            count - 1,
            reach_of(overlaps, count - 1),
            place,
        );
    }
}

/// No pickup is told of an entity that was in another's hands when the
/// pass began: every start that a pass of grabs tells of names an entity of
/// the scene that was free then.
pub proof fn lemma_no_start_for_the_held(
    entities: Seq<Entity>,
    overlaps: Seq<Seq<usize>>,
    count: nat,
    at: int,
)
    requires
        0 <= at < grab_notices(entities, overlaps, count).len(),
    ensures
        grab_notices(entities, overlaps, count)[at] matches CarryNotice::Started(told) ==> {
            &&& told.picked_up < entities.len()
            &&& entities[told.picked_up as int].carried is None
        },
    decreases count,
{
    if count > 0 {
        let before = grab_notices(entities, overlaps, (count - 1) as nat);
        let scene = grab_pass(entities, overlaps, (count - 1) as nat);
        lemma_grab_pass_keeps_length(entities, overlaps, (count - 1) as nat);
        if at < before.len() {
            lemma_no_start_for_the_held(entities, overlaps, (count - 1) as nat, at);
        } else {
            lemma_first_target(
                held_in(entities),
                scene,
                count - 1,
                reach_of(overlaps, count - 1),
                0,
            );
        }
    }
}

proof fn lemma_grab_pass_keeps_length(entities: Seq<Entity>, overlaps: Seq<Seq<usize>>, count: nat)
    ensures
        grab_pass(entities, overlaps, count).len() == entities.len(),
    decreases count,
{
    if count > 0 {
        lemma_grab_pass_keeps_length(entities, overlaps, (count - 1) as nat);
        lemma_first_target(
            held_in(entities),
            grab_pass(entities, overlaps, (count - 1) as nat),
            count - 1,
            reach_of(overlaps, count - 1),
            0,
        );
    }
}

/// A jump out of a carry keeps the two sides of every carry in agreement.
pub proof fn lemma_release_keeps_links(held: Seq<bool>, entities: Seq<Entity>, target: int)
    requires
        links_agree(entities),
    ensures
        links_agree(released(held, entities, target)),
        released(held, entities, target).len() == entities.len(),
{
    let after = released(held, entities, target);
    if jumps_free(held, entities, target) {
        match entities[target].carried {
            Some(hold) => {
                let carrier = hold.held_by as int;
                assert(is_held_by(entities, target, carrier));
                assert(carries(entities, carrier, target));
                assert forall|c: int, t: int|
                    #![trigger carries(after, c, t)]
                    #![trigger is_held_by(after, t, c)]
                    carries(after, c, t) <==> is_held_by(after, t, c) by {
                    assert(carries(entities, c, t) <==> is_held_by(entities, t, c));
                    if c == carrier && t != target {
                        assert(!carries(entities, c, t));
                    }
                    if t == target && c != carrier {
                        assert(!is_held_by(entities, t, c));
                    }
                }
            },
            None => {
                assert forall|c: int, t: int|
                    #![trigger carries(after, c, t)]
                    #![trigger is_held_by(after, t, c)]
                    carries(after, c, t) <==> is_held_by(after, t, c) by {
                    assert(carries(entities, c, t) <==> is_held_by(entities, t, c));
                }
            },
        }
    }
}

/// A jump out of a carry lets go and takes nothing up: at every place the
/// carried record is as it was or gone, the hands hold what they held or
/// nothing, and what the entity is and is asked to do stays as it was.
pub proof fn lemma_release_only_lets_go(
    held: Seq<bool>,
    entities: Seq<Entity>,
    target: int,
    place: int,
)
    requires
        0 <= place < entities.len(),
    ensures
        released(held, entities, target).len() == entities.len(),
        released(held, entities, target)[place].carried is None || released(
            held,
            entities,
            target,
        )[place].carried == entities[place].carried,
        released(held, entities, target)[place].carrier == entities[place].carrier || released(
            held,
            entities,
            target,
        )[place].carrier == with_carrying(entities[place], None).carrier,
        released(held, entities, target)[place].inputs == entities[place].inputs,
        released(held, entities, target)[place].carryable == entities[place].carryable,
        released(held, entities, target)[place].actor == entities[place].actor,
{
}

/// A jump out of a carry leaves alone every carry of an entity that was in
/// nobody's hands when the step began: such an entity does not jump free in
/// this step.
pub proof fn lemma_release_keeps_the_new_carry(
    held: Seq<bool>,
    entities: Seq<Entity>,
    target: int,
    carrier: int,
    carried: int,
)
    requires
        carries(entities, carrier, carried),
        is_held_by(entities, carried, carrier),
        !was_held(held, carried),
    ensures
        carries(released(held, entities, target), carrier, carried),
        is_held_by(released(held, entities, target), carried, carrier),
{
}

proof fn lemma_release_pass_keeps_the_new_carry(
    held: Seq<bool>,
    entities: Seq<Entity>,
    count: nat,
    carrier: int,
    carried: int,
)
    requires
        carries(entities, carrier, carried),
        is_held_by(entities, carried, carrier),
        !was_held(held, carried),
    ensures
        carries(release_pass(held, entities, count), carrier, carried),
        is_held_by(release_pass(held, entities, count), carried, carrier),
    decreases count,
{
    if count > 0 {
        lemma_release_pass_keeps_the_new_carry(held, entities, (count - 1) as nat, carrier, carried);
        lemma_release_keeps_the_new_carry(
            held,
            release_pass(held, entities, (count - 1) as nat),
            count - 1,
            carrier,
            carried,
        );
    }
}

proof fn lemma_release_pass_only_lets_go(
    held: Seq<bool>,
    entities: Seq<Entity>,
    count: nat,
    place: int,
)
    requires
        0 <= place < entities.len(),
    ensures
        release_pass(held, entities, count).len() == entities.len(),
        release_pass(held, entities, count)[place].carried is None || release_pass(
            held,
            entities,
            count,
        )[place].carried == entities[place].carried,
        release_pass(held, entities, count)[place].carrier == entities[place].carrier
            || release_pass(held, entities, count)[place].carrier == with_carrying(
            entities[place],
            None,
        ).carrier,
        release_pass(held, entities, count)[place].inputs == entities[place].inputs,
        release_pass(held, entities, count)[place].carryable == entities[place].carryable,
        release_pass(held, entities, count)[place].actor == entities[place].actor,
    decreases count,
{
    if count > 0 {
        lemma_release_pass_only_lets_go(held, entities, (count - 1) as nat, place);
        lemma_release_only_lets_go(
            held,
            release_pass(held, entities, (count - 1) as nat),
            count - 1,
            place,
        );
    }
}

proof fn lemma_grab_pass_keeps_links(entities: Seq<Entity>, overlaps: Seq<Seq<usize>>, count: nat)
    requires
        links_agree(entities),
    ensures
        links_agree(grab_pass(entities, overlaps, count)),
        grab_pass(entities, overlaps, count).len() == entities.len(),
    decreases count,
{
    if count > 0 {
        lemma_grab_pass_keeps_links(entities, overlaps, (count - 1) as nat);
        lemma_grab_keeps_links(
            held_in(entities),
            grab_pass(entities, overlaps, (count - 1) as nat),
            count - 1,
            reach_of(overlaps, count - 1),
        );
    }
}

proof fn lemma_release_pass_keeps_links(held: Seq<bool>, entities: Seq<Entity>, count: nat)
    requires
        links_agree(entities),
    ensures
        links_agree(release_pass(held, entities, count)),
        release_pass(held, entities, count).len() == entities.len(),
    decreases count,
{
    if count > 0 {
        lemma_release_pass_keeps_links(held, entities, (count - 1) as nat);
        lemma_release_keeps_links(
            held,
            release_pass(held, entities, (count - 1) as nat),
            count - 1,
        );
    }
}

/// The carry step keeps the two sides of every carry in agreement: after
/// it, as before it, a carrier names an entity exactly when that entity
/// names the carrier.
pub proof fn lemma_carry_step_keeps_links(entities: Seq<Entity>, overlaps: Seq<Seq<usize>>)
    requires
        links_agree(entities),
    ensures
        links_agree(carry_stepped(entities, overlaps)),
        carry_stepped(entities, overlaps).len() == entities.len(),
{
    lemma_grab_pass_keeps_links(entities, overlaps, entities.len());
    lemma_release_pass_keeps_links(
        held_in(entities),
        grab_pass(entities, overlaps, entities.len()),
        entities.len(),
    );
}

proof fn lemma_grab_keeps_who_grabs(
    held: Seq<bool>,
    entities: Seq<Entity>,
    carrier: int,
    overlaps: Seq<usize>,
    other: int,
)
    ensures
        grabs(held, grabbed(held, entities, carrier, overlaps), other) == grabs(
            held,
            entities,
            other,
        ),
        grabbed(held, entities, carrier, overlaps).len() == entities.len(),
{
    lemma_first_target(held, entities, carrier, overlaps, 0);
}

proof fn lemma_lone_grab_pass(
    entities: Seq<Entity>,
    overlaps: Seq<Seq<usize>>,
    carrier: int,
    count: nat,
)
    requires
        0 <= carrier < entities.len(),
        grabs_alone(entities, carrier),
    ensures
        grab_pass(entities, overlaps, count) == if count > carrier {
            grabbed(held_in(entities), entities, carrier, reach_of(overlaps, carrier))
        } else {
            entities
        },
        grab_notices(entities, overlaps, count) == if count > carrier {
            match grab_notice(held_in(entities), entities, carrier, reach_of(overlaps, carrier)) {
                Some(notice) => seq![notice],
                None => Seq::empty(),
            }
        } else {
            Seq::empty()
        },
    decreases count,
{
    if count > 0 {
        lemma_lone_grab_pass(entities, overlaps, carrier, (count - 1) as nat);
        let held = held_in(entities);
        let at = count - 1;
        if at > carrier {
            lemma_grab_keeps_who_grabs(held, entities, carrier, reach_of(overlaps, carrier), at);
        }
        if at == carrier {
            match grab_notice(held, entities, carrier, reach_of(overlaps, carrier)) {
                Some(notice) => {
                    assert(Seq::<CarryNotice>::empty().push(notice) =~= seq![notice]);
                },
                None => {},
            }
        }
    }
}

/// A pickup stands when the step is over. Where a carrier with empty hands
/// is the only one to grab, and the first entity in its reach that it can
/// pick up is `target`, then after the whole carry step the carrier holds
/// `target` and `target` names the carrier, whether or not `target` asks to
/// jump; no other entity has gained a carried record; and one start is told
/// and nothing else.
pub proof fn lemma_step_picks_up(
    entities: Seq<Entity>,
    overlaps: Seq<Seq<usize>>,
    carrier: int,
    target: usize,
)
    requires
        grabs(held_in(entities), entities, carrier),
        grabs_alone(entities, carrier),
        entities[carrier].carrier->0.carrying is None,
        first_target(held_in(entities), entities, carrier, reach_of(overlaps, carrier)) == Some(
            target,
        ),
    ensures
        carry_stepped(entities, overlaps).len() == entities.len(),
        carries(carry_stepped(entities, overlaps), carrier, target as int),
        is_held_by(carry_stepped(entities, overlaps), target as int, carrier),
        forall|other: int|
            0 <= other < entities.len() && other != target && (#[trigger] carry_stepped(
                entities,
                overlaps,
            )[other]).carried is Some ==> entities[other].carried is Some,
        grab_notices(entities, overlaps, entities.len()) == seq![
            CarryNotice::Started(StartCarryEvent { picked_up: target, carrier: carrier as usize }),
        ],
{
    let held = held_in(entities);
    let reach = reach_of(overlaps, carrier);
    lemma_lone_grab_pass(entities, overlaps, carrier, entities.len());
    lemma_first_target(held, entities, carrier, reach, 0);
    let taken = grabbed(held, entities, carrier, reach);
    assert(taken == grab_pass(entities, overlaps, entities.len()));
    assert(carries(taken, carrier, target as int));
    assert(is_held_by(taken, target as int, carrier));
    lemma_release_pass_keeps_the_new_carry(held, taken, entities.len(), carrier, target as int);
    let after = carry_stepped(entities, overlaps);
    assert forall|other: int|
        0 <= other < entities.len() && other != target && (#[trigger] after[other]).carried
            is Some implies entities[other].carried is Some by {
        lemma_release_pass_only_lets_go(held, taken, entities.len(), other);
    }
    lemma_release_pass_only_lets_go(held, taken, entities.len(), carrier);
}

/// A grab with full hands lets go for good. Where a carrier that holds
/// `target`, and is named back by it, is the only one to grab, then after the
/// whole carry step its hands are empty and `target` has no carried record;
/// no entity has gained a carried record; and one end is told and nothing
/// else.
pub proof fn lemma_step_lets_go(
    entities: Seq<Entity>,
    overlaps: Seq<Seq<usize>>,
    carrier: int,
    target: usize,
)
    requires
        grabs(held_in(entities), entities, carrier),
        grabs_alone(entities, carrier),
        entities[carrier].carrier->0.carrying == Some(target),
        is_held_by(entities, target as int, carrier),
    ensures
        carry_stepped(entities, overlaps).len() == entities.len(),
        carry_stepped(entities, overlaps)[carrier].carrier is Some,
        carry_stepped(entities, overlaps)[carrier].carrier->0.carrying is None,
        carry_stepped(entities, overlaps)[target as int].carried is None,
        forall|other: int|
            0 <= other < entities.len() && (#[trigger] carry_stepped(
                entities,
                overlaps,
            )[other]).carried is Some ==> entities[other].carried is Some,
        grab_notices(entities, overlaps, entities.len()) == seq![
            CarryNotice::Ended(EndCarryEvent { picked_up: target, carrier: carrier as usize }),
        ],
{
    let held = held_in(entities);
    let reach = reach_of(overlaps, carrier);
    lemma_lone_grab_pass(entities, overlaps, carrier, entities.len());
    let freed = grabbed(held, entities, carrier, reach);
    assert(freed == grab_pass(entities, overlaps, entities.len()));
    let after = carry_stepped(entities, overlaps);
    assert forall|other: int|
        0 <= other < entities.len() && (#[trigger] after[other]).carried is Some implies entities[other].carried
        is Some by {
        lemma_release_pass_only_lets_go(held, freed, entities.len(), other);
    }
    lemma_release_pass_only_lets_go(held, freed, entities.len(), carrier);
    lemma_release_pass_only_lets_go(held, freed, entities.len(), target as int);
}

/// Pickup, then grab again. A carrier with empty hands that is the only one
/// to grab, with an entity in reach that it can pick up, holds that entity
/// after the carry step. If it is asked to grab again in the next step, and
/// is again the only one to grab, then after that step its hands are empty
/// and the entity has no carried record, whatever is in reach and whoever
/// asks to jump; the first step tells one start, the second one end.
pub proof fn lemma_step_grab_again_lets_go(
    entities: Seq<Entity>,
    first: Seq<Seq<usize>>,
    second: Seq<Seq<usize>>,
    carrier: int,
    target: usize,
)
    requires
        grabs(held_in(entities), entities, carrier),
        grabs_alone(entities, carrier),
        entities[carrier].carrier->0.carrying is None,
        first_target(held_in(entities), entities, carrier, reach_of(first, carrier)) == Some(
            target,
        ),
        grabs_alone(carry_stepped(entities, first), carrier),
    ensures
        ({
            let held = carry_stepped(entities, first);
            let freed = carry_stepped(held, second);
            &&& carries(held, carrier, target as int)
            &&& is_held_by(held, target as int, carrier)
            &&& grab_notices(entities, first, entities.len()) == seq![
                CarryNotice::Started(
                    StartCarryEvent { picked_up: target, carrier: carrier as usize },
                ),
            ]
            &&& freed[carrier].carrier->0.carrying is None
            &&& freed[target as int].carried is None
            &&& grab_notices(held, second, held.len()) == seq![
                CarryNotice::Ended(EndCarryEvent { picked_up: target, carrier: carrier as usize }),
            ]
        }),
{
    lemma_step_picks_up(entities, first, carrier, target);
    let held = carry_stepped(entities, first);
    let taken = grab_pass(entities, first, entities.len());
    lemma_lone_grab_pass(entities, first, carrier, entities.len());
    lemma_first_target(
        held_in(entities),
        entities,
        carrier,
        reach_of(first, carrier),
        0,
    );
    lemma_release_pass_only_lets_go(held_in(entities), taken, entities.len(), carrier);
    assert(grabs(held_in(held), held, carrier));
    lemma_step_lets_go(held, second, carrier, target);
}

/// After the carried have been placed, the two sides of every carry agree,
/// however the scene was found: what did not agree has been dropped.
pub proof fn lemma_sync_makes_links_agree(entities: Seq<Entity>)
    ensures
        links_agree(synced(entities)),
        synced(entities).len() == entities.len(),
{
    let after = synced(entities);
    assert forall|c: int, t: int|
        #![trigger carries(after, c, t)]
        #![trigger is_held_by(after, t, c)]
        carries(after, c, t) <==> is_held_by(after, t, c) by {
        if carries(after, c, t) {
            assert(carries(entities, c, t));
            assert(is_held_by(entities, t, c));
        }
        if is_held_by(after, t, c) {
            assert(is_held_by(entities, t, c));
            assert(carries(entities, c, t));
        }
    }
}

/// A carry that is recorded on both sides comes through the placing as it
/// is, and the carried entity stands at its carrier's place plus the
/// carrier's offset. A link that is recorded on one side only is gone: the
/// carrier whose target has no carried record, or is out of the scene, has
/// empty hands, and the entity whose carrier does not hold it is in nobody's
/// hands; neither is moved on that account.
pub proof fn lemma_sync_keeps_what_agrees(entities: Seq<Entity>, carrier: int, target: int)
    ensures
        carries(entities, carrier, target) && is_held_by(entities, target, carrier) ==> {
            &&& carries(synced(entities), carrier, target)
            &&& is_held_by(synced(entities), target, carrier)
            &&& synced(entities)[target].translation == entities[carrier].translation.plus_spec(
                entities[carrier].carrier->0.carry_offset,
            )
        },
        carries(entities, carrier, target) && !is_held_by(entities, target, carrier) ==> {
            &&& synced(entities)[carrier].carrier->0.carrying is None
            &&& (0 <= target < entities.len() && entities[target].carried is None) ==> synced(
                entities,
            )[target].translation == entities[target].translation
        },
        is_held_by(entities, target, carrier) && !carries(entities, carrier, target) ==> {
            &&& synced(entities)[target].carried is None
            &&& synced(entities)[target].translation == entities[target].translation
        },
{
}

/// Grab, then grab again. A carrier with empty hands that grabs with one
/// entity in reach that it can pick up holds that entity, and each names the
/// other; when it grabs once more in the next pass, whatever is in reach, its
/// hands are empty and the entity has no carried record left. The scene is
/// then as it was.
pub proof fn lemma_grab_again_lets_go(
    entities: Seq<Entity>,
    carrier: int,
    target: usize,
    reach: Seq<usize>,
)
    requires
        links_agree(entities),
        grabs(held_in(entities), entities, carrier),
        entities[carrier].carrier->0.carrying is None,
        can_pick_up(held_in(entities), entities, carrier, target),
    ensures
        ({
            let held = grabbed(held_in(entities), entities, carrier, seq![target]);
            let freed = grabbed(held_in(held), held, carrier, reach);
            &&& held[carrier].carrier->0.carrying == Some(target)
            &&& held[target as int].carried == Some(Carried { held_by: carrier as usize })
            &&& grab_notice(held_in(held), held, carrier, reach) == Some(
                CarryNotice::Ended(EndCarryEvent { picked_up: target, carrier: carrier as usize }),
            )
            &&& freed[carrier].carrier->0.carrying is None
            &&& freed[target as int].carried is None
            &&& freed == entities
        }),
{
    let held = grabbed(held_in(entities), entities, carrier, seq![target]);
    let freed = grabbed(held_in(held), held, carrier, reach);
    reveal_with_fuel(first_target_from, 2);
    assert(first_target(held_in(entities), entities, carrier, seq![target]) == Some(target));
    assert(grabs(held_in(held), held, carrier));
    assert(is_held_by(held, target as int, carrier));
    assert(freed =~= entities);
}

impl Scene {
    /// Says of each entity, by its place, whether it is in another's hands.
    pub fn held(&self) -> (held: Vec<bool>)
        ensures
            held@ == held_in(self@),
    {
        let mut held: Vec<bool> = Vec::new();
        let mut i: usize = 0;
        while i < self.entities.len()
            invariant
                i <= self.entities.len(),
                held.len() == i,
                forall|k: int| 0 <= k < i ==> held[k] == (self@[k].carried is Some),
            decreases self.entities.len() - i,
        {
            held.push(self.entities[i].carried.is_some());
            i = i + 1;
        }
        assert(held@ =~= held_in(self@));
        held
    }

    fn find_target(&self, held: &Vec<bool>, carrier: usize, overlaps: &Vec<usize>) -> (found:
        Option<usize>)
        ensures
            found == first_target(held@, self@, carrier as int, overlaps@),
            found matches Some(target) ==> can_pick_up(held@, self@, carrier as int, target),
    {
        let mut i: usize = 0;
        while i < overlaps.len()
            invariant
                i <= overlaps.len(),
                first_target(held@, self@, carrier as int, overlaps@) == first_target_from(
                    held@,
                    self@,
                    carrier as int,
                    overlaps@,
                    i as int,
                ),
            decreases overlaps.len() - i,
        {
            let target = overlaps[i];
            if target != carrier && target < self.entities.len() {
                let entity = self.entities[target];
                let taken = target < held.len() && held[target];
                if entity.carryable.is_some() && !taken && entity.carried.is_none() {
                    return Some(target);
                }
            }
            i = i + 1;
        }
        None
    }

    /// The grab of the entity at `carrier`, with `overlaps` the entities
    /// found within its reach, in the order in which they were found, and
    /// `held` saying of each entity whether it was in another's hands when
    /// the pass of grabs began.
    pub fn grab(&mut self, held: &Vec<bool>, carrier: usize, overlaps: &Vec<usize>) -> (notice:
        Option<CarryNotice>)
        ensures
            final(self)@ == grabbed(held@, old(self)@, carrier as int, overlaps@),
            notice == grab_notice(held@, old(self)@, carrier as int, overlaps@),
            final(self)@.len() == old(self)@.len(),
            links_agree(old(self)@) ==> links_agree(final(self)@),
    {
        proof {
            if links_agree(self@) {
                lemma_grab_keeps_links(held@, self@, carrier as int, overlaps@);
            }
        }
        if carrier >= self.entities.len() {
            return None;
        }
        let own = self.entities[carrier];
        let hands = match own.carrier {
            Some(hands) => hands,
            None => {
                return None;
            },
        };
        let asked = match own.inputs {
            Some(inputs) => inputs.grab_input,
            None => false,
        };
        let taken = carrier < held.len() && held[carrier];
        if taken || !asked {
            return None;
        }
        match hands.carrying {
            Some(target) => {
                let mut emptied = own;
                emptied.carrier = Some(
                    Carrier { carrying: None, carry_offset: hands.carry_offset },
                );
                self.entities.set(carrier, emptied);
                if target < self.entities.len() {
                    let mut other = self.entities[target];
                    let named = match other.carried {
                        Some(held) => held.held_by == carrier,
                        None => false,
                    };
                    if named {
                        other.carried = None;
                        self.entities.set(target, other);
                    }
                }
                Some(CarryNotice::Ended(EndCarryEvent { picked_up: target, carrier }))
            },
            None => {
                match self.find_target(held, carrier, overlaps) {
                    Some(target) => {
                        let mut other = self.entities[target];
                        other.carried = Some(Carried { held_by: carrier });
                        let mut filled = own;
                        filled.carrier = Some(
                            Carrier { carrying: Some(target), carry_offset: hands.carry_offset },
                        );
                        self.entities.set(carrier, filled);
                        self.entities.set(target, other);
                        Some(CarryNotice::Started(StartCarryEvent { picked_up: target, carrier }))
                    },
                    None => None,
                }
            },
        }
    }

    /// Gives the entity at `target` its chance to jump out of a carry, with
    /// `held` saying of each entity whether it was in another's hands when
    /// the carry step began.
    pub fn jump_release(&mut self, held: &Vec<bool>, target: usize)
        ensures
            final(self)@ == released(held@, old(self)@, target as int),
            final(self)@.len() == old(self)@.len(),
            links_agree(old(self)@) ==> links_agree(final(self)@),
    {
        proof {
            if links_agree(self@) {
                lemma_release_keeps_links(held@, self@, target as int);
            }
        }
        if target >= self.entities.len() || target >= held.len() || !held[target] {
            return ;
        }
        let mut own = self.entities[target];
        let actor = match own.actor {
            Some(actor) => actor,
            None => {
                return ;
            },
        };
        let asked = match own.inputs {
            Some(inputs) => inputs.jump_input,
            None => false,
        };
        if !asked {
            return ;
        }
        let hold = own.carried;
        own.carried = None;
        match own.status {
            Some(status) => {
                let mut risen = status;
                risen.velocity.y = actor.jump_speed;
                if status.grounded {
                    risen.event = Some(ActorEvent::Launched);
                }
                own.status = Some(risen);
            },
            None => {},
        }
        self.entities.set(target, own);
        match hold {
            Some(hold) => {
                let carrier = hold.held_by;
                if carrier < self.entities.len() {
                    let mut other = self.entities[carrier];
                    match other.carrier {
                        Some(hands) => {
                            let named = match hands.carrying {
                                Some(named) => named == target,
                                None => false,
                            };
                            if named {
                                other.carrier = Some(
                                    Carrier { carrying: None, carry_offset: hands.carry_offset },
                                );
                                self.entities.set(carrier, other);
                            }
                        },
                        None => {},
                    }
                }
            },
            None => {},
        }
    }
}

/// The carry step of a tick. `overlaps` holds, for each entity by its place,
/// the entities found within its reach, in the order in which they were
/// found; an entity for which it holds no list reaches nothing. First every
/// carrier has its grab; then every actor that was carried when the step
/// began has its chance to jump free. An entity picked up in the step is
/// still carried when the step is over.
pub fn actor_carry_startstop(scene: &mut Scene, overlaps: &Vec<Vec<usize>>) -> (notices: Vec<
    CarryNotice,
>)
    ensures
        final(scene)@ == carry_stepped(old(scene)@, overlaps.deep_view()),
        notices@ == grab_notices(old(scene)@, overlaps.deep_view(), old(scene)@.len()),
        final(scene)@.len() == old(scene)@.len(),
        links_agree(old(scene)@) ==> links_agree(final(scene)@),
{
    let ghost before = scene@;
    let ghost reach = overlaps.deep_view();
    let count = scene.entities.len();
    let held = scene.held();
    let none: Vec<usize> = Vec::new();
    let mut notices: Vec<CarryNotice> = Vec::new();
    let mut carrier: usize = 0;
    while carrier < count
        invariant
            carrier <= count,
            count == before.len(),
            scene@.len() == count,
            held@ == held_in(before),
            reach == overlaps.deep_view(),
            none@ == Seq::<usize>::empty(),
            scene@ == grab_pass(before, reach, carrier as nat),
            notices@ == grab_notices(before, reach, carrier as nat),
            links_agree(before) ==> links_agree(scene@),
        decreases count - carrier,
    {
        let notice = if carrier < overlaps.len() {
            assert(overlaps[carrier as int]@ == reach_of(reach, carrier as int));
            scene.grab(&held, carrier, &overlaps[carrier])
        } else {
            scene.grab(&held, carrier, &none)
        };
        match notice {
            Some(told) => {
                notices.push(told);
            },
            None => {},
        }
        carrier = carrier + 1;
    }
    let ghost grabbed_all = scene@;
    let mut target: usize = 0;
    while target < count
        invariant
            target <= count,
            scene@.len() == count,
            grabbed_all.len() == count,
            held@ == held_in(before),
            scene@ == release_pass(held@, grabbed_all, target as nat),
            links_agree(before) ==> links_agree(scene@),
        decreases count - target,
    {
        scene.jump_release(&held, target);
        target = target + 1;
    }
    notices
}

/// Moves every carried entity to where it is held, its carrier's place plus
/// the carrier's offset, and drops every stale link: a record of a carry
/// that the other side does not bear out. It is to be run in every tick,
/// once the movement of the carriers has been applied. After it the two
/// sides of every carry agree.
pub fn actor_carry(scene: &mut Scene)
    ensures
        final(scene)@ == synced(old(scene)@),
        links_agree(final(scene)@),
{
    let ghost before = scene@;
    proof {
        lemma_sync_makes_links_agree(before);
    }
    let count = scene.entities.len();
    let mut placed: Vec<Entity> = Vec::new();
    let mut i: usize = 0;
    while i < count
        invariant
            i <= count,
            count == before.len(),
            scene@ == before,
            placed.len() == i,
            forall|k: int| 0 <= k < i ==> placed[k] == settled(before, k),
        decreases count - i,
    {
        let mut own = scene.entities[i];
        match own.carried {
            Some(held) => {
                let mut to: Option<Vec3> = None;
                if held.held_by < count {
                    let carrier = scene.entities[held.held_by];
                    match carrier.carrier {
                        Some(hands) => {
                            let named = match hands.carrying {
                                Some(named) => named == i,
                                None => false,
                            };
                            if named {
                                to = Some(carrier.translation.plus(hands.carry_offset));
                            }
                        },
                        None => {},
                    }
                }
                match to {
                    Some(place) => {
                        own.translation = place;
                    },
                    None => {
                        own.carried = None;
                    },
                }
            },
            None => {},
        }
        match own.carrier {
            Some(hands) => {
                match hands.carrying {
                    Some(target) => {
                        let mut named = false;
                        if target < count {
                            named = match scene.entities[target].carried {
                                Some(held) => held.held_by == i,
                                None => false,
                            };
                        }
                        if !named {
                            own.carrier = Some(
                                Carrier { carrying: None, carry_offset: hands.carry_offset },
                            );
                        }
                    },
                    None => {},
                }
            },
            None => {},
        }
        placed.push(own);
        i = i + 1;
    }
    assert(placed@ =~= synced(before));
    scene.entities = placed;
}

} // verus!
