//! The entities of a level, held in one list and known by their place in it.

use crate::actor::{Actor, ActorInputs, ActorStatus, Carried, Carrier, Carryable};
use crate::carry::{carries, is_held_by, links_agree};
use crate::fixed::Vec3;
use crate::pickup::PickupCollector;
use crate::squash::Squashy;
use vstd::prelude::*;

verus! {

/// All that a scene holds of one entity. A record that an entity does not
/// have is `None`.
#[derive(Clone, Copy, Debug, PartialEq, Eq)]
pub struct Entity {
    pub translation: Vec3,
    pub actor: Option<Actor>,
    pub inputs: Option<ActorInputs>,
    pub status: Option<ActorStatus>,
    pub carrier: Option<Carrier>,
    pub carried: Option<Carried>,
    pub carryable: Option<Carryable>,
    pub collector: Option<PickupCollector>,
    pub squashy: Option<Squashy>,
}

/// The entities of a level, each known by its place in the list.
pub struct Scene {
    pub entities: Vec<Entity>,
}

impl View for Scene {
    type V = Seq<Entity>;

    open spec fn view(&self) -> Seq<Entity> {
        self.entities@
    }
}

impl Entity {
    /// Whether the entity takes no part in any carry: it is in nobody's
    /// hands, and its own, if it has any, are empty.
    pub open spec fn is_unlinked(self) -> bool {
        &&& self.carried is None
        &&& self.carrier matches Some(hands) ==> hands.carrying is None
    }

    /// An entity at `translation` that has no record yet.
    pub fn at(translation: Vec3) -> (entity: Entity)
        ensures
            entity == (Entity {
                translation,
                actor: None,
                inputs: None,
                status: None,
                carrier: None,
                carried: None,
                carryable: None,
                collector: None,
                squashy: None,
            }),
    {
        Entity {
            translation,
            actor: None,
            inputs: None,
            status: None,
            carrier: None,
            carried: None,
            carryable: None,
            collector: None,
            squashy: None,
        }
    }
}

/// Two lists of entities record the same carries: they are as long as each
/// other and agree, place by place, in both records of a carry.
pub open spec fn same_links(before: Seq<Entity>, after: Seq<Entity>) -> bool {
    &&& before.len() == after.len()
    &&& forall|i: int|
        0 <= i < before.len() ==> (#[trigger] after[i]).carrier == before[i].carrier && after[i].carried
            == before[i].carried
}

/// What changes no record of a carry keeps the two sides of every carry in
/// agreement.
pub proof fn lemma_same_links_agree(before: Seq<Entity>, after: Seq<Entity>)
    requires
        same_links(before, after),
        links_agree(before),
    ensures
        links_agree(after),
{
    assert forall|c: int, t: int|
        #![trigger carries(after, c, t)]
        #![trigger is_held_by(after, t, c)]
        carries(after, c, t) <==> is_held_by(after, t, c) by {
        assert(carries(before, c, t) <==> is_held_by(before, t, c));
        if 0 <= c < after.len() {
            assert(after[c].carrier == before[c].carrier);
        }
        if 0 <= t < after.len() {
            assert(after[t].carried == before[t].carried);
        }
    }
}

impl Scene {
    /// An empty scene.
    pub fn new() -> (scene: Scene)
        ensures
            scene@ == Seq::<Entity>::empty(),
            links_agree(scene@),
    {
        let scene = Scene { entities: Vec::new() };
        assert(links_agree(scene@));
        scene
    }

    /// Adds an entity and says at which place it now stands. An entity that
    /// takes no part in a carry leaves the carries of the scene in agreement.
    pub fn spawn(&mut self, entity: Entity) -> (place: usize)
        ensures
            final(self)@ == old(self)@.push(entity),
            place == old(self)@.len(),
            links_agree(old(self)@) && entity.is_unlinked() ==> links_agree(final(self)@),
    {
        let place = self.entities.len();
        self.entities.push(entity);
        proof {
            let before = old(self)@;
            let after = self@;
            if links_agree(before) && entity.is_unlinked() {
                assert forall|c: int, t: int|
                    #![trigger carries(after, c, t)]
                    #![trigger is_held_by(after, t, c)]
                    carries(after, c, t) <==> is_held_by(after, t, c) by {
                    assert(carries(before, c, t) <==> is_held_by(before, t, c));
                    if 0 <= c < before.len() {
                        assert(after[c] == before[c]);
                    }
                    if 0 <= t < before.len() {
                        assert(after[t] == before[t]);
                    }
                }
            }
        }
        place
    }
}

} // verus!
