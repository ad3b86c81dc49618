//! Doors: the ways out of a level.

use crate::fields::{in_figures, is_named, to_count, write_number, FieldInstance, FieldValue};
use crate::sprite_anim::SpriteAnimator;
use crate::world::Labeled;
use vstd::prelude::*;

verus! {

/// The `next_level` of the door that ends the game.
pub const LAST_DOOR: usize = 32767;

/// A door to the level `next_level`, open once `required_souls` is zero.
#[derive(Clone, Copy, Debug, PartialEq, Eq)]
pub struct Door {
    pub next_level: usize,
    pub required_souls: usize,
}

impl Door {
    /// Whether the door lets a player through.
    pub open spec fn is_open(self) -> bool {
        self.required_souls == 0
    }

    /// The door once it has been gone through: it will not open again.
    pub open spec fn used(self) -> Door {
        Door { required_souls: usize::MAX, ..self }
    }
}

impl Default for Door {
    fn default() -> (door: Door)
        ensures
            door == (Door { next_level: 0, required_souls: 0 }),
    {
        Door { next_level: 0, required_souls: 0 }
    }
}

/// All that a door is made of when it comes into a level, as far as the
/// simulation goes.
#[derive(Clone, Debug, PartialEq, Eq)]
pub struct DoorBundle {
    pub sprite_animator: SpriteAnimator,
    pub label: Labeled,
    pub door: Door,
}

/// The name of the door to level `next_level`: the words "door to" and the
/// level's number in figures.
pub open spec fn door_label(next_level: usize) -> Seq<char> {
    "door to "@ + in_figures(next_level as nat)
}

/// Whether a door has a field of this name.
pub open spec fn is_door_field(identifier: Seq<char>) -> bool {
    identifier == "NextLevel"@ || identifier == "SoulsNeeded"@
}

/// The door after a field has been read. A field that names a part of the
/// door and holds a whole number sets that part.
pub open spec fn door_with_field(door: Door, field: FieldInstance) -> Door {
    match field.value.whole() {
        Some(value) => if field.identifier@ == "NextLevel"@ {
            Door { next_level: value as usize, ..door }
        } else if field.identifier@ == "SoulsNeeded"@ {
            Door { required_souls: value as usize, ..door }
        } else {
            door
        },
        None => door,
    }
}

/// The door after the first `count` of `fields`, starting from an open door
/// to the first level.
pub open spec fn door_after(fields: Seq<FieldInstance>, count: nat) -> Door
    decreases count,
{
    if count == 0 || count > fields.len() {
        Door { next_level: 0, required_souls: 0 }
    } else {
        door_with_field(door_after(fields, (count - 1) as nat), fields[count - 1])
    }
}

/// The names among the first `count` of `fields` that are no names of a
/// door's fields, in their order.
pub open spec fn unknown_door_fields(fields: Seq<FieldInstance>, count: nat) -> Seq<Seq<char>>
    decreases count,
{
    if count == 0 || count > fields.len() {
        Seq::empty()
    } else {
        let before = unknown_door_fields(fields, (count - 1) as nat);
        if is_door_field(fields[count - 1].identifier@) {
            before
        } else {
            before.push(fields[count - 1].identifier@)
        }
    }
}

impl DoorBundle {
    /// Makes a door from the fields that the level's author has set on it,
    /// and names it after the level it leads to. The second result lists the
    /// names that are no names of a door's fields.
    pub fn bundle_entity(fields: &Vec<FieldInstance>) -> (made: (DoorBundle, Vec<String>))
        ensures
            made.0.door == door_after(fields@, fields@.len()),
            made.0.label.name@ == door_label(door_after(fields@, fields@.len()).next_level),
            made.1.deep_view() == unknown_door_fields(fields@, fields@.len()),
            made.0.sprite_animator == (SpriteAnimator {
                start_frame: 0,
                end_frame: 3,
                row_length: 4,
                seconds_per_frame: 200_000,
                frame_timer: 0,
                should_loop: true,
                playing: true,
                restart_anim: false,
                progress_override: None,
            }),
    {
        let mut door = Door::default();
        let mut unknown: Vec<String> = Vec::new();
        let mut i: usize = 0;
        while i < fields.len()
            invariant
                i <= fields.len(),
                door == door_after(fields@, i as nat),
                unknown.deep_view() == unknown_door_fields(fields@, i as nat),
            decreases fields.len() - i,
        {
            let field = &fields[i];
            let ghost told = unknown.deep_view();
            if is_named(&field.identifier, "NextLevel") {
                if let FieldValue::Int(Some(value)) = field.value {
                    door.next_level = to_count(value);
                }
            } else if is_named(&field.identifier, "SoulsNeeded") {
                if let FieldValue::Int(Some(value)) = field.value {
                    door.required_souls = to_count(value);
                }
            } else {
                unknown.push(field.identifier.clone());
                assert(unknown.deep_view() =~= told.push(field.identifier@));
            }
            i = i + 1;
        }
        let mut name = "door to ".to_owned();
        write_number(&mut name, door.next_level);
        (
            DoorBundle {
                sprite_animator: SpriteAnimator::new(0, 3, 4, 200_000, true),
                label: Labeled { name },
                door,
            },
            unknown,
        )
    }
}

} // verus!
