//! Players: actors that take their inputs from a person, can leave a level
//! through a door, and die of what must not be touched.

use crate::actions::Actions;
use crate::actor::{
    state_can_jump, Actor, ActorAnimationStates, ActorEvent, ActorInputs, ActorStatus, Carrier,
    Carryable,
};
use crate::door::{Door, LAST_DOOR};
use crate::fields::{is_named, to_count, FieldInstance, FieldValue};
use crate::fixed::{Vec2, Vec3};
use crate::pickup::PickupCollector;
use crate::sprite_anim::SpriteAnimator;
use crate::squash::Squashy;
use crate::world::{ChangeLevelEvent, Labeled, ReloadWorldEvent};
use vstd::prelude::*;

verus! {

/// Half the height of the capsule with which a player feels for doors and
/// dangers, without its caps, in thousandths of a pixel.
pub const TOUCH_HALF_HEIGHT: i64 = 5500;

/// The radius of the capsule with which a player feels for doors and
/// dangers.
pub const TOUCH_RADIUS: i64 = 3500;

/// How many players can take part.
pub const PLAYERS: usize = 2;

/// The record of a player: which of the players it is.
#[derive(Clone, Copy, Debug, PartialEq, Eq)]
pub struct Player {
    pub index: usize,
}

/// Marks an entity whose touch kills a player.
#[derive(Clone, Copy, Debug, PartialEq, Eq)]
pub struct TouchDeath {
}

/// Hands a player its inputs for the tick, and gives or takes its leave to
/// jump as its state allows.
pub fn player_inputs(
    actions: &Actions,
    player: &Player,
    actor: &mut Actor,
    inputs: &mut ActorInputs,
    status: &ActorStatus,
)
    requires
        player.index < PLAYERS,
    ensures
        *final(inputs) == (ActorInputs {
            move_input: actions.player_movement[player.index as int].x,
            jump_input: actions.jump[player.index as int],
            grab_input: actions.action[player.index as int],
        }),
        *final(actor) == (Actor { can_jump: state_can_jump(*old(actor), *status), ..*old(actor) }),
{
    inputs.jump_input = actions.jump[player.index];
    inputs.grab_input = actions.action[player.index];
    inputs.move_input = actions.player_movement[player.index].x;
    actor.can_jump = status.grounded || status.air_timer < actor.jump_time;
}

/// The place in `doors`, from `from` on, of the first door that is open.
pub open spec fn first_open_door(doors: Seq<Option<Door>>, from: int) -> Option<int>
    decreases doors.len() - from,
{
    if from < 0 || from >= doors.len() {
        None
    } else if doors[from] matches Some(door) && door.is_open() {
        Some(from)
    } else {
        first_open_door(doors, from + 1)
    }
}

/// What going through `door` asks for: its level, or the end of the game
/// if it is the last door.
pub open spec fn way_through(door: Door) -> ChangeLevelEvent {
    ChangeLevelEvent {
        index: door.next_level,
        completed: true,
        win_game: door.next_level == LAST_DOOR,
    }
}

/// Lets a player leave through a door it touches. `doors` holds, for each
/// entity that the player touches, in the order in which they were found,
/// its door record if it has one. The first open door is gone through: it is
/// used up, the player's event becomes the win, and the way through is
/// returned. With no open door in touch nothing changes.
pub fn player_win(status: &mut ActorStatus, doors: &mut Vec<Option<Door>>) -> (change: Option<
    ChangeLevelEvent,
>)
    ensures
        match first_open_door(old(doors)@, 0) {
            Some(at) => {
                &&& 0 <= at < old(doors)@.len()
                &&& old(doors)@[at] is Some
                &&& change == Some(way_through(old(doors)@[at]->0))
                &&& final(doors)@ == old(doors)@.update(at, Some(old(doors)@[at]->0.used()))
                &&& *final(status) == (ActorStatus {
                    event: Some(ActorEvent::Win),
                    ..*old(status)
                })
            },
            None => {
                &&& change is None
                &&& final(doors)@ == old(doors)@
                &&& *final(status) == *old(status)
            },
        },
{
    let mut i: usize = 0;
    while i < doors.len()
        invariant
            i <= doors.len(),
            doors@ == old(doors)@,
            *status == *old(status),
            first_open_door(doors@, 0) == first_open_door(doors@, i as int),
        decreases doors.len() - i,
    {
        match doors[i] {
            Some(door) => {
                if door.required_souls == 0 {
                    let change = ChangeLevelEvent {
                        index: door.next_level,
                        completed: true,
                        win_game: door.next_level == LAST_DOOR,
                    };
                    status.event = Some(ActorEvent::Win);
                    doors.set(
                        i,
                        Some(Door { next_level: door.next_level, required_souls: usize::MAX }),
                    );
                    return Some(change);
                }
            },
            None => {},
        }
        i = i + 1;
    }
    None
}

/// Whether one of `touched` is deadly.
pub open spec fn touches_death(touched: Seq<Option<TouchDeath>>) -> bool {
    exists|i: int| 0 <= i < touched.len() && (#[trigger] touched[i]) is Some
}

/// Lets a player die of what it touches. `touched` holds, for each entity
/// that the player touches, its deadly mark if it has one. If one is deadly
/// the player's event becomes its death and the level is to be started
/// again.
pub fn player_death(status: &mut ActorStatus, touched: &Vec<Option<TouchDeath>>) -> (reload: Option<
    ReloadWorldEvent,
>)
    ensures
        reload is Some <==> touches_death(touched@),
        *final(status) == if touches_death(touched@) {
            ActorStatus { event: Some(ActorEvent::Died), ..*old(status) }
        } else {
            *old(status)
        },
{
    let mut i: usize = 0;
    while i < touched.len()
        invariant
            i <= touched.len(),
            *status == *old(status),
            forall|k: int| 0 <= k < i ==> (#[trigger] touched[k]) is None,
        decreases touched.len() - i,
    {
        if touched[i].is_some() {
            assert(touched@[i as int] is Some);
            status.event = Some(ActorEvent::Died);
            return Some(ReloadWorldEvent {  });
        }
        i = i + 1;
    }
    None
}

/// All that a player is made of when it comes into a level, as far as the
/// simulation goes; the sprite sheet is named by its path.
#[derive(Clone, Debug, PartialEq, Eq)]
pub struct PlayerBundle {
    pub sprite_path: String,
    pub sprite_animator: SpriteAnimator,
    pub player: Player,
    pub label: Labeled,
    pub actor: Actor,
    pub actor_inputs: ActorInputs,
    pub actor_status: ActorStatus,
    pub actor_anim: ActorAnimationStates,
    pub pickup_collector: PickupCollector,
    pub squashy: Squashy,
    pub carrier: Carrier,
    pub carryable: Carryable,
}

/// A time in microseconds, from thousandths of a second. A time below zero
/// counts as none, and one beyond the range as the end of the range.
pub open spec fn micros_of(thousandths: i64) -> u64 {
    if thousandths <= 0 {
        0
    } else if thousandths * 1000 > u64::MAX {
        u64::MAX
    } else {
        (thousandths * 1000) as u64
    }
}

/// Whether a player has a field of this name.
pub open spec fn is_player_field(identifier: Seq<char>) -> bool {
    ||| identifier == "Speed"@
    ||| identifier == "Drag"@
    ||| identifier == "Acceleration"@
    ||| identifier == "Decceleration"@
    ||| identifier == "UpGravity"@
    ||| identifier == "DownGravity"@
    ||| identifier == "JumpPower"@
    ||| identifier == "JumpTime"@
    ||| identifier == "Index"@
    ||| identifier == "SpritePath"@
}

/// The tuning after a field has been read. A field that names a part of the
/// tuning and holds a number with a fraction sets that part.
pub open spec fn actor_with_field(actor: Actor, field: FieldInstance) -> Actor {
    match field.value.fraction() {
        Some(value) => if field.identifier@ == "Speed"@ {
            Actor { move_speed: value, ..actor }
        } else if field.identifier@ == "Drag"@ {
            Actor { drag: value, ..actor }
        } else if field.identifier@ == "Acceleration"@ {
            Actor { accel: value, ..actor }
        } else if field.identifier@ == "Decceleration"@ {
            Actor { deccel: value, ..actor }
        } else if field.identifier@ == "UpGravity"@ {
            Actor { up_gravity: value, ..actor }
        } else if field.identifier@ == "DownGravity"@ {
            Actor { down_gravity: value, ..actor }
        } else if field.identifier@ == "JumpPower"@ {
            Actor { jump_speed: value, ..actor }
        } else if field.identifier@ == "JumpTime"@ {
            Actor { jump_time: micros_of(value), ..actor }
        } else {
            actor
        },
        None => actor,
    }
}

/// The player's number after a field has been read.
pub open spec fn index_with_field(index: usize, field: FieldInstance) -> usize {
    match field.value.whole() {
        Some(value) => if field.identifier@ == "Index"@ {
            value as usize
        } else {
            index
        },
        None => index,
    }
}

/// The path of the sprite sheet after a field has been read.
pub open spec fn path_with_field(path: Seq<char>, field: FieldInstance) -> Seq<char> {
    match field.value.text() {
        Some(value) => if field.identifier@ == "SpritePath"@ {
            value
        } else {
            path
        },
        None => path,
    }
}

/// The tuning after the first `count` of `fields`, starting from the stock
/// tuning.
pub open spec fn actor_after(fields: Seq<FieldInstance>, count: nat) -> Actor
    decreases count,
{
    if count == 0 || count > fields.len() {
        Actor::default_spec()
    } else {
        actor_with_field(actor_after(fields, (count - 1) as nat), fields[count - 1])
    }
}

/// The player's number after the first `count` of `fields`; it is the
/// second player's unless a field says otherwise.
pub open spec fn index_after(fields: Seq<FieldInstance>, count: nat) -> usize
    decreases count,
{
    if count == 0 || count > fields.len() {
        1
    } else {
        index_with_field(index_after(fields, (count - 1) as nat), fields[count - 1])
    }
}

/// The path of the sprite sheet after the first `count` of `fields`.
pub open spec fn path_after(fields: Seq<FieldInstance>, count: nat) -> Seq<char>
    decreases count,
{
    if count == 0 || count > fields.len() {
        "sprites/baby_jake.png"@
    } else {
        path_with_field(path_after(fields, (count - 1) as nat), fields[count - 1])
    }
}

/// The names among the first `count` of `fields` that are no names of a
/// player's fields, in their order.
pub open spec fn unknown_player_fields(fields: Seq<FieldInstance>, count: nat) -> Seq<Seq<char>>
    decreases count,
{
    if count == 0 || count > fields.len() {
        Seq::empty()
    } else {
        let before = unknown_player_fields(fields, (count - 1) as nat);
        if is_player_field(fields[count - 1].identifier@) {
            before
        } else {
            before.push(fields[count - 1].identifier@)
        }
    }
}

/// The squash and stretch of a player's sprite.
pub open spec fn player_squashy() -> Squashy {
    Squashy {
        base_scale: Vec2 { x: 24_000, y: 24_000 },
        restore_time: 150_000,
        squash_scale: Vec2 { x: 1_200, y: 800 },
        squash_time: 50_000,
        stretch_scale: Vec2 { x: 800, y: 1_100 },
        stretch_time: 50_000,
        state: None,
        state_time: 0,
        from_pos: Vec2 { x: 1_000, y: 1_000 },
    }
}

/// The rows of a player's sprite sheet.
pub open spec fn player_rows() -> ActorAnimationStates {
    ActorAnimationStates {
        idle_row: 0,
        run_row: 1,
        jump_row: 2,
        fall_row: 3,
        idle_carry_row: 4,
        run_carry_row: 5,
        push_row: 6,
        yell_row: 7,
    }
}

proof fn lemma_player_fields_differ()
    ensures
        "Speed"@ != "Index"@,
        "Drag"@ != "Index"@,
        "Acceleration"@ != "Index"@,
        "Decceleration"@ != "Index"@,
        "UpGravity"@ != "Index"@,
        "DownGravity"@ != "Index"@,
        "JumpPower"@ != "Index"@,
        "JumpTime"@ != "Index"@,
        "Speed"@ != "SpritePath"@,
        "Drag"@ != "SpritePath"@,
        "Acceleration"@ != "SpritePath"@,
        "Decceleration"@ != "SpritePath"@,
        "UpGravity"@ != "SpritePath"@,
        "DownGravity"@ != "SpritePath"@,
        "JumpPower"@ != "SpritePath"@,
        "JumpTime"@ != "SpritePath"@,
        "Index"@ != "SpritePath"@,
{
    reveal_strlit("Speed");
    reveal_strlit("Drag");
    reveal_strlit("Acceleration");
    reveal_strlit("Decceleration");
    reveal_strlit("UpGravity");
    reveal_strlit("DownGravity");
    reveal_strlit("JumpPower");
    reveal_strlit("JumpTime");
    reveal_strlit("Index");
    reveal_strlit("SpritePath");
    assert("Speed"@[0] != "Index"@[0]);
    assert("Speed"@.len() != "SpritePath"@.len());
    assert("Drag"@.len() != "Index"@.len());
    assert("Drag"@.len() != "SpritePath"@.len());
    assert("Acceleration"@.len() != "Index"@.len());
    assert("Acceleration"@.len() != "SpritePath"@.len());
    assert("Decceleration"@.len() != "Index"@.len());
    assert("Decceleration"@.len() != "SpritePath"@.len());
    assert("UpGravity"@.len() != "Index"@.len());
    assert("UpGravity"@.len() != "SpritePath"@.len());
    assert("DownGravity"@.len() != "Index"@.len());
    assert("DownGravity"@.len() != "SpritePath"@.len());
    assert("JumpPower"@.len() != "Index"@.len());
    assert("JumpPower"@.len() != "SpritePath"@.len());
    assert("JumpTime"@.len() != "Index"@.len());
    assert("JumpTime"@.len() != "SpritePath"@.len());
    assert("Index"@.len() != "SpritePath"@.len());
}

fn to_micros(thousandths: i64) -> (micros: u64)
    ensures
        micros == micros_of(thousandths),
{
    if thousandths <= 0 {
        0
    } else {
        let wide: u128 = (thousandths as u128) * 1000;
        if wide > u64::MAX as u128 {
            u64::MAX
        } else {
            wide as u64
        }
    }
}

impl PlayerBundle {
    /// Makes a player from the fields that the level's author has set on it.
    /// Each field that names a part of the player and holds a value of the
    /// right kind sets that part; all else is as for every player. The
    /// second result lists the names that are no names of a player's fields.
    pub fn bundle_entity(fields: &Vec<FieldInstance>) -> (made: (PlayerBundle, Vec<String>))
        ensures
            made.0.actor == actor_after(fields@, fields@.len()),
            made.0.player.index == index_after(fields@, fields@.len()),
            made.0.sprite_path@ == path_after(fields@, fields@.len()),
            made.1.deep_view() == unknown_player_fields(fields@, fields@.len()),
            made.0.label.name@ == "player"@,
            made.0.sprite_animator == (SpriteAnimator {
                start_frame: 0,
                end_frame: 3,
                row_length: 4,
                seconds_per_frame: 200_000,
                frame_timer: 0,
                should_loop: true,
                playing: true,
                restart_anim: false,
                progress_override: None,
            }),
            made.0.actor_inputs == (ActorInputs {
                move_input: 0,
                jump_input: false,
                grab_input: false,
            }),
            made.0.actor_status == ActorStatus::spawned_spec(),
            made.0.actor_anim == player_rows(),
            made.0.squashy == player_squashy(),
            made.0.carrier == (Carrier {
                carrying: None,
                carry_offset: Vec3 { x: 0, y: 16_000, z: 0 },
            }),
    {
        let mut index: usize = 1;
        let mut sprite_path: String = "sprites/baby_jake.png".to_owned();
        let mut actor = Actor::default();
        let mut unknown: Vec<String> = Vec::new();
        let mut i: usize = 0;
        while i < fields.len()
            invariant
                i <= fields.len(),
                actor == actor_after(fields@, i as nat),
                index == index_after(fields@, i as nat),
                sprite_path@ == path_after(fields@, i as nat),
                unknown.deep_view() == unknown_player_fields(fields@, i as nat),
            decreases fields.len() - i,
        {
            let field = &fields[i];
            let ghost told = unknown.deep_view();
            proof {
                lemma_player_fields_differ();
            }
            if is_named(&field.identifier, "Speed") {
                if let FieldValue::Float(Some(value)) = field.value {
                    actor.move_speed = value;
                }
            } else if is_named(&field.identifier, "Drag") {
                if let FieldValue::Float(Some(value)) = field.value {
                    actor.drag = value;
                }
            } else if is_named(&field.identifier, "Acceleration") {
                if let FieldValue::Float(Some(value)) = field.value {
                    actor.accel = value;
                }
            } else if is_named(&field.identifier, "Decceleration") {
                if let FieldValue::Float(Some(value)) = field.value {
                    actor.deccel = value;
                }
            } else if is_named(&field.identifier, "UpGravity") {
                if let FieldValue::Float(Some(value)) = field.value {
                    actor.up_gravity = value;
                }
            } else if is_named(&field.identifier, "DownGravity") {
                if let FieldValue::Float(Some(value)) = field.value {
                    actor.down_gravity = value;
                }
            } else if is_named(&field.identifier, "JumpPower") {
                if let FieldValue::Float(Some(value)) = field.value {
                    actor.jump_speed = value;
                }
            } else if is_named(&field.identifier, "JumpTime") {
                if let FieldValue::Float(Some(value)) = field.value {
                    actor.jump_time = to_micros(value);
                }
            } else if is_named(&field.identifier, "Index") {
                if let FieldValue::Int(Some(value)) = field.value {
                    index = to_count(value);
                }
            } else if is_named(&field.identifier, "SpritePath") {
                if let FieldValue::String(Some(value)) = &field.value {
                    sprite_path = value.clone();
                }
            } else {
                unknown.push(field.identifier.clone());
                assert(unknown.deep_view() =~= told.push(field.identifier@));
            }
            i = i + 1;
        }
        let bundle = PlayerBundle {
            sprite_path,
            sprite_animator: SpriteAnimator::new(0, 3, 4, 200_000, true),
            player: Player { index },
            label: Labeled { name: "player".to_owned() },
            actor,
            actor_inputs: ActorInputs::default(),
            actor_status: ActorStatus::spawned(),
            actor_anim: ActorAnimationStates {
                idle_row: 0,
                run_row: 1,
                jump_row: 2,
                fall_row: 3,
                idle_carry_row: 4,
                run_carry_row: 5,
                push_row: 6,
                yell_row: 7,
            },
            pickup_collector: PickupCollector {  },
            squashy: Squashy {
                base_scale: Vec2 { x: 24_000, y: 24_000 },
                restore_time: 150_000,
                squash_scale: Vec2 { x: 1_200, y: 800 },
                squash_time: 50_000,
                stretch_scale: Vec2 { x: 800, y: 1_100 },
                stretch_time: 50_000,
                state: None,
                state_time: 0,
                from_pos: Vec2 { x: 1_000, y: 1_000 },
            },
            carrier: Carrier { carrying: None, carry_offset: Vec3 { x: 0, y: 16_000, z: 0 } },
            carryable: Carryable {  },
        };
        (bundle, unknown)
    }
}

} // verus!
