//! Actors: their tuning, their inputs, and the state that the contact probe
//! and the movement step keep for them from tick to tick.

use crate::fixed::{
    accrued, accrued_spec, difference, difference_spec, product, product_spec, rate, rate_spec,
    sum, sum_spec, within, within_spec, Vec2, Vec3, UNIT,
};
use vstd::prelude::*;

verus! {

/// How far a move input must be from rest to count as a direction, in
/// thousandths of full deflection.
pub const DEAD_ZONE: i64 = 100;

/// Half the height of the capsule that is cast for contacts, without its
/// caps, in thousandths of a pixel.
pub const PROBE_HALF_HEIGHT: i64 = 5500;

/// The radius of the capsule that is cast for contacts.
pub const PROBE_RADIUS: i64 = 2500;

/// How far the capsule is cast down and to either side.
pub const PROBE_DISTANCE: i64 = 1000;

/// The horizontal speed above which an actor is shown running.
pub const RUN_SPEED: i64 = 20_000;

/// The vertical speed below which an airborne actor is shown falling.
pub const FALL_SPEED: i64 = -10_000;

/// The tuning of one kind of actor. Speeds are in thousandths of a pixel per
/// second, accelerations in thousandths of a pixel per second squared, `drag`
/// in thousandths of the speed lost per tick, `jump_time` in microseconds.
#[derive(Clone, Copy, Debug, PartialEq, Eq)]
pub struct Actor {
    pub move_speed: i64,
    pub drag: i64,
    pub accel: i64,
    pub deccel: i64,
    pub up_gravity: i64,
    pub down_gravity: i64,
    pub jump_speed: i64,
    pub jump_time: u64,
    pub can_jump: bool,
}

/// What an actor is asked to do this tick. `move_input` runs from -1000, full
/// left, to 1000, full right.
#[derive(Clone, Copy, Debug, PartialEq, Eq)]
pub struct ActorInputs {
    pub move_input: i64,
    pub jump_input: bool,
    pub grab_input: bool,
}

/// The record of an entity that can carry another. `carrying` is the place
/// of the carried entity among the entities, `carry_offset` where it is held
/// relative to the carrier.
#[derive(Clone, Copy, Debug, PartialEq, Eq)]
pub struct Carrier {
    pub carrying: Option<usize>,
    pub carry_offset: Vec3,
}

/// The record of an entity that is being carried, by the entity at
/// `held_by`.
#[derive(Clone, Copy, Debug, PartialEq, Eq)]
pub struct Carried {
    pub held_by: usize,
}

/// Marks an entity that can be picked up.
#[derive(Clone, Copy, Debug, PartialEq, Eq)]
pub struct Carryable {
}

/// Something that happened to an actor in the course of a tick.
#[derive(Clone, Copy, Debug, PartialEq, Eq, Structural)]
pub enum ActorEvent {
    Launched,
    Landed,
    Hit,
    Died,
    Win,
    Pickup,
    Unlock,
}

/// What is known of an actor after the steps of a tick.
#[derive(Clone, Copy, Debug, PartialEq, Eq)]
pub struct ActorStatus {
    pub grounded: bool,
    pub velocity: Vec2,
    pub facing_left: bool,
    pub air_timer: u64,
    pub left_wall: bool,
    pub right_wall: bool,
    pub event: Option<ActorEvent>,
    pub last_dt: u64,
    pub carried: bool,
    pub carrying: bool,
}

/// The rows of the sprite sheet that show an actor's states.
#[derive(Clone, Copy, Debug, PartialEq, Eq)]
pub struct ActorAnimationStates {
    pub idle_row: usize,
    pub run_row: usize,
    pub jump_row: usize,
    pub fall_row: usize,
    pub idle_carry_row: usize,
    pub run_carry_row: usize,
    pub push_row: usize,
    pub yell_row: usize,
}

/// The sounds an actor can make.
#[derive(Clone, Copy, Debug, PartialEq, Eq, Structural)]
pub enum ActorAudio {
    Jump,
    Land,
    Hit,
    Death,
    Pickup,
    Unlocked,
    Victory,
}

/// Told when an entity is picked up.
#[derive(Clone, Copy, Debug, PartialEq, Eq)]
pub struct StartCarryEvent {
    pub picked_up: usize,
    pub carrier: usize,
}

/// Told when an entity is let go.
#[derive(Clone, Copy, Debug, PartialEq, Eq)]
pub struct EndCarryEvent {
    pub picked_up: usize,
    pub carrier: usize,
}

/// What the three casts of the contact probe found.
#[derive(Clone, Copy, Debug, PartialEq, Eq)]
pub struct Contacts {
    pub ground: bool,
    pub left_wall: bool,
    pub right_wall: bool,
}

impl Actor {
    pub open spec fn default_spec() -> Actor {
        Actor {
            move_speed: 120_000,
            drag: 300,
            accel: 1_000_000,
            deccel: 2_000_000,
            up_gravity: 300_000,
            down_gravity: 500_000,
            jump_speed: 800_000,
            jump_time: 200_000,
            can_jump: true,
        }
    }
}

impl Default for Actor {
    fn default() -> (actor: Actor)
        ensures
            actor == Actor::default_spec(),
    {
        Actor {
            move_speed: 120_000,
            drag: 300,
            accel: 1_000_000,
            deccel: 2_000_000,
            up_gravity: 300_000,
            down_gravity: 500_000,
            jump_speed: 800_000,
            jump_time: 200_000,
            can_jump: true,
        }
    }
}

impl Default for ActorInputs {
    fn default() -> (inputs: ActorInputs)
        ensures
            inputs == (ActorInputs { move_input: 0, jump_input: false, grab_input: false }),
    {
        ActorInputs { move_input: 0, jump_input: false, grab_input: false }
    }
}

impl ActorStatus {
    /// The status of an actor that has just come into the level: at rest in
    /// the air, facing right, its last tick taken to be one second long.
    pub open spec fn spawned_spec() -> ActorStatus {
        ActorStatus {
            grounded: false,
            velocity: Vec2 { x: 0, y: 0 },
            facing_left: false,
            air_timer: 0,
            left_wall: false,
            right_wall: false,
            event: None,
            last_dt: 1_000_000,
            carried: false,
            carrying: false,
        }
    }

    pub fn spawned() -> (status: ActorStatus)
        ensures
            status == ActorStatus::spawned_spec(),
    {
        ActorStatus {
            grounded: false,
            velocity: Vec2 { x: 0, y: 0 },
            facing_left: false,
            air_timer: 0,
            left_wall: false,
            right_wall: false,
            event: None,
            last_dt: 1_000_000,
            carried: false,
            carrying: false,
        }
    }
}

/// A timer `dt` later, stopped at the end of its range.
pub open spec fn timer_after(timer: u64, dt: u64) -> u64 {
    if timer + dt > u64::MAX {
        u64::MAX
    } else {
        (timer + dt) as u64
    }
}

/// The status that the contact probe leaves. The actor is grounded as the
/// downward cast says, and lands when that is news. Its velocity is what it
/// was moved by over the last tick, per second; on the ground the vertical
/// part is zero and the air timer starts again, in the air the timer runs on.
///
/// A status holds one event at most. A landing takes the place of an event
/// that is already set, which is then lost; and an event set after the probe
/// in the same tick takes the place of the landing in turn.
pub open spec fn probed(
    status: ActorStatus,
    contacts: Contacts,
    moved: Vec2,
    dt: u64,
    carrying: bool,
    carried: bool,
) -> ActorStatus {
    ActorStatus {
        grounded: contacts.ground,
        velocity: Vec2 {
            x: rate_spec(moved.x as int, status.last_dt as int) as i64,
            y: if contacts.ground {
                0
            } else {
                rate_spec(moved.y as int, status.last_dt as int) as i64
            },
        },
        facing_left: status.facing_left,
        air_timer: if contacts.ground {
            0
        } else {
            timer_after(status.air_timer, dt)
        },
        left_wall: contacts.left_wall,
        right_wall: contacts.right_wall,
        event: if !status.grounded && contacts.ground {
            Some(ActorEvent::Landed)
        } else {
            status.event
        },
        last_dt: status.last_dt,
        carried,
        carrying,
    }
}

/// The contact probe of one actor, first of the steps of a tick. `contacts`
/// holds what the casts from the actor's place found, `moved` how far the
/// actor was really moved in the last tick, `dt` the length of this tick,
/// `carrying` whether its hands are full and `carried` whether it is in
/// another's hands. A landing replaces whatever event the status held.
pub fn actor_status(
    status: &mut ActorStatus,
    contacts: Contacts,
    moved: Vec2,
    dt: u64,
    carrying: bool,
    carried: bool,
)
    ensures
        *final(status) == probed(*old(status), contacts, moved, dt, carrying, carried),
        final(status).grounded ==> final(status).velocity.y == 0,
        old(status).grounded ==> final(status).event == old(status).event,
{
    if !status.grounded && contacts.ground {
        status.event = Some(ActorEvent::Landed);
    }
    status.grounded = contacts.ground;
    status.velocity = Vec2 { x: rate(moved.x, status.last_dt), y: rate(moved.y, status.last_dt) };
    if status.grounded {
        status.air_timer = 0;
        status.velocity.y = 0;
    } else if dt > u64::MAX - status.air_timer {
        status.air_timer = u64::MAX;
    } else {
        status.air_timer = status.air_timer + dt;
    }
    status.right_wall = contacts.right_wall;
    status.left_wall = contacts.left_wall;
    status.carried = carried;
    status.carrying = carrying;
}

/// After the probe an actor on the ground has no vertical velocity, whatever
/// it was moved by.
pub proof fn lemma_grounded_means_no_vertical_velocity(
    status: ActorStatus,
    contacts: Contacts,
    moved: Vec2,
    dt: u64,
    carrying: bool,
    carried: bool,
)
    ensures
        probed(status, contacts, moved, dt, carrying, carried).grounded ==> probed(
            status,
            contacts,
            moved,
            dt,
            carrying,
            carried,
        ).velocity.y == 0,
{
}

/// An actor whose event was cleared comes out of the probe with the landing
/// event exactly when it was in the air and the probe finds ground; one that
/// was on the ground already comes out with no event.
pub proof fn lemma_landing_is_told_once(
    status: ActorStatus,
    contacts: Contacts,
    moved: Vec2,
    dt: u64,
    carrying: bool,
    carried: bool,
)
    requires
        status.event is None,
    ensures
        probed(status, contacts, moved, dt, carrying, carried).event == Some(ActorEvent::Landed)
            <==> !status.grounded && contacts.ground,
        status.grounded ==> probed(status, contacts, moved, dt, carrying, carried).event is None,
        !(probed(status, contacts, moved, dt, carrying, carried).event == Some(ActorEvent::Landed))
            ==> probed(status, contacts, moved, dt, carrying, carried).event is None,
{
}

/// The side an actor faces after its move input: a push past the dead zone
/// turns it, anything less leaves it as it was.
pub open spec fn facing_after(move_input: i64, facing_left: bool) -> bool {
    if move_input > DEAD_ZONE {
        false
    } else if move_input < -DEAD_ZONE {
        true
    } else {
        facing_left
    }
}

/// Whether `a` and `b` point the same way along an axis. Zero counts as
/// pointing the positive way.
pub open spec fn same_direction(a: i64, b: i64) -> bool {
    (a < 0) == (b < 0)
}

/// The horizontal velocity after the movement step.
pub open spec fn horizontal_after(actor: Actor, inputs: ActorInputs, status: ActorStatus, dt: u64) -> int {
    let pace = if same_direction(inputs.move_input, status.velocity.x) {
        actor.accel
    } else {
        actor.deccel
    };
    let pushed = sum_spec(
        status.velocity.x as int,
        accrued_spec(product_spec(inputs.move_input as int, pace as int), dt as int),
    );
    let dragged = if -DEAD_ZONE < inputs.move_input < DEAD_ZONE {
        product_spec(pushed, difference_spec(UNIT as int, actor.drag as int))
    } else {
        pushed
    };
    let limited = within_spec(dragged, actor.move_speed as int);
    if (limited > 0 && status.right_wall) || (limited < 0 && status.left_wall) {
        0
    } else {
        limited
    }
}

/// Whether the actor's state lets it jump: it stands, or left the ground
/// less than `jump_time` ago.
pub open spec fn state_can_jump(actor: Actor, status: ActorStatus) -> bool {
    status.grounded || status.air_timer < actor.jump_time
}

/// Whether the movement step makes the actor jump.
pub open spec fn jump_fires(actor: Actor, inputs: ActorInputs, status: ActorStatus) -> bool {
    actor.can_jump && state_can_jump(actor, status) && inputs.jump_input
}

/// Whether the movement step lets gravity act on the actor.
pub open spec fn gravity_applies(actor: Actor, inputs: ActorInputs, status: ActorStatus) -> bool {
    !jump_fires(actor, inputs, status) && !status.grounded
}

/// The vertical velocity after the movement step. A rising actor is pulled
/// by `down_gravity`, one that falls or hangs by `up_gravity`.
pub open spec fn vertical_after(actor: Actor, inputs: ActorInputs, status: ActorStatus, dt: u64) -> int {
    if jump_fires(actor, inputs, status) {
        actor.jump_speed as int
    } else if !status.grounded {
        let pull = if status.velocity.y > 0 {
            actor.down_gravity
        } else {
            actor.up_gravity
        };
        difference_spec(status.velocity.y as int, accrued_spec(pull as int, dt as int))
    } else {
        status.velocity.y as int
    }
}

/// The status that the movement step leaves. A carried actor only turns and
/// notes the length of the tick.
pub open spec fn moved(
    actor: Actor,
    inputs: ActorInputs,
    status: ActorStatus,
    carried: bool,
    dt: u64,
) -> ActorStatus {
    if carried {
        ActorStatus {
            facing_left: facing_after(inputs.move_input, status.facing_left),
            last_dt: dt,
            ..status
        }
    } else {
        ActorStatus {
            velocity: Vec2 {
                x: horizontal_after(actor, inputs, status, dt) as i64,
                y: vertical_after(actor, inputs, status, dt) as i64,
            },
            facing_left: facing_after(inputs.move_input, status.facing_left),
            event: if jump_fires(actor, inputs, status) && status.grounded {
                Some(ActorEvent::Launched)
            } else {
                status.event
            },
            last_dt: dt,
            ..status
        }
    }
}

/// The way that the movement step asks the actor to be moved this tick: its
/// new velocity over the length of the tick, and nothing while it is
/// carried.
pub open spec fn wanted_translation(
    actor: Actor,
    inputs: ActorInputs,
    status: ActorStatus,
    carried: bool,
    dt: u64,
) -> Option<Vec2> {
    if carried {
        None
    } else {
        Some(
            Vec2 {
                x: accrued_spec(horizontal_after(actor, inputs, status, dt), dt as int) as i64,
                y: accrued_spec(vertical_after(actor, inputs, status, dt), dt as int) as i64,
            },
        )
    }
}

/// The movement step of one actor, run after its contact probe. `carried`
/// says whether the actor is in another's hands.
pub fn actor_movement(
    actor: &Actor,
    inputs: &ActorInputs,
    status: &mut ActorStatus,
    carried: bool,
    dt: u64,
) -> (translation: Option<Vec2>)
    requires
        actor.move_speed >= 0,
    ensures
        *final(status) == moved(*actor, *inputs, *old(status), carried, dt),
        translation == wanted_translation(*actor, *inputs, *old(status), carried, dt),
        carried ==> final(status).velocity == old(status).velocity && final(status).event
            == old(status).event,
{
    if inputs.move_input > DEAD_ZONE {
        status.facing_left = false;
    } else if inputs.move_input < -DEAD_ZONE {
        status.facing_left = true;
    }
    let mut translation: Option<Vec2> = None;
    if !carried {
        let matches = (inputs.move_input < 0) == (status.velocity.x < 0);
        let pace: i64 = if matches {
            actor.accel
        } else {
            actor.deccel
        };
        let mut across: i64 = sum(status.velocity.x, accrued(product(inputs.move_input, pace), dt));
        if -DEAD_ZONE < inputs.move_input && inputs.move_input < DEAD_ZONE {
            across = product(across, difference(UNIT, actor.drag));
        }
        across = within(across, actor.move_speed);
        if (across > 0 && status.right_wall) || (across < 0 && status.left_wall) {
            across = 0;
        }
        status.velocity.x = across;
        let allowed = status.grounded || status.air_timer < actor.jump_time;
        if actor.can_jump && allowed && inputs.jump_input {
            status.velocity.y = actor.jump_speed;
            if status.grounded {
                status.event = Some(ActorEvent::Launched);
            }
        } else if !status.grounded {
            let pull: i64 = if status.velocity.y > 0 {
                actor.down_gravity
            } else {
                actor.up_gravity
            };
            status.velocity.y = difference(status.velocity.y, accrued(pull, dt));
        }
        translation = Some(
            Vec2 { x: accrued(status.velocity.x, dt), y: accrued(status.velocity.y, dt) },
        );
    }
    status.last_dt = dt;
    translation
}

/// The movement step holds the horizontal speed to the actor's speed limit,
/// and leaves no speed into a wall that the probe has found.
pub proof fn lemma_speed_is_limited(actor: Actor, inputs: ActorInputs, status: ActorStatus, dt: u64)
    requires
        actor.move_speed >= 0,
    ensures
        -actor.move_speed <= horizontal_after(actor, inputs, status, dt) <= actor.move_speed,
        status.right_wall ==> horizontal_after(actor, inputs, status, dt) <= 0,
        status.left_wall ==> horizontal_after(actor, inputs, status, dt) >= 0,
{
}

/// In one tick an actor either stands or is pulled by gravity, never both;
/// and it is not pulled in the tick in which it jumps.
pub proof fn lemma_gravity_only_in_the_air(actor: Actor, inputs: ActorInputs, status: ActorStatus)
    ensures
        !(status.grounded && gravity_applies(actor, inputs, status)),
        !(jump_fires(actor, inputs, status) && gravity_applies(actor, inputs, status)),
{
}

/// The air timer of an actor that stood on the ground and has since been
/// probed `ticks` times in the air, each tick `dt` long.
pub open spec fn air_time_after(ticks: nat, dt: u64) -> u64
    decreases ticks,
{
    if ticks == 0 {
        0
    } else {
        timer_after(air_time_after((ticks - 1) as nat, dt), dt)
    }
}

/// The air timer counts the time since the ground was left, up to the end of
/// its range.
pub proof fn lemma_air_time_is_ticks_times_dt(ticks: nat, dt: u64)
    ensures
        air_time_after(ticks, dt) == if ticks * dt > u64::MAX {
            u64::MAX as int
        } else {
            ticks * dt
        },
    decreases ticks,
{
    if ticks > 0 {
        lemma_air_time_is_ticks_times_dt((ticks - 1) as nat, dt);
        assert(ticks * dt == (ticks - 1) * dt + dt) by (nonlinear_arith);
        assert((ticks - 1) * dt >= 0) by (nonlinear_arith)
            requires
                ticks >= 1,
                dt >= 0,
        ;
    } else {
        assert(ticks * dt == 0) by (nonlinear_arith)
            requires
                ticks == 0,
        ;
    }
}

/// The probe keeps the count of `air_time_after`: ground starts it again, a
/// tick in the air adds one to it.
pub proof fn lemma_probe_counts_air_time(
    status: ActorStatus,
    contacts: Contacts,
    moved: Vec2,
    dt: u64,
    carrying: bool,
    carried: bool,
    ticks: nat,
)
    requires
        status.air_timer == air_time_after(ticks, dt),
    ensures
        probed(status, contacts, moved, dt, carrying, carried).air_timer == if contacts.ground {
            air_time_after(0, dt)
        } else {
            air_time_after(ticks + 1, dt)
        },
{
    reveal_with_fuel(air_time_after, 2);
}

/// The grace window of a jump. An actor that may jump and asks to, `ticks`
/// ticks of `dt` after it last stood on the ground, jumps in the air exactly
/// when `ticks * dt` is less than its `jump_time`; on the ground it always
/// jumps.
pub proof fn lemma_jump_grace_window(
    actor: Actor,
    inputs: ActorInputs,
    status: ActorStatus,
    ticks: nat,
    dt: u64,
)
    requires
        actor.can_jump,
        inputs.jump_input,
        status.grounded <==> ticks == 0,
        status.air_timer == air_time_after(ticks, dt),
    ensures
        jump_fires(actor, inputs, status) <==> ticks == 0 || ticks * dt < actor.jump_time,
{
    lemma_air_time_is_ticks_times_dt(ticks, dt);
}

/// Ends the tick for an actor: its event is gone.
pub fn actor_event_clear(status: &mut ActorStatus)
    ensures
        *final(status) == (ActorStatus { event: None, ..*old(status) }),
{
    status.event = None;
}

/// The row of the sprite sheet that shows `status`, and whether the sprite
/// is to be mirrored.
pub open spec fn shown_row(status: ActorStatus, rows: ActorAnimationStates) -> usize {
    let running = status.velocity.x > RUN_SPEED || status.velocity.x < -RUN_SPEED;
    if status.carrying {
        if running {
            rows.run_carry_row
        } else {
            rows.idle_carry_row
        }
    } else if status.carried {
        rows.idle_row
    } else if status.grounded {
        if running {
            rows.run_row
        } else {
            rows.idle_row
        }
    } else if status.velocity.y > FALL_SPEED {
        rows.jump_row
    } else {
        rows.fall_row
    }
}

/// Picks how an actor is drawn: the row of its sprite sheet, and whether the
/// sprite is mirrored to face left.
pub fn actor_animations(status: &ActorStatus, rows: &ActorAnimationStates) -> (shown: (usize, bool))
    ensures
        shown.0 == shown_row(*status, *rows),
        shown.1 == status.facing_left,
{
    let running = status.velocity.x > RUN_SPEED || status.velocity.x < -RUN_SPEED;
    let row = if status.carrying {
        if running {
            rows.run_carry_row
        } else {
            rows.idle_carry_row
        }
    } else if status.carried {
        rows.idle_row
    } else if status.grounded {
        if running {
            rows.run_row
        } else {
            rows.idle_row
        }
    } else if status.velocity.y > FALL_SPEED {
        rows.jump_row
    } else {
        rows.fall_row
    };
    (row, status.facing_left)
}

/// The sound that goes with an event.
pub open spec fn sound_of(event: ActorEvent) -> ActorAudio {
    match event {
        ActorEvent::Launched => ActorAudio::Jump,
        ActorEvent::Landed => ActorAudio::Land,
        ActorEvent::Hit => ActorAudio::Hit,
        ActorEvent::Died => ActorAudio::Death,
        ActorEvent::Pickup => ActorAudio::Pickup,
        ActorEvent::Unlock => ActorAudio::Unlocked,
        ActorEvent::Win => ActorAudio::Victory,
    }
}

/// The sound to play for an actor this tick, if its status holds an event.
pub fn actor_audio(status: &ActorStatus) -> (sound: Option<ActorAudio>)
    ensures
        sound == match status.event {
            Some(event) => Some(sound_of(event)),
            None => None,
        },
{
    match status.event {
        Some(ActorEvent::Launched) => Some(ActorAudio::Jump),
        Some(ActorEvent::Landed) => Some(ActorAudio::Land),
        Some(ActorEvent::Hit) => Some(ActorAudio::Hit),
        Some(ActorEvent::Died) => Some(ActorAudio::Death),
        Some(ActorEvent::Pickup) => Some(ActorAudio::Pickup),
        Some(ActorEvent::Unlock) => Some(ActorAudio::Unlocked),
        Some(ActorEvent::Win) => Some(ActorAudio::Victory),
        None => None,
    }
}

} // verus!
