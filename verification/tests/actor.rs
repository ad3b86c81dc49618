use platformer_game::actor::{
    actor_animations, actor_audio, actor_event_clear, actor_movement, actor_status, Actor,
    ActorAnimationStates, ActorAudio, ActorEvent, ActorInputs, ActorStatus, Contacts,
};
use platformer_game::fixed::Vec2;

const TICK: u64 = 16_000;

fn in_air() -> Contacts {
    Contacts { ground: false, left_wall: false, right_wall: false }
}

fn on_ground() -> Contacts {
    Contacts { ground: true, left_wall: false, right_wall: false }
}

fn standing() -> ActorStatus {
    ActorStatus { grounded: true, last_dt: TICK, ..ActorStatus::spawned() }
}

fn push(move_input: i64) -> ActorInputs {
    ActorInputs { move_input, ..ActorInputs::default() }
}

fn jump() -> ActorInputs {
    ActorInputs { jump_input: true, ..ActorInputs::default() }
}

#[test]
fn default_actor_has_the_stock_tuning() {
    let actor = Actor::default();
    assert_eq!(
        actor,
        Actor {
            move_speed: 120_000,
            drag: 300,
            accel: 1_000_000,
            deccel: 2_000_000,
            up_gravity: 300_000,
            down_gravity: 500_000,
            jump_speed: 800_000,
            jump_time: 200_000,
            can_jump: true,
        }
    );
    assert_eq!(
        ActorInputs::default(),
        ActorInputs { move_input: 0, jump_input: false, grab_input: false }
    );
}

#[test]
fn spawned_status_is_at_rest_in_the_air() {
    let status = ActorStatus::spawned();
    assert!(!status.grounded);
    assert_eq!(status.velocity, Vec2 { x: 0, y: 0 });
    assert_eq!(status.last_dt, 1_000_000);
    assert_eq!(status.event, None);
}

#[test]
fn probe_finds_ground_and_tells_the_landing() {
    let mut status = ActorStatus { air_timer: 300_000, ..ActorStatus::spawned() };
    actor_status(&mut status, on_ground(), Vec2 { x: 2_000, y: -500 }, TICK, false, false);
    assert!(status.grounded);
    assert_eq!(status.event, Some(ActorEvent::Landed));
    assert_eq!(status.velocity, Vec2 { x: 2_000, y: 0 });
    assert_eq!(status.air_timer, 0);
}

#[test]
fn probe_tells_no_landing_when_already_on_the_ground() {
    let mut status = standing();
    actor_status(&mut status, on_ground(), Vec2 { x: 0, y: 0 }, TICK, false, false);
    assert!(status.grounded);
    assert_eq!(status.event, None);
}

#[test]
fn landing_takes_the_place_of_a_pending_event() {
    let mut status = ActorStatus { event: Some(ActorEvent::Pickup), ..ActorStatus::spawned() };
    actor_status(&mut status, on_ground(), Vec2 { x: 0, y: 0 }, TICK, false, false);
    assert_eq!(status.event, Some(ActorEvent::Landed));
}

#[test]
fn probe_keeps_a_pending_event_in_the_air() {
    let mut status = ActorStatus { event: Some(ActorEvent::Pickup), ..ActorStatus::spawned() };
    actor_status(&mut status, in_air(), Vec2 { x: 0, y: 0 }, TICK, false, false);
    assert_eq!(status.event, Some(ActorEvent::Pickup));
}

#[test]
fn probe_derives_velocity_from_the_last_move() {
    let mut status = ActorStatus { last_dt: 20_000, ..ActorStatus::spawned() };
    actor_status(&mut status, in_air(), Vec2 { x: 2_400, y: -1_000 }, TICK, false, false);
    assert_eq!(status.velocity, Vec2 { x: 120_000, y: -50_000 });
    assert!(!status.grounded);
    assert_eq!(status.air_timer, TICK);
    assert_eq!(status.last_dt, 20_000);
}

#[test]
fn probe_rounds_velocity_toward_zero() {
    let mut status = ActorStatus { last_dt: 3, ..ActorStatus::spawned() };
    actor_status(&mut status, in_air(), Vec2 { x: 1, y: -1 }, TICK, false, false);
    assert_eq!(status.velocity, Vec2 { x: 333_333, y: -333_333 });
}

#[test]
fn probe_over_a_tick_of_no_length_holds_velocity_at_the_ends() {
    let mut status = ActorStatus { last_dt: 0, ..ActorStatus::spawned() };
    actor_status(&mut status, in_air(), Vec2 { x: 5, y: -5 }, TICK, false, false);
    assert_eq!(status.velocity, Vec2 { x: i64::MAX, y: i64::MIN });
    let mut still = ActorStatus { last_dt: 0, ..ActorStatus::spawned() };
    actor_status(&mut still, in_air(), Vec2 { x: 0, y: 0 }, TICK, false, false);
    assert_eq!(still.velocity, Vec2 { x: 0, y: 0 });
}

#[test]
fn air_timer_stops_at_the_end_of_its_range() {
    let mut status = ActorStatus { air_timer: u64::MAX - 5, ..ActorStatus::spawned() };
    actor_status(&mut status, in_air(), Vec2 { x: 0, y: 0 }, 10, false, false);
    assert_eq!(status.air_timer, u64::MAX);
}

#[test]
fn probe_notes_walls_and_carry_records() {
    let mut status = standing();
    let contacts = Contacts { ground: true, left_wall: true, right_wall: false };
    actor_status(&mut status, contacts, Vec2 { x: 0, y: 0 }, TICK, true, false);
    assert!(status.left_wall);
    assert!(!status.right_wall);
    assert!(status.carrying);
    assert!(!status.carried);

    actor_status(
        &mut status,
        Contacts { ground: true, left_wall: false, right_wall: true },
        Vec2 { x: 0, y: 0 },
        TICK,
        false,
        true,
    );
    assert!(!status.left_wall);
    assert!(status.right_wall);
    assert!(!status.carrying);
    assert!(status.carried);
}

#[test]
fn movement_speeds_up_along_the_input() {
    let actor = Actor::default();
    let mut status = standing();
    let translation = actor_movement(&actor, &push(1000), &mut status, false, TICK);
    assert_eq!(status.velocity, Vec2 { x: 16_000, y: 0 });
    assert_eq!(translation, Some(Vec2 { x: 256, y: 0 }));
    assert_eq!(status.last_dt, TICK);
    assert!(!status.facing_left);
}

#[test]
fn movement_brakes_harder_against_the_velocity() {
    let actor = Actor::default();
    let mut status = ActorStatus { velocity: Vec2 { x: 50_000, y: 0 }, ..standing() };
    actor_movement(&actor, &push(-1000), &mut status, false, TICK);
    assert_eq!(status.velocity.x, 18_000);
    assert!(status.facing_left);
}

#[test]
fn movement_counts_rest_as_moving_right() {
    let actor = Actor::default();
    let mut status = standing();
    actor_movement(&actor, &push(-1000), &mut status, false, TICK);
    assert_eq!(status.velocity.x, -32_000);
}

#[test]
fn movement_drags_without_input() {
    let actor = Actor::default();
    let mut status = ActorStatus { velocity: Vec2 { x: 100_000, y: 0 }, ..standing() };
    actor_movement(&actor, &push(0), &mut status, false, TICK);
    assert_eq!(status.velocity.x, 70_000);
    let mut leftward = ActorStatus { velocity: Vec2 { x: -100_000, y: 0 }, ..standing() };
    actor_movement(&actor, &push(0), &mut leftward, false, TICK);
    assert_eq!(leftward.velocity.x, -70_000);
}

#[test]
fn drag_ends_where_the_dead_zone_ends() {
    let actor = Actor::default();
    let mut inside = ActorStatus { velocity: Vec2 { x: 100_000, y: 0 }, ..standing() };
    actor_movement(&actor, &push(99), &mut inside, false, TICK);
    // 100_000 + 99 * 1_000_000 / 1000 * 16_000 / 1_000_000 = 101_584, then 70% of it.
    assert_eq!(inside.velocity.x, 71_108);
    let mut outside = ActorStatus { velocity: Vec2 { x: 100_000, y: 0 }, ..standing() };
    actor_movement(&actor, &push(100), &mut outside, false, TICK);
    assert_eq!(outside.velocity.x, 101_600);
}

#[test]
fn movement_is_held_to_the_move_speed() {
    let actor = Actor::default();
    let mut status = ActorStatus { velocity: Vec2 { x: 119_000, y: 0 }, ..standing() };
    actor_movement(&actor, &push(1000), &mut status, false, TICK);
    assert_eq!(status.velocity.x, 120_000);
    let mut leftward = ActorStatus { velocity: Vec2 { x: -119_000, y: 0 }, ..standing() };
    actor_movement(&actor, &push(-1000), &mut leftward, false, TICK);
    assert_eq!(leftward.velocity.x, -120_000);
}

#[test]
fn movement_stops_at_a_wall() {
    let actor = Actor::default();
    let mut status =
        ActorStatus { velocity: Vec2 { x: 50_000, y: 0 }, right_wall: true, ..standing() };
    let translation = actor_movement(&actor, &push(1000), &mut status, false, TICK);
    assert_eq!(status.velocity.x, 0);
    assert_eq!(translation, Some(Vec2 { x: 0, y: 0 }));
    let mut away = ActorStatus { velocity: Vec2 { x: -50_000, y: 0 }, right_wall: true, ..standing() };
    actor_movement(&actor, &push(-1000), &mut away, false, TICK);
    assert_eq!(away.velocity.x, -66_000);
    let mut left =
        ActorStatus { velocity: Vec2 { x: -50_000, y: 0 }, left_wall: true, ..standing() };
    actor_movement(&actor, &push(-1000), &mut left, false, TICK);
    assert_eq!(left.velocity.x, 0);
}

#[test]
fn facing_turns_only_past_the_dead_zone() {
    let actor = Actor::default();
    let mut status = ActorStatus { facing_left: true, ..standing() };
    actor_movement(&actor, &push(100), &mut status, false, TICK);
    assert!(status.facing_left);
    actor_movement(&actor, &push(101), &mut status, false, TICK);
    assert!(!status.facing_left);
    actor_movement(&actor, &push(-100), &mut status, false, TICK);
    assert!(!status.facing_left);
    actor_movement(&actor, &push(-101), &mut status, false, TICK);
    assert!(status.facing_left);
}

#[test]
fn jump_from_the_ground_launches() {
    let actor = Actor::default();
    let mut status = standing();
    let translation = actor_movement(&actor, &jump(), &mut status, false, TICK);
    assert_eq!(status.velocity.y, 800_000);
    assert_eq!(status.event, Some(ActorEvent::Launched));
    assert_eq!(translation, Some(Vec2 { x: 0, y: 12_800 }));
}

#[test]
fn jump_within_the_grace_window_rises_without_a_launch() {
    let actor = Actor::default();
    let mut status = ActorStatus { air_timer: 199_999, last_dt: TICK, ..ActorStatus::spawned() };
    actor_movement(&actor, &jump(), &mut status, false, TICK);
    assert_eq!(status.velocity.y, 800_000);
    assert_eq!(status.event, None);
}

#[test]
fn jump_at_the_end_of_the_grace_window_fails() {
    let actor = Actor::default();
    let mut status = ActorStatus { air_timer: 200_000, last_dt: TICK, ..ActorStatus::spawned() };
    actor_movement(&actor, &jump(), &mut status, false, TICK);
    assert_eq!(status.velocity.y, -4_800);
    assert_eq!(status.event, None);
}

#[test]
fn grace_window_counts_ticks_since_the_ground() {
    // Ticks of 50 ms against a window of 200 ms: the jump still fires three
    // ticks after the ground was left, and no longer after four.
    let actor = Actor::default();
    for ticks in 1..=6u64 {
        let mut status = standing();
        for _ in 0..ticks {
            actor_status(&mut status, in_air(), Vec2 { x: 0, y: 0 }, 50_000, false, false);
        }
        assert_eq!(status.air_timer, ticks * 50_000);
        actor_movement(&actor, &jump(), &mut status, false, 50_000);
        let launched = status.velocity.y == 800_000;
        assert_eq!(launched, ticks * 50_000 < 200_000);
    }
}

#[test]
fn jump_needs_leave_to_jump() {
    let actor = Actor { can_jump: false, ..Actor::default() };
    let mut status = standing();
    actor_movement(&actor, &jump(), &mut status, false, TICK);
    assert_eq!(status.velocity.y, 0);
    assert_eq!(status.event, None);
}

#[test]
fn gravity_differs_between_rising_and_falling() {
    let actor = Actor::default();
    let mut rising =
        ActorStatus { velocity: Vec2 { x: 0, y: 100_000 }, air_timer: 500_000, ..ActorStatus::spawned() };
    actor_movement(&actor, &push(0), &mut rising, false, TICK);
    assert_eq!(rising.velocity.y, 92_000);
    let mut falling =
        ActorStatus { velocity: Vec2 { x: 0, y: -100_000 }, air_timer: 500_000, ..ActorStatus::spawned() };
    actor_movement(&actor, &push(0), &mut falling, false, TICK);
    assert_eq!(falling.velocity.y, -104_800);
}

#[test]
fn no_gravity_on_the_ground() {
    let actor = Actor::default();
    let mut status = standing();
    actor_movement(&actor, &push(0), &mut status, false, TICK);
    assert_eq!(status.velocity.y, 0);
}

#[test]
fn carried_actor_only_turns() {
    let actor = Actor::default();
    let mut status = ActorStatus {
        velocity: Vec2 { x: 40_000, y: -30_000 },
        last_dt: 1,
        ..ActorStatus::spawned()
    };
    let inputs = ActorInputs { move_input: -1000, jump_input: true, grab_input: false };
    let translation =
        actor_movement(&actor, &inputs, &mut status, true, TICK);
    assert_eq!(translation, None);
    assert_eq!(status.velocity, Vec2 { x: 40_000, y: -30_000 });
    assert_eq!(status.event, None);
    assert!(status.facing_left);
    assert_eq!(status.last_dt, TICK);
}

#[test]
fn falling_velocity_is_held_at_the_end_of_the_range() {
    let actor = Actor { up_gravity: i64::MAX, ..Actor::default() };
    let mut status =
        ActorStatus { velocity: Vec2 { x: 0, y: i64::MIN + 5 }, air_timer: 500_000, ..ActorStatus::spawned() };
    actor_movement(&actor, &push(0), &mut status, false, 1_000_000);
    assert_eq!(status.velocity.y, i64::MIN);
}

#[test]
fn event_clear_drops_the_event_only() {
    let mut status = ActorStatus { event: Some(ActorEvent::Win), ..standing() };
    actor_event_clear(&mut status);
    assert_eq!(status, standing());
}

fn rows() -> ActorAnimationStates {
    ActorAnimationStates {
        idle_row: 0,
        run_row: 1,
        jump_row: 2,
        fall_row: 3,
        idle_carry_row: 4,
        run_carry_row: 5,
        push_row: 6,
        yell_row: 7,
    }
}

#[test]
fn animation_row_follows_the_status() {
    let idle = standing();
    assert_eq!(actor_animations(&idle, &rows()), (0, false));
    let run = ActorStatus { velocity: Vec2 { x: -20_001, y: 0 }, facing_left: true, ..standing() };
    assert_eq!(actor_animations(&run, &rows()), (1, true));
    let slow = ActorStatus { velocity: Vec2 { x: 20_000, y: 0 }, ..standing() };
    assert_eq!(actor_animations(&slow, &rows()), (0, false));
    let up = ActorStatus { velocity: Vec2 { x: 0, y: -9_999 }, ..ActorStatus::spawned() };
    assert_eq!(actor_animations(&up, &rows()), (2, false));
    let down = ActorStatus { velocity: Vec2 { x: 0, y: -10_000 }, ..ActorStatus::spawned() };
    assert_eq!(actor_animations(&down, &rows()), (3, false));
    let hauling = ActorStatus { carrying: true, velocity: Vec2 { x: 30_000, y: 0 }, ..standing() };
    assert_eq!(actor_animations(&hauling, &rows()), (5, false));
    let holding = ActorStatus { carrying: true, ..ActorStatus::spawned() };
    assert_eq!(actor_animations(&holding, &rows()), (4, false));
    let held = ActorStatus { carried: true, velocity: Vec2 { x: 90_000, y: 0 }, ..ActorStatus::spawned() };
    assert_eq!(actor_animations(&held, &rows()), (0, false));
}

#[test]
fn each_event_has_its_sound() {
    let sound = |event| actor_audio(&ActorStatus { event, ..standing() });
    assert_eq!(sound(None), None);
    assert_eq!(sound(Some(ActorEvent::Launched)), Some(ActorAudio::Jump));
    assert_eq!(sound(Some(ActorEvent::Landed)), Some(ActorAudio::Land));
    assert_eq!(sound(Some(ActorEvent::Hit)), Some(ActorAudio::Hit));
    assert_eq!(sound(Some(ActorEvent::Died)), Some(ActorAudio::Death));
    assert_eq!(sound(Some(ActorEvent::Pickup)), Some(ActorAudio::Pickup));
    assert_eq!(sound(Some(ActorEvent::Unlock)), Some(ActorAudio::Unlocked));
    assert_eq!(sound(Some(ActorEvent::Win)), Some(ActorAudio::Victory));
}
