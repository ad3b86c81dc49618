use platformer_game::actor::{ActorEvent, ActorStatus};
use platformer_game::fixed::Vec2;
use platformer_game::squash::{
    actor_squash_events, squash_animation, squash_states, SquashFrame, SquashStretchState, Squashy,
};

fn player_squish() -> Squashy {
    Squashy {
        base_scale: Vec2 { x: 24_000, y: 24_000 },
        restore_time: 150_000,
        squash_scale: Vec2 { x: 1_200, y: 800 },
        squash_time: 50_000,
        stretch_scale: Vec2 { x: 800, y: 1_100 },
        stretch_time: 50_000,
        state: None,
        state_time: 0,
        from_pos: Vec2 { x: 1_000, y: 1_000 },
    }
}

fn with_event(event: Option<ActorEvent>) -> ActorStatus {
    ActorStatus { event, ..ActorStatus::spawned() }
}

#[test]
fn landing_starts_a_squash_at_base_size() {
    let mut squish = player_squish();
    actor_squash_events(&with_event(Some(ActorEvent::Landed)), &mut squish);
    assert_eq!(squish.state, Some(SquashStretchState::Squash));
    assert_eq!(squish.state_time, 0);
    assert_eq!(squish.from_pos, Vec2 { x: 1_000, y: 1_000 });
    assert_eq!(
        squash_animation(&squish),
        SquashFrame {
            custom_size: Vec2 { x: 24_000, y: 24_000 },
            anchor: Vec2 { x: 0, y: 0 },
        }
    );
}

#[test]
fn launch_starts_a_stretch() {
    let mut squish = player_squish();
    actor_squash_events(&with_event(Some(ActorEvent::Launched)), &mut squish);
    assert_eq!(squish.state, Some(SquashStretchState::Stretch));
    assert_eq!(squish.state_time, 0);
}

#[test]
fn other_events_leave_the_sprite_alone() {
    for event in [
        None,
        Some(ActorEvent::Hit),
        Some(ActorEvent::Died),
        Some(ActorEvent::Win),
        Some(ActorEvent::Pickup),
        Some(ActorEvent::Unlock),
    ] {
        let mut squish = player_squish();
        actor_squash_events(&with_event(event), &mut squish);
        assert_eq!(squish, player_squish());
    }
}

#[test]
fn squash_is_blended_over_its_time() {
    let mut squish = player_squish();
    actor_squash_events(&with_event(Some(ActorEvent::Landed)), &mut squish);
    squash_states(&mut squish, 20_000);
    assert_eq!(squish.state, Some(SquashStretchState::Squash));
    assert_eq!(squish.state_time, 20_000);
    assert_eq!(squish.current_scale(), Vec2 { x: 1_080, y: 920 });
    assert_eq!(
        squash_animation(&squish),
        SquashFrame {
            custom_size: Vec2 { x: 25_920, y: 22_080 },
            anchor: Vec2 { x: 0, y: 40 },
        }
    );
}

#[test]
fn squash_gives_way_to_restore_then_rest() {
    let mut squish = player_squish();
    actor_squash_events(&with_event(Some(ActorEvent::Landed)), &mut squish);
    squash_states(&mut squish, 25_000);
    assert_eq!(squish.state, Some(SquashStretchState::Squash));
    squash_states(&mut squish, 25_000);
    assert_eq!(squish.state, Some(SquashStretchState::Restore));
    assert_eq!(squish.state_time, 0);
    assert_eq!(squish.from_pos, Vec2 { x: 1_200, y: 800 });

    squash_states(&mut squish, 75_000);
    assert_eq!(squish.state, Some(SquashStretchState::Restore));
    assert_eq!(squish.current_scale(), Vec2 { x: 1_100, y: 900 });
    squash_states(&mut squish, 74_999);
    assert_eq!(squish.state, Some(SquashStretchState::Restore));
    squash_states(&mut squish, 1);
    assert_eq!(squish.state, None);
    assert_eq!(squish.state_time, 0);
    assert_eq!(
        squash_animation(&squish),
        SquashFrame { custom_size: Vec2 { x: 24_000, y: 24_000 }, anchor: Vec2 { x: 0, y: 0 } }
    );
    assert_eq!(squish.current_scale(), Vec2 { x: 1_000, y: 1_000 });
}

#[test]
fn stretch_gives_way_to_restore() {
    let mut squish = player_squish();
    actor_squash_events(&with_event(Some(ActorEvent::Launched)), &mut squish);
    squash_states(&mut squish, 49_999);
    assert_eq!(squish.state, Some(SquashStretchState::Stretch));
    squash_states(&mut squish, 1);
    assert_eq!(squish.state, Some(SquashStretchState::Restore));
    assert_eq!(squish.from_pos, Vec2 { x: 800, y: 1_100 });
}

#[test]
fn late_tick_carries_the_scale_past_the_target() {
    let mut squish = player_squish();
    actor_squash_events(&with_event(Some(ActorEvent::Landed)), &mut squish);
    squash_states(&mut squish, 75_000);
    assert_eq!(squish.state, Some(SquashStretchState::Restore));
    assert_eq!(squish.from_pos, Vec2 { x: 1_300, y: 700 });
}

#[test]
fn new_phase_starts_from_the_scale_of_the_moment() {
    let mut squish = player_squish();
    actor_squash_events(&with_event(Some(ActorEvent::Landed)), &mut squish);
    squash_states(&mut squish, 20_000);
    actor_squash_events(&with_event(Some(ActorEvent::Launched)), &mut squish);
    assert_eq!(squish.state, Some(SquashStretchState::Stretch));
    assert_eq!(squish.state_time, 0);
    assert_eq!(squish.from_pos, Vec2 { x: 1_080, y: 920 });
    assert_eq!(squish.current_scale(), Vec2 { x: 1_080, y: 920 });
}

#[test]
fn change_state_resets_the_clock() {
    let mut squish = player_squish();
    squish.change_state(Some(SquashStretchState::Restore));
    assert_eq!(squish.state, Some(SquashStretchState::Restore));
    assert_eq!(squish.from_pos, Vec2 { x: 1_000, y: 1_000 });
    squash_states(&mut squish, 10_000);
    squish.change_state(None);
    assert_eq!(squish.state, None);
    assert_eq!(squish.state_time, 0);
}

#[test]
fn rest_does_not_age() {
    let mut squish = player_squish();
    squash_states(&mut squish, 1_000_000);
    assert_eq!(squish, player_squish());
}

#[test]
fn phase_of_no_length_ends_at_the_next_tick_where_it_began() {
    let mut squish = Squashy { squash_time: 0, ..player_squish() };
    actor_squash_events(&with_event(Some(ActorEvent::Landed)), &mut squish);
    assert_eq!(squish.current_scale(), Vec2 { x: 1_000, y: 1_000 });
    squash_states(&mut squish, 0);
    assert_eq!(squish.state, Some(SquashStretchState::Restore));
    assert_eq!(squish.from_pos, Vec2 { x: 1_000, y: 1_000 });
}

#[test]
fn stretched_sprite_hangs_lower() {
    let mut squish = player_squish();
    actor_squash_events(&with_event(Some(ActorEvent::Launched)), &mut squish);
    squash_states(&mut squish, 25_000);
    assert_eq!(squish.current_scale(), Vec2 { x: 900, y: 1_050 });
    assert_eq!(
        squash_animation(&squish),
        SquashFrame {
            custom_size: Vec2 { x: 21_600, y: 25_200 },
            anchor: Vec2 { x: 0, y: -25 },
        }
    );
}

#[test]
fn sprite_at_rest_is_drawn_at_its_base_size() {
    let squish = Squashy { base_scale: Vec2 { x: 17_000, y: 31_000 }, ..player_squish() };
    assert_eq!(
        squash_animation(&squish),
        SquashFrame { custom_size: Vec2 { x: 17_000, y: 31_000 }, anchor: Vec2 { x: 0, y: 0 } }
    );
}
