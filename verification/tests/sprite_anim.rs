use platformer_game::sprite_anim::{animate_sprite, SpriteAnimator};

fn player_animator() -> SpriteAnimator {
    SpriteAnimator::new(0, 3, 4, 200_000, true)
}

#[test]
fn new_animator_plays_from_a_fresh_clock() {
    assert_eq!(
        player_animator(),
        SpriteAnimator {
            start_frame: 0,
            end_frame: 3,
            row_length: 4,
            seconds_per_frame: 200_000,
            frame_timer: 0,
            should_loop: true,
            playing: true,
            restart_anim: false,
            progress_override: None,
        }
    );
}

#[test]
fn set_row_turns_to_another_row() {
    let mut animator = player_animator();
    animator.set_row(2);
    assert_eq!(animator.start_frame, 8);
    assert_eq!(animator.end_frame, 11);
    assert!(animator.restart_anim);
}

#[test]
fn set_row_leaves_the_row_being_played() {
    let mut animator = player_animator();
    animator.frame_timer = 77;
    animator.set_row(0);
    assert_eq!(animator, SpriteAnimator { frame_timer: 77, ..player_animator() });
}

#[test]
fn frame_moves_on_when_its_time_is_over() {
    let mut animator = player_animator();
    let mut index = 1;
    animate_sprite(&mut animator, &mut index, 200_000);
    assert_eq!(index, 1);
    assert_eq!(animator.frame_timer, 200_000);
    animate_sprite(&mut animator, &mut index, 1);
    assert_eq!(index, 2);
    assert_eq!(animator.frame_timer, 0);
}

#[test]
fn row_loops_after_its_last_frame() {
    let mut animator = player_animator();
    let mut index = 3;
    animate_sprite(&mut animator, &mut index, 300_000);
    assert_eq!(index, 0);
    assert!(animator.playing);
}

#[test]
fn new_row_starts_at_its_first_frame_at_once() {
    let mut animator = player_animator();
    let mut index = 2;
    animator.set_row(1);
    animate_sprite(&mut animator, &mut index, 1);
    assert_eq!(index, 4);
    assert!(!animator.restart_anim);
    assert_eq!(animator.frame_timer, 0);
}

#[test]
fn row_that_does_not_loop_stops_on_its_last_frame() {
    let mut animator = SpriteAnimator::new(0, 3, 4, 200_000, false);
    let mut index = 2;
    animate_sprite(&mut animator, &mut index, 300_000);
    assert_eq!(index, 3);
    assert!(!animator.playing);
    animate_sprite(&mut animator, &mut index, 300_000);
    assert_eq!(index, 3);
    assert_eq!(animator.frame_timer, 0);
}

#[test]
fn paused_animator_stands_still() {
    let mut animator = player_animator();
    animator._pause();
    let mut index = 1;
    animate_sprite(&mut animator, &mut index, 900_000);
    assert_eq!(index, 1);
    assert_eq!(animator.frame_timer, 0);
    animator._play();
    animate_sprite(&mut animator, &mut index, 900_000);
    assert_eq!(index, 2);
}

#[test]
fn progress_picks_the_frame_and_the_time_into_it() {
    let mut animator = SpriteAnimator::new(4, 7, 4, 200_000, true);
    let mut index = 4;
    animator._set_animation_progress(625);
    // 4 frames * 0.625 = frame 2 and a half.
    animate_sprite(&mut animator, &mut index, 16_000);
    assert_eq!(index, 6);
    assert_eq!(animator.frame_timer, 100_000);
    assert_eq!(animator.progress_override, None);
}

#[test]
fn progress_is_held_to_the_row() {
    let mut animator = SpriteAnimator::new(4, 7, 4, 200_000, true);
    let mut index = 4;
    animator._set_animation_progress(1_000);
    animate_sprite(&mut animator, &mut index, 16_000);
    assert_eq!(index, 7);
    animator._set_animation_progress(u64::MAX);
    animate_sprite(&mut animator, &mut index, 16_000);
    assert_eq!(index, 7);
}

#[test]
fn frame_clock_stops_at_the_end_of_its_range() {
    let mut animator = SpriteAnimator::new(0, 3, 4, u64::MAX, true);
    animator.frame_timer = u64::MAX - 1;
    let mut index = 0;
    animate_sprite(&mut animator, &mut index, 50);
    assert_eq!(animator.frame_timer, u64::MAX);
    assert_eq!(index, 0);
}

#[test]
fn sheet_without_frames_stays_at_its_first_row() {
    let mut animator = SpriteAnimator::new(0, 0, 0, 200_000, true);
    animator.set_row(5);
    assert_eq!(animator, SpriteAnimator::new(0, 0, 0, 200_000, true));
}
