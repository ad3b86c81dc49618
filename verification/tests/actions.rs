use platformer_game::actions::{
    get_gamepad_movement, get_movement, set_back_actions, set_movement_actions, set_pause_actions,
    Actions, GameControl, Gamepad, Keyboard,
};
use platformer_game::fixed::{whole_root, Vec2};

fn no_keys() -> Keyboard {
    Keyboard {
        w: false,
        a: false,
        s: false,
        d: false,
        up: false,
        down: false,
        left: false,
        right: false,
        space: false,
        q: false,
        e: false,
        m: false,
        escape: false,
    }
}

fn pad(id: usize) -> Gamepad {
    Gamepad {
        id,
        left_stick_x: None,
        dpad_left: false,
        dpad_right: false,
        dpad_down: false,
        dpad_up: false,
        south: false,
        just_west: false,
        just_east: false,
        just_start: false,
    }
}

fn resolved(keys: &Keyboard, gamepads: &Vec<Gamepad>) -> Actions {
    let mut actions = Actions::default();
    set_movement_actions(&mut actions, keys, gamepads);
    actions
}

#[test]
fn whole_roots_are_rounded_down() {
    assert_eq!(whole_root(0), 0);
    assert_eq!(whole_root(1), 1);
    assert_eq!(whole_root(3), 1);
    assert_eq!(whole_root(4), 2);
    assert_eq!(whole_root(1_000_000), 1_000);
    assert_eq!(whole_root(2_000_000), 1_414);
    assert_eq!(whole_root(u128::MAX), u64::MAX);
}

#[test]
fn vectors_are_brought_to_length_one() {
    assert_eq!(Vec2 { x: 1_000, y: 0 }.normalize(), Vec2 { x: 1_000, y: 0 });
    assert_eq!(Vec2 { x: 1_000, y: -1_000 }.normalize(), Vec2 { x: 707, y: -707 });
    assert_eq!(Vec2 { x: -300, y: 400 }.normalize(), Vec2 { x: -600, y: 800 });
    assert_eq!(Vec2 { x: 0, y: 0 }.normalize(), Vec2 { x: 0, y: 0 });
    assert_eq!(Vec2 { x: 300, y: 400 }.length_squared(), 250_000);
    assert_eq!(Vec2 { x: i64::MIN, y: i64::MIN }.length_squared(), 1u128 << 127);
}

#[test]
fn default_actions_ask_for_nothing() {
    let actions = Actions::default();
    assert_eq!(actions.player_movement, [Vec2 { x: 0, y: 0 }; 2]);
    assert_eq!(actions.jump, [false, false]);
    assert_eq!(actions.action, [false, false]);
    assert!(!actions.pause && !actions.back);
}

#[test]
fn each_way_has_two_keys() {
    let ways = [GameControl::Up, GameControl::Down, GameControl::Left, GameControl::Right];
    for way in ways {
        assert!(!way.pressed(&no_keys()));
        assert_eq!(get_movement(way, &no_keys()), 0);
    }
    assert!(GameControl::Up.pressed(&Keyboard { w: true, ..no_keys() }));
    assert!(GameControl::Up.pressed(&Keyboard { up: true, ..no_keys() }));
    assert!(GameControl::Down.pressed(&Keyboard { s: true, ..no_keys() }));
    assert!(GameControl::Down.pressed(&Keyboard { down: true, ..no_keys() }));
    assert!(GameControl::Left.pressed(&Keyboard { a: true, ..no_keys() }));
    assert!(GameControl::Left.pressed(&Keyboard { left: true, ..no_keys() }));
    assert!(GameControl::Right.pressed(&Keyboard { d: true, ..no_keys() }));
    assert!(GameControl::Right.pressed(&Keyboard { right: true, ..no_keys() }));
    assert!(!GameControl::Right.pressed(&Keyboard { a: true, w: true, s: true, ..no_keys() }));
    assert_eq!(get_movement(GameControl::Left, &Keyboard { a: true, ..no_keys() }), 1_000);
}

#[test]
fn gamepads_add_up_for_their_players() {
    let pads = vec![
        Gamepad { left_stick_x: Some(400), dpad_right: true, dpad_up: true, ..pad(0) },
        Gamepad { left_stick_x: Some(-250), dpad_left: true, dpad_down: true, ..pad(1) },
        Gamepad { left_stick_x: Some(100), ..pad(0) },
    ];
    assert_eq!(
        get_gamepad_movement(&pads),
        [Vec2 { x: 1_500, y: 1_000 }, Vec2 { x: -1_250, y: -1_000 }]
    );
    assert_eq!(get_gamepad_movement(&vec![]), [Vec2 { x: 0, y: 0 }; 2]);
}

#[test]
fn keys_move_the_first_player_at_full_length() {
    let right = resolved(&Keyboard { d: true, ..no_keys() }, &vec![]);
    assert_eq!(right.player_movement, [Vec2 { x: 1_000, y: 0 }, Vec2 { x: 0, y: 0 }]);
    let slant = resolved(&Keyboard { a: true, up: true, ..no_keys() }, &vec![]);
    assert_eq!(slant.player_movement[0], Vec2 { x: -707, y: 707 });
    let both = resolved(&Keyboard { a: true, d: true, ..no_keys() }, &vec![]);
    assert_eq!(both.player_movement[0], Vec2 { x: 0, y: 0 });
}

#[test]
fn keys_come_before_the_gamepad() {
    let pads = vec![Gamepad { left_stick_x: Some(-900), ..pad(0) }];
    let keyed = resolved(&Keyboard { d: true, ..no_keys() }, &pads);
    assert_eq!(keyed.player_movement[0], Vec2 { x: 1_000, y: 0 });
    let padded = resolved(&no_keys(), &pads);
    assert_eq!(padded.player_movement[0], Vec2 { x: -1_000, y: 0 });
}

#[test]
fn gamepad_must_be_pushed_far_enough() {
    // 0.316 squared is just below a tenth, 0.317 squared just above.
    let near = resolved(&no_keys(), &vec![Gamepad { left_stick_x: Some(316), ..pad(1) }]);
    assert_eq!(near.player_movement[1], Vec2 { x: 0, y: 0 });
    let far = resolved(&no_keys(), &vec![Gamepad { left_stick_x: Some(317), ..pad(1) }]);
    assert_eq!(far.player_movement[1], Vec2 { x: 1_000, y: 0 });
}

#[test]
fn the_second_player_does_not_move_by_keys() {
    let actions = resolved(&Keyboard { d: true, w: true, ..no_keys() }, &vec![]);
    assert_eq!(actions.player_movement[1], Vec2 { x: 0, y: 0 });
    assert_eq!(actions.jump, [true, false]);
}

#[test]
fn jump_comes_from_space_up_and_south() {
    assert_eq!(resolved(&Keyboard { space: true, ..no_keys() }, &vec![]).jump, [true, false]);
    assert_eq!(resolved(&Keyboard { w: true, ..no_keys() }, &vec![]).jump, [true, false]);
    assert_eq!(
        resolved(&Keyboard { w: true, s: true, ..no_keys() }, &vec![]).jump,
        [false, false]
    );
    let pads = vec![Gamepad { south: true, ..pad(0) }, Gamepad { south: true, ..pad(1) }];
    assert_eq!(resolved(&no_keys(), &pads).jump, [true, true]);
    let second = vec![pad(0), Gamepad { south: true, ..pad(1) }];
    assert_eq!(resolved(&no_keys(), &second).jump, [false, true]);
}

#[test]
fn gamepads_are_heard_until_a_player_asks_already() {
    // The first player jumps by the keys, so the gamepads are not heard at all.
    let pads = vec![pad(0), Gamepad { south: true, ..pad(1) }];
    assert_eq!(resolved(&Keyboard { space: true, ..no_keys() }, &pads).jump, [true, false]);
    // A later gamepad of a player who asks already ends the hearing.
    let more = vec![
        Gamepad { south: true, ..pad(0) },
        pad(0),
        Gamepad { south: true, ..pad(1) },
    ];
    assert_eq!(resolved(&no_keys(), &more).jump, [true, false]);
    // One that does not ask yet is heard again.
    let again = vec![pad(0), Gamepad { south: true, ..pad(0) }, Gamepad { south: true, ..pad(1) }];
    assert_eq!(resolved(&no_keys(), &again).jump, [true, true]);
}

#[test]
fn grab_comes_from_its_keys_and_buttons() {
    assert_eq!(resolved(&Keyboard { q: true, ..no_keys() }, &vec![]).action, [true, false]);
    assert_eq!(resolved(&Keyboard { e: true, ..no_keys() }, &vec![]).action, [true, false]);
    assert_eq!(resolved(&Keyboard { m: true, ..no_keys() }, &vec![]).action, [false, true]);
    let pads = vec![Gamepad { just_west: true, ..pad(0) }, Gamepad { just_east: true, ..pad(1) }];
    assert_eq!(resolved(&no_keys(), &pads).action, [true, true]);
    assert_eq!(resolved(&no_keys(), &vec![pad(0), pad(1)]).action, [false, false]);
}

#[test]
fn movement_leaves_pause_and_back_alone() {
    let mut actions = Actions { pause: true, back: true, ..Actions::default() };
    set_movement_actions(&mut actions, &no_keys(), &vec![]);
    assert!(actions.pause && actions.back);
}

#[test]
fn pause_comes_from_escape_or_start() {
    let mut actions = Actions { pause: true, jump: [true, false], ..Actions::default() };
    set_pause_actions(&mut actions, &no_keys(), &vec![pad(0)]);
    assert_eq!(actions, Actions { jump: [true, false], ..Actions::default() });
    set_pause_actions(&mut actions, &Keyboard { escape: true, ..no_keys() }, &vec![]);
    assert!(actions.pause);
    set_pause_actions(
        &mut actions,
        &no_keys(),
        &vec![pad(0), Gamepad { just_start: true, ..pad(1) }, pad(0)],
    );
    assert!(actions.pause);
    set_pause_actions(&mut actions, &no_keys(), &vec![Gamepad { just_east: true, ..pad(1) }]);
    assert!(!actions.pause);
}

#[test]
fn back_comes_from_escape_or_east() {
    let mut actions = Actions::default();
    set_back_actions(&mut actions, &Keyboard { escape: true, ..no_keys() }, &vec![]);
    assert!(actions.back);
    set_back_actions(&mut actions, &no_keys(), &vec![Gamepad { just_start: true, ..pad(0) }]);
    assert!(!actions.back);
    set_back_actions(&mut actions, &no_keys(), &vec![pad(1), Gamepad { just_east: true, ..pad(0) }]);
    assert_eq!(actions, Actions { back: true, ..Actions::default() });
}
