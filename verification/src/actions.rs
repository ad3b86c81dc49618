//! What the players ask for, worked out from the state of the keys and the
//! gamepads.

use crate::fixed::{difference, difference_spec, sum, sum_spec, Vec2, UNIT};
use vstd::prelude::*;

verus! {

/// The square of the deflection, in millionths, above which a gamepad
/// counts as pushed.
pub const PUSHED: u128 = 100_000;

/// The four ways that the keys can point.
#[derive(Clone, Copy, Debug, PartialEq, Eq, Structural)]
pub enum GameControl {
    Up,
    Down,
    Left,
    Right,
}

/// The keys that the game listens to. For `q`, `e`, `m` and `escape` the
/// record says whether the key went down in this tick, for the others
/// whether the key is down.
#[derive(Clone, Copy, Debug, PartialEq, Eq)]
pub struct Keyboard {
    pub w: bool,
    pub a: bool,
    pub s: bool,
    pub d: bool,
    pub up: bool,
    pub down: bool,
    pub left: bool,
    pub right: bool,
    pub space: bool,
    pub q: bool,
    pub e: bool,
    pub m: bool,
    pub escape: bool,
}

/// A gamepad, as far as the game listens to it. `id` is the player whose
/// gamepad it is, `left_stick_x` how far its stick is pushed across, in
/// thousandths, if the stick can be read. For `just_west`, `just_east` and
/// `just_start` the record says whether the button went down in this tick,
/// for the others whether the button is down.
#[derive(Clone, Copy, Debug, PartialEq, Eq)]
pub struct Gamepad {
    pub id: usize,
    pub left_stick_x: Option<i64>,
    pub dpad_left: bool,
    pub dpad_right: bool,
    pub dpad_down: bool,
    pub dpad_up: bool,
    pub south: bool,
    pub just_west: bool,
    pub just_east: bool,
    pub just_start: bool,
}

/// What the players ask for this tick, each at its own place. A movement
/// runs from -1000 to 1000 along each axis.
#[derive(Clone, Copy, Debug, PartialEq, Eq)]
pub struct Actions {
    pub player_movement: [Vec2; 2],
    pub jump: [bool; 2],
    pub action: [bool; 2],
    pub pause: bool,
    pub back: bool,
}

impl Default for Actions {
    fn default() -> (actions: Actions)
        ensures
            actions.player_movement@ == seq![Vec2 { x: 0, y: 0 }, Vec2 { x: 0, y: 0 }],
            actions.jump@ == seq![false, false],
            actions.action@ == seq![false, false],
            !actions.pause,
            !actions.back,
    {
        let actions = Actions {
            player_movement: [Vec2 { x: 0, y: 0 }, Vec2 { x: 0, y: 0 }],
            jump: [false, false],
            action: [false, false],
            pause: false,
            back: false,
        };
        assert(actions.player_movement@ =~= seq![Vec2 { x: 0, y: 0 }, Vec2 { x: 0, y: 0 }]);
        assert(actions.jump@ =~= seq![false, false]);
        assert(actions.action@ =~= seq![false, false]);
        actions
    }
}

/// Whether one of the keys that point `control`'s way is down.
pub open spec fn control_pressed(control: GameControl, keys: Keyboard) -> bool {
    match control {
        GameControl::Up => keys.w || keys.up,
        GameControl::Down => keys.s || keys.down,
        GameControl::Left => keys.a || keys.left,
        GameControl::Right => keys.d || keys.right,
    }
}

/// The push along `control`'s way: full while one of its keys is down.
pub open spec fn movement_of(control: GameControl, keys: Keyboard) -> i64 {
    if control_pressed(control, keys) {
        UNIT
    } else {
        0
    }
}

/// The way the keys point: right less left, and up less down.
pub open spec fn keyboard_movement(keys: Keyboard) -> Vec2 {
    Vec2 {
        x: (movement_of(GameControl::Right, keys) - movement_of(GameControl::Left, keys)) as i64,
        y: (movement_of(GameControl::Up, keys) - movement_of(GameControl::Down, keys)) as i64,
    }
}

/// A movement with what one gamepad adds to it: the push of its stick
/// across, and a full push for each button of its pad that is down.
pub open spec fn pad_moved(movement: Vec2, pad: Gamepad) -> Vec2 {
    let stick = match pad.left_stick_x {
        Some(push) => push,
        None => 0,
    };
    let pushed = sum_spec(movement.x as int, stick as int);
    let lefted = if pad.dpad_left {
        difference_spec(pushed, UNIT as int)
    } else {
        pushed
    };
    let righted = if pad.dpad_right {
        sum_spec(lefted, UNIT as int)
    } else {
        lefted
    };
    let downed = if pad.dpad_down {
        difference_spec(movement.y as int, UNIT as int)
    } else {
        movement.y as int
    };
    let upped = if pad.dpad_up {
        sum_spec(downed, UNIT as int)
    } else {
        downed
    };
    Vec2 { x: righted as i64, y: upped as i64 }
}

/// The movement that the first `count` of the gamepads ask of `player`.
pub open spec fn gamepad_movement(pads: Seq<Gamepad>, player: usize, count: nat) -> Vec2
    decreases count,
{
    if count == 0 || count > pads.len() {
        Vec2 { x: 0, y: 0 }
    } else {
        let before = gamepad_movement(pads, player, (count - 1) as nat);
        if pads[count - 1].id == player {
            pad_moved(before, pads[count - 1])
        } else {
            before
        }
    }
}

/// Every gamepad belongs to one of the two players.
pub open spec fn pads_are_players(pads: Seq<Gamepad>) -> bool {
    forall|i: int| 0 <= i < pads.len() ==> (#[trigger] pads[i]).id < 2
}

/// The movement asked of a player: the way the keys point if they point
/// anywhere, else the way the gamepad is pushed if it is pushed far enough,
/// each at full length; and no movement otherwise.
pub open spec fn resolved(keys: Vec2, pad: Vec2) -> Vec2 {
    if keys != (Vec2 { x: 0, y: 0 }) {
        keys.normalize_spec()
    } else if pad.length_squared_spec() > PUSHED {
        pad.normalize_spec()
    } else {
        Vec2 { x: 0, y: 0 }
    }
}

/// The button of a gamepad that asks for a jump, or the buttons that ask to
/// grab.
pub open spec fn button_of(pad: Gamepad, for_jump: bool) -> bool {
    if for_jump {
        pad.south
    } else {
        pad.just_west || pad.just_east
    }
}

/// What the two players ask for once the gamepads from `from` on have been
/// heard, where `asked` is what they ask for so far. The gamepads are heard
/// in order, each for its own player, until one comes whose player asks
/// already.
pub open spec fn asked_from(asked: (bool, bool), pads: Seq<Gamepad>, for_jump: bool, from: int) -> (
    bool,
    bool,
)
    decreases pads.len() - from,
{
    if from < 0 || from >= pads.len() {
        asked
    } else {
        let pad = pads[from];
        if pad.id > 1 || (pad.id == 0 && asked.0) || (pad.id == 1 && asked.1) {
            asked
        } else if pad.id == 0 {
            asked_from((button_of(pad, for_jump), asked.1), pads, for_jump, from + 1)
        } else {
            asked_from((asked.0, button_of(pad, for_jump)), pads, for_jump, from + 1)
        }
    }
}

/// Whether a gamepad's start button went down in this tick.
pub open spec fn any_start(pads: Seq<Gamepad>) -> bool {
    exists|i: int| 0 <= i < pads.len() && (#[trigger] pads[i]).just_start
}

/// Whether a gamepad's east button went down in this tick.
pub open spec fn any_east(pads: Seq<Gamepad>) -> bool {
    exists|i: int| 0 <= i < pads.len() && (#[trigger] pads[i]).just_east
}

impl GameControl {
    /// Whether one of the keys that point this way is down.
    pub fn pressed(&self, keyboard_input: &Keyboard) -> (down: bool)
        ensures
            down == control_pressed(*self, *keyboard_input),
    {
        match self {
            GameControl::Up => keyboard_input.w || keyboard_input.up,
            GameControl::Down => keyboard_input.s || keyboard_input.down,
            GameControl::Left => keyboard_input.a || keyboard_input.left,
            GameControl::Right => keyboard_input.d || keyboard_input.right,
        }
    }
}

/// The push along `control`'s way.
pub fn get_movement(control: GameControl, keyinput: &Keyboard) -> (push: i64)
    ensures
        push == movement_of(control, *keyinput),
{
    if control.pressed(keyinput) {
        UNIT
    } else {
        0
    }
}

fn pad_move(movement: Vec2, pad: &Gamepad) -> (moved: Vec2)
    ensures
        moved == pad_moved(movement, *pad),
{
    let stick: i64 = match pad.left_stick_x {
        Some(push) => push,
        None => 0,
    };
    let mut x: i64 = sum(movement.x, stick);
    let mut y: i64 = movement.y;
    if pad.dpad_left {
        x = difference(x, UNIT);
    }
    if pad.dpad_right {
        x = sum(x, UNIT);
    }
    if pad.dpad_down {
        y = difference(y, UNIT);
    }
    if pad.dpad_up {
        y = sum(y, UNIT);
    }
    Vec2 { x, y }
}

/// The movement that the gamepads ask of each of the two players. Every
/// gamepad must belong to one of them.
pub fn get_gamepad_movement(gamepads: &Vec<Gamepad>) -> (movement: [Vec2; 2])
    requires
        pads_are_players(gamepads@),
    ensures
        movement@[0] == gamepad_movement(gamepads@, 0, gamepads@.len()),
        movement@[1] == gamepad_movement(gamepads@, 1, gamepads@.len()),
{
    let mut first = Vec2 { x: 0, y: 0 };
    let mut second = Vec2 { x: 0, y: 0 };
    let mut i: usize = 0;
    while i < gamepads.len()
        invariant
            i <= gamepads.len(),
            pads_are_players(gamepads@),
            first == gamepad_movement(gamepads@, 0, i as nat),
            second == gamepad_movement(gamepads@, 1, i as nat),
        decreases gamepads.len() - i,
    {
        let pad = &gamepads[i];
        if pad.id == 0 {
            first = pad_move(first, pad);
        } else {
            second = pad_move(second, pad);
        }
        i = i + 1;
    }
    [first, second]
}

fn resolve(keys: Vec2, pad: Vec2) -> (movement: Vec2)
    ensures
        movement == resolved(keys, pad),
{
    if keys.x != 0 || keys.y != 0 {
        keys.normalize()
    } else if pad.length_squared() > PUSHED {
        pad.normalize()
    } else {
        Vec2 { x: 0, y: 0 }
    }
}

fn hear(first: bool, second: bool, gamepads: &Vec<Gamepad>, for_jump: bool) -> (asked: (bool, bool))
    ensures
        asked == asked_from((first, second), gamepads@, for_jump, 0),
{
    let mut asked = (first, second);
    let mut i: usize = 0;
    while i < gamepads.len()
        invariant_except_break
            i <= gamepads.len(),
            asked_from((first, second), gamepads@, for_jump, 0) == asked_from(
                asked,
                gamepads@,
                for_jump,
                i as int,
            ),
        ensures
            asked == asked_from((first, second), gamepads@, for_jump, 0),
        decreases gamepads.len() - i,
    {
        let pad = &gamepads[i];
        if pad.id > 1 || (pad.id == 0 && asked.0) || (pad.id == 1 && asked.1) {
            break ;
        }
        let button = if for_jump {
            pad.south
        } else {
            pad.just_west || pad.just_east
        };
        if pad.id == 0 {
            asked = (button, asked.1);
        } else {
            asked = (asked.0, button);
        }
        i = i + 1;
    }
    asked
}

/// Says whether a pause is asked for: by the escape key, or by the start
/// button of a gamepad.
pub fn set_pause_actions(actions: &mut Actions, keyboard_input: &Keyboard, gamepads: &Vec<Gamepad>)
    ensures
        *final(actions) == (Actions {
            pause: keyboard_input.escape || any_start(gamepads@),
            ..*old(actions)
        }),
{
    let mut pause = keyboard_input.escape;
    let mut i: usize = 0;
    while i < gamepads.len() && !pause
        invariant
            i <= gamepads.len(),
            pause ==> keyboard_input.escape || any_start(gamepads@),
            !pause ==> !keyboard_input.escape && forall|k: int|
                0 <= k < i ==> !(#[trigger] gamepads[k]).just_start,
        decreases gamepads.len() - i,
    {
        pause = gamepads[i].just_start;
        if pause {
            assert(gamepads@[i as int].just_start);
        }
        i = i + 1;
    }
    actions.pause = pause;
}

/// Says whether the way back is asked for: by the escape key, or by the east
/// button of a gamepad.
pub fn set_back_actions(actions: &mut Actions, keyboard_input: &Keyboard, gamepads: &Vec<Gamepad>)
    ensures
        *final(actions) == (Actions {
            back: keyboard_input.escape || any_east(gamepads@),
            ..*old(actions)
        }),
{
    let mut back = keyboard_input.escape;
    let mut i: usize = 0;
    while i < gamepads.len() && !back
        invariant
            i <= gamepads.len(),
            back ==> keyboard_input.escape || any_east(gamepads@),
            !back ==> !keyboard_input.escape && forall|k: int|
                0 <= k < i ==> !(#[trigger] gamepads[k]).just_east,
        decreases gamepads.len() - i,
    {
        back = gamepads[i].just_east;
        if back {
            assert(gamepads@[i as int].just_east);
        }
        i = i + 1;
    }
    actions.back = back;
}

/// Works out what the two players ask for. The first player moves by the
/// keys and, while they point nowhere, by its gamepad; the second moves by
/// its gamepad. The first jumps by the space key and by the keys that point
/// up, grabs by `q` and `e`; the second grabs by `m`; and the gamepads are
/// heard for both. Every gamepad must belong to one of the two players.
pub fn set_movement_actions(
    actions: &mut Actions,
    keyboard_input: &Keyboard,
    gamepads: &Vec<Gamepad>,
)
    requires
        pads_are_players(gamepads@),
    ensures
        final(actions).player_movement@[0] == resolved(
            keyboard_movement(*keyboard_input),
            gamepad_movement(gamepads@, 0, gamepads@.len()),
        ),
        final(actions).player_movement@[1] == resolved(
            Vec2 { x: 0, y: 0 },
            gamepad_movement(gamepads@, 1, gamepads@.len()),
        ),
        (final(actions).jump@[0], final(actions).jump@[1]) == asked_from(
            (keyboard_input.space || keyboard_movement(*keyboard_input).y > 0, false),
            gamepads@,
            true,
            0,
        ),
        (final(actions).action@[0], final(actions).action@[1]) == asked_from(
            (keyboard_input.q || keyboard_input.e, keyboard_input.m),
            gamepads@,
            false,
            0,
        ),
        final(actions).pause == old(actions).pause,
        final(actions).back == old(actions).back,
{
    let gamepad_movement = get_gamepad_movement(gamepads);
    let keys = Vec2 {
        x: get_movement(GameControl::Right, keyboard_input) - get_movement(
            GameControl::Left,
            keyboard_input,
        ),
        y: get_movement(GameControl::Up, keyboard_input) - get_movement(
            GameControl::Down,
            keyboard_input,
        ),
    };
    let first = resolve(keys, gamepad_movement[0]);
    let second = resolve(Vec2 { x: 0, y: 0 }, gamepad_movement[1]);
    actions.player_movement = [first, second];
    let jump = hear(keyboard_input.space || keys.y > 0, false, gamepads, true);
    actions.jump = [jump.0, jump.1];
    let action = hear(keyboard_input.q || keyboard_input.e, keyboard_input.m, gamepads, false);
    actions.action = [action.0, action.1];
}

} // verus!
