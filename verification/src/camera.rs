//! Fitting the camera's view inside the level that is being played.

use crate::fixed::{
    difference, difference_spec, held, product, product_spec, quotient, quotient_spec, sum,
    sum_spec, toward_zero, Vec2, UNIT,
};
use vstd::prelude::*;

verus! {

/// The step, in pixels, to which the height of the view is rounded when the
/// level is wider than the window.
pub const HEIGHT_STEP: i32 = 9;

/// The step, in pixels, to which the width of the view is rounded when the
/// level is not wider than the window.
pub const WIDTH_STEP: i32 = 16;

/// What is known of the window: its width over its height, in thousandths.
#[derive(Clone, Copy, Debug, PartialEq, Eq)]
pub struct WindowInfo {
    pub aspect_ratio: i64,
}

/// Where a level lies and how large it is, in pixels.
#[derive(Clone, Copy, Debug, PartialEq, Eq)]
pub struct LevelFrame {
    pub translation: Vec2,
    pub px_wid: i32,
    pub px_hei: i32,
}

/// The view of the camera: its size, and the place of its lower left
/// corner, in thousandths of a pixel.
#[derive(Clone, Copy, Debug, PartialEq, Eq)]
pub struct CameraView {
    pub width: i64,
    pub height: i64,
    pub translation: Vec2,
}

impl Default for WindowInfo {
    /// A window of sixteen to nine.
    fn default() -> (window: WindowInfo)
        ensures
            window == (WindowInfo { aspect_ratio: 1778 }),
    {
        WindowInfo { aspect_ratio: 1778 }
    }
}

/// The sum of the first `count` of `values`, held in range at every step.
pub open spec fn total(values: Seq<i64>, count: nat) -> int
    decreases count,
{
    if count == 0 || count > values.len() {
        0
    } else {
        sum_spec(total(values, (count - 1) as nat), values[count - 1] as int)
    }
}

/// The mean of `values`, rounded toward zero; zero where there are none.
pub open spec fn mean(values: Seq<i64>) -> int {
    if values.len() == 0 {
        0
    } else {
        toward_zero(total(values, values.len()), values.len() as int)
    }
}

/// The multiple of a positive `step` that is nearest to `length`, the one
/// farther from zero where two are as near; in thousandths.
pub open spec fn rounded_to(length: int, step: int) -> int {
    if length >= 0 {
        ((2 * length + step) / (2 * step)) * step * UNIT
    } else {
        -(((2 * (-length) + step) / (2 * step)) * step * UNIT)
    }
}

/// `value` held within `[0, limit]`, for a `limit` that is not negative.
pub open spec fn held_between(value: int, limit: int) -> int {
    if value < 0 {
        0
    } else if value > limit {
        limit
    } else {
        value
    }
}

/// Whether the level is wider for its height than the window. For a level
/// of some height this compares the level's width over its height with the
/// window's.
pub open spec fn is_wider(level: LevelFrame, window: WindowInfo) -> bool {
    level.px_wid * UNIT > window.aspect_ratio * level.px_hei
}

/// The width of the view.
pub open spec fn view_width(level: LevelFrame, window: WindowInfo) -> int {
    if is_wider(level, window) {
        product_spec(rounded_to(level.px_hei as int, HEIGHT_STEP as int), window.aspect_ratio as int)
    } else {
        rounded_to(level.px_wid as int, WIDTH_STEP as int)
    }
}

/// The height of the view.
pub open spec fn view_height(level: LevelFrame, window: WindowInfo) -> int {
    if is_wider(level, window) {
        rounded_to(level.px_hei as int, HEIGHT_STEP as int)
    } else {
        quotient_spec(rounded_to(level.px_wid as int, WIDTH_STEP as int), window.aspect_ratio as int)
    }
}

/// How far the view can slide inside the level, along the side on which the
/// level is the longer.
pub open spec fn slack(level: LevelFrame, window: WindowInfo) -> int {
    if is_wider(level, window) {
        level.px_wid * UNIT - view_width(level, window)
    } else {
        level.px_hei * UNIT - view_height(level, window)
    }
}

/// Whether the view has room in the level.
pub open spec fn view_fits(level: LevelFrame, window: WindowInfo) -> bool {
    slack(level, window) >= 0
}

/// The view that follows the players inside the level. It is as high as the
/// level, or as wide, to the nearest step; along the other side it is
/// centred on the middle of the players as far as the level's edges allow.
pub open spec fn fitted(
    across: Seq<i64>,
    along: Seq<i64>,
    level: LevelFrame,
    window: WindowInfo,
) -> CameraView {
    let width = view_width(level, window);
    let height = view_height(level, window);
    if is_wider(level, window) {
        let left = difference_spec(
            difference_spec(mean(across), level.translation.x as int),
            toward_zero(width, 2),
        );
        CameraView {
            width: width as i64,
            height: height as i64,
            translation: Vec2 {
                x: sum_spec(
                    held_between(left, slack(level, window)),
                    level.translation.x as int,
                ) as i64,
                y: level.translation.y,
            },
        }
    } else {
        let low = difference_spec(
            difference_spec(mean(along), level.translation.y as int),
            toward_zero(height, 2),
        );
        CameraView {
            width: width as i64,
            height: height as i64,
            translation: Vec2 {
                x: level.translation.x,
                y: sum_spec(
                    held_between(low, slack(level, window)),
                    level.translation.y as int,
                ) as i64,
            },
        }
    }
}

fn mean_of(values: &Vec<i64>) -> (r: i64)
    ensures
        r == mean(values@),
{
    if values.len() == 0 {
        return 0;
    }
    let mut sum_so_far: i64 = 0;
    let mut i: usize = 0;
    while i < values.len()
        invariant
            i <= values.len(),
            sum_so_far == total(values@, i as nat),
        decreases values.len() - i,
    {
        sum_so_far = sum(sum_so_far, values[i]);
        i = i + 1;
    }
    let count: i128 = values.len() as i128;
    let r: i128 = (sum_so_far as i128) / count;
    proof {
        assert(-0x8000_0000_0000_0000 <= toward_zero(sum_so_far as int, count as int)
            <= 0x7fff_ffff_ffff_ffff) by (nonlinear_arith)
            requires
                count >= 1,
                -0x8000_0000_0000_0000 <= sum_so_far <= 0x7fff_ffff_ffff_ffff,
        ;
    }
    r as i64
}

fn round_to(length: i32, step: i32) -> (r: i64)
    requires
        0 < step <= 16,
    ensures
        r == rounded_to(length as int, step as int),
{
    let size: i64 = length as i64;
    let by: i64 = step as i64;
    if size >= 0 {
        let steps: i64 = (2 * size + by) / (2 * by);
        assert(0 <= steps * by <= 0x1_0000_0000 * 16) by (nonlinear_arith)
            requires
                steps == (2 * size + by) / (2 * by),
                0 <= size <= 0x8000_0000,
                0 < by <= 16,
        ;
        steps * by * UNIT
    } else {
        let steps: i64 = (2 * (-size) + by) / (2 * by);
        assert(0 <= steps * by <= 0x1_0000_0000 * 16) by (nonlinear_arith)
            requires
                steps == (2 * (-size) + by) / (2 * by),
                0 <= -size <= 0x8000_0000,
                0 < by <= 16,
        ;
        -(steps * by * UNIT)
    }
}

fn wider(level: &LevelFrame, window: &WindowInfo) -> (r: bool)
    ensures
        r == is_wider(*level, *window),
{
    let wide: i128 = in_thousandths(level.px_wid);
    let ratio: i128 = window.aspect_ratio as i128;
    let high: i128 = level.px_hei as i128;
    assert(-0x8000_0000_0000_0000 * 0x8000_0000 <= ratio * high <= 0x8000_0000_0000_0000
        * 0x8000_0000) by (nonlinear_arith)
        requires
            -0x8000_0000_0000_0000 <= ratio <= 0x8000_0000_0000_0000,
            -0x8000_0000 <= high <= 0x8000_0000,
    ;
    wide > ratio * high
}

fn size_of(level: &LevelFrame, window: &WindowInfo) -> (size: (i64, i64))
    ensures
        size.0 == view_width(*level, *window),
        size.1 == view_height(*level, *window),
{
    if wider(level, window) {
        let height = round_to(level.px_hei, HEIGHT_STEP);
        (product(height, window.aspect_ratio), height)
    } else {
        let width = round_to(level.px_wid, WIDTH_STEP);
        (width, quotient(width, window.aspect_ratio))
    }
}

fn in_thousandths(pixels: i32) -> (r: i128)
    ensures
        r == pixels * UNIT,
{
    let many: i128 = pixels as i128;
    assert(-0x8000_0000 * 1000 <= many * 1000 <= 0x8000_0000 * 1000) by (nonlinear_arith)
        requires
            -0x8000_0000 <= many <= 0x8000_0000,
    ;
    many * 1000
}

fn slack_of(level: &LevelFrame, window: &WindowInfo) -> (r: i128)
    ensures
        r == slack(*level, *window),
{
    let size = size_of(level, window);
    if wider(level, window) {
        in_thousandths(level.px_wid) - size.0 as i128
    } else {
        in_thousandths(level.px_hei) - size.1 as i128
    }
}

/// Whether the camera's view has room in the level.
pub fn camera_fits(level: &LevelFrame, window: &WindowInfo) -> (fits: bool)
    ensures
        fits == view_fits(*level, *window),
{
    slack_of(level, window) >= 0
}

fn hold_between(value: i64, limit: i128) -> (r: i64)
    requires
        limit >= 0,
    ensures
        r == held_between(value as int, limit as int),
{
    if value < 0 {
        0
    } else if value as i128 > limit {
        limit as i64
    } else {
        value
    }
}

/// Fits the camera's view inside a level so that it follows the players.
/// `across` and `along` hold the players' places across and up the world.
/// The view must have room in the level.
pub fn camera_fit_inside_current_level(
    across: &Vec<i64>,
    along: &Vec<i64>,
    level: &LevelFrame,
    window: &WindowInfo,
) -> (view: CameraView)
    requires
        view_fits(*level, *window),
    ensures
        view == fitted(across@, along@, *level, *window),
{
    let size = size_of(level, window);
    let room = slack_of(level, window);
    if wider(level, window) {
        let left = difference(difference(mean_of(across), level.translation.x), size.0 / 2);
        CameraView {
            width: size.0,
            height: size.1,
            translation: Vec2 {
                x: sum(hold_between(left, room), level.translation.x),
                y: level.translation.y,
            },
        }
    } else {
        let low = difference(difference(mean_of(along), level.translation.y), size.1 / 2);
        CameraView {
            width: size.0,
            height: size.1,
            translation: Vec2 {
                x: level.translation.x,
                y: sum(hold_between(low, room), level.translation.y),
            },
        }
    }
}

} // verus!
