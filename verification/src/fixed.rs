//! Fixed-point quantities.
//!
//! Lengths, speeds, accelerations and scale factors are `i64` counts of
//! thousandths of a unit; times are `u64` counts of microseconds. Every
//! operation is total: a result that does not fit an `i64` is held at the end
//! of the range it left through, and a quotient is rounded toward zero.

use vstd::prelude::*;

verus! {

/// One whole unit, in thousandths.
pub const UNIT: i64 = 1000;

/// One second, in microseconds.
pub const SECOND: u64 = 1_000_000;

/// `x` held within the range of an `i64`.
pub open spec fn held(x: int) -> int {
    if x < i64::MIN {
        i64::MIN as int
    } else if x > i64::MAX {
        i64::MAX as int
    } else {
        x
    }
}

/// The quotient of `a` by a positive `d`, rounded toward zero.
pub open spec fn toward_zero(a: int, d: int) -> int {
    if a >= 0 {
        a / d
    } else {
        -((-a) / d)
    }
}

pub open spec fn sum_spec(a: int, b: int) -> int {
    held(a + b)
}

pub open spec fn difference_spec(a: int, b: int) -> int {
    held(a - b)
}

/// The product of two quantities in thousandths, itself in thousandths.
pub open spec fn product_spec(a: int, b: int) -> int {
    held(toward_zero(a * b, UNIT as int))
}

/// What a rate per second amounts to over `dt` microseconds.
pub open spec fn accrued_spec(rate: int, dt: int) -> int {
    held(toward_zero(rate * dt, SECOND as int))
}

/// The rate per second at which `delta` was covered in `dt` microseconds.
/// Over no time at all the rate is held at the end of the range on the side
/// of `delta`, and is zero for no `delta`.
pub open spec fn rate_spec(delta: int, dt: int) -> int {
    if dt > 0 {
        held(toward_zero(delta * SECOND, dt))
    } else if delta > 0 {
        i64::MAX as int
    } else if delta < 0 {
        i64::MIN as int
    } else {
        0
    }
}

/// The quotient of two quantities in thousandths, itself in thousandths. By
/// zero it is held at the end of the range on the side of `a`, and is zero
/// for no `a`.
pub open spec fn quotient_spec(a: int, b: int) -> int {
    if b > 0 {
        held(toward_zero(a * UNIT, b))
    } else if b < 0 {
        held(toward_zero(-(a * UNIT), -b))
    } else if a > 0 {
        i64::MAX as int
    } else if a < 0 {
        i64::MIN as int
    } else {
        0
    }
}

/// The point reached after `elapsed` of `duration` on the straight line from
/// `from` to `to`. It runs on past `to` when `elapsed` exceeds `duration`, and
/// stays at `from` when `duration` is zero.
pub open spec fn blend_spec(from: int, to: int, elapsed: int, duration: int) -> int {
    if duration > 0 {
        held(from + toward_zero(held(to - from) * elapsed, duration))
    } else {
        from
    }
}

/// `x` held within `[-limit, limit]`, for a `limit` that is not negative.
pub open spec fn within_spec(x: int, limit: int) -> int {
    if x < -limit {
        -limit
    } else if x > limit {
        limit
    } else {
        x
    }
}

/// Whether `r` is the whole part of the square root of `n`.
pub open spec fn is_root(n: int, r: int) -> bool {
    r >= 0 && r * r <= n < (r + 1) * (r + 1)
}

/// The whole part of the square root of `n`.
pub open spec fn root(n: nat) -> nat {
    choose|r: nat| is_root(n as int, r as int)
}

/// A number has one whole root and no more.
pub proof fn lemma_root_is_unique(n: int, a: int, b: int)
    by (nonlinear_arith)
    requires
        is_root(n, a),
        is_root(n, b),
    ensures
        a == b,
{
    if a < b {
        assert((a + 1) * (a + 1) <= b * b);
    }
    if b < a {
        assert((b + 1) * (b + 1) <= a * a);
    }
}

proof fn lemma_product_bounds(a: int, b: int, la: int, lb: int)
    by (nonlinear_arith)
    requires
        -la <= a <= la,
        -lb <= b <= lb,
    ensures
        -(la * lb) <= a * b <= la * lb,
{
}

proof fn lemma_quotient_bounds(a: int, d: int, l: int)
    by (nonlinear_arith)
    requires
        d > 0,
        -l <= a <= l,
    ensures
        -l <= toward_zero(a, d) <= l,
{
}

fn hold(x: i128) -> (r: i64)
    ensures
        r == held(x as int),
{
    if x < i64::MIN as i128 {
        i64::MIN
    } else if x > i64::MAX as i128 {
        i64::MAX
    } else {
        x as i64
    }
}

pub fn sum(a: i64, b: i64) -> (r: i64)
    ensures
        r == sum_spec(a as int, b as int),
{
    hold(a as i128 + b as i128)
}

pub fn difference(a: i64, b: i64) -> (r: i64)
    ensures
        r == difference_spec(a as int, b as int),
{
    hold(a as i128 - b as i128)
}

pub fn product(a: i64, b: i64) -> (r: i64)
    ensures
        r == product_spec(a as int, b as int),
{
    let x: i128 = a as i128;
    let y: i128 = b as i128;
    proof {
        lemma_product_bounds(x as int, y as int, 0x8000_0000_0000_0000, 0x8000_0000_0000_0000);
    }
    hold((x * y) / (UNIT as i128))
}

pub fn accrued(rate: i64, dt: u64) -> (r: i64)
    ensures
        r == accrued_spec(rate as int, dt as int),
{
    let x: i128 = rate as i128;
    let y: i128 = dt as i128;
    proof {
        lemma_product_bounds(x as int, y as int, 0x8000_0000_0000_0000, 0xffff_ffff_ffff_ffff);
    }
    hold((x * y) / (SECOND as i128))
}

pub fn rate(delta: i64, dt: u64) -> (r: i64)
    ensures
        r == rate_spec(delta as int, dt as int),
{
    if dt > 0 {
        let x: i128 = delta as i128;
        let y: i128 = SECOND as i128;
        proof {
            lemma_product_bounds(x as int, y as int, 0x8000_0000_0000_0000, 1_000_000);
        }
        hold((x * y) / (dt as i128))
    } else if delta > 0 {
        i64::MAX
    } else if delta < 0 {
        i64::MIN
    } else {
        0
    }
}

pub fn quotient(a: i64, b: i64) -> (r: i64)
    ensures
        r == quotient_spec(a as int, b as int),
{
    let x: i128 = a as i128;
    let y: i128 = UNIT as i128;
    proof {
        lemma_product_bounds(x as int, y as int, 0x8000_0000_0000_0000, 1000);
    }
    let scaled: i128 = x * y;
    if b > 0 {
        hold(scaled / (b as i128))
    } else if b < 0 {
        hold((-scaled) / (-(b as i128)))
    } else if a > 0 {
        i64::MAX
    } else if a < 0 {
        i64::MIN
    } else {
        0
    }
}

pub fn blend(from: i64, to: i64, elapsed: u64, duration: u64) -> (r: i64)
    ensures
        r == blend_spec(from as int, to as int, elapsed as int, duration as int),
{
    if duration > 0 {
        let span: i128 = difference(to, from) as i128;
        let e: i128 = elapsed as i128;
        proof {
            lemma_product_bounds(span as int, e as int, 0x8000_0000_0000_0000, 0xffff_ffff_ffff_ffff);
            lemma_quotient_bounds(
                span * e,
                duration as int,
                0x8000_0000_0000_0000int * 0xffff_ffff_ffff_ffffint,
            );
        }
        let step: i128 = (span * e) / (duration as i128);
        hold(from as i128 + step)
    } else {
        from
    }
}

fn size_of(x: i64) -> (r: u128)
    ensures
        r == x || r == -x,
        0 <= r <= 0x8000_0000_0000_0000,
{
    if x < 0 {
        (-(x as i128)) as u128
    } else {
        x as u128
    }
}

/// The whole part of the square root of `n`.
pub fn whole_root(n: u128) -> (r: u64)
    ensures
        is_root(n as int, r as int),
        r == root(n as nat),
{
    let mut low: u128 = 0;
    let mut high: u128 = 0x1_0000_0000_0000_0000;
    assert(low * low <= n) by (nonlinear_arith)
        requires
            low == 0,
            n >= 0,
    ;
    assert(high * high > n) by (nonlinear_arith)
        requires
            high == 0x1_0000_0000_0000_0000,
            n <= 0xffff_ffff_ffff_ffff_ffff_ffff_ffff_ffff,
    ;
    while high - low > 1
        invariant
            low < high <= 0x1_0000_0000_0000_0000,
            low * low <= n < high * high,
        decreases high - low,
    {
        let middle: u128 = low + (high - low) / 2;
        assert(middle * middle <= 0xffff_ffff_ffff_ffff * 0xffff_ffff_ffff_ffff)
            by (nonlinear_arith)
            requires
                0 <= middle <= 0xffff_ffff_ffff_ffff,
        ;
        if middle * middle <= n {
            low = middle;
        } else {
            high = middle;
        }
    }
    proof {
        assert(is_root(n as int, low as int));
        let chosen = root(n as nat);
        assert(is_root(n as int, chosen as int));
        lemma_root_is_unique(n as int, low as int, chosen as int);
    }
    low as u64
}

pub fn within(x: i64, limit: i64) -> (r: i64)
    requires
        limit >= 0,
    ensures
        r == within_spec(x as int, limit as int),
{
    if x < -limit {
        -limit
    } else if x > limit {
        limit
    } else {
        x
    }
}

/// A point or extent in the plane, in thousandths.
#[derive(Clone, Copy, Debug, PartialEq, Eq, Structural)]
pub struct Vec2 {
    pub x: i64,
    pub y: i64,
}

/// A point or extent in space, in thousandths.
#[derive(Clone, Copy, Debug, PartialEq, Eq, Structural)]
pub struct Vec3 {
    pub x: i64,
    pub y: i64,
    pub z: i64,
}

impl Vec2 {
    pub open spec fn one_spec() -> Vec2 {
        Vec2 { x: UNIT, y: UNIT }
    }

    /// The square of the vector's length, in millionths.
    pub open spec fn length_squared_spec(self) -> nat {
        (self.x * self.x + self.y * self.y) as nat
    }

    /// The vector of length one that points the same way; the vector of no
    /// length stays as it is.
    pub open spec fn normalize_spec(self) -> Vec2 {
        let length = root(self.length_squared_spec());
        if length == 0 {
            self
        } else {
            Vec2 {
                x: held(toward_zero(self.x * UNIT, length as int)) as i64,
                y: held(toward_zero(self.y * UNIT, length as int)) as i64,
            }
        }
    }

    pub fn length_squared(self) -> (r: u128)
        ensures
            r == self.length_squared_spec(),
    {
        let x: u128 = size_of(self.x);
        let y: u128 = size_of(self.y);
        assert(x * x == self.x * self.x && y * y == self.y * self.y) by (nonlinear_arith)
            requires
                x == self.x || x == -self.x,
                y == self.y || y == -self.y,
        ;
        assert(x * x <= 0x8000_0000_0000_0000 * 0x8000_0000_0000_0000 && y * y
            <= 0x8000_0000_0000_0000 * 0x8000_0000_0000_0000) by (nonlinear_arith)
            requires
                0 <= x <= 0x8000_0000_0000_0000,
                0 <= y <= 0x8000_0000_0000_0000,
        ;
        x * x + y * y
    }

    pub fn normalize(self) -> (r: Vec2)
        ensures
            r == self.normalize_spec(),
    {
        let length = whole_root(self.length_squared());
        if length == 0 {
            self
        } else {
            let unit: i128 = UNIT as i128;
            let x: i128 = self.x as i128;
            let y: i128 = self.y as i128;
            proof {
                lemma_product_bounds(x as int, unit as int, 0x8000_0000_0000_0000, 1000);
                lemma_product_bounds(y as int, unit as int, 0x8000_0000_0000_0000, 1000);
            }
            Vec2 { x: hold((x * unit) / (length as i128)), y: hold((y * unit) / (length as i128)) }
        }
    }

    /// The scale that leaves a size as it is.
    pub fn one() -> (r: Vec2)
        ensures
            r == Vec2::one_spec(),
    {
        Vec2 { x: UNIT, y: UNIT }
    }
}

impl Vec3 {
    pub open spec fn plus_spec(self, other: Vec3) -> Vec3 {
        Vec3 {
            x: sum_spec(self.x as int, other.x as int) as i64,
            y: sum_spec(self.y as int, other.y as int) as i64,
            z: sum_spec(self.z as int, other.z as int) as i64,
        }
    }

    pub fn plus(self, other: Vec3) -> (r: Vec3)
        ensures
            r == self.plus_spec(other),
    {
        Vec3 { x: sum(self.x, other.x), y: sum(self.y, other.y), z: sum(self.z, other.z) }
    }
}

} // verus!
