//! Squash and stretch: a scale laid over an actor's sprite when it launches
//! or lands, which then eases back to rest. It follows what happens to the
//! actor and never acts back on its movement.

use crate::actor::{timer_after, ActorEvent, ActorStatus};
use crate::fixed::{
    blend, blend_spec, difference, difference_spec, held, product, product_spec, toward_zero,
    Vec2, UNIT,
};
use vstd::prelude::*;

verus! {

/// The phases the scale runs through.
#[derive(Clone, Copy, Debug, PartialEq, Eq, Structural)]
pub enum SquashStretchState {
    Restore,
    Squash,
    Stretch,
}

/// The squash and stretch of one sprite. Scales are factors in thousandths,
/// `base_scale` is the sprite's size at rest, times are in microseconds.
/// `state` is the phase in course, `state_time` the time spent in it, and
/// `from_pos` the scale at which it was entered.
#[derive(Clone, Copy, Debug, PartialEq, Eq)]
pub struct Squashy {
    pub base_scale: Vec2,
    pub restore_time: u64,
    pub squash_scale: Vec2,
    pub squash_time: u64,
    pub stretch_scale: Vec2,
    pub stretch_time: u64,
    pub state: Option<SquashStretchState>,
    pub state_time: u64,
    pub from_pos: Vec2,
}

/// How a sprite is to be drawn: at the size `custom_size`, in thousandths of
/// a pixel, and hung by the point that lies `anchor` from its centre, in
/// thousandths of its size.
#[derive(Clone, Copy, Debug, PartialEq, Eq)]
pub struct SquashFrame {
    pub custom_size: Vec2,
    pub anchor: Vec2,
}

/// The phase that follows `state` when its time is up.
pub open spec fn phase_after(state: Option<SquashStretchState>) -> Option<SquashStretchState> {
    match state {
        Some(SquashStretchState::Squash) => Some(SquashStretchState::Restore),
        Some(SquashStretchState::Stretch) => Some(SquashStretchState::Restore),
        Some(SquashStretchState::Restore) => None,
        None => None,
    }
}

/// The phase that an event starts, if it starts one.
pub open spec fn phase_of(event: Option<ActorEvent>) -> Option<SquashStretchState> {
    match event {
        Some(ActorEvent::Launched) => Some(SquashStretchState::Stretch),
        Some(ActorEvent::Landed) => Some(SquashStretchState::Squash),
        _ => None,
    }
}

impl Squashy {
    /// How long the phase in course lasts. At rest there is no end to wait
    /// for.
    pub open spec fn max_time(self) -> u64 {
        match self.state {
            Some(SquashStretchState::Restore) => self.restore_time,
            Some(SquashStretchState::Squash) => self.squash_time,
            Some(SquashStretchState::Stretch) => self.stretch_time,
            None => u64::MAX,
        }
    }

    /// The scale that the phase in course leads to.
    pub open spec fn end_pos(self) -> Vec2 {
        match self.state {
            Some(SquashStretchState::Squash) => self.squash_scale,
            Some(SquashStretchState::Stretch) => self.stretch_scale,
            _ => Vec2::one_spec(),
        }
    }

    /// The scale right now: on the straight line from `from_pos` to the end
    /// of the phase, as far along as `state_time` is of the phase's length.
    /// At rest it is one.
    pub open spec fn scale(self) -> Vec2 {
        if self.state is Some {
            Vec2 {
                x: blend_spec(
                    self.from_pos.x as int,
                    self.end_pos().x as int,
                    self.state_time as int,
                    self.max_time() as int,
                ) as i64,
                y: blend_spec(
                    self.from_pos.y as int,
                    self.end_pos().y as int,
                    self.state_time as int,
                    self.max_time() as int,
                ) as i64,
            }
        } else {
            Vec2::one_spec()
        }
    }

    /// The record once `next` has been entered: it starts from the scale of
    /// the moment, with no time spent.
    pub open spec fn changed(self, next: Option<SquashStretchState>) -> Squashy {
        Squashy { from_pos: self.scale(), state: next, state_time: 0, ..self }
    }

    /// The record once `event` has been seen.
    pub open spec fn after_event(self, event: Option<ActorEvent>) -> Squashy {
        if phase_of(event) is Some {
            self.changed(phase_of(event))
        } else {
            self
        }
    }

    /// The record `dt` later. At rest nothing moves. Otherwise the phase's
    /// clock runs on, and once it has reached the phase's length the next
    /// phase is entered.
    pub open spec fn advanced(self, dt: u64) -> Squashy {
        if self.state is Some {
            let run = Squashy { state_time: timer_after(self.state_time, dt), ..self };
            if run.state_time >= run.max_time() {
                run.changed(phase_after(run.state))
            } else {
                run
            }
        } else {
            self
        }
    }

    /// The record after `ticks` ticks of `dt` each.
    pub open spec fn advanced_by(self, ticks: nat, dt: u64) -> Squashy
        decreases ticks,
    {
        if ticks == 0 {
            self
        } else {
            self.advanced_by((ticks - 1) as nat, dt).advanced(dt)
        }
    }

    /// How the sprite is drawn right now. In a phase its size is the base
    /// size times the scale, and it hangs by a point moved down by half of
    /// what the scale adds to its height, so that its feet stay in place. At
    /// rest it has its base size and hangs by its centre.
    pub open spec fn frame(self) -> SquashFrame {
        if self.state is Some {
            SquashFrame {
                custom_size: Vec2 {
                    x: product_spec(self.scale().x as int, self.base_scale.x as int) as i64,
                    y: product_spec(self.scale().y as int, self.base_scale.y as int) as i64,
                },
                anchor: Vec2 {
                    x: 0,
                    y: (-toward_zero(difference_spec(self.scale().y as int, UNIT as int), 2)) as i64,
                },
            }
        } else {
            SquashFrame { custom_size: self.base_scale, anchor: Vec2 { x: 0, y: 0 } }
        }
    }

    /// The size at which the sprite is seen.
    pub open spec fn shown_size(self) -> Vec2 {
        self.frame().custom_size
    }

    fn get_current_state_max_time(&self) -> (time: u64)
        ensures
            time == self.max_time(),
    {
        match self.state {
            Some(SquashStretchState::Restore) => self.restore_time,
            Some(SquashStretchState::Squash) => self.squash_time,
            Some(SquashStretchState::Stretch) => self.stretch_time,
            None => u64::MAX,
        }
    }

    fn get_current_state_end_pos(&self) -> (pos: Vec2)
        ensures
            pos == self.end_pos(),
    {
        match self.state {
            Some(SquashStretchState::Squash) => self.squash_scale,
            Some(SquashStretchState::Stretch) => self.stretch_scale,
            _ => Vec2::one(),
        }
    }

    /// The scale right now.
    pub fn current_scale(&self) -> (scale: Vec2)
        ensures
            scale == self.scale(),
    {
        if self.state.is_some() {
            let end = self.get_current_state_end_pos();
            let length = self.get_current_state_max_time();
            Vec2 {
                x: blend(self.from_pos.x, end.x, self.state_time, length),
                y: blend(self.from_pos.y, end.y, self.state_time, length),
            }
        } else {
            Vec2::one()
        }
    }

    /// Enters `next`, starting from the scale of the moment.
    pub fn change_state(&mut self, next: Option<SquashStretchState>)
        ensures
            *final(self) == old(self).changed(next),
    {
        self.from_pos = self.current_scale();
        self.state = next;
        self.state_time = 0;
    }
}

/// Lets a sprite answer what happened to its actor this tick: a launch
/// stretches it, a landing squashes it, whatever phase it was in.
pub fn actor_squash_events(status: &ActorStatus, squish: &mut Squashy)
    ensures
        *final(squish) == old(squish).after_event(status.event),
{
    match status.event {
        Some(ActorEvent::Launched) => squish.change_state(Some(SquashStretchState::Stretch)),
        Some(ActorEvent::Landed) => squish.change_state(Some(SquashStretchState::Squash)),
        _ => {},
    }
}

/// Moves a sprite's squash and stretch on by a tick of `dt`.
pub fn squash_states(squish: &mut Squashy, dt: u64)
    ensures
        *final(squish) == old(squish).advanced(dt),
{
    match squish.state {
        Some(state) => {
            if dt > u64::MAX - squish.state_time {
                squish.state_time = u64::MAX;
            } else {
                squish.state_time = squish.state_time + dt;
            }
            if squish.state_time >= squish.get_current_state_max_time() {
                match state {
                    SquashStretchState::Restore => squish.change_state(None),
                    SquashStretchState::Squash => squish.change_state(
                        Some(SquashStretchState::Restore),
                    ),
                    SquashStretchState::Stretch => squish.change_state(
                        Some(SquashStretchState::Restore),
                    ),
                }
            }
        },
        None => {},
    }
}

/// How a sprite with squash and stretch is to be drawn right now. At rest
/// that is at its base size, hung by its centre.
pub fn squash_animation(squish: &Squashy) -> (frame: SquashFrame)
    ensures
        frame == squish.frame(),
        squish.state is None ==> frame == (SquashFrame {
            custom_size: squish.base_scale,
            anchor: Vec2 { x: 0, y: 0 },
        }),
{
    if squish.state.is_some() {
        let scale = squish.current_scale();
        let lift: i64 = difference(scale.y, UNIT) / 2;
        SquashFrame {
            custom_size: Vec2 {
                x: product(scale.x, squish.base_scale.x),
                y: product(scale.y, squish.base_scale.y),
            },
            anchor: Vec2 { x: 0, y: -lift },
        }
    } else {
        SquashFrame { custom_size: squish.base_scale, anchor: Vec2 { x: 0, y: 0 } }
    }
}

proof fn lemma_blend_starts_at_from(from: int, to: int, duration: int)
    requires
        i64::MIN <= from <= i64::MAX,
    ensures
        blend_spec(from, to, 0, duration) == from,
{
    if duration > 0 {
        let span = held(to - from);
        assert(span * 0 == 0) by (nonlinear_arith);
        assert(0int / duration == 0) by (nonlinear_arith)
            requires
                duration > 0,
        ;
    }
}

proof fn lemma_unit_scale_keeps_size(size: i64)
    ensures
        product_spec(UNIT as int, size as int) == size,
{
    assert(toward_zero(1000 * size, 1000) == size) by (nonlinear_arith);
}

/// A sprite at rest squashes when its actor lands: the squash starts with no
/// time spent, and the sprite is still seen at its base size.
pub proof fn lemma_landing_starts_squash(squish: Squashy)
    requires
        squish.state is None,
    ensures
        squish.after_event(Some(ActorEvent::Landed)).state == Some(SquashStretchState::Squash),
        squish.after_event(Some(ActorEvent::Landed)).state_time == 0,
        squish.after_event(Some(ActorEvent::Landed)).shown_size() == squish.base_scale,
{
    let next = squish.after_event(Some(ActorEvent::Landed));
    assert(next.from_pos == Vec2::one_spec());
    lemma_blend_starts_at_from(1000, next.end_pos().x as int, next.max_time() as int);
    lemma_blend_starts_at_from(1000, next.end_pos().y as int, next.max_time() as int);
    assert(next.scale() == Vec2::one_spec());
    lemma_unit_scale_keeps_size(squish.base_scale.x);
    lemma_unit_scale_keeps_size(squish.base_scale.y);
}

/// A sprite at rest is seen at its base size, and stays at rest as time
/// passes.
pub proof fn lemma_rest_shows_base_size(squish: Squashy, ticks: nat, dt: u64)
    requires
        squish.state is None,
    ensures
        squish.shown_size() == squish.base_scale,
        squish.advanced_by(ticks, dt) == squish,
    decreases ticks,
{
    if ticks > 0 {
        lemma_rest_shows_base_size(squish, (ticks - 1) as nat, dt);
    }
}

/// A phase lasts as long as its length says. Entered with no time spent, it
/// is still in course after each tick that leaves the time spent short of
/// its length, and gives way to the phase that follows it at the first tick
/// that does not; that phase then starts with no time spent.
pub proof fn lemma_phase_runs_its_length(squish: Squashy, ticks: nat, dt: u64)
    requires
        squish.state is Some,
        squish.state_time == 0,
        ticks * dt <= u64::MAX,
    ensures
        ticks * dt < squish.max_time() ==> {
            &&& squish.advanced_by(ticks, dt).state == squish.state
            &&& squish.advanced_by(ticks, dt).state_time == ticks * dt
        },
        ticks >= 1 && (ticks - 1) * dt < squish.max_time() <= ticks * dt ==> {
            &&& squish.advanced_by(ticks, dt).state == phase_after(squish.state)
            &&& squish.advanced_by(ticks, dt).state_time == 0
        },
    decreases ticks,
{
    if ticks > 0 {
        assert(ticks * dt == (ticks - 1) * dt + dt) by (nonlinear_arith);
        assert((ticks - 1) * dt >= 0) by (nonlinear_arith)
            requires
                ticks >= 1,
                dt >= 0,
        ;
        lemma_phase_runs_its_length(squish, (ticks - 1) as nat, dt);
        let before = squish.advanced_by((ticks - 1) as nat, dt);
        lemma_times_are_kept(squish, (ticks - 1) as nat, dt);
        if (ticks - 1) * dt < squish.max_time() {
            assert(before.max_time() == squish.max_time());
            assert(timer_after(before.state_time, dt) == ticks * dt);
        }
    } else {
        assert(ticks * dt == 0) by (nonlinear_arith)
            requires
                ticks == 0,
        ;
    }
}

/// From landing back to rest. A sprite at rest whose actor lands squashes;
/// at the first tick that brings the time spent to `squash_time` it starts
/// to restore; and at the first tick after that which brings the time spent
/// to `restore_time` it is at rest again, seen at its base size as it was
/// when it landed.
pub proof fn lemma_landing_returns_to_rest(
    squish: Squashy,
    squash_ticks: nat,
    restore_ticks: nat,
    dt: u64,
)
    requires
        squish.state is None,
        squash_ticks >= 1,
        restore_ticks >= 1,
        squash_ticks * dt <= u64::MAX,
        restore_ticks * dt <= u64::MAX,
        (squash_ticks - 1) * dt < squish.squash_time <= squash_ticks * dt,
        (restore_ticks - 1) * dt < squish.restore_time <= restore_ticks * dt,
    ensures
        ({
            let landed = squish.after_event(Some(ActorEvent::Landed));
            let restoring = landed.advanced_by(squash_ticks, dt);
            let rested = restoring.advanced_by(restore_ticks, dt);
            &&& landed.state == Some(SquashStretchState::Squash)
            &&& landed.state_time == 0
            &&& landed.shown_size() == squish.base_scale
            &&& restoring.state == Some(SquashStretchState::Restore)
            &&& restoring.state_time == 0
            &&& rested.state is None
            &&& rested.shown_size() == squish.base_scale
        }),
{
    let landed = squish.after_event(Some(ActorEvent::Landed));
    lemma_landing_starts_squash(squish);
    lemma_phase_runs_its_length(landed, squash_ticks, dt);
    let restoring = landed.advanced_by(squash_ticks, dt);
    lemma_times_are_kept(landed, squash_ticks, dt);
    lemma_phase_runs_its_length(restoring, restore_ticks, dt);
    lemma_times_are_kept(restoring, restore_ticks, dt);
}

/// Time changes the phase and the scale, never the tuning.
pub proof fn lemma_times_are_kept(squish: Squashy, ticks: nat, dt: u64)
    ensures
        squish.advanced_by(ticks, dt).base_scale == squish.base_scale,
        squish.advanced_by(ticks, dt).restore_time == squish.restore_time,
        squish.advanced_by(ticks, dt).squash_time == squish.squash_time,
        squish.advanced_by(ticks, dt).stretch_time == squish.stretch_time,
        squish.advanced_by(ticks, dt).squash_scale == squish.squash_scale,
        squish.advanced_by(ticks, dt).stretch_scale == squish.stretch_scale,
    decreases ticks,
{
    if ticks > 0 {
        lemma_times_are_kept(squish, (ticks - 1) as nat, dt);
    }
}

} // verus!
