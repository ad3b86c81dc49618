//! Frame stepping for sprites laid out in the rows of a sheet.

use crate::actor::timer_after;
use vstd::prelude::*;

verus! {

/// Steps a sprite through the frames of one row of its sheet. Frames are
/// counted through the whole sheet, row after row; `start_frame` and
/// `end_frame` are the first and last frame of the row being played.
/// `seconds_per_frame` and `frame_timer` are in microseconds, and a progress
/// is in thousandths of the row's length.
#[derive(Clone, Copy, Debug, PartialEq, Eq)]
pub struct SpriteAnimator {
    pub start_frame: usize,
    pub end_frame: usize,
    pub row_length: usize,
    pub seconds_per_frame: u64,
    pub frame_timer: u64,
    pub should_loop: bool,
    pub playing: bool,
    pub restart_anim: bool,
    pub progress_override: Option<u64>,
}

/// The frame, counted from the start of the row, that lies `progress`
/// thousandths into a row of `row_length` frames.
pub open spec fn frame_at(row_length: usize, progress: u64) -> int {
    (row_length * progress) / 1000
}

/// How long the frame at `progress` has been shown already, where a frame is
/// shown for `seconds_per_frame`. It stops at the end of the clock's range.
pub open spec fn time_into_frame(row_length: usize, progress: u64, seconds_per_frame: u64) -> u64 {
    let spent = (((row_length * progress) % 1000) * seconds_per_frame) / 1000;
    if spent > u64::MAX {
        u64::MAX
    } else {
        spent as u64
    }
}

impl SpriteAnimator {
    /// The row being played has a first frame that is not after its last.
    pub open spec fn well_formed(self) -> bool {
        self.start_frame <= self.end_frame
    }

    /// The animator turned to row `row_index` of the sheet. A row other
    /// than the one being played is to be played from its first frame; the
    /// row being played goes on as it is.
    pub open spec fn at_row(self, row_index: usize) -> SpriteAnimator {
        if self.start_frame == row_index * self.row_length {
            self
        } else {
            SpriteAnimator {
                start_frame: (row_index * self.row_length) as usize,
                end_frame: ((row_index + 1) * self.row_length - 1) as usize,
                restart_anim: true,
                ..self
            }
        }
    }

    /// Whether a step of `dt` moves on to another frame: a restart is due,
    /// or the frame has been shown for longer than its time.
    pub open spec fn frame_is_due(self, dt: u64) -> bool {
        self.restart_anim || timer_after(self.frame_timer, dt) > self.seconds_per_frame
    }

    /// The frame that follows frame `index` of the sprite: the next one, or
    /// the first of the row after its last and when a restart is due.
    pub open spec fn frame_after(self, index: usize) -> usize {
        if self.restart_anim || index >= self.end_frame {
            self.start_frame
        } else {
            (index + 1) as usize
        }
    }

    /// The frame that a sprite at frame `index` shows after a step of `dt`.
    /// A progress that was asked for is shown, held to the row. Otherwise,
    /// while the animator plays, the sprite moves on when the frame is due.
    pub open spec fn shown_after(self, index: usize, dt: u64) -> usize {
        match self.progress_override {
            Some(t) => if self.start_frame + frame_at(self.row_length, t) > self.end_frame {
                self.end_frame
            } else {
                (self.start_frame + frame_at(self.row_length, t)) as usize
            },
            None => if self.playing && self.frame_is_due(dt) {
                self.frame_after(index)
            } else {
                index
            },
        }
    }

    /// The animator after a step of `dt`, for a sprite at frame `index`. A
    /// progress that was asked for is forgotten once shown. Otherwise, while
    /// the animator plays, its clock runs and starts again with each new
    /// frame, and an animator that does not loop stops when it comes to the
    /// last frame of its row.
    pub open spec fn stepped(self, index: usize, dt: u64) -> SpriteAnimator {
        match self.progress_override {
            Some(t) => SpriteAnimator {
                frame_timer: time_into_frame(self.row_length, t, self.seconds_per_frame),
                progress_override: None,
                ..self
            },
            None => if !self.playing {
                self
            } else if self.frame_is_due(dt) {
                SpriteAnimator {
                    frame_timer: 0,
                    restart_anim: false,
                    playing: self.should_loop || self.frame_after(index) != self.end_frame,
                    ..self
                }
            } else {
                SpriteAnimator { frame_timer: timer_after(self.frame_timer, dt), ..self }
            },
        }
    }

    /// An animator that plays the frames from `start_frame` to `end_frame`
    /// of a sheet with `row_length` frames to the row.
    pub fn new(
        start_frame: usize,
        end_frame: usize,
        row_length: usize,
        seconds_per_frame: u64,
        should_loop: bool,
    ) -> (animator: SpriteAnimator)
        ensures
            animator == (SpriteAnimator {
                start_frame,
                end_frame,
                row_length,
                seconds_per_frame,
                frame_timer: 0,
                should_loop,
                playing: true,
                restart_anim: false,
                progress_override: None,
            }),
    {
        SpriteAnimator {
            start_frame,
            end_frame,
            row_length,
            seconds_per_frame,
            frame_timer: 0,
            should_loop,
            playing: true,
            restart_anim: false,
            progress_override: None,
        }
    }

    pub fn _play(&mut self)
        ensures
            *final(self) == (SpriteAnimator { playing: true, ..*old(self) }),
    {
        self.playing = true;
    }

    pub fn _pause(&mut self)
        ensures
            *final(self) == (SpriteAnimator { playing: false, ..*old(self) }),
    {
        self.playing = false;
    }

    /// Turns to row `row_index` of the sheet. The first frame of that row
    /// must have a number; and to turn to another row than the one being
    /// played, the row must have frames and its last frame a number.
    pub fn set_row(&mut self, row_index: usize)
        requires
            row_index * old(self).row_length <= usize::MAX,
            old(self).start_frame != row_index * old(self).row_length ==> old(self).row_length
                >= 1 && (row_index + 1) * old(self).row_length <= usize::MAX,
        ensures
            *final(self) == old(self).at_row(row_index),
            old(self).well_formed() ==> final(self).well_formed(),
    {
        assert((row_index + 1) * self.row_length == row_index * self.row_length + self.row_length)
            by (nonlinear_arith);
        assert(row_index * self.row_length >= 0) by (nonlinear_arith);
        let new_start = row_index * self.row_length;
        if self.start_frame != new_start {
            self.start_frame = new_start;
            self.end_frame = self.start_frame + self.row_length - 1;
            self.restart_anim = true;
        }
    }

    /// Asks for the row to be shown `t` thousandths of the way through at
    /// the next step.
    pub fn _set_animation_progress(&mut self, t: u64)
        ensures
            *final(self) == (SpriteAnimator { progress_override: Some(t), ..*old(self) }),
    {
        self.progress_override = Some(t);
    }
}

/// Steps a sprite's animation by a tick of `dt`; `index` is the frame that
/// the sprite shows. To show a progress that was asked for, the row being
/// played must be well formed.
pub fn animate_sprite(animator: &mut SpriteAnimator, index: &mut usize, dt: u64)
    requires
        old(animator).progress_override is Some ==> old(animator).well_formed(),
    ensures
        *final(index) == old(animator).shown_after(*old(index), dt),
        *final(animator) == old(animator).stepped(*old(index), dt),
        old(animator).well_formed() ==> final(animator).well_formed(),
{
    match animator.progress_override {
        Some(t) => {
            let length: u128 = animator.row_length as u128;
            let along: u128 = t as u128;
            assert(length * along <= 0xffff_ffff_ffff_ffff * 0xffff_ffff_ffff_ffff)
                by (nonlinear_arith)
                requires
                    0 <= length <= 0xffff_ffff_ffff_ffff,
                    0 <= along <= 0xffff_ffff_ffff_ffff,
            ;
            let decimal: u128 = length * along;
            let frame: u128 = decimal / 1000;
            let room: usize = animator.end_frame - animator.start_frame;
            if frame > room as u128 {
                *index = animator.end_frame;
            } else {
                *index = animator.start_frame + frame as usize;
            }
            let part: u128 = decimal % 1000;
            let each: u128 = animator.seconds_per_frame as u128;
            assert(part * each <= 1000 * 0xffff_ffff_ffff_ffff) by (nonlinear_arith)
                requires
                    0 <= part <= 1000,
                    0 <= each <= 0xffff_ffff_ffff_ffff,
            ;
            let spent: u128 = (part * each) / 1000;
            if spent > u64::MAX as u128 {
                animator.frame_timer = u64::MAX;
            } else {
                animator.frame_timer = spent as u64;
            }
            animator.progress_override = None;
        },
        None => {
            if animator.playing {
                if dt > u64::MAX - animator.frame_timer {
                    animator.frame_timer = u64::MAX;
                } else {
                    animator.frame_timer = animator.frame_timer + dt;
                }
                if animator.restart_anim || animator.frame_timer > animator.seconds_per_frame {
                    animator.frame_timer = 0;
                    let next: usize = if animator.restart_anim || *index
                        >= animator.end_frame {
                        animator.start_frame
                    } else {
                        *index + 1
                    };
                    animator.restart_anim = false;
                    if !animator.should_loop && next == animator.end_frame {
                        animator.playing = false;
                    }
                    *index = next;
                }
            }
        },
    }
}

} // verus!
