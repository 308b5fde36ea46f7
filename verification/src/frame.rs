use vstd::prelude::*;

use crate::time::{max_nanos, Duration, NANOS_PER_SEC};

verus! {

/// Fixed updates of the world per second.
pub const FIXED_UPDATES_PER_SECOND: u32 = 50;

/// The time of one fixed update, in nanoseconds (1/50 s).
pub open spec fn fixed_update_nanos() -> nat {
    (NANOS_PER_SEC / FIXED_UPDATES_PER_SECOND) as nat
}

/// What a frame brings: the time since the previous frame, and how many
/// fixed updates of the world are due.
#[derive(Clone, Copy, Debug)]
pub struct FrameStep {
    pub delta_time: Duration,
    pub fixed_updates: u128,
}

/// Frame timing of the game loop: frames per second, and the time not yet
/// spent on fixed updates.
pub struct FrameClock {
    frames: u32,
    last_fps: u32,
    seconds_elapsed: u64,
    last_frame_time: Duration,
    ticks_elapsed: Duration,
}

/// The number of fixed updates that a backlog of `total` nanoseconds is
/// worth: updates run while more than one update's time is left.
pub open spec fn updates_due(total: nat) -> nat {
    if total == 0 {
        0
    } else {
        ((total - 1) / (fixed_update_nanos() as int)) as nat
    }
}

impl FrameClock {
    pub closed spec fn spec_frames(&self) -> u32 {
        self.frames
    }

    pub closed spec fn spec_last_fps(&self) -> u32 {
        self.last_fps
    }

    pub closed spec fn spec_seconds_elapsed(&self) -> u64 {
        self.seconds_elapsed
    }

    pub closed spec fn spec_last_frame_time(&self) -> Duration {
        self.last_frame_time
    }

    pub closed spec fn spec_backlog(&self) -> Duration {
        self.ticks_elapsed
    }

    /// The time of one fixed update (1/50 s).
    pub fn fixed_update_duration() -> (d: Duration)
        ensures
            d@ == fixed_update_nanos(),
    {
        Duration::new(0, NANOS_PER_SEC / FIXED_UPDATES_PER_SECOND)
    }

    /// A clock at the start of the game: no frame counted, no time passed.
    pub fn new() -> (clock: Self)
        ensures
            clock.spec_frames() == 0,
            clock.spec_last_fps() == 0,
            clock.spec_seconds_elapsed() == 0,
            clock.spec_last_frame_time()@ == 0,
            clock.spec_backlog()@ == 0,
    {
        FrameClock {
            frames: 0,
            last_fps: 0,
            seconds_elapsed: 0,
            last_frame_time: Duration::zero(),
            ticks_elapsed: Duration::zero(),
        }
    }

    /// The frames counted in the last full second.
    pub fn last_fps(&self) -> (fps: u32)
        ensures
            fps == self.spec_last_fps(),
    {
        self.last_fps
    }

    /// Whether `on_frame(current_time)` can run: time does not go back, the
    /// counters have room, and the backlog stays within a `Duration`.
    pub open spec fn can_frame(&self, current_time: Duration) -> bool {
        &&& self.spec_last_frame_time()@ <= current_time@
        &&& self.spec_frames() < u32::MAX
        &&& self.spec_seconds_elapsed() < u64::MAX
        &&& self.spec_backlog()@ + (current_time@ - self.spec_last_frame_time()@) <= max_nanos()
    }

    /// Whether `on_frame(current_time)` can run (see `can_frame`).
    pub fn accepts(&self, current_time: Duration) -> (b: bool)
        ensures
            b == self.can_frame(current_time),
    {
        if self.last_frame_time.gt(&current_time) || self.frames == u32::MAX || self.seconds_elapsed
            == u64::MAX {
            return false;
        }
        let delta = current_time.sub(self.last_frame_time);
        self.ticks_elapsed.fits_sum(&delta)
    }

    /// Counts a frame at `current_time` (the time since the game started).
    /// Once more than a whole further second has passed, the frames of that
    /// second become the frame rate and the count starts again. The time
    /// since the previous frame joins the backlog, from which one fixed
    /// update's time is taken for each fixed update due.
    pub fn on_frame(&mut self, current_time: Duration) -> (step: FrameStep)
        requires
            old(self).can_frame(current_time),
        ensures
            step.delta_time@ == current_time@ - old(self).spec_last_frame_time()@,
            final(self).spec_last_frame_time() == current_time,
            ({
                let new_second = current_time@ > (old(self).spec_seconds_elapsed() + 1) * (
                NANOS_PER_SEC as nat);
                &&& new_second ==> final(self).spec_last_fps() == old(self).spec_frames() + 1
                    && final(self).spec_frames() == 0 && final(self).spec_seconds_elapsed()
                    == old(self).spec_seconds_elapsed() + 1
                &&& !new_second ==> final(self).spec_last_fps() == old(self).spec_last_fps()
                    && final(self).spec_frames() == old(self).spec_frames() + 1
                    && final(self).spec_seconds_elapsed() == old(self).spec_seconds_elapsed()
            }),
            ({
                let total = old(self).spec_backlog()@ + step.delta_time@;
                &&& step.fixed_updates == updates_due(total)
                &&& final(self).spec_backlog()@ == total - step.fixed_updates
                    * fixed_update_nanos()
            }),
    {
        self.frames = self.frames + 1;
        let delta_time = current_time.sub(self.last_frame_time);
        let second_end = Duration::new(self.seconds_elapsed + 1, 0);
        if current_time.gt(&second_end) {
            self.last_fps = self.frames;
            self.frames = 0;
            self.seconds_elapsed = self.seconds_elapsed + 1;
        }
        self.last_frame_time = current_time;
        self.ticks_elapsed = self.ticks_elapsed.add(delta_time);
        let ghost total: nat = self.ticks_elapsed@;
        let ghost counters = (self.frames, self.last_fps, self.seconds_elapsed, self.last_frame_time);
        let fixed = Self::fixed_update_duration();
        let mut fixed_updates: u128 = 0;
        while self.ticks_elapsed.gt(&fixed)
            invariant
                fixed@ == fixed_update_nanos(),
                self.ticks_elapsed@ + fixed_updates * fixed_update_nanos() == total,
                total == 0 || self.ticks_elapsed@ > 0,
                total <= max_nanos(),
                counters == (self.frames, self.last_fps, self.seconds_elapsed, self.last_frame_time),
            decreases self.ticks_elapsed@,
        {
            self.ticks_elapsed = self.ticks_elapsed.sub(fixed);
            assert(fixed_updates < u128::MAX) by (nonlinear_arith)
                requires
                    fixed_updates * 20_000_000 <= total,
                    total <= max_nanos(),
                    max_nanos() == (u64::MAX as nat) * 1_000_000_000 + 999_999_999,
            ;
            fixed_updates = fixed_updates + 1;
        }
        proof {
            if total > 0 {
                vstd::arithmetic::div_mod::lemma_fundamental_div_mod_converse(
                    total - 1,
                    fixed_update_nanos() as int,
                    fixed_updates as int,
                    self.ticks_elapsed@ - 1,
                );
            }
        }
        FrameStep { delta_time, fixed_updates }
    }
}

/// Law: after a frame the backlog is never more than one fixed update's
/// time, and the fixed updates run plus the backlog account for all the time
/// that was owed.
pub proof fn lemma_backlog_bounded(total: nat)
    ensures
        total - updates_due(total) * fixed_update_nanos() <= fixed_update_nanos(),
        total - updates_due(total) * fixed_update_nanos() >= 0,
        total > 0 ==> total - updates_due(total) * fixed_update_nanos() > 0,
{
    assert(fixed_update_nanos() == 20_000_000);
    if total > 0 {
        let f = fixed_update_nanos() as int;
        vstd::arithmetic::div_mod::lemma_fundamental_div_mod(total - 1, f);
        vstd::arithmetic::div_mod::lemma_mod_bound(total - 1, f);
        vstd::arithmetic::div_mod::lemma_div_pos_is_pos(total - 1, f);
        vstd::arithmetic::mul::lemma_mul_is_commutative(f, (total - 1) / f);
    }
}

} // verus!
