use vstd::prelude::*;

use crate::game::GameMode;
use crate::time::Duration;

verus! {

/// The part of a grounded-state step that is about time and jumping: when
/// the character was last seen leaving the ground, and what becomes of its
/// right to jump (`Some(b)`: it is set to `b`; `None`: it stays as it was).
#[derive(Clone, Copy, Debug, PartialEq, Eq, Structural)]
pub struct GroundUpdate {
    pub last_grounded_time: Option<Duration>,
    pub can_jump: Option<bool>,
}

/// Steps the world at a fixed tick.
pub struct PhysicsSystem {
    tick_duration: Duration,
    ticks_elapsed: u64,
}

/// How long after leaving the ground a character may still jump, in
/// nanoseconds (300 ms).
pub open spec fn coyote_nanos() -> nat {
    300_000_000
}

impl PhysicsSystem {
    pub closed spec fn spec_tick_duration(&self) -> Duration {
        self.tick_duration
    }

    pub closed spec fn spec_ticks_elapsed(&self) -> u64 {
        self.ticks_elapsed
    }

    /// A system that steps the world every `tick_duration`, with no tick
    /// done yet.
    pub fn new(tick_duration: Duration) -> (system: Self)
        ensures
            system.spec_tick_duration() == tick_duration,
            system.spec_ticks_elapsed() == 0,
    {
        PhysicsSystem { tick_duration, ticks_elapsed: 0 }
    }

    /// The time of one tick.
    pub fn tick_duration(&self) -> (d: Duration)
        ensures
            d == self.spec_tick_duration(),
    {
        self.tick_duration
    }

    /// The number of ticks done.
    pub fn ticks_elapsed(&self) -> (n: u64)
        ensures
            n == self.spec_ticks_elapsed(),
    {
        self.ticks_elapsed
    }

    /// The time after leaving the ground during which a jump is still allowed.
    pub fn coyote_time() -> (d: Duration)
        ensures
            d@ == coyote_nanos(),
    {
        Duration::from_millis(300)
    }

    /// Starts a tick of the world: while a popup is shown the world stands
    /// still (nothing changes, `false`); otherwise one more tick is counted
    /// and `true` says that the tick proceeds.
    pub fn begin_update(&mut self, game_mode: GameMode) -> (proceeds: bool)
        requires
            game_mode == GameMode::STANDARD ==> old(self).spec_ticks_elapsed() < u64::MAX,
        ensures
            proceeds == (game_mode == GameMode::STANDARD),
            final(self).spec_tick_duration() == old(self).spec_tick_duration(),
            final(self).spec_ticks_elapsed() == (if proceeds {
                old(self).spec_ticks_elapsed() + 1
            } else {
                old(self).spec_ticks_elapsed() as int
            }),
    {
        if game_mode == GameMode::POPUP {
            return false;
        }
        self.ticks_elapsed = self.ticks_elapsed + 1;
        true
    }

    /// Whether `ground_step` can run: a character in the air has not left
    /// the ground after `current_time`.
    pub open spec fn can_ground_step(
        last_grounded_time: Option<Duration>,
        is_grounded: bool,
        current_time: Duration,
    ) -> bool {
        !is_grounded && last_grounded_time is Some ==> last_grounded_time->0@ <= current_time@
    }

    /// The jump bookkeeping of a tick. A character on the ground forgets
    /// when it left the ground and may jump. A character in the air keeps
    /// the time it left the ground (now, if it had none), and loses its jump
    /// once more than the coyote time has passed since then.
    pub fn ground_step(
        last_grounded_time: Option<Duration>,
        is_grounded: bool,
        current_time: Duration,
    ) -> (update: GroundUpdate)
        requires
            Self::can_ground_step(last_grounded_time, is_grounded, current_time),
        ensures
            is_grounded ==> update == (GroundUpdate {
                last_grounded_time: None,
                can_jump: Some(true),
            }),
            !is_grounded ==> {
                let start = match last_grounded_time {
                    Some(t) => t,
                    None => current_time,
                };
                &&& update.last_grounded_time == Some(start)
                &&& update.can_jump == (if current_time@ - start@ > coyote_nanos() {
                    Some(false)
                } else {
                    None
                })
            },
    {
        if is_grounded {
            GroundUpdate { last_grounded_time: None, can_jump: Some(true) }
        } else {
            let start = match last_grounded_time {
                Some(t) => t,
                None => current_time,
            };
            let airborne = current_time.sub(start);
            let can_jump = if airborne.gt(&Self::coyote_time()) {
                Some(false)
            } else {
                None
            };
            GroundUpdate { last_grounded_time: Some(start), can_jump }
        }
    }
}

} // verus!
