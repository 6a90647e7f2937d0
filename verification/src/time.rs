//! Deterministic time values used by the game engine. Durations are given in
//! milliseconds.

use vstd::prelude::*;

verus! {

/// Milliseconds elapsed since a room started.
#[derive(Debug, Clone, Copy, PartialEq, Eq, Hash, Structural)]
pub struct GameTime(pub u64);

/// Millisecond deadline in the room's monotonic time domain.
#[derive(Debug, Clone, Copy, PartialEq, Eq, Hash, Structural)]
pub struct GameDeadline(pub u64);

/// A millisecond count clamped to `u64`.
pub open spec fn clamp_millis(ms: u128) -> u64 {
    if ms > u64::MAX as u128 {
        u64::MAX
    } else {
        ms as u64
    }
}

/// Saturating `u64` addition.
pub open spec fn sat_add(a: u64, b: u64) -> u64 {
    if a as int + b as int > u64::MAX as int {
        u64::MAX
    } else {
        (a + b) as u64
    }
}

impl Default for GameTime {
    fn default() -> (t: Self)
        ensures
            t == GameTime(0),
    {
        GameTime(0)
    }
}

impl GameTime {
    /// Converts a duration in milliseconds into a saturating time value.
    pub fn from_duration(duration_ms: u128) -> (t: GameTime)
        ensures
            t.0 == clamp_millis(duration_ms),
    {
        if duration_ms > u64::MAX as u128 {
            GameTime(u64::MAX)
        } else {
            GameTime(duration_ms as u64)
        }
    }

    /// Advances time by a duration in milliseconds without overflowing.
    pub fn saturating_add(self, duration_ms: u128) -> (t: GameTime)
        ensures
            t.0 == sat_add(self.0, clamp_millis(duration_ms)),
    {
        let delta = if duration_ms > u64::MAX as u128 {
            u64::MAX
        } else {
            duration_ms as u64
        };
        GameTime(self.0.saturating_add(delta))
    }
}

impl GameDeadline {
    /// Constructs a deadline `duration_ms` after `now`, saturating.
    pub fn after(now: GameTime, duration_ms: u128) -> (d: GameDeadline)
        ensures
            d.0 == sat_add(now.0, clamp_millis(duration_ms)),
    {
        GameDeadline(now.saturating_add(duration_ms).0)
    }

    /// Returns whether the deadline has elapsed.
    pub fn is_due(self, now: GameTime) -> (r: bool)
        ensures
            r == (now.0 >= self.0),
    {
        now.0 >= self.0
    }

    /// Returns the time remaining before this deadline.
    pub fn remaining_ms(self, now: GameTime) -> (r: u64)
        ensures
            r == (if self.0 >= now.0 {
                (self.0 - now.0) as u64
            } else {
                0
            }),
    {
        self.0.saturating_sub(now.0)
    }

    /// The earlier of two deadlines.
    pub fn min(self, other: GameDeadline) -> (r: GameDeadline)
        ensures
            r.0 == (if self.0 <= other.0 {
                self.0
            } else {
                other.0
            }),
    {
        if self.0 <= other.0 {
            self
        } else {
            other
        }
    }
}

/// Milliseconds since the Unix epoch read from the system clock
/// (`SystemTime::now`), or zero when the clock reads earlier than the epoch.
/// Nothing is stated of the reading.
#[verifier::external_body]
fn system_clock_millis() -> u128 {
    match std::time::SystemTime::now().duration_since(std::time::UNIX_EPOCH) {
        Ok(duration) => duration.as_millis(),
        Err(_) => 0,
    }
}

/// The wall-clock time in Unix milliseconds: the system clock's reading,
/// saturated at `u64::MAX` by `duration_milliseconds`. Nothing can be stated
/// of the reading itself.
pub fn unix_milliseconds() -> u64 {
    crate::server::duration_milliseconds(system_clock_millis())
}

} // verus!
