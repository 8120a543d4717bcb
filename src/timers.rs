//! Entities that expire, shrines, and marker components.

use vstd::prelude::*;

verus! {

/// Component for things that expire after a given time.
#[derive(Clone, Copy, Debug, PartialEq, Eq, Structural)]
pub struct LimitedTimeOffer {
    /// Microseconds left; below zero means expired.
    pub time_left: i64,
}

/// Time left after counting down `dt`, stopping at the smallest `i64`.
pub open spec fn ticked_time(t: i64, dt: i64) -> i64 {
    if t - dt < i64::MIN {
        i64::MIN
    } else {
        (t - dt) as i64
    }
}

impl LimitedTimeOffer {
    pub fn new(time_left: i64) -> (r: Self)
        ensures
            r.time_left == time_left,
    {
        Self { time_left }
    }

    /// The time left.
    pub fn time_left(&self) -> (r: i64)
        ensures
            r == self.time_left,
    {
        self.time_left
    }

    /// The time left, to change in place.
    pub fn time_left_mut(&mut self) -> (r: &mut i64)
        ensures
            *r == old(self).time_left,
            final(self).time_left == *final(r),
    {
        &mut self.time_left
    }

    /// Count `dt` microseconds down (stopping at the smallest `i64`); true when
    /// less than nothing is left.
    pub fn tick(&mut self, dt: i64) -> (r: bool)
        requires
            dt >= 0,
        ensures
            final(self).time_left == ticked_time(old(self).time_left, dt),
            r == (final(self).time_left < 0),
    {
        self.time_left = if self.time_left < i64::MIN + dt { i64::MIN } else { self.time_left - dt };
        self.time_left < 0
    }
}

/// Component for shrines, which lead between levels.
#[derive(Clone, Copy, Debug, PartialEq, Eq, Structural)]
pub struct Shrine {
    /// The level this shrine leads to.
    pub level: u64,
}

impl Shrine {
    pub fn new(level: u64) -> (r: Self)
        ensures
            r.level == level,
    {
        Self { level }
    }
}

/// Marker for entities that aren't walls, more or less: things that can go in an
/// entity value on the spell stack.
#[derive(Clone, Copy, Debug, PartialEq, Eq, Structural)]
pub struct Animate;

} // verus!
