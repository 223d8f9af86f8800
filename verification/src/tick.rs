//! Change ticks.
//!
//! Ticks count system runs modulo 2^32, so two of them can only be compared while
//! neither is too old. Ticks are therefore checked from time to time, and one that has
//! grown too old is moved up to the oldest age that still compares.

use vstd::prelude::*;

verus! {

/// The greatest age that a tick may have: `u32::MAX - (2 * 518_400_000 - 1)`.
pub const MAX_CHANGE_AGE: u32 = 3_258_167_296;

/// A point in the count of system runs.
#[derive(Copy, Clone, Debug, PartialEq, Eq, Structural, Hash)]
pub struct Tick {
    /// The count, modulo 2^32.
    pub tick: u32,
}

/// Asks for all stored ticks to be checked against the present one.
#[derive(Copy, Clone, Debug, PartialEq, Eq, Structural, Hash)]
pub struct CheckChangeTicks {
    /// The tick that ages are measured from.
    pub present: Tick,
}

/// `later - earlier` on the circle of 2^32 ticks.
pub open spec fn ticks_between(earlier: int, later: int) -> int {
    (later - earlier) % 0x1_0000_0000
}

impl Tick {
    /// How far the tick lies behind `present`.
    pub open spec fn age(self, present: Tick) -> int {
        ticks_between(self.tick as int, present.tick as int)
    }

    /// The tick after a check: itself, or where it was too old, the tick whose age is
    /// exactly [`MAX_CHANGE_AGE`].
    pub open spec fn checked(self, check: CheckChangeTicks) -> Tick {
        if self.age(check.present) > MAX_CHANGE_AGE {
            Tick { tick: ticks_between(MAX_CHANGE_AGE as int, check.present.tick as int) as u32 }
        } else {
            self
        }
    }

    /// Makes a tick out of its count.
    pub fn new(tick: u32) -> (t: Self)
        ensures
            t == (Tick { tick }),
    {
        Tick { tick }
    }

    /// The count of the tick.
    pub fn get(self) -> (tick: u32)
        ensures
            tick == self.tick,
    {
        self.tick
    }

    /// The tick as seen from `other`, wrapping around at 2^32.
    pub fn relative_to(self, other: Self) -> (distance: Self)
        ensures
            distance.tick == ticks_between(other.tick as int, self.tick as int),
            (distance.tick + other.tick) % 0x1_0000_0000 == self.tick,
    {
        Tick { tick: self.tick.wrapping_sub(other.tick) }
    }

    /// Moves the tick up if it has grown too old, and tells whether it had.
    pub fn check_tick(&mut self, check: CheckChangeTicks) -> (moved: bool)
        ensures
            *final(self) == old(self).checked(check),
            moved <==> old(self).age(check.present) > MAX_CHANGE_AGE,
    {
        let age = check.present_tick().relative_to(*self);
        if age.get() > MAX_CHANGE_AGE {
            *self = check.present_tick().relative_to(Tick::new(MAX_CHANGE_AGE));
            true
        } else {
            false
        }
    }
}

impl CheckChangeTicks {
    /// The tick that ages are measured from.
    pub fn present_tick(self) -> (present: Tick)
        ensures
            present == self.present,
    {
        self.present
    }
}

/// No tick is older than [`MAX_CHANGE_AGE`] after a check.
pub proof fn law_check_bounds_age(tick: Tick, check: CheckChangeTicks)
    ensures
        tick.checked(check).age(check.present) <= MAX_CHANGE_AGE,
{
}

/// A check leaves a tick that it has just checked as it is.
pub proof fn law_check_is_idempotent(tick: Tick, check: CheckChangeTicks)
    ensures
        tick.checked(check).checked(check) == tick.checked(check),
{
}

/// The age of a tick is the number of steps, fewer than 2^32, that lead from it to the
/// present.
pub proof fn law_age_leads_to_the_present(tick: Tick, present: Tick)
    ensures
        0 <= tick.age(present) < 0x1_0000_0000,
        (tick.tick + tick.age(present)) % 0x1_0000_0000 == present.tick,
{
}

/// A check leaves a tick alone unless it is too old, and gives one that is too old the
/// greatest age that a tick may have.
pub proof fn law_check_moves_only_old_ticks(tick: Tick, check: CheckChangeTicks)
    ensures
        MAX_CHANGE_AGE == u32::MAX - (2 * 518_400_000 - 1),
        (check.present.tick - tick.tick) % 0x1_0000_0000 <= MAX_CHANGE_AGE ==> tick.checked(check)
            == tick,
        (check.present.tick - tick.tick) % 0x1_0000_0000 > MAX_CHANGE_AGE ==> (
        check.present.tick - tick.checked(check).tick) % 0x1_0000_0000 == MAX_CHANGE_AGE,
{
}

} // verus!
