//! The three capability interfaces the driver consumes: a binary output
//! line, a blocking microsecond delay, and a monotonic clock.
//!
//! Each trait carries a ghost history, so that a contract over the driver can
//! state exactly which levels were driven, which hold times were requested
//! and which clock readings were taken. Physical implementations wrap the
//! target hardware; verified in-memory implementations live in
//! [`crate::recorder`].

use vstd::prelude::*;

verus! {

/// A single digital output line.
///
/// Setting the line is best-effort physical I/O: an implementation over real
/// hardware swallows its device errors, and the history records the levels
/// that were commanded.
pub trait OutputPin {
    /// The levels this line has been commanded to, in order, since creation.
    /// An implementation gives this its own meaning; the default says
    /// nothing, so the method contracts below are only dischargeable once it
    /// is overridden.
    open spec fn levels(&self) -> Seq<bool> {
        arbitrary()
    }

    /// Drives the line high.
    fn set_high(&mut self)
        ensures
            final(self).levels() == old(self).levels().push(true),
    ;

    /// Drives the line low.
    fn set_low(&mut self)
        ensures
            final(self).levels() == old(self).levels().push(false),
    ;
}

/// A blocking delay with microsecond resolution.
pub trait DelayUs {
    /// The hold times that have been requested, in order, since creation.
    /// An implementation gives this its own meaning; the default says
    /// nothing.
    open spec fn delays(&self) -> Seq<u16> {
        arbitrary()
    }

    /// Blocks for `us` microseconds.
    fn delay_us(&mut self, us: u16)
        ensures
            final(self).delays() == old(self).delays().push(us),
    ;
}

/// A monotonic clock counting microseconds in 64 bits.
///
/// Readings never decrease, and each reading is strictly later than the one
/// before it until the counter is exhausted: the clock advances between
/// queries. A 64-bit microsecond counter queried at most once per
/// microsecond satisfies this and cannot wrap within any realistic uptime.
pub trait InstantFn {
    /// The readings this clock has returned, in order, since creation.
    /// An implementation gives this its own meaning; the default says
    /// nothing.
    open spec fn readings(&self) -> Seq<u64> {
        arbitrary()
    }

    /// Returns the current time, in microseconds.
    fn now(&mut self) -> (t: u64)
        ensures
            final(self).readings() == old(self).readings().push(t),
            old(self).readings().len() > 0 ==> t >= old(self).readings().last(),
            old(self).readings().len() > 0 && old(self).readings().last() < u64::MAX ==> t > old(
                self,
            ).readings().last(),
    ;
}

} // verus!
