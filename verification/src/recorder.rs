//! Verified in-memory implementations of the capability traits: a pin and a
//! delay that record what the driver commands, and a clock that advances by a
//! fixed step at every reading. They make transmissions observable without
//! hardware.

use vstd::prelude::*;
use crate::capability::{DelayUs, InstantFn, OutputPin};

verus! {

/// An output line that records every level it is driven to.
pub struct PinRecorder {
    log: Vec<bool>,
}

impl PinRecorder {
    /// Creates a recorder with an empty history.
    pub fn new() -> (pin: PinRecorder)
        ensures
            pin.levels() == Seq::<bool>::empty(),
    {
        PinRecorder { log: Vec::new() }
    }

    /// The recorded levels, oldest first.
    pub fn log(&self) -> (log: &Vec<bool>)
        ensures
            log@ == self.levels(),
    {
        &self.log
    }
}

impl OutputPin for PinRecorder {
    closed spec fn levels(&self) -> Seq<bool> {
        self.log@
    }

    fn set_high(&mut self) {
        self.log.push(true);
    }

    fn set_low(&mut self) {
        self.log.push(false);
    }
}

/// A delay that records every hold time instead of blocking.
pub struct DelayRecorder {
    log: Vec<u16>,
}

impl DelayRecorder {
    /// Creates a recorder with an empty history.
    pub fn new() -> (delay: DelayRecorder)
        ensures
            delay.delays() == Seq::<u16>::empty(),
    {
        DelayRecorder { log: Vec::new() }
    }

    /// The recorded hold times, oldest first.
    pub fn log(&self) -> (log: &Vec<u16>)
        ensures
            log@ == self.delays(),
    {
        &self.log
    }
}

impl DelayUs for DelayRecorder {
    closed spec fn delays(&self) -> Seq<u16> {
        self.log@
    }

    fn delay_us(&mut self, us: u16) {
        self.log.push(us);
    }
}

/// A clock that advances by a fixed positive step at every reading,
/// saturating at the end of the 64-bit microsecond range.
pub struct StepClock {
    time: u64,
    step: u32,
    history: Ghost<Seq<u64>>,
}

impl StepClock {
    #[verifier::type_invariant]
    spec fn wf(self) -> bool {
        &&& self.step >= 1
        &&& (self.history@.len() > 0 ==> self.history@.last() == self.time)
    }

    /// Creates a clock standing at `start` that advances by `step`
    /// microseconds at each reading.
    pub fn new(start: u64, step: u32) -> (clock: StepClock)
        requires
            step >= 1,
        ensures
            clock.readings() == Seq::<u64>::empty(),
    {
        StepClock { time: start, step, history: Ghost(Seq::empty()) }
    }
}

impl InstantFn for StepClock {
    closed spec fn readings(&self) -> Seq<u64> {
        self.history@
    }

    fn now(&mut self) -> (t: u64) {
        proof {
            use_type_invariant(&*self);
        }
        let step = self.step as u64;
        let t = if self.time <= u64::MAX - step {
            self.time + step
        } else {
            u64::MAX
        };
        let ghost history = self.history@.push(t);
        *self = StepClock { time: t, step: self.step, history: Ghost(history) };
        t
    }
}

} // verus!
