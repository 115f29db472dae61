//! Server ticks: the game advances in steps of a fixed interval.
use vstd::prelude::*;
use vstd::std_specs::ops::SubSpecImpl;

verus! {

/// The number of a tick since the server started.
#[derive(Debug, Clone, Copy, PartialEq, Eq, PartialOrd, Ord, Structural)]
pub struct Tick(pub u32);

/// A number of ticks between two ticks.
#[derive(Debug, Clone, Copy, PartialEq, Eq, PartialOrd, Ord, Structural)]
pub struct TickDuration(pub u32);

/// "Every `n` ticks", as a number of ticks.
#[derive(Debug, Clone, Copy, PartialEq, Eq, PartialOrd, Ord, Structural)]
pub struct TickRate(pub u32);

impl Tick {
    /// Whether this tick is one of every `rate` ticks.
    pub fn is_nth(self, rate: TickRate) -> (b: bool)
        requires
            rate.0 != 0,
        ensures
            b == (self.0 % rate.0 == 0),
    {
        self.0 % rate.0 == 0
    }
}

impl core::ops::Sub<Tick> for Tick {
    type Output = TickDuration;

    fn sub(self, rhs: Tick) -> (d: TickDuration) {
        TickDuration(self.0 - rhs.0)
    }
}

impl SubSpecImpl<Tick> for Tick {
    open spec fn obeys_sub_spec() -> bool {
        true
    }

    open spec fn sub_req(self, rhs: Tick) -> bool {
        self.0 >= rhs.0
    }

    open spec fn sub_spec(self, rhs: Tick) -> TickDuration {
        TickDuration((self.0 - rhs.0) as u32)
    }
}

} // verus!
