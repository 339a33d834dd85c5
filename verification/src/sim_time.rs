//! Simulation time in microseconds.
use vstd::prelude::*;

verus! {

/// Simulation time in microseconds since simulation start.
#[derive(Debug, Clone, Copy, PartialEq, Eq, PartialOrd, Ord, Hash, Default)]
pub struct SimTime(pub u64);

impl View for SimTime {
    type V = u64;

    open spec fn view(&self) -> u64 {
        self.0
    }
}

impl SimTime {
    /// Create from microseconds.
    pub fn from_micros(us: u64) -> (t: SimTime)
        ensures
            t@ == us,
    {
        SimTime(us)
    }

    /// Create from milliseconds.
    pub fn from_millis(ms: u64) -> (t: SimTime)
        requires
            ms * 1000 <= u64::MAX,
        ensures
            t@ == ms * 1000,
    {
        SimTime(ms * 1000)
    }

    /// Get as microseconds.
    pub fn as_micros(&self) -> (us: u64)
        ensures
            us == self@,
    {
        self.0
    }

    /// Get as milliseconds (truncating).
    pub fn as_millis(&self) -> (ms: u64)
        ensures
            ms == self@ / 1000,
    {
        self.0 / 1000
    }

    /// Add a duration; `None` on overflow.
    pub fn add(&self, duration: SimTime) -> (r: Option<SimTime>)
        ensures
            self@ + duration@ <= u64::MAX ==> r == Some(SimTime((self@ + duration@) as u64)),
            self@ + duration@ > u64::MAX ==> r is None,
    {
        match self.0.checked_add(duration.0) {
            Some(v) => Some(SimTime(v)),
            None => None,
        }
    }

    /// Subtract a duration; `None` if it would go below zero.
    pub fn sub(&self, duration: SimTime) -> (r: Option<SimTime>)
        ensures
            duration@ <= self@ ==> r == Some(SimTime((self@ - duration@) as u64)),
            duration@ > self@ ==> r is None,
    {
        match self.0.checked_sub(duration.0) {
            Some(v) => Some(SimTime(v)),
            None => None,
        }
    }
}

impl core::ops::Add for SimTime {
    type Output = SimTime;

    fn add(self, rhs: Self) -> (r: Self::Output) {
        SimTime(self.0 + rhs.0)
    }
}

impl vstd::std_specs::ops::AddSpecImpl for SimTime {
    open spec fn obeys_add_spec() -> bool {
        true
    }

    open spec fn add_req(self, rhs: SimTime) -> bool {
        self@ + rhs@ <= u64::MAX
    }

    open spec fn add_spec(self, rhs: SimTime) -> SimTime {
        SimTime((self@ + rhs@) as u64)
    }
}

impl core::ops::Sub for SimTime {
    type Output = SimTime;

    fn sub(self, rhs: Self) -> (r: Self::Output) {
        SimTime(self.0.saturating_sub(rhs.0))
    }
}

impl vstd::std_specs::ops::SubSpecImpl for SimTime {
    open spec fn obeys_sub_spec() -> bool {
        true
    }

    open spec fn sub_req(self, rhs: SimTime) -> bool {
        true
    }

    open spec fn sub_spec(self, rhs: SimTime) -> SimTime {
        if rhs@ <= self@ {
            SimTime((self@ - rhs@) as u64)
        } else {
            SimTime(0)
        }
    }
}

} // verus!
