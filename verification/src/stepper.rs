use vstd::prelude::*;

verus! {

/// A fixed-timestep accumulator for the frame loop. Time is measured in
/// integer ticks of the caller's clock (for instance milliseconds):
/// `advance` banks the time that passed since the last call, and `tick`
/// pays one fixed step `dt` out of the bank for every update the simulation
/// owes.
pub struct TimeStepper {
    current: u64,
    dt: u64,
    residual: u64,
}

impl TimeStepper {
    /// The clock reading of the latest `advance`.
    pub closed spec fn current(self) -> u64 {
        self.current
    }

    /// The fixed step size.
    pub closed spec fn dt(self) -> u64 {
        self.dt
    }

    /// The banked time not yet paid out in steps.
    pub closed spec fn residual(self) -> u64 {
        self.residual
    }

    /// A stepper starting at clock reading `time` with step size `dt`, and
    /// nothing banked.
    pub fn new(time: u64, dt: u64) -> (s: TimeStepper)
        ensures
            s.current() == time,
            s.dt() == dt,
            s.residual() == 0,
    {
        TimeStepper { current: time, dt, residual: 0 }
    }

    /// Banks the time that passed between the previous clock reading and
    /// `time`, which must not run backwards.
    pub fn advance(&mut self, time: u64)
        requires
            time >= old(self).current(),
            old(self).residual() + (time - old(self).current()) <= u64::MAX,
        ensures
            final(self).current() == time,
            final(self).dt() == old(self).dt(),
            final(self).residual() == old(self).residual() + (time - old(self).current()),
    {
        self.residual = self.residual + (time - self.current);
        self.current = time;
    }

    /// Pays out one fixed step if more than one step is banked: true, and
    /// the bank shrinks by `dt`, exactly when `residual > dt` held; false,
    /// and nothing changes, otherwise.
    pub fn tick(&mut self) -> (stepped: bool)
        ensures
            final(self).current() == old(self).current(),
            final(self).dt() == old(self).dt(),
            stepped == (old(self).residual() > old(self).dt()),
            stepped ==> final(self).residual() == old(self).residual() - old(self).dt(),
            !stepped ==> final(self).residual() == old(self).residual(),
    {
        if self.residual > self.dt {
            self.residual = self.residual - self.dt;
            true
        } else {
            false
        }
    }
}

} // verus!
