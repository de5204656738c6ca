use vstd::prelude::*;

verus! {

/// Tracks the integer budget bounding how much work one invocation may
/// perform. The budget only ever decreases, by the cost that each step
/// charges, and has a hard floor at zero: no underflow, no wraparound.
/// Exhaustion is a pure function of the sequence of `tick` calls, so the
/// point of exhaustion is deterministic.
pub struct FuelMeter {
    remaining: u64,
}

impl View for FuelMeter {
    type V = u64;

    closed spec fn view(&self) -> u64 {
        self.remaining
    }
}

impl FuelMeter {
    /// A fresh meter holding the given budget.
    pub fn new(budget: u64) -> (meter: FuelMeter)
        ensures
            meter@ == budget,
    {
        FuelMeter { remaining: budget }
    }

    /// How much budget is left.
    pub fn remaining(&self) -> (left: u64)
        ensures
            left == self@,
    {
        self.remaining
    }

    /// Charges `cost` units of work. Returns whether the remaining budget
    /// permitted the step; on refusal the meter is left empty and execution
    /// must stop before committing further state changes.
    pub fn tick(&mut self, cost: u64) -> (ok: bool)
        ensures
            ok == (old(self)@ >= cost),
            ok ==> final(self)@ == old(self)@ - cost,
            !ok ==> final(self)@ == 0,
    {
        if self.remaining >= cost {
            self.remaining = self.remaining - cost;
            true
        } else {
            self.remaining = 0;
            false
        }
    }
}

} // verus!
