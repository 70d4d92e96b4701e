//! The running tally of the drives on a wire.

use crate::value::drive_value::DriveValue;
use crate::value::logic_value::LogicValue;
use vstd::prelude::*;

verus! {

/// How many pins of a wire are in each driving state. Pins at high impedance are not counted:
/// they do not take part in resolving the wire.
pub struct Tally {
    /// The number of pins driving `Strong(true)`.
    pub strong_true: nat,
    /// The number of pins driving `Strong(false)`.
    pub strong_false: nat,
    /// The number of pins driving `Weak(true)`.
    pub weak_true: nat,
    /// The number of pins driving `Weak(false)`.
    pub weak_false: nat,
    /// The number of pins driving `Error`.
    pub error: nat,
}

impl Tally {
    /// The tally of a wire that nothing drives.
    pub open spec fn empty() -> Tally {
        Tally { strong_true: 0, strong_false: 0, weak_true: 0, weak_false: 0, error: 0 }
    }

    /// The number of pins counted in state `drive`; always zero for `HighImpedance`.
    pub open spec fn count(self, drive: DriveValue) -> nat {
        match drive {
            DriveValue::Strong(true) => self.strong_true,
            DriveValue::Strong(false) => self.strong_false,
            DriveValue::Weak(true) => self.weak_true,
            DriveValue::Weak(false) => self.weak_false,
            DriveValue::Error => self.error,
            DriveValue::HighImpedance => 0,
        }
    }

    /// The number of pins counted, over all states.
    pub open spec fn total(self) -> nat {
        self.strong_true + self.strong_false + self.weak_true + self.weak_false + self.error
    }

    /// The tally with one more pin in state `drive`.
    pub open spec fn insert(self, drive: DriveValue) -> Tally {
        match drive {
            DriveValue::Strong(true) => Tally { strong_true: self.strong_true + 1, ..self },
            DriveValue::Strong(false) => Tally { strong_false: self.strong_false + 1, ..self },
            DriveValue::Weak(true) => Tally { weak_true: self.weak_true + 1, ..self },
            DriveValue::Weak(false) => Tally { weak_false: self.weak_false + 1, ..self },
            DriveValue::Error => Tally { error: self.error + 1, ..self },
            DriveValue::HighImpedance => self,
        }
    }

    /// The tally with one pin fewer in state `drive`. Meant for a state that is counted at
    /// least once.
    pub open spec fn remove(self, drive: DriveValue) -> Tally
        recommends
            drive != DriveValue::HighImpedance ==> self.count(drive) > 0,
    {
        match drive {
            DriveValue::Strong(true) => Tally {
                strong_true: (self.strong_true - 1) as nat,
                ..self
            },
            DriveValue::Strong(false) => Tally {
                strong_false: (self.strong_false - 1) as nat,
                ..self
            },
            DriveValue::Weak(true) => Tally { weak_true: (self.weak_true - 1) as nat, ..self },
            DriveValue::Weak(false) => Tally { weak_false: (self.weak_false - 1) as nat, ..self },
            DriveValue::Error => Tally { error: (self.error - 1) as nat, ..self },
            DriveValue::HighImpedance => self,
        }
    }

    /// The tally after one pin changes its drive from `before` to `after`.
    pub open spec fn update(self, before: DriveValue, after: DriveValue) -> Tally
        recommends
            before != DriveValue::HighImpedance ==> self.count(before) > 0,
    {
        self.remove(before).insert(after)
    }

    /// The tally of two wires taken together.
    pub open spec fn add(self, other: Tally) -> Tally {
        Tally {
            strong_true: self.strong_true + other.strong_true,
            strong_false: self.strong_false + other.strong_false,
            weak_true: self.weak_true + other.weak_true,
            weak_false: self.weak_false + other.weak_false,
            error: self.error + other.error,
        }
    }

    /// The logic value of a wire with this tally, by priority: an error, or two opposed drives
    /// of equal strength, give `Error`; otherwise a strong drive wins over a weak one; with
    /// nothing counted the wire is at high impedance.
    pub open spec fn resolve(self) -> LogicValue {
        if self.error > 0 || (self.strong_true > 0 && self.strong_false > 0) || (self.weak_true > 0
            && self.weak_false > 0) {
            LogicValue::Error
        } else if self.strong_true > 0 {
            LogicValue::Driven(true)
        } else if self.strong_false > 0 {
            LogicValue::Driven(false)
        } else if self.weak_true > 0 {
            LogicValue::Driven(true)
        } else if self.weak_false > 0 {
            LogicValue::Driven(false)
        } else {
            LogicValue::HighImpedance
        }
    }

    /// Whether every count fits the machine's counters.
    pub open spec fn fits(self) -> bool {
        &&& self.strong_true <= usize::MAX
        &&& self.strong_false <= usize::MAX
        &&& self.weak_true <= usize::MAX
        &&& self.weak_false <= usize::MAX
        &&& self.error <= usize::MAX
    }
}

/// Keeps the tally of a wire up to date as its pins change, so that the wire's value is known
/// without walking over its pins.
#[derive(Clone, Copy, Debug)]
pub struct DriveValueAccumulator {
    strong_true: usize,
    strong_false: usize,
    weak_true: usize,
    weak_false: usize,
    error: usize,
}

impl View for DriveValueAccumulator {
    type V = Tally;

    closed spec fn view(&self) -> Tally {
        Tally {
            strong_true: self.strong_true as nat,
            strong_false: self.strong_false as nat,
            weak_true: self.weak_true as nat,
            weak_false: self.weak_false as nat,
            error: self.error as nat,
        }
    }
}

impl DriveValueAccumulator {
    /// Creates an accumulator that has counted nothing.
    pub fn new() -> (accumulator: DriveValueAccumulator)
        ensures
            accumulator@ == Tally::empty(),
    {
        DriveValueAccumulator { strong_true: 0, strong_false: 0, weak_true: 0, weak_false: 0,
            error: 0 }
    }

    /// Adds the counts of `other` to this accumulator, as when two wires merge, and returns
    /// the value the merged wire resolves to.
    pub fn add(&mut self, other: &DriveValueAccumulator) -> (value: LogicValue)
        requires
            old(self)@.add(other@).fits(),
        ensures
            final(self)@ == old(self)@.add(other@),
            value == final(self)@.resolve(),
    {
        self.strong_true = self.strong_true + other.strong_true;
        self.strong_false = self.strong_false + other.strong_false;
        self.weak_true = self.weak_true + other.weak_true;
        self.weak_false = self.weak_false + other.weak_false;
        self.error = self.error + other.error;
        self.get_value()
    }

    /// Moves one pin from state `before` to state `after` and returns the value the wire then
    /// resolves to. A pin that was never counted starts from `HighImpedance`.
    pub fn update(&mut self, before: DriveValue, after: DriveValue) -> (value: LogicValue)
        requires
            before != DriveValue::HighImpedance ==> old(self)@.count(before) > 0,
            old(self)@.update(before, after).fits(),
        ensures
            final(self)@ == old(self)@.update(before, after),
            value == final(self)@.resolve(),
    {
        match before {
            DriveValue::Strong(true) => self.strong_true = self.strong_true - 1,
            DriveValue::Strong(false) => self.strong_false = self.strong_false - 1,
            DriveValue::Weak(true) => self.weak_true = self.weak_true - 1,
            DriveValue::Weak(false) => self.weak_false = self.weak_false - 1,
            DriveValue::Error => self.error = self.error - 1,
            DriveValue::HighImpedance => (),
        }
        match after {
            DriveValue::Strong(true) => self.strong_true = self.strong_true + 1,
            DriveValue::Strong(false) => self.strong_false = self.strong_false + 1,
            DriveValue::Weak(true) => self.weak_true = self.weak_true + 1,
            DriveValue::Weak(false) => self.weak_false = self.weak_false + 1,
            DriveValue::Error => self.error = self.error + 1,
            DriveValue::HighImpedance => (),
        }
        self.get_value()
    }

    /// The value a wire with these counts resolves to.
    pub fn get_value(&self) -> (value: LogicValue)
        ensures
            value == self@.resolve(),
    {
        let strong_short = self.strong_true != 0 && self.strong_false != 0;
        let weak_short = self.weak_true != 0 && self.weak_false != 0;
        if self.error != 0 || strong_short || weak_short {
            LogicValue::Error
        } else if self.strong_true != 0 {
            LogicValue::Driven(true)
        } else if self.strong_false != 0 {
            LogicValue::Driven(false)
        } else if self.weak_true != 0 {
            LogicValue::Driven(true)
        } else if self.weak_false != 0 {
            LogicValue::Driven(false)
        } else {
            LogicValue::HighImpedance
        }
    }
}

} // verus!
