//! What a pin drives.

use crate::value::logic_value::LogicValue;
use vstd::prelude::*;
use vstd::std_specs::convert::FromSpecImpl;

verus! {

/// The electrical state a single pin drives onto its wire. Unlike a [`LogicValue`], a
/// `DriveValue` tells a direct tie to a rail (`Strong`) from a tie through a pull resistor
/// (`Weak`).
#[derive(Clone, Copy, Debug, PartialEq, Eq, Structural)]
pub enum DriveValue {
    /// The pin is strongly driving high (`true`) or low (`false`).
    Strong(bool),
    /// The pin is weakly driving high (`true`) or low (`false`), through a pull-up or
    /// pull-down resistor.
    Weak(bool),
    /// The pin is not driving.
    HighImpedance,
    /// The pin is driving an invalid state.
    Error,
}

impl FromSpecImpl<LogicValue> for DriveValue {
    open spec fn obeys_from_spec() -> bool {
        true
    }

    open spec fn from_spec(logic_value: LogicValue) -> DriveValue {
        logic_value.strong()
    }
}

impl DriveValue {
    /// The logic value of a wire on which this drive stands alone: `Strong` and `Weak` both
    /// read as `Driven`.
    pub open spec fn logic(self) -> LogicValue {
        match self {
            DriveValue::Strong(value) => LogicValue::Driven(value),
            DriveValue::Weak(value) => LogicValue::Driven(value),
            DriveValue::HighImpedance => LogicValue::HighImpedance,
            DriveValue::Error => LogicValue::Error,
        }
    }
}

impl DriveValue {
    /// The value as it is written in a dump of a device.
    pub open spec fn text(self) -> Seq<char> {
        match self {
            DriveValue::Strong(true) => "Strong(true)"@,
            DriveValue::Strong(false) => "Strong(false)"@,
            DriveValue::Weak(true) => "Weak(true)"@,
            DriveValue::Weak(false) => "Weak(false)"@,
            DriveValue::HighImpedance => "HighImpedance"@,
            DriveValue::Error => "Error"@,
        }
    }

    /// Writes the value as it stands in a dump of a device.
    pub fn as_str(&self) -> (text: &'static str)
        ensures
            text@ == self.text(),
    {
        match self {
            DriveValue::Strong(true) => "Strong(true)",
            DriveValue::Strong(false) => "Strong(false)",
            DriveValue::Weak(true) => "Weak(true)",
            DriveValue::Weak(false) => "Weak(false)",
            DriveValue::HighImpedance => "HighImpedance",
            DriveValue::Error => "Error",
        }
    }
}

impl From<LogicValue> for DriveValue {
    /// Converts a `LogicValue` to the `DriveValue` that asserts it strongly.
    fn from(logic_value: LogicValue) -> (drive_value: DriveValue)
        ensures
            drive_value == logic_value.strong(),
    {
        match logic_value {
            LogicValue::Driven(value) => DriveValue::Strong(value),
            LogicValue::HighImpedance => DriveValue::HighImpedance,
            LogicValue::Error => DriveValue::Error,
        }
    }
}

/// The six drive values, in their canonical order.
pub open spec fn all_drive_values() -> Seq<DriveValue> {
    seq![
        DriveValue::Strong(true),
        DriveValue::Strong(false),
        DriveValue::Weak(true),
        DriveValue::Weak(false),
        DriveValue::HighImpedance,
        DriveValue::Error,
    ]
}

/// Lists every possible `DriveValue` once, for exhaustive enumeration.
pub fn drive_values() -> (all: Vec<DriveValue>)
    ensures
        all@ == all_drive_values(),
        forall|d: DriveValue| all@.contains(d),
        all@.no_duplicates(),
{
    let mut all: Vec<DriveValue> = Vec::new();
    all.push(DriveValue::Strong(true));
    all.push(DriveValue::Strong(false));
    all.push(DriveValue::Weak(true));
    all.push(DriveValue::Weak(false));
    all.push(DriveValue::HighImpedance);
    all.push(DriveValue::Error);
    proof {
        assert(all@ =~= all_drive_values());
        assert forall|d: DriveValue| all@.contains(d) by {
            match d {
                DriveValue::Strong(true) => assert(all@[0] == d),
                DriveValue::Strong(false) => assert(all@[1] == d),
                DriveValue::Weak(true) => assert(all@[2] == d),
                DriveValue::Weak(false) => assert(all@[3] == d),
                DriveValue::HighImpedance => assert(all@[4] == d),
                DriveValue::Error => assert(all@[5] == d),
            }
        }
    }
    all
}

/// Converting a drive value to a logic value and back keeps `Strong`, `HighImpedance` and
/// `Error` as they are, and turns `Weak(b)` into `Strong(b)`.
pub proof fn lemma_drive_value_round_trip(drive_value: DriveValue)
    ensures
        drive_value.logic().strong() == (match drive_value {
            DriveValue::Weak(value) => DriveValue::Strong(value),
            _ => drive_value,
        }),
{
}

/// Converting a logic value to a drive value and back gives the logic value again.
pub proof fn lemma_logic_value_round_trip(logic_value: LogicValue)
    ensures
        logic_value.strong().logic() == logic_value,
{
}

} // verus!
