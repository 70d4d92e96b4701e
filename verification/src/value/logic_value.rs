//! What a wire resolves to.

use crate::value::drive_value::DriveValue;
use vstd::prelude::*;
use vstd::std_specs::convert::FromSpecImpl;

verus! {

/// The state a wire resolves to, taking into account every pin connected to it.
#[derive(Clone, Copy, Debug, PartialEq, Eq, Structural)]
pub enum LogicValue {
    /// The wire is driven high (`true`) or low (`false`).
    Driven(bool),
    /// Nothing drives the wire.
    HighImpedance,
    /// The wire is in an invalid state.
    Error,
}

impl FromSpecImpl<DriveValue> for LogicValue {
    open spec fn obeys_from_spec() -> bool {
        true
    }

    open spec fn from_spec(drive_value: DriveValue) -> LogicValue {
        drive_value.logic()
    }
}

impl LogicValue {
    /// The drive that asserts this logic value strongly.
    pub open spec fn strong(self) -> DriveValue {
        match self {
            LogicValue::Driven(value) => DriveValue::Strong(value),
            LogicValue::HighImpedance => DriveValue::HighImpedance,
            LogicValue::Error => DriveValue::Error,
        }
    }
}

impl LogicValue {
    /// The value as it is written in a dump of a device.
    pub open spec fn text(self) -> Seq<char> {
        match self {
            LogicValue::Driven(true) => "Driven(true)"@,
            LogicValue::Driven(false) => "Driven(false)"@,
            LogicValue::HighImpedance => "HighImpedance"@,
            LogicValue::Error => "Error"@,
        }
    }

    /// Writes the value as it stands in a dump of a device.
    pub fn as_str(&self) -> (text: &'static str)
        ensures
            text@ == self.text(),
    {
        match self {
            LogicValue::Driven(true) => "Driven(true)",
            LogicValue::Driven(false) => "Driven(false)",
            LogicValue::HighImpedance => "HighImpedance",
            LogicValue::Error => "Error",
        }
    }
}

impl From<DriveValue> for LogicValue {
    /// Converts a `DriveValue` to the `LogicValue` a wire would show if that drive stood alone.
    fn from(drive_value: DriveValue) -> (logic_value: LogicValue)
        ensures
            logic_value == drive_value.logic(),
    {
        match drive_value {
            DriveValue::Strong(value) | DriveValue::Weak(value) => LogicValue::Driven(value),
            DriveValue::HighImpedance => LogicValue::HighImpedance,
            DriveValue::Error => LogicValue::Error,
        }
    }
}

} // verus!
