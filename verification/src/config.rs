//! Why an indicator could not be set up.

use vstd::prelude::*;

verus! {

/// A configuration that no indicator state can be built from.
#[derive(Clone, Copy, Debug, PartialEq, Eq, Structural)]
pub enum ConfigError {
    /// The window length is below two.
    InvalidPeriod,
    /// An acceleration bound is not above zero, or the step is above the cap.
    InvalidAcceleration,
}

impl ConfigError {
    /// What was wrong, in words.
    pub open spec fn message_of(self) -> Seq<char> {
        match self {
            ConfigError::InvalidPeriod => "Invalid period: must be >= 2"@,
            ConfigError::InvalidAcceleration =>
                "Invalid acceleration: step and cap must be above zero, and step at most cap"@,
        }
    }

    /// What was wrong, in words.
    pub fn message(&self) -> (r: &'static str)
        ensures
            r@ == self.message_of(),
    {
        match self {
            ConfigError::InvalidPeriod => "Invalid period: must be >= 2",
            ConfigError::InvalidAcceleration =>
                "Invalid acceleration: step and cap must be above zero, and step at most cap",
        }
    }
}

/// The smallest window length that an indicator accepts.
pub const MIN_PERIOD: i32 = 2;

} // verus!
