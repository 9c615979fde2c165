//! The thermal pressure level, read from a power report.

use crate::text::{chars_of, contains, contains_slice};
use vstd::prelude::*;

verus! {

/// How hard the machine is throttled for heat.
#[derive(Clone, Copy, Debug, PartialEq, Eq, Structural)]
pub enum ThermalLevel {
    Nominal,
    Moderate,
    Heavy,
    Critical,
}

/// The level that a power report shows: that of the first of the words
/// Normal, Moderate, Heavy and Critical, in this order, that the report
/// holds; nominal where it holds none.
pub open spec fn thermal_level(report: Seq<char>) -> ThermalLevel {
    if contains(report, "Normal"@) {
        ThermalLevel::Nominal
    } else if contains(report, "Moderate"@) {
        ThermalLevel::Moderate
    } else if contains(report, "Heavy"@) {
        ThermalLevel::Heavy
    } else if contains(report, "Critical"@) {
        ThermalLevel::Critical
    } else {
        ThermalLevel::Nominal
    }
}

impl ThermalLevel {
    /// The level's name in capitals.
    pub open spec fn label_text(self) -> Seq<char> {
        match self {
            ThermalLevel::Nominal => "NOMINAL"@,
            ThermalLevel::Moderate => "MODERATE"@,
            ThermalLevel::Heavy => "HEAVY"@,
            ThermalLevel::Critical => "CRITICAL"@,
        }
    }

    /// The level's name in capitals.
    pub fn label(&self) -> (s: String)
        ensures
            s@ == self.label_text(),
    {
        match self {
            ThermalLevel::Nominal => "NOMINAL".to_owned(),
            ThermalLevel::Moderate => "MODERATE".to_owned(),
            ThermalLevel::Heavy => "HEAVY".to_owned(),
            ThermalLevel::Critical => "CRITICAL".to_owned(),
        }
    }
}

/// Reads the thermal pressure level from a power report.
pub fn parse_thermal(report: &str) -> (level: ThermalLevel)
    ensures
        level == thermal_level(report@),
{
    let chars = chars_of(report);
    let text = chars.as_slice();
    if contains_slice(text, chars_of("Normal").as_slice()) {
        ThermalLevel::Nominal
    } else if contains_slice(text, chars_of("Moderate").as_slice()) {
        ThermalLevel::Moderate
    } else if contains_slice(text, chars_of("Heavy").as_slice()) {
        ThermalLevel::Heavy
    } else if contains_slice(text, chars_of("Critical").as_slice()) {
        ThermalLevel::Critical
    } else {
        ThermalLevel::Nominal
    }
}

} // verus!
