//! The power-management profile and its classification from the text that
//! the system's power-settings query prints.

use vstd::prelude::*;
use crate::text::{contains, contains_chars, to_chars};

verus! {

/// The program that prints the machine's power settings.
pub const POWER_SETTINGS_COMMAND: &'static str = "pmset";

/// The argument that makes it print the settings in use.
pub const POWER_SETTINGS_ARGUMENT: &'static str = "-g";

/// The power-management profile that is active.
///
/// `Unknown` is the value before the first successful probe.
#[derive(Debug, Clone, Copy, PartialEq, Eq, Structural)]
pub enum PowerMode {
    LowPower,
    Automatic,
    HighPerformance,
    Unknown,
}

/// The profile that a settings dump stands for: the low-power marker wins
/// over the high-power marker, and a dump with neither is `Automatic`.
pub open spec fn mode_of_settings(text: Seq<char>) -> PowerMode {
    if contains(text, "lowpowermode 1"@) {
        PowerMode::LowPower
    } else if contains(text, "highpowermode 1"@) {
        PowerMode::HighPerformance
    } else {
        PowerMode::Automatic
    }
}

/// The profile after a probe: what the dump stands for, or the profile as it
/// was when the probe gave no text.
pub open spec fn mode_after_probe(before: PowerMode, output: Option<Seq<char>>) -> PowerMode {
    match output {
        Some(text) => mode_of_settings(text),
        None => before,
    }
}

/// The label shown for a profile.
pub open spec fn label_of(mode: PowerMode) -> Seq<char> {
    match mode {
        PowerMode::LowPower => "Low Power"@,
        PowerMode::Automatic => "Automatic"@,
        PowerMode::HighPerformance => "High Performance"@,
        PowerMode::Unknown => "Unknown"@,
    }
}

/// Classifies the text of a power-settings dump.
pub fn classify_power_settings(text: &str) -> (mode: PowerMode)
    ensures
        mode == mode_of_settings(text@),
{
    let dump: Vec<char> = to_chars(text);
    if contains_chars(dump.as_slice(), to_chars("lowpowermode 1").as_slice()) {
        PowerMode::LowPower
    } else if contains_chars(dump.as_slice(), to_chars("highpowermode 1").as_slice()) {
        PowerMode::HighPerformance
    } else {
        PowerMode::Automatic
    }
}

impl PowerMode {
    /// The profile to report after a probe. `output` is the text the query
    /// printed, or `None` when the query could not be run or printed no
    /// text; the profile then stays as it was.
    pub fn after_probe(self, output: Option<&str>) -> (mode: PowerMode)
        ensures
            mode == mode_after_probe(
                self,
                match output {
                    Some(text) => Some(text@),
                    None => None,
                },
            ),
    {
        match output {
            Some(text) => classify_power_settings(text),
            None => self,
        }
    }

    /// A human-readable label for the profile.
    pub fn label(self) -> (label: &'static str)
        ensures
            label@ == label_of(self),
    {
        match self {
            PowerMode::LowPower => "Low Power",
            PowerMode::Automatic => "Automatic",
            PowerMode::HighPerformance => "High Performance",
            PowerMode::Unknown => "Unknown",
        }
    }
}

} // verus!
