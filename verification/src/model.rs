//! The plain data of the tool: parsed command lines, the documents kept in
//! the saved-cities file, and the units that come with a forecast.

use vstd::prelude::*;

verus! {

/// A parsed command line.
#[derive(Debug, Clone)]
pub struct Cli {
    /// The subcommand, when one was given.
    pub command: Option<Command>,
    /// City name or number of saved city.
    pub city: Option<String>,
    /// Save city without prompting.
    pub save: bool,
    /// Skip the save prompt.
    pub no_save: bool,
    /// How the weather is shown.
    pub display: DisplayMode,
}

/// How the weather is shown.
#[derive(Debug, Clone, Copy, PartialEq, Eq, Structural)]
pub enum DisplayMode {
    /// The boxed report with comments (the default).
    Funny,
    /// A single line.
    Compact,
}

/// The subcommands of the tool.
#[derive(Debug, Clone, Copy, PartialEq, Eq, Structural)]
pub enum Command {
    /// List the saved cities.
    Ls,
    /// Delete the saved city with this number (counted from 1); also
    /// called `del` and `rm`.
    Delete { number: usize },
}

/// The units in which the forecast service reports the current values.
#[derive(Debug, Clone)]
pub struct CurrentUnits {
    pub temperature_2m: String,
    pub apparent_temperature: String,
    pub relative_humidity_2m: String,
    pub wind_speed_10m: String,
}

/// The older saved-cities document, which held a single city.
#[derive(Debug, Clone)]
pub struct LegacySavedCity {
    pub city: String,
}

/// The saved-cities document: the saved city names, in the order saved.
#[derive(Debug, Clone)]
pub struct SavedCities {
    pub cities: Vec<String>,
}

} // verus!
