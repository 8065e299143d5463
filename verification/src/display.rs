//! Words for the weather codes that the forecast service reports.

use vstd::prelude::*;

verus! {

/// The words shown for the WMO weather interpretation code `code`; codes
/// outside the table get a fallback phrase.
pub open spec fn sky_description(code: u8) -> Seq<char> {
    if code == 0 {
        "clear sky"@
    } else if code == 1 || code == 2 || code == 3 {
        "partly cloudy"@
    } else if code == 45 || code == 48 {
        "fog"@
    } else if code == 51 || code == 53 || code == 55 {
        "drizzle"@
    } else if code == 56 || code == 57 {
        "freezing drizzle"@
    } else if code == 61 || code == 63 || code == 65 {
        "rain"@
    } else if code == 66 || code == 67 {
        "freezing rain"@
    } else if code == 71 || code == 73 || code == 75 {
        "snow"@
    } else if code == 77 {
        "snow grains"@
    } else if code == 80 || code == 81 || code == 82 {
        "rain showers"@
    } else if code == 85 || code == 86 {
        "snow showers"@
    } else if code == 95 {
        "thunderstorm"@
    } else if code == 96 || code == 99 {
        "thunderstorm with hail"@
    } else {
        "mysterious sky nonsense"@
    }
}

/// Describes the weather code `code` in words.
pub fn weather_description(code: u8) -> (d: &'static str)
    ensures
        d@ == sky_description(code),
{
    match code {
        0 => "clear sky",
        1 | 2 | 3 => "partly cloudy",
        45 | 48 => "fog",
        51 | 53 | 55 => "drizzle",
        56 | 57 => "freezing drizzle",
        61 | 63 | 65 => "rain",
        66 | 67 => "freezing rain",
        71 | 73 | 75 => "snow",
        77 => "snow grains",
        80 | 81 | 82 => "rain showers",
        85 | 86 => "snow showers",
        95 => "thunderstorm",
        96 | 99 => "thunderstorm with hail",
        _ => "mysterious sky nonsense",
    }
}

} // verus!
