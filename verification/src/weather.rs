//! Weather conditions in words.

use vstd::prelude::*;
use vstd::string::StringExecFns;

verus! {

/// The description of a WMO weather interpretation code.
pub open spec fn weather_description(weather_code: int) -> Seq<char> {
    if weather_code == 0 {
        "Clear sky"@
    } else if weather_code == 1 {
        "Mainly clear"@
    } else if weather_code == 2 {
        "Partly cloudy"@
    } else if weather_code == 3 {
        "Overcast"@
    } else if weather_code == 45 || weather_code == 48 {
        "Foggy"@
    } else if weather_code == 51 {
        "Drizzle, Light intensity"@
    } else if weather_code == 53 {
        "Drizzle, Moderate intensity"@
    } else if weather_code == 55 {
        "Drizzle, Dense intensity"@
    } else if weather_code == 56 {
        "Freezing Drizzle, Light intensity"@
    } else if weather_code == 57 {
        "Freezing Drizzle, Dense intensity"@
    } else if weather_code == 61 {
        "Rain, Light intensity"@
    } else if weather_code == 63 {
        "Rain, Moderate intensity"@
    } else if weather_code == 65 {
        "Rain, Heavy intensity"@
    } else if weather_code == 66 {
        "Freezing Rain, Light intensity"@
    } else if weather_code == 67 {
        "Freezing Rain, heavy intensity"@
    } else if weather_code == 71 {
        "Snow fall, Light intensity"@
    } else if weather_code == 73 {
        "Snow fall, Moderate intensity"@
    } else if weather_code == 75 {
        "Snow fall, Heavy intensity"@
    } else if weather_code == 77 {
        "Snow grains"@
    } else if weather_code == 80 {
        "Rain showers, Light intensity"@
    } else if weather_code == 81 {
        "Rain showers, Moderate intensity"@
    } else if weather_code == 82 {
        "Rain showers, Heavy intensity"@
    } else if weather_code == 85 {
        "Snow showers, Light intensity"@
    } else if weather_code == 86 {
        "Snow showers, Heavy intensity"@
    } else if weather_code == 95 {
        "Thunderstorm, Slight or moderate"@
    } else if weather_code == 96 {
        "Thunderstorm with slight hail"@
    } else if weather_code == 99 {
        "Thunderstorm with heavy hail"@
    } else {
        "Unknown weather condition"@
    }
}

/// Describes a WMO weather interpretation code.
pub fn weather_code_to_string(weather_code: i32) -> (description: String)
    ensures
        description@ == weather_description(weather_code as int),
{
    let text = if weather_code == 0 {
        "Clear sky"
    } else if weather_code == 1 {
        "Mainly clear"
    } else if weather_code == 2 {
        "Partly cloudy"
    } else if weather_code == 3 {
        "Overcast"
    } else if weather_code == 45 || weather_code == 48 {
        "Foggy"
    } else if weather_code == 51 {
        "Drizzle, Light intensity"
    } else if weather_code == 53 {
        "Drizzle, Moderate intensity"
    } else if weather_code == 55 {
        "Drizzle, Dense intensity"
    } else if weather_code == 56 {
        "Freezing Drizzle, Light intensity"
    } else if weather_code == 57 {
        "Freezing Drizzle, Dense intensity"
    } else if weather_code == 61 {
        "Rain, Light intensity"
    } else if weather_code == 63 {
        "Rain, Moderate intensity"
    } else if weather_code == 65 {
        "Rain, Heavy intensity"
    } else if weather_code == 66 {
        "Freezing Rain, Light intensity"
    } else if weather_code == 67 {
        "Freezing Rain, heavy intensity"
    } else if weather_code == 71 {
        "Snow fall, Light intensity"
    } else if weather_code == 73 {
        "Snow fall, Moderate intensity"
    } else if weather_code == 75 {
        "Snow fall, Heavy intensity"
    } else if weather_code == 77 {
        "Snow grains"
    } else if weather_code == 80 {
        "Rain showers, Light intensity"
    } else if weather_code == 81 {
        "Rain showers, Moderate intensity"
    } else if weather_code == 82 {
        "Rain showers, Heavy intensity"
    } else if weather_code == 85 {
        "Snow showers, Light intensity"
    } else if weather_code == 86 {
        "Snow showers, Heavy intensity"
    } else if weather_code == 95 {
        "Thunderstorm, Slight or moderate"
    } else if weather_code == 96 {
        "Thunderstorm with slight hail"
    } else if weather_code == 99 {
        "Thunderstorm with heavy hail"
    } else {
        "Unknown weather condition"
    };
    String::from_str(text)
}

/// What to say when the place to report the weather for is not fully
/// configured; nothing when it is.
pub open spec fn setup_notice(has_latitude: bool, has_longitude: bool) -> Option<Seq<char>> {
    if has_latitude && has_longitude {
        None
    } else if has_latitude {
        Some("Weather longitude is not set"@)
    } else if has_longitude {
        Some("Weather latitude is not set"@)
    } else {
        Some("Weather service is not configured. Please set weather latitude and longitude"@)
    }
}

/// Says what is missing of the place to report the weather for, if
/// anything is.
pub fn weather_setup_notice(has_latitude: bool, has_longitude: bool) -> (notice: Option<String>)
    ensures
        match notice {
            Some(text) => setup_notice(has_latitude, has_longitude) == Some(text@),
            None => setup_notice(has_latitude, has_longitude) is None,
        },
{
    if has_latitude && has_longitude {
        None
    } else if has_latitude {
        Some(String::from_str("Weather longitude is not set"))
    } else if has_longitude {
        Some(String::from_str("Weather latitude is not set"))
    } else {
        Some(
            String::from_str(
                "Weather service is not configured. Please set weather latitude and longitude",
            ),
        )
    }
}

} // verus!
