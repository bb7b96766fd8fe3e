//! Weather codes and units of the Open-Meteo forecast shown on the panel.
use vstd::prelude::*;
use crate::text::eq_ignore_ascii_case_str;
use crate::text::eq_ignore_ascii_case;
use crate::text::{append_str, chars_of, string_from_chars};

verus! {

/// The icon (file name without extension) for a WMO weather code.
pub open spec fn wmo_icon(code: i64) -> Seq<char> {
    if code == 0 {
        "sunny"@
    } else if 1 <= code <= 3 {
        "cloudy"@
    } else if code == 45 || code == 48 {
        "foggy"@
    } else if 51 <= code <= 57 || 61 <= code <= 67 || 80 <= code <= 82 {
        "rainy"@
    } else if 71 <= code <= 77 || code == 85 || code == 86 {
        "snowy"@
    } else if 95 <= code <= 99 {
        "stormy"@
    } else {
        "cloudy"@
    }
}

/// A short English description of a WMO weather code.
pub open spec fn wmo_text(code: i64) -> Seq<char> {
    if code == 0 {
        "Clear sky"@
    } else if 1 <= code <= 3 {
        "Partly cloudy"@
    } else if code == 45 || code == 48 {
        "Fog"@
    } else if 51 <= code <= 57 {
        "Drizzle"@
    } else if 61 <= code <= 67 {
        "Rain"@
    } else if 71 <= code <= 77 {
        "Snow"@
    } else if 80 <= code <= 82 {
        "Rain showers"@
    } else if code == 85 || code == 86 {
        "Snow showers"@
    } else if 95 <= code <= 99 {
        "Thunderstorm"@
    } else {
        "Unknown"@
    }
}

/// Maps a WMO weather code to its icon file name (without extension).
pub fn wmo_icon_name(code: i64) -> (name: &'static str)
    ensures
        name@ == wmo_icon(code),
{
    match code {
        0 => "sunny",
        1..=3 => "cloudy",
        45 | 48 => "foggy",
        51..=57 => "rainy",
        61..=67 => "rainy",
        71..=77 => "snowy",
        80..=82 => "rainy",
        85 | 86 => "snowy",
        95..=99 => "stormy",
        _ => "cloudy",
    }
}

/// Maps a WMO weather code to a short description.
pub fn wmo_description(code: i64) -> (text: &'static str)
    ensures
        text@ == wmo_text(code),
{
    match code {
        0 => "Clear sky",
        1..=3 => "Partly cloudy",
        45 | 48 => "Fog",
        51..=57 => "Drizzle",
        61..=67 => "Rain",
        71..=77 => "Snow",
        80..=82 => "Rain showers",
        85 | 86 => "Snow showers",
        95..=99 => "Thunderstorm",
        _ => "Unknown",
    }
}

pub open spec fn imperial(units: Seq<char>) -> bool {
    eq_ignore_ascii_case(units, "imperial"@)
}

/// The forecast service's temperature unit for the configured unit system.
pub fn temperature_unit(units: &str) -> (u: &'static str)
    ensures
        u@ == if imperial(units@) { "fahrenheit"@ } else { "celsius"@ },
{
    if eq_ignore_ascii_case_str(units, "imperial") {
        "fahrenheit"
    } else {
        "celsius"
    }
}

/// The unit letter shown after temperatures.
pub fn unit_symbol(units: &str) -> (u: &'static str)
    ensures
        u@ == if imperial(units@) { "F"@ } else { "C"@ },
{
    if eq_ignore_ascii_case_str(units, "imperial") {
        "F"
    } else {
        "C"
    }
}

/// The forecast request for a location, the coordinates given as the caller
/// formatted them: current temperature, felt temperature, humidity and
/// weather code, in the configured unit system.
pub open spec fn forecast_url_spec(latitude: Seq<char>, longitude: Seq<char>, units: Seq<char>) -> Seq<char> {
    "https://api.open-meteo.com/v1/forecast?latitude="@ + latitude + "&longitude="@ + longitude
        + "&current=temperature_2m,apparent_temperature,relative_humidity_2m,weather_code&temperature_unit="@
        + if imperial(units) {
        "fahrenheit"@
    } else {
        "celsius"@
    }
}

pub fn forecast_url(latitude: &str, longitude: &str, units: &str) -> (url: String)
    ensures
        url@ == forecast_url_spec(latitude@, longitude@, units@),
{
    let mut out = chars_of("https://api.open-meteo.com/v1/forecast?latitude=");
    append_str(&mut out, latitude);
    append_str(&mut out, "&longitude=");
    append_str(&mut out, longitude);
    append_str(
        &mut out,
        "&current=temperature_2m,apparent_temperature,relative_humidity_2m,weather_code&temperature_unit=",
    );
    append_str(&mut out, temperature_unit(units));
    string_from_chars(&out)
}

} // verus!
