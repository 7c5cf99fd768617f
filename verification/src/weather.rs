//! Weather codes and the one-line weather summary.

use vstd::prelude::*;
use vstd::string::*;

verus! {

/// The description that belongs to a weather code.
pub open spec fn weather_description(code: int) -> Seq<char> {
    if code == 0 {
        "clear sky"@
    } else if 1 <= code <= 3 {
        "partly cloudy"@
    } else if code == 45 || code == 48 {
        "fog"@
    } else if 51 <= code <= 57 {
        "drizzle"@
    } else if 61 <= code <= 67 {
        "rain"@
    } else if 71 <= code <= 77 {
        "snow"@
    } else if 80 <= code <= 82 {
        "showers"@
    } else if code == 95 || code == 96 || code == 99 {
        "thunderstorm"@
    } else {
        "unknown weather"@
    }
}

/// Whether a text is one of the descriptions that a weather code can have.
pub open spec fn is_description(text: Seq<char>) -> bool {
    ||| text == "clear sky"@
    ||| text == "partly cloudy"@
    ||| text == "fog"@
    ||| text == "drizzle"@
    ||| text == "rain"@
    ||| text == "snow"@
    ||| text == "showers"@
    ||| text == "thunderstorm"@
    ||| text == "unknown weather"@
}

/// Every weather code, listed or not, has one of the fixed descriptions.
pub proof fn lemma_every_code_is_described(code: int)
    ensures
        is_description(weather_description(code)),
{
}

/// Describes a weather code in a few words.
pub fn map_weather_code_to_description(code: i32) -> (description: &'static str)
    ensures
        description@ == weather_description(code as int),
        is_description(description@),
{
    if code == 0 {
        "clear sky"
    } else if 1 <= code && code <= 3 {
        "partly cloudy"
    } else if code == 45 || code == 48 {
        "fog"
    } else if 51 <= code && code <= 57 {
        "drizzle"
    } else if 61 <= code && code <= 67 {
        "rain"
    } else if 71 <= code && code <= 77 {
        "snow"
    } else if 80 <= code && code <= 82 {
        "showers"
    } else if code == 95 || code == 96 || code == 99 {
        "thunderstorm"
    } else {
        "unknown weather"
    }
}

/// What the weather service reported: the temperature in degrees Celsius, as
/// it is to be shown, and the weather code.
#[derive(Debug, PartialEq, Eq)]
pub struct WeatherReading {
    pub temperature: String,
    pub code: i32,
}

/// The summary of a reading: temperature, unit, description.
pub open spec fn weather_summary(temperature: Seq<char>, code: int) -> Seq<char> {
    temperature + "°C, "@ + weather_description(code)
}

/// The phrase that stands in for the summary when no reading could be had.
pub open spec fn weather_fallback() -> Seq<char> {
    "не удалось получить данные о погоде"@
}

/// What is said of the weather, with or without a reading.
pub open spec fn weather_info(reading: Option<WeatherReading>) -> Seq<char> {
    match reading {
        Some(r) => weather_summary(r.temperature@, r.code as int),
        None => weather_fallback(),
    }
}

/// Writes the summary of a reading.
pub fn format_weather(reading: &WeatherReading) -> (summary: String)
    ensures
        summary@ == weather_summary(reading.temperature@, reading.code as int),
{
    let mut summary = String::from_str(reading.temperature.as_str());
    summary.append("°C, ");
    summary.append(map_weather_code_to_description(reading.code));
    summary
}

/// The weather line of the greeting: the summary of the reading, or the
/// fallback phrase where the lookup failed.
pub fn weather_or_fallback(reading: Option<WeatherReading>) -> (info: String)
    ensures
        info@ == weather_info(reading),
{
    match reading {
        Some(r) => format_weather(&r),
        None => String::from_str("не удалось получить данные о погоде"),
    }
}

/// The row of the table that a weather code falls in, counted from the
/// clear sky; the last row takes every code that the table does not list.
pub open spec fn weather_row(code: int) -> int {
    if code == 0 {
        0
    } else if 1 <= code <= 3 {
        1
    } else if code == 45 || code == 48 {
        2
    } else if 51 <= code <= 57 {
        3
    } else if 61 <= code <= 67 {
        4
    } else if 71 <= code <= 77 {
        5
    } else if 80 <= code <= 82 {
        6
    } else if code == 95 || code == 96 || code == 99 {
        7
    } else {
        8
    }
}

/// Each row of the table has a description of its own: two codes read the
/// same exactly when they fall in one row.
pub proof fn lemma_descriptions_differ(a: int, b: int)
    ensures
        weather_description(a) == weather_description(b) <==> weather_row(a) == weather_row(b),
{
    reveal_strlit("clear sky");
    reveal_strlit("partly cloudy");
    reveal_strlit("fog");
    reveal_strlit("drizzle");
    reveal_strlit("rain");
    reveal_strlit("snow");
    reveal_strlit("showers");
    reveal_strlit("thunderstorm");
    reveal_strlit("unknown weather");
    assert("clear sky"@.len() == 9);
    assert("partly cloudy"@.len() == 13);
    assert("fog"@.len() == 3);
    assert("drizzle"@.len() == 7 && "drizzle"@[0] == 'd');
    assert("rain"@.len() == 4 && "rain"@[0] == 'r');
    assert("snow"@.len() == 4 && "snow"@[0] == 's');
    assert("showers"@.len() == 7 && "showers"@[0] == 's');
    assert("thunderstorm"@.len() == 12);
    assert("unknown weather"@.len() == 15);
}

} // verus!
