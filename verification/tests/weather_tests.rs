use good_morning::weather::{
    format_weather, map_weather_code_to_description, weather_or_fallback, WeatherReading,
};

const DESCRIPTIONS: [&str; 9] = [
    "clear sky",
    "partly cloudy",
    "fog",
    "drizzle",
    "rain",
    "snow",
    "showers",
    "thunderstorm",
    "unknown weather",
];

#[test]
fn named_codes_have_their_descriptions() {
    assert_eq!(map_weather_code_to_description(2), "partly cloudy");
    assert_eq!(map_weather_code_to_description(63), "rain");
    assert_eq!(map_weather_code_to_description(96), "thunderstorm");
    assert_eq!(map_weather_code_to_description(14), "unknown weather");
}

#[test]
fn table_edges() {
    let expected = [
        (0, "clear sky"),
        (1, "partly cloudy"),
        (3, "partly cloudy"),
        (4, "unknown weather"),
        (44, "unknown weather"),
        (45, "fog"),
        (46, "unknown weather"),
        (47, "unknown weather"),
        (48, "fog"),
        (49, "unknown weather"),
        (50, "unknown weather"),
        (51, "drizzle"),
        (57, "drizzle"),
        (58, "unknown weather"),
        (60, "unknown weather"),
        (61, "rain"),
        (67, "rain"),
        (68, "unknown weather"),
        (70, "unknown weather"),
        (71, "snow"),
        (77, "snow"),
        (78, "unknown weather"),
        (79, "unknown weather"),
        (80, "showers"),
        (82, "showers"),
        (83, "unknown weather"),
        (94, "unknown weather"),
        (95, "thunderstorm"),
        (96, "thunderstorm"),
        (97, "unknown weather"),
        (98, "unknown weather"),
        (99, "thunderstorm"),
        (100, "unknown weather"),
        (-1, "unknown weather"),
        (i32::MIN, "unknown weather"),
        (i32::MAX, "unknown weather"),
    ];
    for (code, description) in expected {
        assert_eq!(map_weather_code_to_description(code), description, "code {}", code);
    }
}

#[test]
fn every_code_has_a_fixed_description() {
    for code in -300..300 {
        let description = map_weather_code_to_description(code);
        assert!(DESCRIPTIONS.contains(&description), "code {}", code);
    }
}

#[test]
fn summary_is_temperature_unit_description() {
    let reading = WeatherReading { temperature: "21.5".to_string(), code: 63 };
    assert_eq!(format_weather(&reading), "21.5°C, rain");
    let reading = WeatherReading { temperature: "-3".to_string(), code: 71 };
    assert_eq!(format_weather(&reading), "-3°C, snow");
}

#[test]
fn summary_of_a_float_as_displayed() {
    let temperature: f32 = 18.25;
    let reading = WeatherReading { temperature: format!("{}", temperature), code: 0 };
    assert_eq!(format_weather(&reading), "18.25°C, clear sky");
}

#[test]
fn fallback_stands_in_for_a_missing_reading() {
    assert_eq!(weather_or_fallback(None), "не удалось получить данные о погоде");
    let reading = WeatherReading { temperature: "7".to_string(), code: 45 };
    assert_eq!(weather_or_fallback(Some(reading)), "7°C, fog");
}

#[test]
fn rows_of_the_table_read_differently() {
    let rows = [0, 1, 45, 51, 61, 71, 80, 95, 4];
    for (i, a) in rows.iter().enumerate() {
        for (j, b) in rows.iter().enumerate() {
            assert_eq!(
                map_weather_code_to_description(*a) == map_weather_code_to_description(*b),
                i == j
            );
        }
    }
}
