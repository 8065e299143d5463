use weather_goblin::api::{chosen_result, geocoding_url};
use weather_goblin::display::weather_description;
use weather_goblin::model::{Cli, DisplayMode};
use weather_goblin::session::{
    answer_is_yes, deleted_city_message, plan, save_mode, saved_cities_report, Action, CityChoice,
    SaveMode,
};
use weather_goblin::text::{decimal_text, parse_decimal_text};

#[test]
fn weather_codes_in_words() {
    assert_eq!(weather_description(0), "clear sky");
    for code in [1, 2, 3] {
        assert_eq!(weather_description(code), "partly cloudy");
    }
    assert_eq!(weather_description(45), "fog");
    assert_eq!(weather_description(48), "fog");
    assert_eq!(weather_description(53), "drizzle");
    assert_eq!(weather_description(57), "freezing drizzle");
    assert_eq!(weather_description(65), "rain");
    assert_eq!(weather_description(66), "freezing rain");
    assert_eq!(weather_description(71), "snow");
    assert_eq!(weather_description(77), "snow grains");
    assert_eq!(weather_description(82), "rain showers");
    assert_eq!(weather_description(85), "snow showers");
    assert_eq!(weather_description(95), "thunderstorm");
    assert_eq!(weather_description(99), "thunderstorm with hail");
    assert_eq!(weather_description(4), "mysterious sky nonsense");
    assert_eq!(weather_description(255), "mysterious sky nonsense");
}

#[test]
fn geocoding_query_for_city() {
    assert_eq!(
        geocoding_url("Athens"),
        "https://geocoding-api.open-meteo.com/v1/search?name=Athens&count=1&language=en&format=json"
    );
}

#[test]
fn geocoding_takes_last_result() {
    assert_eq!(chosen_result(Some(vec![1, 2, 3])), Some(3));
    assert_eq!(chosen_result::<u8>(Some(vec![])), None);
    assert_eq!(chosen_result::<u8>(None), None);
}

fn cli(city: Option<&str>, save: bool, no_save: bool) -> Cli {
    Cli { command: None, city: city.map(|c| c.to_string()), save, no_save, display: DisplayMode::Funny }
}

#[test]
fn save_mode_prefers_save() {
    assert_eq!(save_mode(&cli(None, true, true)), SaveMode::Yes);
    assert_eq!(save_mode(&cli(None, false, true)), SaveMode::No);
    assert_eq!(save_mode(&cli(None, false, false)), SaveMode::Ask);
}

#[test]
fn plans_for_command_lines() {
    let parsed = |args: &[&str]| plan(&Cli::try_parse_from(args).unwrap());
    assert!(matches!(parsed(&["p", "ls"]), Action::ListSaved));
    assert!(matches!(parsed(&["p", "delete", "3"]), Action::DeleteSaved(3)));
    assert!(matches!(parsed(&["p"]), Action::ShowUsage));
    assert!(matches!(parsed(&["p", "--save"]), Action::ShowUsage));
    assert!(matches!(parsed(&["p", "rm", "3"]), Action::DeleteSaved(3)));
    match parsed(&["p", "2", "--no-save"]) {
        Action::Lookup { city: CityChoice::Saved(2), save: SaveMode::No, display: DisplayMode::Funny } => {}
        other => panic!("unexpected {other:?}"),
    }
    match parsed(&["p", "Athens"]) {
        Action::Lookup { city: CityChoice::Named(name), save: SaveMode::Ask, display: DisplayMode::Funny } => {
            assert_eq!(name, "Athens")
        }
        other => panic!("unexpected {other:?}"),
    }
    match parsed(&["p", "-", "--save"]) {
        Action::Lookup { city: CityChoice::Named(name), save: SaveMode::Yes, display: DisplayMode::Funny } => {
            assert_eq!(name, "-")
        }
        other => panic!("unexpected {other:?}"),
    }
    match parsed(&["p", "Athens", "--display", "compact"]) {
        Action::Lookup { city: CityChoice::Named(name), save: SaveMode::Ask, display: DisplayMode::Compact } => {
            assert_eq!(name, "Athens")
        }
        other => panic!("unexpected {other:?}"),
    }
}

#[test]
fn save_prompt_answers() {
    assert!(answer_is_yes("y\n"));
    assert!(answer_is_yes("  Y \r\n"));
    assert!(answer_is_yes("\u{3000}y\u{a0}"));
    assert!(!answer_is_yes("yes\n"));
    assert!(!answer_is_yes("n\n"));
    assert!(!answer_is_yes(""));
    assert!(!answer_is_yes("y y"));
    for s in ["y", " y", "Y\t", "x", "yy", " ", "\u{85}Y\u{2029}"] {
        assert_eq!(answer_is_yes(s), s.trim().to_lowercase() == "y", "{s:?}");
    }
}

#[test]
fn saved_cities_listing() {
    let cities = vec!["Athens".to_string(), "Copenhagen".to_string()];
    assert_eq!(saved_cities_report(&cities), vec!["Saved cities:", "1. Athens", "2. Copenhagen"]);
    assert_eq!(saved_cities_report(&vec![]), vec!["No saved cities found."]);
    let many: Vec<String> = (0..12).map(|i| format!("c{i}")).collect();
    assert_eq!(saved_cities_report(&many)[12], "12. c11");
}

#[test]
fn deletion_notice_line() {
    assert_eq!(deleted_city_message("Copenhagen"), "Deleted saved city: Copenhagen");
}

#[test]
fn decimal_text_and_parsing() {
    for n in [0usize, 7, 10, 42, 1000, 98765, usize::MAX] {
        assert_eq!(decimal_text(n), n.to_string());
        assert_eq!(parse_decimal_text(&n.to_string()), Some(n));
    }
    for s in ["", "+", "-1", "1a", " 1", "+12", "007", "18446744073709551616", "99999999999999999999"] {
        assert_eq!(parse_decimal_text(s), s.parse::<usize>().ok(), "{s:?}");
    }
}

#[test]
fn save_prompt_white_space_matches_std() {
    for code in 0u32..=0x10FFFF {
        if let Some(c) = char::from_u32(code) {
            let answer = format!("{c}y{c}");
            assert_eq!(answer_is_yes(&answer), answer.trim().to_lowercase() == "y", "{code:#x}");
        }
    }
}
