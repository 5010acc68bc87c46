use std::collections::HashMap;
use stormy_skies::data::sources::DESCRIPTION_JSON;
use stormy_skies::data::sources::ICON_FILE_NAMES_JSON;
use stormy_skies::data::sources::WMO_JSON;
use stormy_skies::data::weather::Error;
use stormy_skies::data::wmo_code;
use stormy_skies::data::WeatherRegistry;
use stormy_skies::data::WmoCode;

/// A JSON object with the given members.
fn object(members: &[(String, String)]) -> String {
    let parts: Vec<String> =
        members.iter().map(|(name, value)| format!("\"{}\": \"{}\"", name, value)).collect();
    format!("{{{}}}", parts.join(", "))
}

/// A code table that gives every code but those of `skip` the key `calm`,
/// and has the members of `more` besides.
fn code_table(skip: &[u8], more: &[(&str, &str)]) -> String {
    let mut members = Vec::new();
    for code in 0..=99u8 {
        if !skip.contains(&code) {
            members.push((code.to_string(), String::from("calm")));
        }
    }
    for (name, key) in more {
        members.push((name.to_string(), key.to_string()));
    }
    object(&members)
}

fn table(members: &[(&str, &str)]) -> String {
    let members: Vec<(String, String)> =
        members.iter().map(|(name, value)| (name.to_string(), value.to_string())).collect();
    object(&members)
}

fn build(codes: &str, descriptions: &str, icons: &str) -> Result<WeatherRegistry, Error> {
    WeatherRegistry::load_from(codes, descriptions, icons)
}

fn code(value: u8) -> WmoCode {
    WmoCode::try_from(value).unwrap()
}

#[test]
fn weather_registry_loads_without_errors() {
    assert!(WeatherRegistry::load().is_ok());
}

#[test]
fn the_registry_knows_every_code() {
    let registry = WeatherRegistry::load().unwrap();
    for value in 0..=99u8 {
        let weather = registry.get(code(value));
        assert!(!weather.description.is_empty());
        assert!(weather.icon_path.starts_with("assets/icons/"));
        assert!(weather.icon_path.ends_with(".svg"));
        assert!(weather.icon_path.len() > "assets/icons/.svg".len());
    }
}

#[test]
fn the_registry_resolves_codes_through_their_keys() {
    let registry = WeatherRegistry::load().unwrap();
    let overcast = registry.get(code(3));
    assert_eq!(overcast.description, "Overcast");
    assert_eq!(overcast.icon_path, "assets/icons/overcast.svg");
    let clear = registry.get(code(0));
    assert_eq!(clear.description, "Clear sky");
    assert_eq!(clear.icon_path, "assets/icons/clear-day.svg");
    let storm = registry.get(code(95));
    assert_eq!(storm.description, "Thunderstorm");
    assert_eq!(storm.icon_path, "assets/icons/thunderstorms.svg");
    assert_eq!(registry.get(code(17)).description, registry.get(code(95)).description);
}

#[test]
fn the_tables_of_the_crate_are_what_load_reads() {
    let loaded = WeatherRegistry::load().unwrap();
    let read = WeatherRegistry::load_from(WMO_JSON, DESCRIPTION_JSON, ICON_FILE_NAMES_JSON).unwrap();
    for value in 0..=99u8 {
        assert_eq!(loaded.get(code(value)).description, read.get(code(value)).description);
        assert_eq!(loaded.get(code(value)).icon_path, read.get(code(value)).icon_path);
    }
}

#[test]
fn small_tables_that_fit_together_give_a_registry() {
    let codes = code_table(&[7], &[("7", "gale")]);
    let descriptions = table(&[("calm", "No wind"), ("gale", "Strong wind")]);
    let icons = table(&[("gale", "wind"), ("calm", "still")]);
    let registry = build(&codes, &descriptions, &icons).unwrap();
    for value in 0..=99u8 {
        let weather = registry.get(code(value));
        if value == 7 {
            assert_eq!(weather.description, "Strong wind");
            assert_eq!(weather.icon_path, "assets/icons/wind.svg");
        } else {
            assert_eq!(weather.description, "No wind");
            assert_eq!(weather.icon_path, "assets/icons/still.svg");
        }
    }
}

#[test]
fn a_code_without_definition_is_reported() {
    let descriptions = table(&[("calm", "No wind")]);
    let icons = table(&[("calm", "still")]);
    match build(&code_table(&[37], &[]), &descriptions, &icons) {
        Err(Error::WmoCodeDefinitionMissing(missing)) => assert_eq!(missing.value(), 37),
        other => panic!("{:?}", other),
    }
    match build(&code_table(&[37, 12, 99], &[]), &descriptions, &icons) {
        Err(Error::WmoCodeDefinitionMissing(missing)) => assert_eq!(missing.value(), 12),
        other => panic!("{:?}", other),
    }
    match build(&code_table(&[0], &[]), &descriptions, &icons) {
        Err(Error::WmoCodeDefinitionMissing(missing)) => assert_eq!(missing.value(), 0),
        other => panic!("{:?}", other),
    }
    match build("{}", "{}", "{}") {
        Err(Error::WmoCodeDefinitionMissing(missing)) => assert_eq!(missing.value(), 0),
        other => panic!("{:?}", other),
    }
}

#[test]
fn a_value_that_is_no_code_is_reported() {
    let descriptions = table(&[("calm", "No wind")]);
    let icons = table(&[("calm", "still")]);
    match build(&code_table(&[], &[("100", "calm")]), &descriptions, &icons) {
        Err(Error::InvalidValueForWmoCode(wmo_code::Error::InvalidValue(value))) => {
            assert_eq!(value, 100)
        }
        other => panic!("{:?}", other),
    }
    match build(&code_table(&[37], &[("255", "calm"), ("101", "calm")]), &descriptions, &icons) {
        Err(Error::InvalidValueForWmoCode(wmo_code::Error::InvalidValue(value))) => {
            assert_eq!(value, 101)
        }
        other => panic!("{:?}", other),
    }
}

#[test]
fn a_description_for_a_key_of_no_code_is_reported() {
    let codes = code_table(&[], &[]);
    let icons = table(&[("calm", "still")]);
    match build(&codes, &table(&[("calm", "No wind"), ("stale", "Gone")]), &icons) {
        Err(Error::DescriptionForUndefinedKey(key)) => assert_eq!(key, "stale"),
        other => panic!("{:?}", other),
    }
    match build(&codes, &table(&[("stale", "Gone")]), &table(&[("old", "gone")])) {
        Err(Error::DescriptionForUndefinedKey(key)) => assert_eq!(key, "stale"),
        other => panic!("{:?}", other),
    }
}

#[test]
fn an_icon_for_a_key_of_no_code_is_reported() {
    let codes = code_table(&[], &[]);
    let descriptions = table(&[("calm", "No wind")]);
    match build(&codes, &descriptions, &table(&[("calm", "still"), ("old", "gone")])) {
        Err(Error::IconPathForUndefinedKey(key)) => assert_eq!(key, "old"),
        other => panic!("{:?}", other),
    }
    match build(&codes, &table(&[]), &table(&[("old", "gone")])) {
        Err(Error::IconPathForUndefinedKey(key)) => assert_eq!(key, "old"),
        other => panic!("{:?}", other),
    }
}

#[test]
fn a_key_without_description_is_reported() {
    let codes = code_table(&[7], &[("7", "gale")]);
    let icons = table(&[("calm", "still"), ("gale", "wind")]);
    match build(&codes, &table(&[("calm", "No wind")]), &icons) {
        Err(Error::DescriptionMissing(key)) => assert_eq!(key, "gale"),
        other => panic!("{:?}", other),
    }
    match build(&codes, &table(&[("gale", "Strong wind")]), &table(&[("gale", "wind")])) {
        Err(Error::DescriptionMissing(key)) => assert_eq!(key, "calm"),
        other => panic!("{:?}", other),
    }
}

#[test]
fn a_key_without_icon_is_reported() {
    let codes = code_table(&[7], &[("7", "gale")]);
    let descriptions = table(&[("calm", "No wind"), ("gale", "Strong wind")]);
    match build(&codes, &descriptions, &table(&[("calm", "still")])) {
        Err(Error::IconPathMissing(key)) => assert_eq!(key, "gale"),
        other => panic!("{:?}", other),
    }
    match build(&codes, &table(&[("gale", "Strong wind")]), &table(&[("gale", "wind")])) {
        Err(Error::DescriptionMissing(key)) => assert_eq!(key, "calm"),
        other => panic!("{:?}", other),
    }
    match build(&codes, &table(&[("calm", "No wind")]), &table(&[("gale", "wind")])) {
        Err(Error::IconPathMissing(key)) => assert_eq!(key, "calm"),
        other => panic!("{:?}", other),
    }
}

#[test]
fn a_source_that_is_no_table_is_reported() {
    let codes = code_table(&[], &[]);
    let descriptions = table(&[("calm", "No wind")]);
    let icons = table(&[("calm", "still")]);
    assert!(build(&codes, &descriptions, &icons).is_ok());
    let broken = [
        "",
        "{",
        "[]",
        "{\"calm\": 1}",
        "{\"calm\": \"still\"} x",
        "{\"calm\": [\"still\"]}",
    ];
    for text in broken {
        assert!(matches!(
            build(text, &descriptions, &icons),
            Err(Error::FailedToDeserializeSources(_))
        ));
        assert!(matches!(build(&codes, text, &icons), Err(Error::FailedToDeserializeSources(_))));
        assert!(matches!(
            build(&codes, &descriptions, text),
            Err(Error::FailedToDeserializeSources(_))
        ));
    }
    for name in ["256", "-1", "1.5", "one", ""] {
        let codes = code_table(&[], &[(name, "calm")]);
        assert!(matches!(
            build(&codes, &descriptions, &icons),
            Err(Error::FailedToDeserializeSources(_))
        ));
    }
}

#[test]
fn the_checks_come_in_a_fixed_order() {
    let good_descriptions = table(&[("calm", "No wind")]);
    let good_icons = table(&[("calm", "still")]);
    let stale_descriptions = table(&[("calm", "No wind"), ("stale", "Gone")]);
    let stale_icons = table(&[("calm", "still"), ("old", "gone")]);
    assert!(matches!(
        build("{", "{", "{"),
        Err(Error::FailedToDeserializeSources(_))
    ));
    assert!(matches!(
        build(&code_table(&[5], &[("200", "calm")]), &stale_descriptions, &stale_icons),
        Err(Error::InvalidValueForWmoCode(_))
    ));
    assert!(matches!(
        build(&code_table(&[5], &[]), &stale_descriptions, &stale_icons),
        Err(Error::WmoCodeDefinitionMissing(_))
    ));
    assert!(matches!(
        build(&code_table(&[], &[]), &stale_descriptions, &stale_icons),
        Err(Error::DescriptionForUndefinedKey(_))
    ));
    assert!(matches!(
        build(&code_table(&[], &[]), &table(&[]), &stale_icons),
        Err(Error::IconPathForUndefinedKey(_))
    ));
    assert!(matches!(
        build(&code_table(&[], &[]), &table(&[]), &table(&[])),
        Err(Error::DescriptionMissing(_))
    ));
    assert!(matches!(
        build(&code_table(&[], &[]), &good_descriptions, &table(&[])),
        Err(Error::IconPathMissing(_))
    ));
    assert!(build(&code_table(&[], &[]), &good_descriptions, &good_icons).is_ok());
}

fn entries(members: &[(&str, &str)]) -> Vec<(String, String)> {
    members.iter().map(|(name, value)| (name.to_string(), value.to_string())).collect()
}

fn codes_with(key_of: impl Fn(u8) -> &'static str) -> HashMap<u8, String> {
    (0..=99u8).map(|value| (value, key_of(value).to_string())).collect()
}

#[test]
fn tables_given_as_values_are_checked_alike() {
    let codes = codes_with(|value| if value < 50 { "dry" } else { "wet" });
    let descriptions = entries(&[("wet", "Rain"), ("dry", "No rain")]);
    let icons = entries(&[("dry", "sun"), ("wet", "cloud")]);
    let registry = WeatherRegistry::build(&codes, &descriptions, &icons).unwrap();
    assert_eq!(registry.get(code(49)).description, "No rain");
    assert_eq!(registry.get(code(49)).icon_path, "assets/icons/sun.svg");
    assert_eq!(registry.get(code(50)).description, "Rain");
    assert_eq!(registry.get(code(50)).icon_path, "assets/icons/cloud.svg");
}

#[test]
fn the_first_entry_under_a_key_counts() {
    let codes = codes_with(|_| "dry");
    let descriptions = entries(&[("dry", "first"), ("dry", "second")]);
    let icons = entries(&[("dry", "one"), ("dry", "two")]);
    let registry = WeatherRegistry::build(&codes, &descriptions, &icons).unwrap();
    assert_eq!(registry.get(code(0)).description, "first");
    assert_eq!(registry.get(code(0)).icon_path, "assets/icons/one.svg");
}

#[test]
fn the_first_key_of_no_code_is_the_one_reported() {
    let codes = codes_with(|_| "dry");
    let icons = entries(&[("dry", "sun")]);
    let descriptions = entries(&[("dry", "No rain"), ("b", "x"), ("a", "y")]);
    match WeatherRegistry::build(&codes, &descriptions, &icons) {
        Err(Error::DescriptionForUndefinedKey(key)) => assert_eq!(key, "b"),
        other => panic!("{:?}", other),
    }
    let descriptions = entries(&[("a", "y"), ("dry", "No rain"), ("b", "x")]);
    match WeatherRegistry::build(&codes, &descriptions, &icons) {
        Err(Error::DescriptionForUndefinedKey(key)) => assert_eq!(key, "a"),
        other => panic!("{:?}", other),
    }
    let descriptions = entries(&[("dry", "No rain")]);
    let icons = entries(&[("z", "moon"), ("dry", "sun"), ("y", "star")]);
    match WeatherRegistry::build(&codes, &descriptions, &icons) {
        Err(Error::IconPathForUndefinedKey(key)) => assert_eq!(key, "z"),
        other => panic!("{:?}", other),
    }
}

#[test]
fn values_that_are_no_codes_are_found_in_tables_given_as_values() {
    let mut codes = codes_with(|_| "dry");
    codes.insert(250, String::from("dry"));
    codes.insert(130, String::from("dry"));
    codes.remove(&4);
    let descriptions = entries(&[("dry", "No rain")]);
    let icons = entries(&[("dry", "sun")]);
    match WeatherRegistry::build(&codes, &descriptions, &icons) {
        Err(Error::InvalidValueForWmoCode(wmo_code::Error::InvalidValue(value))) => {
            assert_eq!(value, 130)
        }
        other => panic!("{:?}", other),
    }
}
