use weather_goblin::model::{LegacySavedCity, SavedCities};
use weather_goblin::storage::{
    delete_city_by_number, get_city_by_number, read_saved_cities, save_city, saved_cities,
    ErrorKind, StorageError, StoredFile,
};

/// What reading the file gives once `doc` has been written to it.
fn written(doc: &SavedCities) -> StoredFile {
    StoredFile::Parsed { current: Some(doc.clone()), legacy: None }
}

fn no_file() -> StoredFile {
    StoredFile::Unreadable(ErrorKind::NotFound)
}

/// Saves each city in turn, starting from a missing file.
fn saved(cities: &[&str]) -> SavedCities {
    let mut doc = SavedCities { cities: vec![] };
    let mut file = no_file();
    for city in cities {
        doc = save_city(file, city);
        file = written(&doc);
    }
    doc
}

#[test]
fn test_save_and_list_cities() {
    let doc = saved(&["Athens", "Copenhagen"]);

    let cities = saved_cities(written(&doc)).unwrap();
    assert_eq!(cities, vec!["Athens", "Copenhagen"]);
}

#[test]
fn test_save_duplicate_city() {
    let doc = saved(&["Athens", "Athens"]);

    let cities = saved_cities(written(&doc)).unwrap();
    assert_eq!(cities, vec!["Athens"]);
}

#[test]
fn test_save_city_writes_current_format() {
    let doc = saved(&["Athens"]);

    assert_eq!(doc.cities, vec!["Athens"]);
}

#[test]
fn test_get_city_by_number() {
    let doc = saved(&["Athens", "Copenhagen"]);

    assert_eq!(get_city_by_number(written(&doc), 1).unwrap(), "Athens");
    assert_eq!(get_city_by_number(written(&doc), 2).unwrap(), "Copenhagen");
}

#[test]
fn test_get_city_by_number_zero() {
    let err = get_city_by_number(no_file(), 0).unwrap_err();
    assert_eq!(err.kind(), ErrorKind::InvalidInput);
}

#[test]
fn test_get_city_by_number_out_of_bounds() {
    let doc = saved(&["Athens"]);

    let err = get_city_by_number(written(&doc), 2).unwrap_err();
    assert_eq!(err.kind(), ErrorKind::NotFound);
}

#[test]
fn test_delete_city_by_number() {
    let doc = saved(&["Athens", "Copenhagen", "London"]);

    let (rest, removed) = delete_city_by_number(written(&doc), 2).unwrap();
    assert_eq!(removed, "Copenhagen");

    let cities = saved_cities(written(&rest)).unwrap();
    assert_eq!(cities, vec!["Athens", "London"]);
}

#[test]
fn test_delete_city_by_number_zero() {
    let err = delete_city_by_number(no_file(), 0).unwrap_err();
    assert_eq!(err.kind(), ErrorKind::InvalidInput);
}

#[test]
fn test_delete_city_by_number_out_of_bounds() {
    let doc = saved(&["Athens"]);

    let err = delete_city_by_number(written(&doc), 5).unwrap_err();
    assert_eq!(err.kind(), ErrorKind::NotFound);
}

#[test]
fn test_saved_cities_empty_when_no_file() {
    let err = saved_cities(no_file()).unwrap_err();
    assert_eq!(err.kind(), ErrorKind::NotFound);
}

#[test]
fn test_read_saved_cities_rejects_malformed_json() {
    let err = read_saved_cities(StoredFile::Parsed { current: None, legacy: None }).unwrap_err();
    assert_eq!(err.kind(), ErrorKind::Other);
}

#[test]
fn test_read_legacy_format() {
    let legacy = || StoredFile::Parsed {
        current: None,
        legacy: Some(LegacySavedCity { city: "Athens".to_string() }),
    };

    let cities = saved_cities(legacy()).unwrap();
    assert_eq!(cities, vec!["Athens"]);

    let doc = save_city(legacy(), "Copenhagen");

    let cities = saved_cities(written(&doc)).unwrap();
    assert_eq!(cities, vec!["Athens", "Copenhagen"]);
    assert_eq!(doc.cities, vec!["Athens", "Copenhagen"]);
}

#[test]
fn current_document_wins_over_legacy_reading() {
    let file = StoredFile::Parsed {
        current: Some(SavedCities { cities: vec!["Oslo".to_string()] }),
        legacy: Some(LegacySavedCity { city: "Athens".to_string() }),
    };
    assert_eq!(saved_cities(file).unwrap(), vec!["Oslo"]);
}

#[test]
fn saving_onto_unusable_file_starts_afresh() {
    let doc = save_city(StoredFile::Parsed { current: None, legacy: None }, "Oslo");
    assert_eq!(doc.cities, vec!["Oslo"]);
    let doc = save_city(StoredFile::Unreadable(ErrorKind::PermissionDenied), "Oslo");
    assert_eq!(doc.cities, vec!["Oslo"]);
}

#[test]
fn read_errors_are_passed_on() {
    let err = get_city_by_number(StoredFile::Unreadable(ErrorKind::PermissionDenied), 1).unwrap_err();
    assert_eq!(err, StorageError::Read(ErrorKind::PermissionDenied));
    assert_eq!(err.kind(), ErrorKind::PermissionDenied);
    assert_eq!(err.message(), None);
    let err = delete_city_by_number(StoredFile::Parsed { current: None, legacy: None }, 1).unwrap_err();
    assert_eq!(err, StorageError::Malformed);
    assert_eq!(err.message(), None);
}

#[test]
fn storage_error_messages() {
    assert_eq!(StorageError::NumberIsZero.message().as_deref(), Some("City numbers start from 1"));
    assert_eq!(
        StorageError::NoSuchNumber(42).message().as_deref(),
        Some("No saved city found for number 42")
    );
    let err = get_city_by_number(written(&saved(&["Athens"])), 7).unwrap_err();
    assert_eq!(err, StorageError::NoSuchNumber(7));
}

#[test]
fn get_and_delete_agree() {
    let doc = saved(&["Athens", "Copenhagen", "London"]);
    for n in 1..=3 {
        let got = get_city_by_number(written(&doc), n).unwrap();
        let (rest, removed) = delete_city_by_number(written(&doc), n).unwrap();
        assert_eq!(got, removed);
        assert_eq!(rest.cities.len(), 2);
        assert!(!rest.cities.contains(&removed));
    }
}

#[test]
fn saving_keeps_cities_distinct() {
    let doc = saved(&["Oslo", "Rome", "Oslo", "Lima", "Rome", "Lima"]);
    assert_eq!(doc.cities, vec!["Oslo", "Rome", "Lima"]);
}

#[test]
fn deleting_the_last_number_undoes_a_save() {
    let before = saved(&["Athens", "London"]);
    let after = save_city(written(&before), "Paris");
    let (rest, removed) = delete_city_by_number(written(&after), 3).unwrap();
    assert_eq!(removed, "Paris");
    assert_eq!(rest.cities, before.cities);
}

#[test]
fn listed_number_selects_the_listed_city() {
    let doc = saved(&["Athens", "Copenhagen", "London"]);
    let lines = weather_goblin::session::saved_cities_report(&doc.cities);
    for line in &lines[1..] {
        let (number, city) = line.split_once(". ").unwrap();
        let number = weather_goblin::text::parse_decimal_text(number).unwrap();
        assert_eq!(get_city_by_number(written(&doc), number).unwrap(), city);
    }
}
