use instrument_sync::loader::{listed_names, load_store, SongFile};
use instrument_sync::protocol::init_for_client;
use instrument_sync::store::ConfigError;

fn file(name: &str) -> SongFile {
    SongFile { name: name.to_string(), path: format!("/songs/{}", name) }
}

#[test]
fn list_skips_blank_and_comment_lines() {
    let list = "# instruments\n\npiano\r\norgan\n   # old\n  \t\nsax";
    assert_eq!(listed_names(list), vec!["piano", "organ", "sax"]);
    assert_eq!(listed_names("piano\n"), vec!["piano"]);
    assert!(listed_names("").is_empty());
    assert!(listed_names("#a\n#b\n").is_empty());
}

#[test]
fn store_keeps_listed_files_and_selects_first() {
    let files = vec![file("organ"), file("drums"), file("piano"), file("piano.lv2")];
    let store = load_store("piano\norgan\nflute\n", &files).unwrap();
    assert_eq!(store.selected(), "piano");
    assert_eq!(store.locator_of("organ"), Some("/songs/organ".to_string()));
    assert_eq!(store.locator_of("drums"), None);
    assert_eq!(store.locator_of("flute"), None);
    assert_eq!(init_for_client(&store), "INIT piano organ piano");
}

#[test]
fn selection_skips_listed_names_without_file() {
    let files = vec![file("organ")];
    let store = load_store("flute\norgan\n", &files).unwrap();
    assert_eq!(store.selected(), "organ");
}

#[test]
fn empty_catalog_is_refused() {
    assert_eq!(load_store("", &vec![file("organ")]).err(), Some(ConfigError::EmptyCatalog));
    assert_eq!(load_store("piano\n", &vec![file("organ")]).err(), Some(ConfigError::EmptyCatalog));
    assert_eq!(load_store("piano\n", &Vec::new()).err(), Some(ConfigError::EmptyCatalog));
}
