use std::path::{Path, PathBuf};
use termtint::paths::{
    config_file_path_for_home, sessions_dir_for_home, state_file_path_for_home,
};
use termtint::triggers::{add_trigger, has_trigger, remove_trigger, trigger_kind, TriggerKind};
use termtint::user_config::upgrade_config;

fn names(list: &[&str]) -> Vec<String> {
    list.iter().map(|s| s.to_string()).collect()
}

#[test]
fn test_state_file_path_for_home() {
    let home = Path::new("/tmp/some home");

    let path = state_file_path_for_home("/tmp/some home");
    assert_eq!(
        PathBuf::from(path),
        home.join(".cache").join("termtint").join("last_config")
    );
}

#[test]
fn test_config_file_path_for_home() {
    let home = Path::new("/tmp/some home");

    let path = config_file_path_for_home("/tmp/some home");
    assert_eq!(
        PathBuf::from(path),
        home.join(".config").join("termtint").join("config.toml")
    );
}

#[test]
fn paths_below_home() {
    assert_eq!(sessions_dir_for_home("/home/u"), "/home/u/.cache/termtint/sessions");
    assert_eq!(sessions_dir_for_home("/home/u/"), "/home/u/.cache/termtint/sessions");
    assert_eq!(state_file_path_for_home("."), "./.cache/termtint/last_config");
    assert_eq!(config_file_path_for_home(""), ".config/termtint/config.toml");
    assert_eq!(config_file_path_for_home("/"), "/.config/termtint/config.toml");
}

#[test]
fn kinds_of_triggers() {
    assert_eq!(trigger_kind("Cargo.toml"), TriggerKind::File);
    assert_eq!(trigger_kind("~/Code/*"), TriggerKind::Path);
    assert_eq!(trigger_kind("dir/file"), TriggerKind::Path);
    assert_eq!(trigger_kind("?"), TriggerKind::Path);
    assert_eq!(trigger_kind(""), TriggerKind::File);
}

#[test]
fn adding_triggers() {
    let mut list = names(&["a", "b"]);
    assert!(has_trigger(&list, "a"));
    assert!(!has_trigger(&list, "c"));
    assert!(!has_trigger(&list, "A"));

    assert!(add_trigger(&mut list, "c"));
    assert_eq!(list, names(&["a", "b", "c"]));
    assert!(!add_trigger(&mut list, "b"));
    assert_eq!(list, names(&["a", "b", "c"]));

    let mut empty: Vec<String> = Vec::new();
    assert!(add_trigger(&mut empty, ""));
    assert_eq!(empty, names(&[""]));
}

#[test]
fn removing_triggers() {
    let mut list = names(&["a", "b", "a", "c", "a"]);
    assert!(remove_trigger(&mut list, "a"));
    assert_eq!(list, names(&["b", "c"]));
    assert!(!remove_trigger(&mut list, "a"));
    assert_eq!(list, names(&["b", "c"]));
    assert!(remove_trigger(&mut list, "c"));
    assert!(remove_trigger(&mut list, "b"));
    assert!(list.is_empty());
    assert!(!remove_trigger(&mut list, "b"));
}

#[test]
fn upgrading_twice_changes_nothing_more() {
    for content in [
        "",
        "\n",
        "background_lightness = 0.15\n",
        "[auto]\nhue_min = 3\n",
        "# lightness = 1\r\n[auto]\r\n",
        "x = 1\n\n[auto]\n\n",
        "trigger_files = [\"a\"]\n  [auto]  \n[auto]\nhue_max=1",
    ] {
        let once = upgrade_config(content);
        assert_eq!(upgrade_config(&once), once, "{:?}", content);
        assert!(once.ends_with('\n'));
        for line in content.lines() {
            assert!(once.lines().any(|l| l == line), "{:?} lost {:?}", content, line);
        }
    }
}
