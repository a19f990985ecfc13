use termtint::config::ConfigSource;
use termtint::state::{
    cleanup_stale_sessions, current_state, decide_apply, read_last_config_state,
    should_repaint, write_last_config_state, ApplyAction, ConfigSourceType, ConfigState,
    STALE_SESSION_AGE,
};

#[test]
fn test_config_state_equality() {
    let state1 = ConfigState {
        path: "/test/path".to_string(),
        mtime: 12345,
        source_type: ConfigSourceType::Explicit,
    };

    let state2 = ConfigState {
        path: "/test/path".to_string(),
        mtime: 12345,
        source_type: ConfigSourceType::Explicit,
    };

    assert_eq!(state1, state2);
    assert!(state1.same_as(&state2));
}

#[test]
fn test_config_state_different_source_type() {
    let state1 = ConfigState {
        path: "/test/path".to_string(),
        mtime: 12345,
        source_type: ConfigSourceType::Explicit,
    };

    let state2 = ConfigState {
        path: "/test/path".to_string(),
        mtime: 12345,
        source_type: ConfigSourceType::TriggerFile,
    };

    assert_ne!(state1, state2);
    assert!(!state1.same_as(&state2));
}

#[test]
fn test_config_state_different_source_type_trigger_path() {
    let state1 = ConfigState {
        path: "/test/path".to_string(),
        mtime: 12345,
        source_type: ConfigSourceType::TriggerPath,
    };

    let state2 = ConfigState {
        path: "/test/path".to_string(),
        mtime: 12345,
        source_type: ConfigSourceType::TriggerFile,
    };

    assert_ne!(state1, state2);
    assert!(!state1.same_as(&state2));
}

#[test]
fn config_state_differs_by_path_and_fingerprint() {
    let state = ConfigState {
        path: "/test/path".to_string(),
        mtime: 12345,
        source_type: ConfigSourceType::Explicit,
    };
    let moved = ConfigState { path: "/test/other".to_string(), ..state.clone() };
    let touched = ConfigState { mtime: 12346, ..state.clone() };
    assert!(!state.same_as(&moved));
    assert!(!state.same_as(&touched));
    assert!(state.same_as(&state.clone()));
}

#[test]
fn test_write_and_read_state_explicit() {
    let state = ConfigState {
        path: "/test/config/.termtint".to_string(),
        mtime: 67890,
        source_type: ConfigSourceType::Explicit,
    };

    let record = write_last_config_state(Some(&state)).unwrap();
    let read_state = read_last_config_state(&record);

    assert_eq!(read_state, Some(state));
}

#[test]
fn test_write_and_read_state_triggered() {
    let state = ConfigState {
        path: "/test/project".to_string(),
        mtime: 12345,
        source_type: ConfigSourceType::TriggerFile,
    };

    let record = write_last_config_state(Some(&state)).unwrap();
    let read_state = read_last_config_state(&record);

    assert_eq!(read_state, Some(state));
}

#[test]
fn test_write_and_read_state_trigger_path() {
    let state = ConfigState {
        path: "/test/project".to_string(),
        mtime: 0,
        source_type: ConfigSourceType::TriggerPath,
    };

    let record = write_last_config_state(Some(&state)).unwrap();

    let read_state = read_last_config_state(&record);

    assert_eq!(read_state, Some(state));
}

#[test]
fn test_write_and_clear_state() {
    let state = ConfigState {
        path: "/test/path".to_string(),
        mtime: 12345,
        source_type: ConfigSourceType::Explicit,
    };

    let record = write_last_config_state(Some(&state)).unwrap();
    assert!(read_last_config_state(&record).is_some());

    assert_eq!(write_last_config_state(None), None);
}

#[test]
fn written_record_is_three_lines() {
    let state = ConfigState {
        path: "/test/config/.termtint".to_string(),
        mtime: 67890,
        source_type: ConfigSourceType::Explicit,
    };
    assert_eq!(
        write_last_config_state(Some(&state)),
        Some("/test/config/.termtint\n67890\nExplicit".to_string())
    );
    let state = ConfigState {
        path: "/p".to_string(),
        mtime: 0,
        source_type: ConfigSourceType::TriggerPath,
    };
    assert_eq!(write_last_config_state(Some(&state)), Some("/p\n0\nTriggerPath".to_string()));
    let state = ConfigState {
        path: "/p".to_string(),
        mtime: u64::MAX,
        source_type: ConfigSourceType::TriggerFile,
    };
    assert_eq!(
        write_last_config_state(Some(&state)),
        Some("/p\n18446744073709551615\nTriggerFile".to_string())
    );
}

#[test]
fn test_backwards_compatibility_missing_source_type() {
    let state = read_last_config_state("/test/path\n12345").unwrap();

    assert_eq!(state.path, "/test/path");
    assert_eq!(state.mtime, 12345);
    assert_eq!(state.source_type, ConfigSourceType::Explicit);
}

#[test]
fn test_read_malformed_state() {
    let result = read_last_config_state("invalid");
    assert_eq!(result, None);
}

#[test]
fn test_read_state_empty_path() {
    let result = read_last_config_state("\n12345\nExplicit");
    assert_eq!(result, None);
}

#[test]
fn read_state_older_tags_and_odd_records() {
    let read = |content: &str| read_last_config_state(content).map(|s| s.source_type);
    assert_eq!(read("/p\n1\nPathGlob"), Some(ConfigSourceType::TriggerPath));
    assert_eq!(read("/p\n1\nTriggered"), Some(ConfigSourceType::TriggerFile));
    assert_eq!(read("/p\n1\nTriggerPath"), Some(ConfigSourceType::TriggerPath));
    assert_eq!(read("/p\n1\nTriggerFile"), Some(ConfigSourceType::TriggerFile));
    assert_eq!(read("/p\n1\nsomething else"), Some(ConfigSourceType::Explicit));
    assert_eq!(read("/p\n1\n  TriggerFile  \n"), Some(ConfigSourceType::TriggerFile));
    assert_eq!(read("/p\r\n1\r\nTriggerFile\r\n"), Some(ConfigSourceType::TriggerFile));
    assert_eq!(read(""), None);
    assert_eq!(read("/p\n"), None);
    assert_eq!(read("/p\n-1\nExplicit"), None);
    assert_eq!(read("/p\n1.5\nExplicit"), None);
    assert_eq!(read("/p\n\nExplicit"), None);
    assert_eq!(read("/p\n+\nExplicit"), None);
    assert_eq!(read("/p\n18446744073709551616\nExplicit"), None);
    assert_eq!(read("   \n5\nExplicit"), None);

    let state = read_last_config_state("  /a b \n +0042 \nExplicit").unwrap();
    assert_eq!(state.path, "/a b");
    assert_eq!(state.mtime, 42);
    let state = read_last_config_state("/p\n18446744073709551615").unwrap();
    assert_eq!(state.mtime, u64::MAX);
}

#[test]
fn current_state_of_each_source() {
    let marker = ConfigSource::Termtint("/a/.termtint".to_string());
    assert_eq!(
        current_state(&marker, Some(77)),
        Some(ConfigState {
            path: "/a/.termtint".to_string(),
            mtime: 77,
            source_type: ConfigSourceType::Explicit
        })
    );
    assert_eq!(current_state(&marker, None), None);
    assert_eq!(
        current_state(&ConfigSource::TriggerPath("/a".to_string()), Some(77)),
        Some(ConfigState {
            path: "/a".to_string(),
            mtime: 0,
            source_type: ConfigSourceType::TriggerPath
        })
    );
    assert_eq!(
        current_state(&ConfigSource::TriggerFile("/a".to_string()), None),
        Some(ConfigState {
            path: "/a".to_string(),
            mtime: 0,
            source_type: ConfigSourceType::TriggerFile
        })
    );
}

#[test]
fn should_repaint_cases() {
    let a = ConfigState {
        path: "/a/.termtint".to_string(),
        mtime: 10,
        source_type: ConfigSourceType::Explicit,
    };
    let b = ConfigState { mtime: 11, ..a.clone() };

    assert!(!should_repaint(None, None, false));
    assert!(!should_repaint(None, None, true));
    assert!(should_repaint(None, Some(&a), false));
    assert!(should_repaint(Some(&a), None, false));
    assert!(should_repaint(Some(&a), Some(&b), false));
    assert!(!should_repaint(Some(&a), Some(&a.clone()), false));
    assert!(should_repaint(Some(&a), Some(&a.clone()), true));
}

#[test]
fn repaint_is_idempotent_once_applied() {
    let found = ConfigState {
        path: "/a/.termtint".to_string(),
        mtime: 10,
        source_type: ConfigSourceType::Explicit,
    };
    let mut record: Option<String> = None;

    let last = record.as_deref().and_then(read_last_config_state);
    assert!(should_repaint(Some(&found), last.as_ref(), false));
    assert_eq!(decide_apply(Some(&found), last.as_ref(), false), ApplyAction::Apply);
    record = write_last_config_state(Some(&found));

    let last = record.as_deref().and_then(read_last_config_state);
    assert!(!should_repaint(Some(&found), last.as_ref(), false));
    assert_eq!(decide_apply(Some(&found), last.as_ref(), false), ApplyAction::Keep);
}

#[test]
fn decide_apply_cases() {
    let a = ConfigState {
        path: "/a".to_string(),
        mtime: 0,
        source_type: ConfigSourceType::TriggerFile,
    };
    let b = ConfigState { source_type: ConfigSourceType::TriggerPath, ..a.clone() };
    assert_eq!(decide_apply(None, None, false), ApplyAction::Reset);
    assert_eq!(decide_apply(None, None, true), ApplyAction::Reset);
    assert_eq!(decide_apply(None, Some(&a), false), ApplyAction::ResetAndClear);
    assert_eq!(decide_apply(Some(&a), None, false), ApplyAction::Apply);
    assert_eq!(decide_apply(Some(&a), Some(&b), false), ApplyAction::Apply);
    assert_eq!(decide_apply(Some(&a), Some(&a.clone()), false), ApplyAction::Keep);
    assert_eq!(decide_apply(Some(&a), Some(&a.clone()), true), ApplyAction::Apply);
}

#[test]
fn test_cleanup_stale_sessions() {
    let second: u128 = 1_000_000_000;
    let fresh = 0;
    let stale = 25 * 60 * 60 * second;
    assert!(stale > 24 * 60 * 60 * second, "File should be older than 24 hours");

    let remove = cleanup_stale_sessions(&vec![Some(fresh), Some(stale)]);

    assert!(!remove[0], "Fresh session should not be deleted");
    assert!(remove[1], "Stale session should be deleted");
}

#[test]
fn test_cleanup_stale_sessions_no_sessions_dir() {
    let remove = cleanup_stale_sessions(&vec![]);
    assert!(remove.is_empty());
}

#[test]
fn cleanup_stale_sessions_boundaries() {
    let remove = cleanup_stale_sessions(&vec![
        Some(STALE_SESSION_AGE),
        Some(STALE_SESSION_AGE + 1),
        Some(STALE_SESSION_AGE - 1),
        None,
        Some(u128::MAX),
        Some(0),
    ]);
    assert_eq!(remove, vec![false, true, false, false, true, false]);
    assert_eq!(STALE_SESSION_AGE, 24 * 60 * 60 * 1_000_000_000);
}
