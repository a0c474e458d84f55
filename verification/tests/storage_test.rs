use claude_memo::error::Error;
use claude_memo::parser::{parse_history_file, SessionRecord};
use claude_memo::storage::{
    load_favorites, render_favorites, FavoriteSession, FavoriteWithDetails, Storage,
};
use tempfile::TempDir;

fn empty_storage(temp_dir: &TempDir) -> Storage {
    let favorites_file = temp_dir.path().join("sessions.toml");
    Storage::new(temp_dir.path().to_path_buf(), favorites_file, None).unwrap()
}

#[test]
fn test_favorite_session_display() {
    let session = FavoriteSession::new("abc123-def456".to_string(), 1700000000000);
    let display = session.to_string();
    assert!(display.contains("abc123-def456"));
    assert!(display.contains("⭐"));
}

#[test]
fn test_storage_add_favorite() {
    let temp_dir = TempDir::new().unwrap();
    let mut storage = empty_storage(&temp_dir);

    let result = storage.add_favorite("test-session-id");
    assert!(result.is_ok());
    assert!(storage.is_favorited("test-session-id"));

    let saved = storage.favorites_text();
    assert!(saved.starts_with("[sessions]\n\"test-session-id\" = "));
    assert_eq!(storage.favorites_file(), &temp_dir.path().join("sessions.toml"));
}

#[test]
fn test_storage_remove_favorite() {
    let temp_dir = TempDir::new().unwrap();
    let mut storage = empty_storage(&temp_dir);

    storage.add_favorite("test-session-id").unwrap();
    assert!(storage.is_favorited("test-session-id"));

    storage.remove_favorite("test-session-id").unwrap();
    assert!(!storage.is_favorited("test-session-id"));
}

#[test]
fn test_storage_list_favorites() {
    let temp_dir = TempDir::new().unwrap();
    let mut storage = empty_storage(&temp_dir);

    storage.add_favorite("session-1").unwrap();
    storage.add_favorite("session-2").unwrap();
    storage.add_favorite("session-3").unwrap();

    let favorites = storage.list_favorites();
    assert_eq!(favorites.len(), 3);
}

#[test]
fn test_add_empty_session_id_fails() {
    let temp_dir = TempDir::new().unwrap();
    let mut storage = empty_storage(&temp_dir);

    let result = storage.add_favorite("");
    assert!(result.is_err());
}

#[test]
fn test_remove_nonexistent_session_fails() {
    let temp_dir = TempDir::new().unwrap();
    let mut storage = empty_storage(&temp_dir);

    let result = storage.remove_favorite("nonexistent");
    assert!(result.is_err());
}

#[test]
fn test_duplicate_session_id() {
    let temp_dir = TempDir::new().unwrap();
    let mut storage = empty_storage(&temp_dir);

    storage.add_favorite("same-session").unwrap();
    assert!(storage.is_favorited("same-session"));

    let result = storage.add_favorite("same-session");
    assert!(result.is_ok());
}

#[test]
fn test_is_favorited_returns_false_for_nonexistent() {
    let temp_dir = TempDir::new().unwrap();
    let storage = empty_storage(&temp_dir);

    assert!(!storage.is_favorited("nonexistent-session"));
}

#[test]
fn test_list_favorites_empty() {
    let temp_dir = TempDir::new().unwrap();
    let storage = empty_storage(&temp_dir);

    let favorites = storage.list_favorites();
    assert!(favorites.is_empty());
}

#[test]
fn test_add_favorite_with_special_chars_in_id() {
    let temp_dir = TempDir::new().unwrap();
    let mut storage = empty_storage(&temp_dir);

    let special_id = "abc123-def456_789.012";
    let result = storage.add_favorite(special_id);
    assert!(result.is_ok());
    assert!(storage.is_favorited(special_id));
}

#[test]
fn test_favorite_operation_performance() {
    let temp_dir = TempDir::new().unwrap();
    let mut storage = empty_storage(&temp_dir);

    let start = std::time::Instant::now();
    storage.add_favorite("perf-test-session").unwrap();
    let add_time = start.elapsed();

    assert!(
        add_time < std::time::Duration::from_secs(1),
        "Add favorite took {} seconds, expected < 1 second",
        add_time.as_secs_f64()
    );

    let start = std::time::Instant::now();
    let is_fav = storage.is_favorited("perf-test-session");
    let check_time = start.elapsed();

    assert!(is_fav);
    assert!(
        check_time < std::time::Duration::from_millis(100),
        "is_favorited took {} ms, expected < 100 ms",
        check_time.as_millis()
    );

    let start = std::time::Instant::now();
    storage.remove_favorite("perf-test-session").unwrap();
    let remove_time = start.elapsed();

    assert!(
        remove_time < std::time::Duration::from_secs(1),
        "Remove favorite took {} seconds, expected < 1 second",
        remove_time.as_secs_f64()
    );
}

#[test]
fn test_multiple_favorites_performance() {
    let temp_dir = TempDir::new().unwrap();
    let mut storage = empty_storage(&temp_dir);

    let start = std::time::Instant::now();
    for i in 0..100 {
        storage.add_favorite(&format!("session-{}", i)).unwrap();
    }
    let total_time = start.elapsed();

    assert!(
        total_time < std::time::Duration::from_secs(1),
        "Adding 100 favorites took {} seconds, expected < 1 second",
        total_time.as_secs_f64()
    );

    assert_eq!(storage.list_favorites().len(), 100);
}

#[test]
fn favorite_line_is_dated_in_utc() {
    let session = FavoriteSession::new("abc123-def456".to_string(), 1700000000000);
    assert_eq!(session.to_string(), "⭐ abc123-def456 (2023-11-14 22:13)");
}

#[test]
fn detailed_favorite_is_shown_as_a_record() {
    let details = FavoriteWithDetails::new(
        "abc".to_string(),
        1700000000000,
        "/model".to_string(),
        "/Users/x".to_string(),
        1766567616338,
    );
    assert_eq!(details.to_string(), "2025-12-24 09:13 /Users/x > /model  [abc]");
    let undated = FavoriteWithDetails::new(
        "abc".to_string(),
        1700000000000,
        "/model".to_string(),
        "/Users/x".to_string(),
        i64::MIN,
    );
    assert_eq!(undated.to_string(), "2023-11-14 22:13 /Users/x > /model  [abc]");
}

#[test]
fn add_then_remove_leaves_the_list_empty() {
    let temp_dir = TempDir::new().unwrap();
    let mut storage = empty_storage(&temp_dir);
    assert_eq!(storage.add_favorite("id-1"), Ok(()));
    assert_eq!(storage.remove_favorite("id-1"), Ok(()));
    assert!(storage.list_favorites().is_empty());
    assert!(!storage.is_favorited("id-1"));
    assert_eq!(storage.favorites_text(), "[sessions]\n");
}

#[test]
fn adding_twice_keeps_one_entry_with_the_later_time() {
    let temp_dir = TempDir::new().unwrap();
    let mut storage = empty_storage(&temp_dir);
    assert_eq!(storage.add_favorite_at("a", 100), Ok(()));
    assert_eq!(storage.add_favorite_at("b", 200), Ok(()));
    assert_eq!(storage.add_favorite_at("a", 300), Ok(()));
    assert_eq!(
        storage.list_favorites(),
        vec![FavoriteSession::new("a".to_string(), 300), FavoriteSession::new("b".to_string(), 200)]
    );
    assert_eq!(storage.add_favorite("b"), Ok(()));
    assert_eq!(storage.add_favorite("b"), Ok(()));
    assert_eq!(storage.list_favorites().len(), 2);
}

#[test]
fn removing_an_unknown_session_is_reported_and_changes_nothing() {
    let temp_dir = TempDir::new().unwrap();
    let mut storage = empty_storage(&temp_dir);
    assert_eq!(
        storage.remove_favorite("never-added"),
        Err(Error::SessionNotFound("never-added".to_string()))
    );
    storage.add_favorite_at("kept", 5).unwrap();
    assert_eq!(
        storage.remove_favorite("never-added"),
        Err(Error::SessionNotFound("never-added".to_string()))
    );
    assert_eq!(storage.remove_favorite(""), Err(Error::SessionNotFound(String::new())));
    assert_eq!(storage.list_favorites(), vec![FavoriteSession::new("kept".to_string(), 5)]);
}

#[test]
fn an_empty_identifier_is_refused_and_changes_nothing() {
    let temp_dir = TempDir::new().unwrap();
    let mut storage = empty_storage(&temp_dir);
    let refused = Err(Error::InvalidSessionId("session_id cannot be empty".to_string()));
    assert_eq!(storage.add_favorite(""), refused.clone());
    assert_eq!(storage.add_favorite_at("", 7), refused);
    assert!(storage.list_favorites().is_empty());
}

#[test]
fn favorites_are_listed_most_recent_first() {
    let temp_dir = TempDir::new().unwrap();
    let mut storage = empty_storage(&temp_dir);
    storage.add_favorite_at("oldest", 1000).unwrap();
    storage.add_favorite_at("newest", 3000).unwrap();
    storage.add_favorite_at("middle", 2000).unwrap();
    storage.add_favorite_at("negative", -5).unwrap();
    let ids: Vec<String> = storage.list_favorites().into_iter().map(|f| f.session_id).collect();
    assert_eq!(ids, vec!["newest", "middle", "oldest", "negative"]);
    storage.remove_favorite("middle").unwrap();
    let ids: Vec<String> = storage.list_favorites().into_iter().map(|f| f.session_id).collect();
    assert_eq!(ids, vec!["newest", "oldest", "negative"]);
}

#[test]
fn favorites_added_by_the_clock_come_in_descending_order() {
    let temp_dir = TempDir::new().unwrap();
    let mut storage = empty_storage(&temp_dir);
    storage.add_favorite("oldest").unwrap();
    storage.add_favorite("middle").unwrap();
    storage.add_favorite("newest").unwrap();
    let favorites = storage.list_favorites();
    assert_eq!(favorites.len(), 3);
    for i in 0..favorites.len() - 1 {
        assert!(favorites[i].favorited_at >= favorites[i + 1].favorited_at);
    }
    assert!(favorites[0].favorited_at > 1_600_000_000_000);
}

#[test]
fn favorites_file_text_lists_newest_first() {
    let temp_dir = TempDir::new().unwrap();
    let mut storage = empty_storage(&temp_dir);
    storage.add_favorite_at("a-1", 1000).unwrap();
    storage.add_favorite_at("b_2.x", 3000).unwrap();
    storage.add_favorite_at("c", -20).unwrap();
    assert_eq!(
        storage.favorites_text(),
        "[sessions]\n\"b_2.x\" = 3000\n\"a-1\" = 1000\n\"c\" = -20\n"
    );
    let entries =
        vec![FavoriteSession::new("x".to_string(), 1), FavoriteSession::new("y".to_string(), 2)];
    assert_eq!(render_favorites(&entries), "[sessions]\n\"x\" = 1\n\"y\" = 2\n");
    assert_eq!(render_favorites(&Vec::new()), "[sessions]\n");
}

#[test]
fn saved_favorites_are_loaded_back() {
    let temp_dir = TempDir::new().unwrap();
    let mut storage = empty_storage(&temp_dir);
    storage.add_favorite_at("a-1", 1000).unwrap();
    storage.add_favorite_at("b_2.x", 3000).unwrap();
    let text = storage.favorites_text();
    let reopened = Storage::new(
        temp_dir.path().to_path_buf(),
        temp_dir.path().join("sessions.toml"),
        Some(text.as_str()),
    )
    .unwrap();
    assert_eq!(reopened.list_favorites(), storage.list_favorites());
    assert_eq!(reopened.data_dir(), &temp_dir.path().to_path_buf());
    assert_eq!(reopened.favorites_file(), &temp_dir.path().join("sessions.toml"));
}

#[test]
fn loading_reads_the_integers_of_the_sessions_table() {
    let text = "title = \"x\"\n[sessions]\n\"id-1\" = 10\nplain = 20\n\"text\" = \"30\"\n\"real\" = 1.5\n[other]\n\"id-9\" = 90\n";
    let mut loaded = load_favorites(text).unwrap();
    loaded.sort_by(|a, b| a.session_id.cmp(&b.session_id));
    assert_eq!(
        loaded,
        vec![
            FavoriteSession::new("id-1".to_string(), 10),
            FavoriteSession::new("plain".to_string(), 20),
        ]
    );
    assert_eq!(load_favorites(""), Ok(Vec::new()));
    assert_eq!(load_favorites("[other]\nx = 1\n"), Ok(Vec::new()));
    assert_eq!(load_favorites("sessions = 3\n"), Ok(Vec::new()));
    assert_eq!(load_favorites("[sessions]\n"), Ok(Vec::new()));
}

#[test]
fn text_that_is_not_toml_is_a_toml_error() {
    assert!(matches!(load_favorites("[sessions\n"), Err(Error::TomlParse(_))));
    assert!(matches!(load_favorites("[sessions]\na = 1\na = 2\n"), Err(Error::TomlParse(_))));
    let temp_dir = TempDir::new().unwrap();
    let opened = Storage::new(
        temp_dir.path().to_path_buf(),
        temp_dir.path().join("sessions.toml"),
        Some("= broken"),
    );
    assert!(matches!(opened, Err(Error::TomlParse(_))));
}

#[test]
fn details_take_the_newest_record_of_the_session() {
    let lines = vec![
        r#"{"display":"/early","timestamp":1000,"project":"/one","sessionId":"id-001"}"#
            .to_string(),
        r#"{"display":"/late","timestamp":3000,"project":"/two","sessionId":"id-001"}"#.to_string(),
        r#"{"display":"/between","timestamp":2000,"project":"/three","sessionId":"id-001"}"#
            .to_string(),
        r#"{"display":"/else","timestamp":9000,"project":"/four","sessionId":"id-002"}"#
            .to_string(),
    ];
    let records = parse_history_file(&lines);
    let temp_dir = TempDir::new().unwrap();
    let mut storage = empty_storage(&temp_dir);
    storage.add_favorite_at("id-001", 50).unwrap();
    storage.add_favorite_at("id-404", 70).unwrap();
    let details = storage.list_favorites_with_details(&records);
    assert_eq!(
        details,
        vec![
            FavoriteWithDetails::new(
                "id-404".to_string(),
                70,
                "(session not found in history)".to_string(),
                String::new(),
                70
            ),
            FavoriteWithDetails::new(
                "id-001".to_string(),
                50,
                "/late".to_string(),
                "/two".to_string(),
                3000
            ),
        ]
    );
}

#[test]
fn details_keep_the_first_of_equally_new_records() {
    let records = vec![
        SessionRecord::new("/first".to_string(), 500, "/a".to_string(), "s".to_string()),
        SessionRecord::new("/second".to_string(), 500, "/b".to_string(), "s".to_string()),
        SessionRecord::new("/older".to_string(), 400, "/c".to_string(), "s".to_string()),
    ];
    let temp_dir = TempDir::new().unwrap();
    let mut storage = empty_storage(&temp_dir);
    storage.add_favorite_at("s", 1).unwrap();
    let details = storage.list_favorites_with_details(&records);
    assert_eq!(
        details,
        vec![FavoriteWithDetails::new("s".to_string(), 1, "/first".to_string(), "/a".to_string(), 500)]
    );
}

#[test]
fn details_without_a_log_are_all_placeholders() {
    let temp_dir = TempDir::new().unwrap();
    let mut storage = empty_storage(&temp_dir);
    assert!(storage.list_favorites_with_details(&Vec::new()).is_empty());
    storage.add_favorite_at("x", 10).unwrap();
    storage.add_favorite_at("y", 20).unwrap();
    let details = storage.list_favorites_with_details(&Vec::new());
    assert_eq!(details.len(), 2);
    assert_eq!(details[0].session_id, "y");
    assert_eq!(details[1].session_id, "x");
    for item in &details {
        assert_eq!(item.display, "(session not found in history)");
        assert_eq!(item.project, "");
        assert_eq!(item.session_timestamp, item.favorited_at);
    }
}

#[test]
fn a_cloned_store_goes_its_own_way() {
    let temp_dir = TempDir::new().unwrap();
    let mut storage = empty_storage(&temp_dir);
    storage.add_favorite_at("a", 1).unwrap();
    let mut twin = storage.clone();
    assert_eq!(twin.list_favorites(), storage.list_favorites());
    assert_eq!(twin.data_dir(), storage.data_dir());
    assert_eq!(twin.favorites_file(), storage.favorites_file());
    twin.add_favorite_at("b", 2).unwrap();
    assert!(twin.is_favorited("b"));
    assert!(!storage.is_favorited("b"));
}
