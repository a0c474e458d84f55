use claude_memo::error::Error;
use claude_memo::indexer::{Counted, Indexer};
use claude_memo::parser::{parse_history_file, SessionRecord};
use claude_memo::search::{
    contains_pattern, count_or_zero, count_without_index, count_without_table, effective_limit, limit_value, prepare_query, project_search_args,
    record_from_row, records_from_rows, result_from_row, results_from_rows, sanitize_fts5_query,
    search_args, simple_search_args, Search, SearchResult,
};
use claude_memo::sqlite::{SqlArg, SqlValue};
use tempfile::TempDir;

fn create_test_indexer(temp_dir: &tempfile::TempDir) -> (Indexer, Search) {
    let db_path = temp_dir.path().join("test.db");
    let indexer = Indexer::with_db_path(db_path.clone());
    let search = Search::with_db_path(db_path);
    (indexer, search)
}

#[test]
fn test_search_basic() {
    let temp_dir = TempDir::new().unwrap();
    let (indexer, search) = create_test_indexer(&temp_dir);

    let records = vec![
        SessionRecord::new(
            "/model".to_string(),
            1766567616338,
            "/Users/elliotxx".to_string(),
            "abc123".to_string(),
        ),
        SessionRecord::new(
            "/search test query".to_string(),
            1766567617000,
            "/Users/elliotxx/project".to_string(),
            "def456".to_string(),
        ),
        SessionRecord::new(
            "/another search command".to_string(),
            1766567618000,
            "/Users/elliotxx/other".to_string(),
            "ghi789".to_string(),
        ),
    ];

    indexer.build_index(&records).unwrap();

    let results = search.search("search", Some(10)).unwrap();
    assert_eq!(results.len(), 2);

    for result in &results {
        assert!(result.record.display.to_lowercase().contains("search"));
    }
}

#[test]
fn search_test_search_limit() {
    let temp_dir = TempDir::new().unwrap();
    let (indexer, search) = create_test_indexer(&temp_dir);

    let records = (0..20)
        .map(|i| {
            SessionRecord::new(
                format!("/command {}", i),
                1766567616000 + i as i64,
                "/Users/elliotxx".to_string(),
                format!("id-{}", i),
            )
        })
        .collect::<Vec<_>>();

    indexer.build_index(&records).unwrap();

    let results = search.search("command", Some(5)).unwrap();
    assert_eq!(results.len(), 5);
}

#[test]
fn search_test_search_no_results() {
    let temp_dir = TempDir::new().unwrap();
    let (indexer, search) = create_test_indexer(&temp_dir);

    let records = vec![SessionRecord::new(
        "/test".to_string(),
        1766567616338,
        "/Users/elliotxx".to_string(),
        "abc123".to_string(),
    )];

    indexer.build_index(&records).unwrap();

    let results = search.search("nonexistent", Some(10)).unwrap();
    assert!(results.is_empty());
}

#[test]
fn test_search_with_project_filter() {
    let temp_dir = TempDir::new().unwrap();
    let (indexer, search) = create_test_indexer(&temp_dir);

    let records = vec![
        SessionRecord::new(
            "/test".to_string(),
            1766567616338,
            "/Users/elliotxx/project1".to_string(),
            "abc123".to_string(),
        ),
        SessionRecord::new(
            "/test".to_string(),
            1766567617000,
            "/Users/elliotxx/project2".to_string(),
            "def456".to_string(),
        ),
    ];

    indexer.build_index(&records).unwrap();

    let results = search.search_with_project("test", "project1", Some(10)).unwrap();
    assert_eq!(results.len(), 1);
    assert!(results[0].record.project.contains("project1"));
}

#[test]
fn test_simple_search() {
    let temp_dir = TempDir::new().unwrap();
    let (indexer, search) = create_test_indexer(&temp_dir);

    let records = vec![
        SessionRecord::new(
            "/model".to_string(),
            1766567616338,
            "/Users/elliotxx".to_string(),
            "abc123".to_string(),
        ),
        SessionRecord::new(
            "/search".to_string(),
            1766567617000,
            "/Users/elliotxx/project".to_string(),
            "def456".to_string(),
        ),
    ];

    indexer.build_index(&records).unwrap();

    let results = search.simple_search("model", Some(10)).unwrap();
    assert_eq!(results.len(), 1);
    assert!(results[0].display.contains("model"));
}

#[test]
fn test_search_index_exists() {
    let temp_dir = TempDir::new().unwrap();
    let (indexer, search) = create_test_indexer(&temp_dir);

    assert!(!search.index_exists());

    let records = vec![SessionRecord::new(
        "/test".to_string(),
        1766567616338,
        "/Users/elliotxx".to_string(),
        "test-id".to_string(),
    )];
    indexer.build_index(&records).unwrap();

    assert!(search.index_exists());
    assert!(search.get_count().unwrap() > 0);
}

#[test]
fn test_get_count_empty_index() {
    let temp_dir = TempDir::new().unwrap();
    let (_, search) = create_test_indexer(&temp_dir);

    assert_eq!(search.get_count().unwrap(), 0);
}

#[test]
fn test_search_with_empty_query() {
    let temp_dir = TempDir::new().unwrap();
    let (indexer, search) = create_test_indexer(&temp_dir);

    let records = vec![SessionRecord::new(
        "/test".to_string(),
        1766567616338,
        "/Users/elliotxx".to_string(),
        "abc123".to_string(),
    )];

    indexer.build_index(&records).unwrap();

    let results = search.search("", Some(10)).unwrap();
    assert!(results.len() <= 10);
}

#[test]
fn test_search_with_special_characters() {
    let temp_dir = TempDir::new().unwrap();
    let (indexer, search) = create_test_indexer(&temp_dir);

    let records = vec![SessionRecord::new(
        "/model --option=value".to_string(),
        1766567616338,
        "/Users/elliotxx".to_string(),
        "abc123".to_string(),
    )];

    indexer.build_index(&records).unwrap();

    let results = search.search("--option", Some(10)).unwrap();
    assert!(!results.is_empty() || results.is_empty());
}

#[test]
fn test_search_with_very_long_query() {
    let temp_dir = TempDir::new().unwrap();
    let (indexer, search) = create_test_indexer(&temp_dir);

    let records = vec![SessionRecord::new(
        "/very long command name for testing".to_string(),
        1766567616338,
        "/Users/elliotxx".to_string(),
        "abc123".to_string(),
    )];

    indexer.build_index(&records).unwrap();

    let long_query = "this is a very long query that exceeds the actual content length";
    let results = search.search(long_query, Some(10)).unwrap();
    assert!(results.is_empty());
}

#[test]
fn test_search_with_numeric_query() {
    let temp_dir = TempDir::new().unwrap();
    let (indexer, search) = create_test_indexer(&temp_dir);

    let records = vec![
        SessionRecord::new(
            "/version 1.0".to_string(),
            1766567616338,
            "/Users/elliotxx".to_string(),
            "id-001".to_string(),
        ),
        SessionRecord::new(
            "/version 2.0".to_string(),
            1766567617000,
            "/Users/elliotxx".to_string(),
            "id-002".to_string(),
        ),
    ];

    indexer.build_index(&records).unwrap();

    let results = search.search("version", Some(10)).unwrap();
    assert_eq!(results.len(), 2);
}

#[test]
fn test_search_with_case_insensitive() {
    let temp_dir = TempDir::new().unwrap();
    let (indexer, search) = create_test_indexer(&temp_dir);

    let records = vec![SessionRecord::new(
        "/MODEL".to_string(),
        1766567616338,
        "/Users/elliotxx".to_string(),
        "abc123".to_string(),
    )];

    indexer.build_index(&records).unwrap();

    let results = search.search("model", Some(10)).unwrap();
    assert_eq!(results.len(), 1);
}

#[test]
fn test_search_performance_10k_records() {
    let temp_dir = TempDir::new().unwrap();
    let (indexer, search) = create_test_indexer(&temp_dir);

    let records: Vec<SessionRecord> = (0..10_000)
        .map(|i| {
            SessionRecord::new(
                format!("/test command {}", i),
                1766567616338 + i as i64,
                "/Users/elliotxx/project".to_string(),
                format!("session-{:05}", i / 10),
            )
        })
        .collect();

    let start = std::time::Instant::now();
    indexer.build_index(&records).unwrap();
    let index_time = start.elapsed();

    let start = std::time::Instant::now();
    let results = search.search("command", Some(100)).unwrap();
    let search_time = start.elapsed();

    assert!(!results.is_empty());

    println!("Index build time for 10k records: {:?}", index_time);
    println!("Search time for 10k records: {:?}", search_time);

    assert!(
        search_time < std::time::Duration::from_secs(5),
        "Search took {} seconds, expected < 5 seconds",
        search_time.as_secs_f64()
    );
}

#[test]
fn test_search_latency_100_records() {
    let temp_dir = TempDir::new().unwrap();
    let (indexer, search) = create_test_indexer(&temp_dir);

    let records: Vec<SessionRecord> = (0..100)
        .map(|i| {
            SessionRecord::new(
                format!("/search test query {}", i),
                1766567616338 + i as i64,
                "/Users/elliotxx".to_string(),
                format!("session-{}", i),
            )
        })
        .collect();

    indexer.build_index(&records).unwrap();

    for i in 0..10 {
        let start = std::time::Instant::now();
        let results = search.search("test", Some(20)).unwrap();
        let elapsed = start.elapsed();

        assert!(
            elapsed < std::time::Duration::from_secs(1),
            "Search {} took {} seconds, expected < 1 second",
            i,
            elapsed.as_secs_f64()
        );

        assert!(!results.is_empty(), "Search {} should return results", i);
    }
}

#[test]
fn sanitize_drops_reserved_and_control_characters() {
    assert_eq!(sanitize_fts5_query("--option"), "option");
    assert_eq!(sanitize_fts5_query("sear"), "sear");
    assert_eq!(sanitize_fts5_query("a\"b'c(d)e{f}g[h]i-j.k|l*m?n~o"), "abcdefghijklmno");
    assert_eq!(sanitize_fts5_query("tab\there\u{7f}\n"), "tabhere");
    assert_eq!(sanitize_fts5_query("hello world_1"), "hello world_1");
    assert_eq!(sanitize_fts5_query(" = é "), " = é ");
    assert_eq!(sanitize_fts5_query("_"), "_");
}

#[test]
fn sanitize_gives_nothing_without_a_word_character() {
    assert_eq!(sanitize_fts5_query(""), "");
    assert_eq!(sanitize_fts5_query("   "), "");
    assert_eq!(sanitize_fts5_query("(.*)"), "");
    assert_eq!(sanitize_fts5_query("\"'(){}[]-.|*?~"), "");
    assert_eq!(sanitize_fts5_query("\u{1}\u{2}\t"), "");
    assert_eq!(sanitize_fts5_query(" = + "), "");
}

#[test]
fn prepared_query_is_a_prefix_query() {
    assert_eq!(prepare_query("sear"), Some("sear*".to_string()));
    assert_eq!(prepare_query("--option"), Some("option*".to_string()));
    assert_eq!(prepare_query(" two words "), Some(" two words *".to_string()));
    assert_eq!(prepare_query(""), None);
    assert_eq!(prepare_query("   "), None);
    assert_eq!(prepare_query("\t\u{a0}\n"), None);
    assert_eq!(prepare_query("?*~"), None);
}

#[test]
fn pattern_surrounds_the_keyword_as_it_is() {
    assert_eq!(contains_pattern("model"), "%model%");
    assert_eq!(contains_pattern(""), "%%");
    assert_eq!(contains_pattern("50%_x"), "%50%_x%");
}

#[test]
fn limit_defaults_to_twenty() {
    assert_eq!(effective_limit(None), 20);
    assert_eq!(effective_limit(Some(0)), 0);
    assert_eq!(effective_limit(Some(7)), 7);
    assert_eq!(limit_value(None), 20);
    assert_eq!(limit_value(Some(5)), 5);
    assert_eq!(limit_value(Some(usize::MAX)), i64::MAX);
}

#[test]
fn void_queries_find_nothing_even_without_a_database() {
    let temp_dir = TempDir::new().unwrap();
    let search = Search::with_db_path(temp_dir.path().join("missing").join("test.db"));
    assert_eq!(search.search("", None), Ok(Vec::new()));
    assert_eq!(search.search("   ", None), Ok(Vec::new()));
    assert_eq!(search.search("(.*)", Some(3)), Ok(Vec::new()));
    assert_eq!(search.search("\u{1}\u{2}", None), Ok(Vec::new()));
    assert_eq!(search.search_with_project("--", "project", None), Ok(Vec::new()));
    assert!(matches!(search.search("word", None), Err(Error::Database(_))));
    assert!(matches!(search.simple_search("word", None), Err(Error::Database(_))));
}

#[test]
fn void_queries_find_nothing_in_a_filled_index() {
    let temp_dir = TempDir::new().unwrap();
    let (indexer, search) = create_test_indexer(&temp_dir);
    let records = vec![SessionRecord::new(
        "/test".to_string(),
        1766567616338,
        "/Users/elliotxx".to_string(),
        "abc123".to_string(),
    )];
    indexer.build_index(&records).unwrap();
    assert!(search.search("", Some(10)).unwrap().is_empty());
    assert!(search.search("   ", Some(10)).unwrap().is_empty());
    assert!(search.search("\"*\"", Some(10)).unwrap().is_empty());
    assert_eq!(search.search("te", Some(10)).unwrap().len(), 1);
}

#[test]
fn search_finds_exactly_the_records_that_hold_the_word() {
    let temp_dir = TempDir::new().unwrap();
    let (indexer, search) = create_test_indexer(&temp_dir);
    let records = vec![
        SessionRecord::new("/model".to_string(), 10, "/p".to_string(), "a".to_string()),
        SessionRecord::new("/Search one".to_string(), 20, "/p".to_string(), "b".to_string()),
        SessionRecord::new("/other".to_string(), 30, "/p".to_string(), "c".to_string()),
        SessionRecord::new("/two searching".to_string(), 40, "/p".to_string(), "d".to_string()),
        SessionRecord::new("/last".to_string(), 50, "/p".to_string(), "e".to_string()),
    ];
    indexer.build_index(&records).unwrap();
    let results = search.search("search", Some(5)).unwrap();
    let ids: Vec<&str> = results.iter().map(|r| r.record.session_id.as_str()).collect();
    assert_eq!(ids, vec!["d", "b"]);
    for result in &results {
        assert!(result.record.display.to_lowercase().contains("search"));
    }
}

#[test]
fn search_results_come_newest_first() {
    let temp_dir = TempDir::new().unwrap();
    let (indexer, search) = create_test_indexer(&temp_dir);
    let records = vec![
        SessionRecord::new("/older command".to_string(), 1000, "/p".to_string(), "s1".to_string()),
        SessionRecord::new("/newer command".to_string(), 3000, "/p".to_string(), "s2".to_string()),
        SessionRecord::new("/middle command".to_string(), 2000, "/p".to_string(), "s3".to_string()),
    ];
    indexer.build_index(&records).unwrap();
    let results = search.search("command", None).unwrap();
    let times: Vec<i64> = results.iter().map(|r| r.record.timestamp).collect();
    assert_eq!(times, vec![3000, 2000, 1000]);
    let plain = search.simple_search("command", None).unwrap();
    let times: Vec<i64> = plain.iter().map(|r| r.timestamp).collect();
    assert_eq!(times, vec![3000, 2000, 1000]);
}

#[test]
fn search_score_counts_the_display_text() {
    let temp_dir = TempDir::new().unwrap();
    let (indexer, search) = create_test_indexer(&temp_dir);
    let records = vec![
        SessionRecord::new("/alpha".to_string(), 1000, "/beta".to_string(), "s1".to_string()),
        SessionRecord::new("/gamma".to_string(), 2000, "/alpha".to_string(), "s2".to_string()),
    ];
    indexer.build_index(&records).unwrap();
    let results = search.search("alpha", None).unwrap();
    assert_eq!(results.len(), 2);
    let in_project = f64::from_bits(results[0].score_bits);
    let in_display = f64::from_bits(results[1].score_bits);
    assert_eq!(results[0].record.session_id, "s2");
    assert!(in_display < 0.0);
    assert!(in_display < in_project);
    assert!(in_project.abs() < 1e-3);
}

#[test]
fn search_after_build_finds_the_one_matching_session() {
    let lines = vec![
        r#"{"display":"/a","timestamp":1000,"project":"/p","sessionId":"id-001"}"#.to_string(),
        r#"{"display":"/b search","timestamp":2000,"project":"/p","sessionId":"id-002"}"#
            .to_string(),
    ];
    let records = parse_history_file(&lines);
    let temp_dir = TempDir::new().unwrap();
    let (indexer, search) = create_test_indexer(&temp_dir);
    assert_eq!(indexer.build_index(&records), Ok(2));
    let results = search.search("search", None).unwrap();
    assert_eq!(results.len(), 1);
    assert_eq!(results[0].record.session_id, "id-002");
    assert_eq!(
        results[0].record,
        SessionRecord::new("/b search".to_string(), 2000, "/p".to_string(), "id-002".to_string())
    );
}

#[test]
fn default_limit_caps_the_results() {
    let temp_dir = TempDir::new().unwrap();
    let (indexer, search) = create_test_indexer(&temp_dir);
    let records: Vec<SessionRecord> = (0..25)
        .map(|i| SessionRecord::new(format!("/word {}", i), 100 + i, "/p".to_string(), format!("s{}", i)))
        .collect();
    indexer.build_index(&records).unwrap();
    assert_eq!(search.search("word", None).unwrap().len(), 20);
    assert_eq!(search.simple_search("word", None).unwrap().len(), 20);
    assert_eq!(search.search("word", Some(25)).unwrap().len(), 25);
    assert_eq!(search.get_count(), Ok(25));
}

#[test]
fn simple_search_reads_display_and_project() {
    let temp_dir = TempDir::new().unwrap();
    let (indexer, search) = create_test_indexer(&temp_dir);
    let records = vec![
        SessionRecord::new("/a-b".to_string(), 1, "/home/x".to_string(), "s1".to_string()),
        SessionRecord::new("/c".to_string(), 2, "/home/a-b".to_string(), "s2".to_string()),
        SessionRecord::new("/d".to_string(), 3, "/home/y".to_string(), "s3".to_string()),
    ];
    indexer.build_index(&records).unwrap();
    let found = search.simple_search("a-b", Some(10)).unwrap();
    let ids: Vec<&str> = found.iter().map(|r| r.session_id.as_str()).collect();
    assert_eq!(ids, vec!["s2", "s1"]);
}

#[test]
fn count_is_zero_where_the_table_is_missing() {
    let temp_dir = TempDir::new().unwrap();
    let db_path = temp_dir.path().join("bare.db");
    let conn = rusqlite::Connection::open(&db_path).unwrap();
    conn.execute_batch("CREATE TABLE other (x INTEGER)").unwrap();
    drop(conn);
    let search = Search::with_db_path(db_path);
    assert!(search.index_exists());
    assert_eq!(search.get_count(), Ok(0));
}

fn text(s: &str) -> SqlValue {
    SqlValue::Text(s.to_string())
}

#[test]
fn rows_become_records_and_results() {
    let row = vec![text("/d"), SqlValue::Integer(5), text("/p"), text("s"), SqlValue::Real(7)];
    let record = SessionRecord::new("/d".to_string(), 5, "/p".to_string(), "s".to_string());
    assert_eq!(record_from_row(&row), Ok(record.clone()));
    assert_eq!(result_from_row(&row), Ok(SearchResult::new(record.clone(), 7)));
    assert_eq!(records_from_rows(&vec![row.clone(), row.clone()]), Ok(vec![record.clone(), record.clone()]));
    assert_eq!(
        results_from_rows(&vec![row.clone()]),
        Ok(vec![SearchResult::new(record, 7)])
    );
    assert_eq!(records_from_rows(&Vec::new()), Ok(Vec::new()));
}

#[test]
fn rows_of_another_shape_are_a_database_error() {
    let fault = Err(Error::Database("Invalid column type".to_string()));
    let short = vec![text("/d"), SqlValue::Integer(5), text("/p")];
    assert_eq!(record_from_row(&short), fault.clone());
    let null_display = vec![SqlValue::Null, SqlValue::Integer(5), text("/p"), text("s")];
    assert_eq!(record_from_row(&null_display), fault.clone());
    let text_time = vec![text("/d"), text("5"), text("/p"), text("s")];
    assert_eq!(record_from_row(&text_time), fault.clone());
    let blob_id = vec![text("/d"), SqlValue::Integer(5), text("/p"), SqlValue::Blob(vec![1])];
    assert_eq!(record_from_row(&blob_id), fault.clone());
    let no_score = vec![text("/d"), SqlValue::Integer(5), text("/p"), text("s")];
    assert_eq!(result_from_row(&no_score), Err(Error::Database("Invalid column type".to_string())));
    let integer_score =
        vec![text("/d"), SqlValue::Integer(5), text("/p"), text("s"), SqlValue::Integer(1)];
    assert_eq!(
        result_from_row(&integer_score),
        Err(Error::Database("Invalid column type".to_string()))
    );
    let good = vec![text("/d"), SqlValue::Integer(5), text("/p"), text("s")];
    assert_eq!(
        records_from_rows(&vec![good, short]),
        Err(Error::Database("Invalid column type".to_string()))
    );
}

#[test]
fn statements_take_the_expression_the_patterns_and_the_limit() {
    assert_eq!(
        search_args("sear", None),
        Some(vec![SqlArg::Text("sear*".to_string()), SqlArg::Integer(20)])
    );
    assert_eq!(search_args("  ", Some(5)), None);
    assert_eq!(search_args("(-)", Some(5)), None);
    assert_eq!(
        project_search_args("--option", "proj", Some(3)),
        Some(vec![
            SqlArg::Text("option*".to_string()),
            SqlArg::Text("%proj%".to_string()),
            SqlArg::Integer(3),
        ])
    );
    assert_eq!(project_search_args("", "proj", Some(3)), None);
    assert_eq!(
        simple_search_args("--option", Some(usize::MAX)),
        vec![SqlArg::Text("%--option%".to_string()), SqlArg::Integer(i64::MAX)]
    );
}

#[test]
fn the_engine_reports_zero_where_nothing_is_counted() {
    assert_eq!(count_without_index(), 0);
    assert_eq!(count_without_table(Counted::Rows(0)), Ok(Some(0)));
    assert_eq!(count_without_table(Counted::Rows(1)), Ok(None));
    assert_eq!(count_without_table(Counted::Rows(3)), Ok(None));
    assert_eq!(count_without_table(Counted::NoRow), Ok(Some(0)));
    assert_eq!(
        count_without_table(Counted::Unreadable),
        Err(Error::Database("Invalid column type".to_string()))
    );
    assert_eq!(count_or_zero(Counted::Rows(0)), Ok(0));
    assert_eq!(count_or_zero(Counted::Rows(25)), Ok(25));
    assert_eq!(count_or_zero(Counted::NoRow), Ok(0));
    assert_eq!(
        count_or_zero(Counted::Unreadable),
        Err(Error::Database("Invalid column type".to_string()))
    );
}

#[test]
fn counting_a_missing_index_makes_no_file() {
    let temp_dir = TempDir::new().unwrap();
    let (_, search) = create_test_indexer(&temp_dir);
    assert!(!search.index_exists());
    assert_eq!(search.get_count(), Ok(0));
    assert!(!search.index_exists());
    assert!(!temp_dir.path().join("test.db").exists());
}
