use nanopm::config::Query;
use nanopm::config::QuerySettings;
use nanopm::config::QueryType;
use nanopm::config::SortType;
use nanopm::query::FolderResult;
use nanopm::query::QueryError;
use nanopm::query::QueryResult;
use nanopm::query::apply_sorting;
use nanopm::query::create_query_result;
use nanopm::report::get_explanation_string;
use nanopm::report::get_export_path;
use nanopm::report::get_timestamp_string;
use nanopm::report::to_shorthand;
use nanopm::testutil::validate_query_result;

#[test]
fn tests_test_to_shorthand() {
    assert_eq!(to_shorthand(0), "0B");
    assert_eq!(to_shorthand(1024), "1KiB (1KB)");
    assert_eq!(to_shorthand(1048576), "1.0MiB (1.0MB)");
}

#[test]
fn query_test_to_shorthand() {
    assert_eq!(to_shorthand(0), "0B");
    assert_eq!(to_shorthand(512), "512B");
    assert_eq!(to_shorthand(1536), "2KiB (2KB)");
    assert_eq!(to_shorthand(1048576), "1.0MiB (1.0MB)");
    assert_eq!(to_shorthand(1073741824), "1.0GiB (1.1GB)");
}

#[test]
fn test_shorthand_examples() {
    assert_eq!(to_shorthand(0), "0B");
    assert_eq!(to_shorthand(1024), "1KiB (1KB)");
    assert_eq!(to_shorthand(1048576), "1.0MiB (1.0MB)");
}

#[test]
fn test_shorthand_large_values_drop_decimals() {
    // At one hundred or more in binary-scaled form the shorthand uses no
    // decimal places.
    assert_eq!(to_shorthand(110 * 1048576), "110MiB (115MB)");
    assert!(!to_shorthand(150 * 1024 * 1024 * 1024).contains("."));
}

#[test]
fn test_very_large_numbers() {
    let large_number = u64::MAX;
    let result = to_shorthand(large_number);
    assert!(result.contains("B"));
}

#[test]
fn test_shorthand_conversion_performance() {
    let start = std::time::Instant::now();
    let test_sizes = vec![0, 1024, 1048576, 1073741824, 1099511627776];

    for _ in 0..10000 {
        for &size in &test_sizes {
            let _ = to_shorthand(size);
        }
    }
    let duration = start.elapsed();

    assert!(duration.as_millis() < 100);
}

#[test]
fn test_zero_values_handling() {
    assert_eq!(to_shorthand(0), "0B");

    let mut setup = nanopm::init::ProjectSetup::new();
    setup.days = 0;
    assert!(setup.validate().is_err());
}

#[test]
fn test_get_explanation_string() {
    let query = Query::General(SortType::BySize);
    let settings = QuerySettings::default();
    let explanation = get_explanation_string(&query, &settings);
    assert!(explanation.contains("General Project Query - Sorted by Size"));
}

#[test]
fn test_create_query_result() {
    let settings = QuerySettings::default();
    let result = create_query_result(QueryType::Days, 1, None, 10, 1024, &settings);

    match result {
        QueryResult::DayResult(day_result) => {
            assert_eq!(day_result.day, "Day 1");
            assert_eq!(day_result.file_count, 10);
            assert!(day_result.total_size.contains("1"));
        }
        _ => panic!("Expected DayResult"),
    }
}

#[test]
fn test_create_query_result_labels() {
    let settings = QuerySettings::default();
    let cam = create_query_result(QueryType::Cams, 2, None, 0, 0, &settings);
    match cam {
        QueryResult::CamResult(c) => assert_eq!(c.camera, "B Cam (2)"),
        _ => panic!("Expected CamResult"),
    }
    let snd = create_query_result(QueryType::Sound, 1, None, 0, 0, &settings);
    match snd {
        QueryResult::SoundResult(s) => assert_eq!(s.sound_source, "A Rec (1)"),
        _ => panic!("Expected SoundResult"),
    }
}

fn folder_result(path: &str, file_count: usize, size_label: &str, size: u64) -> QueryResult {
    QueryResult::FolderResult(FolderResult {
        path: path.to_string(),
        file_count,
        total_size: size_label.to_string(),
        total_size_u64: size,
        runtime_ms: None,
    })
}

#[test]
fn test_issue_5_sort_size_for_non_general_queries() {
    let mut query_results = vec![
        folder_result("test1", 5, "1MB", 1048576),
        folder_result("test2", 3, "2MB", 2097152),
    ];

    query_results.sort_by(|a, b| b.get_size_for_sorting().cmp(&a.get_size_for_sorting()));

    if let QueryResult::FolderResult(first) = &query_results[0] {
        assert_eq!(first.total_size_u64, 2097152);
    } else {
        panic!("Expected FolderResult");
    }
}

#[test]
fn test_size_sorting() {
    let mut query_results = vec![
        folder_result("test1", 5, "1MB", 1048576),
        folder_result("test2", 3, "2MB", 2097152),
    ];

    apply_sorting(&mut query_results, &SortType::BySize);

    if let QueryResult::FolderResult(first) = &query_results[0] {
        assert_eq!(first.total_size_u64, 2097152);
    } else {
        panic!("Expected FolderResult");
    }
}

#[test]
fn test_default_order_preserved() {
    let mut query_results = vec![
        folder_result("a", 1, "1MB", 1048576),
        folder_result("b", 1, "2MB", 2097152),
    ];

    apply_sorting(&mut query_results, &SortType::ByDefaultOrder);

    if let QueryResult::FolderResult(first) = &query_results[0] {
        assert_eq!(first.path, "a");
    } else {
        panic!("Expected FolderResult");
    }
    if let QueryResult::FolderResult(second) = &query_results[1] {
        assert_eq!(second.path, "b");
    } else {
        panic!("Expected FolderResult");
    }
}

#[test]
fn test_query_error_messages() {
    let query_error = QueryError::InvalidQuery("Bad query".to_string());
    assert!(query_error.to_string().contains("Invalid query"));

    let io_error = QueryError::IoError("Access denied".to_string());
    assert!(io_error.to_string().contains("IO error"));

    let fs_error = QueryError::FsExtraError("walk failed".to_string());
    assert!(fs_error.to_string().contains("Filesystem error"));
}

#[test]
fn test_result_block_rendering() {
    let r = folder_result("P/03_EXTERNAL", 2, "2KiB (2KB)", 2048);
    let text = r.get_result_string();
    assert_eq!(
        text,
        "[Folder Query]\npath = \"P/03_EXTERNAL\"\nfile_count = 2\ntotal_size = \"2KiB (2KB)\"\n"
    );
}

#[test]
fn test_export_path_and_timestamp() {
    let mut settings = QuerySettings::default();
    settings.output_name = Some("test_output".to_string());
    assert_eq!(get_export_path(&settings, "01.01.2020_00:00:00"), "test_output.txt");

    settings.output_name = None;
    let path = get_export_path(&settings, "01.01.2020_00:00:00");
    assert_eq!(path, "Query_01.01.2020_00.00.00.txt");
    assert!(path.starts_with("Query_"));
    assert!(path.ends_with(".txt"));

    settings.record_timestamp = true;
    assert_eq!(get_timestamp_string(&settings, "now"), "now\n");
    settings.record_timestamp = false;
    assert_eq!(get_timestamp_string(&settings, "now"), "");
}

#[test]
fn test_validate_query_result() {
    let settings = QuerySettings::default();
    let day = create_query_result(QueryType::Days, 1, None, 0, 0, &settings);
    assert!(validate_query_result(&day, "Day 1"));
    assert!(validate_query_result(&day, "Day"));
    assert!(!validate_query_result(&day, "Day 2"));
    let cam = create_query_result(QueryType::Cams, 1, None, 0, 0, &settings);
    assert!(validate_query_result(&cam, "A Cam"));
}

#[test]
fn test_size_sorting_is_stable() {
    // Results with equal sizes keep their produced order.
    let mut query_results = vec![
        folder_result("small", 1, "1KiB (1KB)", 1024),
        folder_result("first", 1, "2KiB (2KB)", 2048),
        folder_result("second", 2, "2KiB (2KB)", 2048),
    ];

    apply_sorting(&mut query_results, &SortType::BySize);

    let paths: Vec<&str> = query_results
        .iter()
        .map(|r| match r {
            QueryResult::FolderResult(f) => f.path.as_str(),
            _ => panic!("Expected FolderResult"),
        })
        .collect();
    assert_eq!(paths, vec!["first", "second", "small"]);
}
