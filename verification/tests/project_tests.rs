use nanopm::config::Config;
use nanopm::config::QuerySettings;
use nanopm::config::QueryType;
use nanopm::query::MeasuredDir;
use nanopm::query::QueryResult;
use nanopm::query::combine_index_results;
use nanopm::query::matching_dirs;
use nanopm::query::notice_for;
use nanopm::query::query_iterable;

fn sample_tree() -> Vec<String> {
    vec![
        "./Proj".to_string(),
        "./Proj/01_VIDEO".to_string(),
        "./Proj/02_RUSHES".to_string(),
        "./Proj/02_RUSHES/01_DAY01".to_string(),
        "./Proj/02_RUSHES/01_DAY01/01_VIDEO".to_string(),
        "./Proj/02_RUSHES/01_DAY01/01_VIDEO/01_A_CAM".to_string(),
        "./Proj/02_RUSHES/02_DAY02".to_string(),
        "./Proj/02_RUSHES/02_DAY02/01_VIDEO".to_string(),
        "./Proj/02_RUSHES/02_DAY02/01_VIDEO/01_A_CAM".to_string(),
    ]
}

#[test]
fn test_missing_name_matches_nothing_and_is_noticed() {
    // A default-list name absent from the tree matches no directory; the
    // general query then omits it and emits one notice naming it.
    let dirs = sample_tree();
    let missing = matching_dirs(&dirs, "01_DOCUMENTATION");
    assert!(missing.is_empty());
    assert_eq!(
        notice_for("01_DOCUMENTATION"),
        "The non-existent folder \"01_DOCUMENTATION\" was omitted from the query!"
    );

    // A present name matches every directory ending with it.
    let found = matching_dirs(&dirs, "01_VIDEO");
    assert_eq!(
        found,
        vec![
            "./Proj/01_VIDEO".to_string(),
            "./Proj/02_RUSHES/01_DAY01/01_VIDEO".to_string(),
            "./Proj/02_RUSHES/02_DAY02/01_VIDEO".to_string(),
        ]
    );
}

#[test]
fn test_suffix_match_respects_segment_boundary() {
    // "02_AUDIO" must not match a folder literally named "2_AUDIO", but a
    // path ending in "02_AUDIO" does match.
    let dirs = vec![
        "./Proj/2_AUDIO".to_string(),
        "./Proj/x/02_AUDIO".to_string(),
    ];
    let found = matching_dirs(&dirs, "02_AUDIO");
    assert_eq!(found, vec!["./Proj/x/02_AUDIO".to_string()]);

    let found = matching_dirs(&dirs, "2_AUDIO");
    assert_eq!(found.len(), 2);
}

fn measured(path: &str, file_count: usize, dir_size: u64) -> MeasuredDir {
    MeasuredDir {
        path: path.to_string(),
        file_count,
        dir_size,
    }
}

#[test]
fn test_combined_and_unique_camera_results() {
    // Camera "A" present on both days: combined mode yields one CamResult
    // with the statistics summed across days; unique mode yields one
    // result per physical directory.
    let batch = vec![
        measured("./Proj/02_RUSHES/01_DAY01/01_VIDEO/01_A_CAM", 1, 100),
        measured("./Proj/02_RUSHES/02_DAY02/01_VIDEO/01_A_CAM", 1, 50),
    ];
    let settings = QuerySettings::default();

    let combined = combine_index_results(QueryType::Cams, 1, &batch, false, &settings);
    assert_eq!(combined.len(), 1);
    match &combined[0] {
        QueryResult::CamResult(c) => {
            assert_eq!(c.camera, "A Cam (1)");
            assert_eq!(c.file_count, 2);
            assert_eq!(c.total_size_u64, 150);
            assert!(c.path.is_none());
        }
        _ => panic!("Expected CamResult"),
    }

    let unique = combine_index_results(QueryType::Cams, 1, &batch, true, &settings);
    assert_eq!(unique.len(), 2);
    for (i, r) in unique.iter().enumerate() {
        match r {
            QueryResult::CamResult(c) => {
                assert_eq!(c.camera, "A Cam (1)");
                assert_eq!(c.file_count, 1);
                assert_eq!(c.path.as_deref(), Some(batch[i].path.as_str()));
            }
            _ => panic!("Expected CamResult"),
        }
    }
}

#[test]
fn test_combined_empty_batch_yields_nothing() {
    let batch: Vec<MeasuredDir> = vec![];
    let settings = QuerySettings::default();
    let combined = combine_index_results(QueryType::Days, 1, &batch, false, &settings);
    assert!(combined.is_empty());
}

#[test]
fn test_iterable_root_refused() {
    let config = Config::new_config();
    let err = query_iterable(&config, &QuerySettings::default(), QueryType::Root).unwrap_err();
    assert!(err
        .to_string()
        .contains("Root query should not be handled here"));
}
