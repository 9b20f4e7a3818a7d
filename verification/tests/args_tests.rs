use nanopm::args::parse_args;
use nanopm::config::Config;
use nanopm::config::ParsedReturn;
use nanopm::config::Query;
use nanopm::config::QueryType;
use nanopm::config::SortType;
use nanopm::init::OperationType;

fn tokens(words: &[&str]) -> Vec<String> {
    words.iter().map(|w| w.to_string()).collect()
}

#[test]
fn test_argument_parsing_new_project() {
    let args = tokens(&[
        "nanopm", "new", "-n", "TestParseProject", "-d", "3", "-c", "4", "-s", "2",
    ]);

    let result = parse_args(args, false, &OperationType::New, Config::new_config()).unwrap();

    if let ParsedReturn::Config(config) = result.0 {
        assert_eq!(config.setup.name, "TestParseProject");
        assert_eq!(config.setup.days, 3);
        assert_eq!(config.setup.cameras, 4);
        assert_eq!(config.setup.sound_sources, 2);
    } else {
        panic!("Expected Config result");
    }
}

#[test]
fn test_argument_parsing_query() {
    let args = tokens(&["nanopm", "query", "-g", "-ss", "-t", "-rt"]);

    let result = parse_args(args, true, &OperationType::Query, Config::new_config()).unwrap();

    if let ParsedReturn::Query(query_info) = result.0 {
        assert!(matches!(query_info.query, Query::General(SortType::BySize)));
        assert!(query_info.settings.record_timestamp);
        assert!(query_info.settings.include_runtime);
    } else {
        panic!("Expected Query result");
    }
}

#[test]
fn test_default_query_behavior() {
    let args = tokens(&["nanopm", "query"]);

    let result = parse_args(args, true, &OperationType::Query, Config::new_config()).unwrap();

    if let ParsedReturn::Query(query_info) = result.0 {
        assert!(matches!(
            query_info.query,
            Query::General(SortType::ByDefaultOrder)
        ));
    } else {
        panic!("Expected Query result with default general query");
    }
    assert_eq!(
        result.1,
        vec!["No query type specified, defaulting to general query.".to_string()]
    );
}

#[test]
fn test_issue_8_default_query_type() {
    let args = tokens(&["nanopm", "query"]);

    let result = parse_args(args, true, &OperationType::Query, Config::new_config()).unwrap();

    if let ParsedReturn::Query(query_info) = result.0 {
        assert!(matches!(
            query_info.query,
            Query::General(SortType::ByDefaultOrder)
        ));
    } else {
        panic!("Expected Query result with default general query");
    }
}

#[test]
fn test_partial_query_accumulates_subjects() {
    let args = tokens(&["nanopm", "query", "-r", "-d", "-c", "-u", "-ss"]);

    let result = parse_args(args, true, &OperationType::Query, Config::new_config()).unwrap();

    if let ParsedReturn::Query(query_info) = result.0 {
        match query_info.query {
            Query::Partial(types, sort) => {
                assert_eq!(
                    types,
                    vec![QueryType::Root, QueryType::Days, QueryType::Cams]
                );
                assert_eq!(sort, SortType::BySize);
            }
            _ => panic!("Expected Partial query"),
        }
        assert!(query_info.settings.unique_entries);
    } else {
        panic!("Expected Query result");
    }
}

#[test]
fn test_folder_query_chains_names() {
    let args = tokens(&["nanopm", "query", "-f", "01_VIDEO", "-f", "02_AUDIO"]);

    let result = parse_args(args, true, &OperationType::Query, Config::new_config()).unwrap();

    if let ParsedReturn::Query(query_info) = result.0 {
        match query_info.query {
            Query::Folder(names, sort) => {
                assert_eq!(names, vec!["01_VIDEO".to_string(), "02_AUDIO".to_string()]);
                assert_eq!(sort, SortType::ByDefaultOrder);
            }
            _ => panic!("Expected Folder query"),
        }
    } else {
        panic!("Expected Query result");
    }
}

#[test]
fn test_parse_error_messages() {
    let bad_flag = tokens(&["nanopm", "new", "--bogus"]);
    let err = parse_args(bad_flag, false, &OperationType::New, Config::new_config()).unwrap_err();
    assert!(err
        .to_string()
        .contains("Error in parsing: \"--bogus\" is not a valid CLI argument!"));

    let trailing = tokens(&["nanopm", "new", "-d"]);
    let err = parse_args(trailing, false, &OperationType::New, Config::new_config()).unwrap_err();
    assert!(err
        .to_string()
        .contains("Parameter \"-d\" should be followed by a positive integer!"));

    let zero_days = tokens(&["nanopm", "new", "-d", "0"]);
    let err = parse_args(zero_days, false, &OperationType::New, Config::new_config()).unwrap_err();
    assert!(err.to_string().contains("days must be greater than 0"));

    let sort_first = tokens(&["nanopm", "query", "-ss"]);
    let err = parse_args(sort_first, true, &OperationType::Query, Config::new_config())
        .unwrap_err();
    assert!(err
        .to_string()
        .contains("Please specify a query type before specifying a sort type!"));

    let two_queries = tokens(&["nanopm", "query", "-g", "-f", "x"]);
    let err = parse_args(two_queries, true, &OperationType::Query, Config::new_config())
        .unwrap_err();
    assert!(err.to_string().contains("Cannot have more than one query type!"));
}

#[test]
fn test_parse_messages_wording() {
    let args = tokens(&["nanopm", "new", "-n", "Proj", "-cl"]);
    let result = parse_args(args, false, &OperationType::New, Config::new_config()).unwrap();
    assert_eq!(
        result.1,
        vec![
            "Set project name to Proj".to_string(),
            "Cleaning empty folders that are undefined!".to_string(),
        ]
    );

    let args = tokens(&["nanopm", "update", "-n", "Proj2"]);
    let result = parse_args(args, true, &OperationType::Update, Config::new_config()).unwrap();
    assert_eq!(result.1, vec!["Updated project name to Proj2".to_string()]);
}
