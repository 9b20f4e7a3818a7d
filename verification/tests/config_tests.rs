use nanopm::config::Config;
use nanopm::config::FileStructure;
use nanopm::config::Folder;
use nanopm::config::Query;
use nanopm::config::QueryInfo;
use nanopm::config::QuerySettings;
use nanopm::config::QueryType;
use nanopm::config::SortType;
use nanopm::config::parse_positive_integer;

#[test]
fn test_config_creation() {
    let config = Config::new_config();
    assert_eq!(config.version, "v2");
    assert_eq!(config.setup.name, "Untitled_Project");
    assert_eq!(config.setup.days, 2);
    assert_eq!(config.setup.cameras, 2);
    assert_eq!(config.setup.sound_sources, 1);
    assert!(!config.general_query_params.is_empty());
}

#[test]
fn tests_test_config_validation() {
    let mut config = Config::new_config();

    assert!(config.validate().is_ok());

    config.setup.name = "".to_string();
    assert!(config.validate().is_err());

    config.setup.name = "Valid".to_string();
    config.setup.days = 0;
    assert!(config.validate().is_err());

    config.setup.days = 1;
    config.setup.cameras = 0;
    assert!(config.validate().is_err());

    config.setup.cameras = 1;
    config.setup.sound_sources = 0;
    assert!(config.validate().is_err());
}

#[test]
fn config_test_config_validation() {
    let mut config = Config::new_config();
    assert!(config.validate().is_ok());

    config.setup.name = "".to_string();
    assert!(config.validate().is_err());

    config.setup.name = "Valid Name".to_string();
    config.setup.days = 0;
    assert!(config.validate().is_err());
}

#[test]
fn test_folder_structure() {
    let structure = FileStructure::get_default_structure();
    assert!(!structure.folders_list.is_empty());

    let folder_names: Vec<&String> = structure.folders_list.iter().map(|f| &f.name).collect();
    assert!(folder_names.contains(&&"01_DOCUMENTATION".to_string()));
    assert!(folder_names.contains(&&"02_RUSHES".to_string()));
    assert!(folder_names.contains(&&"%days".to_string()));
}

#[test]
fn config_test_folder_creation() {
    let folder = Folder::new("test_id", Some("parent_id"), "Test Folder");
    assert_eq!(folder.id, "test_id");
    assert_eq!(folder.parent_id, Some("parent_id".to_string()));
    assert_eq!(folder.name, "Test Folder");
}

#[test]
fn test_query_info_creation() {
    let query_info = QueryInfo::new_query_info();
    assert!(matches!(query_info.query, Query::Unset));
    assert!(!query_info.settings.write);
    assert!(!query_info.settings.record_timestamp);
    assert!(!query_info.settings.unique_entries);
    assert!(!query_info.settings.quiet);
    assert!(!query_info.settings.include_runtime);
}

#[test]
fn test_query_settings() {
    let mut settings = QuerySettings::default();
    assert!(!settings.write);
    assert!(settings.output_name.is_none());

    settings.write = true;
    settings.output_name = Some("test_output".to_string());
    settings.record_timestamp = true;
    settings.unique_entries = true;
    settings.quiet = true;
    settings.include_runtime = true;

    assert!(settings.write);
    assert_eq!(settings.output_name, Some("test_output".to_string()));
    assert!(settings.record_timestamp);
    assert!(settings.unique_entries);
    assert!(settings.quiet);
    assert!(settings.include_runtime);
}

#[test]
fn test_sort_types() {
    assert_eq!(SortType::default_sort_type(), SortType::ByDefaultOrder);
    assert_ne!(SortType::BySize, SortType::ByDefaultOrder);
}

#[test]
fn test_query_types() {
    let query = Query::General(SortType::BySize);
    assert_eq!(*query.get_sort_type(), SortType::BySize);

    let partial_query = Query::Partial(vec![QueryType::Root], SortType::ByDefaultOrder);
    assert_eq!(*partial_query.get_sort_type(), SortType::ByDefaultOrder);
}

#[test]
fn test_get_default_general_query() {
    let query_params = Query::get_default_general_query();
    assert!(!query_params.is_empty());
    assert!(query_params.contains(&"01_DOCUMENTATION".to_string()));
    assert!(query_params.contains(&"01_VIDEO".to_string()));
    assert!(query_params.contains(&"05_FINALS".to_string()));
}

#[test]
fn test_invalid_config_handling() {
    let mut config = Config::new_config();
    config.setup.name = "".to_string();

    let validation_result = config.validate();
    assert!(validation_result.is_err());
    assert!(validation_result.unwrap_err().to_string().contains("empty"));
}

#[test]
fn test_empty_folder_lists() {
    let empty_query = Query::Folder(vec![], SortType::ByDefaultOrder);
    assert!(matches!(empty_query, Query::Folder(_, _)));
}

#[test]
fn test_circular_import_fix() {
    let query_info = QueryInfo::new_query_info();
    assert!(matches!(query_info.query, Query::Unset));
}

#[test]
fn test_basic_usage_example() {
    let mut config = Config::new_config();
    config.setup.name = "My_Project".to_string();
    config.setup.days = 5;
    config.setup.cameras = 3;
    config.setup.sound_sources = 2;

    assert!(config.validate().is_ok());
    assert_eq!(config.setup.name, "My_Project");
    assert_eq!(config.setup.days, 5);
}

#[test]
fn test_query_example() {
    let mut query_info = QueryInfo::new_query_info();
    query_info.query = Query::General(SortType::BySize);
    query_info.settings.quiet = true;

    assert!(matches!(query_info.query, Query::General(SortType::BySize)));
    assert!(query_info.settings.quiet);
}

#[test]
fn test_parse_positive_integer() {
    assert_eq!(parse_positive_integer("5", "test").unwrap(), 5);
    assert!(parse_positive_integer("0", "test").is_err());
    assert!(parse_positive_integer("-1", "test").is_err());
    assert!(parse_positive_integer("abc", "test").is_err());
}

#[test]
fn test_parse_positive_integer_messages() {
    assert_eq!(
        parse_positive_integer("0", "days").unwrap_err(),
        "days must be greater than 0"
    );
    assert_eq!(
        parse_positive_integer("x", "cameras").unwrap_err(),
        "cameras must be a positive integer"
    );
    assert_eq!(parse_positive_integer("+12", "days").unwrap(), 12);
    assert!(parse_positive_integer("", "days").is_err());
    assert!(parse_positive_integer("99999999999999999999999999", "days").is_err());
}

#[test]
fn test_config_creation_performance() {
    let start = std::time::Instant::now();
    for _ in 0..1000 {
        let _config = Config::new_config();
    }
    let duration = start.elapsed();

    assert!(duration.as_millis() < 100);
}

#[test]
fn test_create_test_project() {
    let config = nanopm::testutil::create_test_project("Film", 4, 3, 2);
    assert_eq!(config.setup.name, "Film");
    assert_eq!(config.setup.days, 4);
    assert_eq!(config.setup.cameras, 3);
    assert_eq!(config.setup.sound_sources, 2);
}

#[test]
fn test_create_mock_query_info() {
    let info = nanopm::testutil::create_mock_query_info(Query::General(SortType::BySize));
    assert!(matches!(info.query, Query::General(SortType::BySize)));
    assert!(!info.settings.write);
}
