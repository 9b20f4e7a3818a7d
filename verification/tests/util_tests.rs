use nanopm::util::format_duration;
use nanopm::util::get_version;
use nanopm::util::sanitize_filename;
use nanopm::util::validate_project_name;

#[test]
fn tests_test_get_version() {
    assert_eq!(get_version(), "v2");
}

#[test]
fn util_test_get_version() {
    assert_eq!(get_version(), "v2");
}

#[test]
fn tests_test_format_duration() {
    assert_eq!(format_duration(0), "0ms");
    assert_eq!(format_duration(500), "500ms");
    assert_eq!(format_duration(1000), "1.00s");
    assert_eq!(format_duration(1500), "1.50s");
    assert_eq!(format_duration(60000), "1m 0s");
    assert_eq!(format_duration(65000), "1m 5s");
    assert_eq!(format_duration(125000), "2m 5s");
}

#[test]
fn util_test_format_duration() {
    assert_eq!(format_duration(500), "500ms");
    assert_eq!(format_duration(1500), "1.50s");
    assert_eq!(format_duration(65000), "1m 5s");
}

#[test]
fn tests_test_sanitize_filename() {
    assert_eq!(sanitize_filename("normal_file"), "normal_file");
    assert_eq!(sanitize_filename("file with spaces"), "file with spaces");
    assert_eq!(
        sanitize_filename("file<with>invalid:chars"),
        "file_with_invalid_chars"
    );
    assert_eq!(
        sanitize_filename("file\"with|special*chars"),
        "file_with_special_chars"
    );
    assert_eq!(sanitize_filename("file/with\\slashes"), "file_with_slashes");
    assert_eq!(
        sanitize_filename("file?with|question"),
        "file_with_question"
    );
}

#[test]
fn util_test_sanitize_filename() {
    assert_eq!(sanitize_filename("test<file>"), "test_file_");
    assert_eq!(sanitize_filename("normal_file"), "normal_file");
    assert_eq!(
        sanitize_filename("file:with|special*chars"),
        "file_with_special_chars"
    );
}

#[test]
fn tests_test_validate_project_name() {
    assert!(validate_project_name("Valid_Project").is_ok());
    assert!(validate_project_name("Project123").is_ok());
    assert!(validate_project_name("Project with spaces").is_ok());
    assert!(validate_project_name("Project-with-dashes").is_ok());

    assert!(validate_project_name("").is_err());
    assert!(validate_project_name("   ").is_err());
    assert!(validate_project_name("Project<With>Invalid").is_err());
    assert!(validate_project_name("Project:With:Colons").is_err());
    assert!(validate_project_name("Project\"With\"Quotes").is_err());
    assert!(validate_project_name("Project|With|Pipes").is_err());
    assert!(validate_project_name("Project?With?Questions").is_err());
    assert!(validate_project_name("Project*With*Stars").is_err());

    let long_name = "a".repeat(256);
    assert!(validate_project_name(&long_name).is_err());

    let max_length_name = "a".repeat(255);
    assert!(validate_project_name(&max_length_name).is_ok());
}

#[test]
fn util_test_validate_project_name() {
    assert!(validate_project_name("Valid_Project").is_ok());
    assert!(validate_project_name("").is_err());
    assert!(validate_project_name("Project<With>Invalid:Chars").is_err());

    let long_name = "a".repeat(256);
    assert!(validate_project_name(&long_name).is_err());
}

#[test]
fn test_unicode_project_names() {
    let unicode_name = "Project_测试_🚀";
    let result = validate_project_name(unicode_name);
    assert!(result.is_ok());
}

#[test]
fn test_validate_project_name_messages() {
    assert_eq!(
        validate_project_name("").unwrap_err(),
        "Project name cannot be empty"
    );
    assert_eq!(
        validate_project_name(&"a".repeat(256)).unwrap_err(),
        "Project name is too long (max 255 characters)"
    );
    assert_eq!(
        validate_project_name("a<b").unwrap_err(),
        "Project name contains invalid characters"
    );
}
