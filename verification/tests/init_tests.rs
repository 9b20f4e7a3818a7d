use nanopm::init::InitParams;
use nanopm::init::OperationType;
use nanopm::init::ProjectSetup;
use nanopm::init::QueryParams;
use nanopm::init::get_required_type_init;
use nanopm::init::get_required_type_query;

#[test]
fn test_operation_types() {
    assert_eq!(OperationType::New, OperationType::New);
    assert_ne!(OperationType::New, OperationType::Update);
    assert_ne!(OperationType::Update, OperationType::Query);
}

#[test]
fn test_required_type_functions() {
    assert_eq!(
        get_required_type_init(InitParams::Days, true),
        "a positive integer"
    );
    assert_eq!(get_required_type_init(InitParams::Days, false), "usize");
    assert_eq!(
        get_required_type_init(InitParams::ProjName, true),
        "a String"
    );

    assert_eq!(
        get_required_type_query(QueryParams::Folder, true),
        "a String"
    );
    assert_eq!(
        get_required_type_query(QueryParams::OutputDir, false),
        "String"
    );
}

#[test]
fn test_get_required_type_functions() {
    assert_eq!(
        get_required_type_init(InitParams::Days, true),
        "a positive integer"
    );
    assert_eq!(get_required_type_init(InitParams::Days, false), "usize");
    assert_eq!(
        get_required_type_query(QueryParams::Folder, true),
        "a String"
    );
}

#[test]
fn init_test_project_setup_validation() {
    let mut setup = ProjectSetup::new();
    assert!(setup.validate().is_ok());

    setup.name = "".to_string();
    assert!(setup.validate().is_err());

    setup.name = "Valid".to_string();
    setup.days = 0;
    assert!(setup.validate().is_err());

    setup.days = 1;
    setup.cameras = 0;
    assert!(setup.validate().is_err());

    setup.cameras = 1;
    setup.sound_sources = 0;
    assert!(setup.validate().is_err());
}

#[test]
fn test_default_project_setup() {
    let setup = ProjectSetup::default();
    assert_eq!(setup.name, "Untitled_Project");
    assert_eq!(setup.days, 2);
    assert_eq!(setup.cameras, 2);
    assert_eq!(setup.sound_sources, 1);
    assert!(!setup.clean_project);
    assert!(setup.deadname.is_none());
}

#[test]
fn test_setup_validation_messages() {
    let mut setup = ProjectSetup::new();
    setup.days = 0;
    assert_eq!(
        setup.validate().unwrap_err(),
        "Number of days must be greater than 0"
    );
    setup.days = 1;
    setup.cameras = 0;
    assert_eq!(
        setup.validate().unwrap_err(),
        "Number of cameras must be greater than 0"
    );
    setup.cameras = 1;
    setup.sound_sources = 0;
    assert_eq!(
        setup.validate().unwrap_err(),
        "Number of sound sources must be greater than 0"
    );
}
