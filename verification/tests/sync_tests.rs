use nanopm::config::Config;
use nanopm::init::OperationType;
use nanopm::init::ProjectSetup;
use nanopm::resolve::generate_folder_paths;
use nanopm::sync::RootAction;
use nanopm::sync::missing_paths;
use nanopm::sync::plan_prune;
use nanopm::sync::plan_root_action;
use nanopm::sync::plan_root_action_deadname;

fn named_setup(name: &str) -> ProjectSetup {
    let mut setup = ProjectSetup::new();
    setup.name = name.to_string();
    setup
}

#[test]
fn test_root_action_rename_on_update() {
    let old_setup = named_setup("OldName");
    let setup = named_setup("NewName");
    let action = plan_root_action(&old_setup, &setup, &OperationType::Update, true, true, false);
    match action {
        RootAction::Rename { from, to } => {
            assert_eq!(from, "OldName");
            assert_eq!(to, "NewName");
        }
        _ => panic!("Expected a rename"),
    }
}

#[test]
fn test_root_action_create_when_missing() {
    let old_setup = named_setup("Proj");
    let setup = named_setup("Proj");
    let action = plan_root_action(&old_setup, &setup, &OperationType::New, false, false, false);
    match action {
        RootAction::Create(name) => assert_eq!(name, "Proj"),
        _ => panic!("Expected a create"),
    }
}

#[test]
fn test_root_action_deadname_adoption() {
    let setup = named_setup("NewName");
    let action = plan_root_action_deadname("OldDir", &setup, true, false);
    match action {
        RootAction::Rename { from, to } => {
            assert_eq!(from, "OldDir");
            assert_eq!(to, "NewName");
        }
        _ => panic!("Expected a rename"),
    }
    let action = plan_root_action_deadname("OldDir", &setup, false, true);
    assert!(matches!(action, RootAction::Keep));
}

#[test]
fn test_second_run_is_a_noop() {
    // Idempotence: with the name unchanged and every resolved path already
    // present, the second synchronizer run renames nothing and creates
    // nothing.
    let mut config = Config::new_config();
    config.setup.name = "Steady".to_string();
    let setup = config.setup.clone();

    let action = plan_root_action(&setup, &config.setup, &OperationType::Update, true, true, true);
    assert!(matches!(action, RootAction::Keep));

    let paths = generate_folder_paths(&config).unwrap();
    let missing = missing_paths(&paths, &paths);
    assert!(missing.is_empty());
}

#[test]
fn test_missing_paths_filters() {
    let paths = vec!["P".to_string(), "P/a".to_string(), "P/b".to_string()];
    let existing = vec!["P".to_string(), "P/b".to_string()];
    let missing = missing_paths(&paths, &existing);
    assert_eq!(missing, vec!["P/a".to_string()]);
}

#[test]
fn test_prune_keeps_managed_tree() {
    // A tree holding only resolved-set directories loses nothing.
    let dirs = vec![
        "./P".to_string(),
        "./P/01_DOCUMENTATION".to_string(),
        "./P/02_RUSHES".to_string(),
    ];
    let files: Vec<String> = vec![];
    let valid = vec![
        "P".to_string(),
        "P/01_DOCUMENTATION".to_string(),
        "P/02_RUSHES".to_string(),
    ];
    let removals = plan_prune(&dirs, &files, &valid).unwrap();
    assert!(removals.is_empty());
}

#[test]
fn test_prune_removes_extra_leaf() {
    // One extra empty directory outside the resolved set goes, and nothing
    // else does.
    let dirs = vec![
        "./P".to_string(),
        "./P/01_DOCUMENTATION".to_string(),
        "./P/stray".to_string(),
    ];
    let files: Vec<String> = vec![];
    let valid = vec!["P".to_string(), "P/01_DOCUMENTATION".to_string()];
    let removals = plan_prune(&dirs, &files, &valid).unwrap();
    assert_eq!(removals, vec!["./P/stray".to_string()]);
}

#[test]
fn test_prune_keeps_directories_with_files() {
    let dirs = vec!["./P".to_string(), "./P/stray".to_string()];
    let files = vec!["./P/stray/keep.txt".to_string()];
    let valid = vec!["P".to_string()];
    let removals = plan_prune(&dirs, &files, &valid).unwrap();
    assert!(removals.is_empty());
}

#[test]
fn test_prune_cascades_upward() {
    // Removing an empty leaf makes its parent empty; the fixed-point pass
    // removes the parent within the same cleanup call.
    let dirs = vec![
        "./P".to_string(),
        "./P/a".to_string(),
        "./P/a/b".to_string(),
    ];
    let files: Vec<String> = vec![];
    let valid = vec!["P".to_string()];
    let removals = plan_prune(&dirs, &files, &valid).unwrap();
    assert_eq!(removals, vec!["./P/a/b".to_string(), "./P/a".to_string()]);
}
