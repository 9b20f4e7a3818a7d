use nanopm::config::Config;
use nanopm::config::Folder;
use nanopm::resolve::build_folder_path;
use nanopm::resolve::find_parent_path;
use nanopm::resolve::generate_folder_paths;
use nanopm::resolve::num_to_char;

#[test]
fn test_num_to_char() {
    assert_eq!(num_to_char(1), 'A');
    assert_eq!(num_to_char(26), 'Z');
    assert_eq!(num_to_char(0), '_');
    assert_eq!(num_to_char(27), '_');
}

#[test]
fn test_repeating_node_counts() {
    // A repeating node hanging off a non-repeating parent expands to
    // exactly as many paths as its count field.
    let mut config = Config::new_config();
    config.setup.days = 3;
    config.setup.cameras = 4;
    config.setup.sound_sources = 2;

    let days = Folder::new("days", Some("rushes"), "%days");
    let paths = build_folder_path(&days, &config, "Proj").unwrap();
    assert_eq!(paths.len(), 3);
    assert_eq!(paths[0], "Proj/02_RUSHES/01_DAY01");
    assert_eq!(paths[2], "Proj/02_RUSHES/03_DAY03");

    let cams = Folder::new("cams2", Some("external"), "%cams");
    let paths = build_folder_path(&cams, &config, "Proj").unwrap();
    assert_eq!(paths.len(), 4);
    assert_eq!(paths[0], "Proj/03_EXTERNAL/01_A_CAM");
    assert_eq!(paths[3], "Proj/03_EXTERNAL/04_D_CAM");

    let sound = Folder::new("recs", None, "%soundsources");
    let paths = build_folder_path(&sound, &config, "Proj").unwrap();
    assert_eq!(paths.len(), 2);
    assert_eq!(paths[1], "Proj/02_B_REC");

    let plain = Folder::new("doc", None, "01_DOCUMENTATION");
    let paths = build_folder_path(&plain, &config, "Proj").unwrap();
    assert_eq!(paths.len(), 1);
}

#[test]
fn test_tree_multiplication() {
    // A repeating node below another repeating node carries the whole
    // subtree into each expansion: camera folders exist once per day.
    let mut config = Config::new_config();
    config.setup.days = 2;
    config.setup.cameras = 2;

    let paths = find_parent_path("cams", &config, "Proj").unwrap();
    assert_eq!(
        paths,
        vec![
            "Proj/02_RUSHES/01_DAY01/01_VIDEO/01_A_CAM".to_string(),
            "Proj/02_RUSHES/01_DAY01/01_VIDEO/02_B_CAM".to_string(),
            "Proj/02_RUSHES/02_DAY02/01_VIDEO/01_A_CAM".to_string(),
            "Proj/02_RUSHES/02_DAY02/01_VIDEO/02_B_CAM".to_string(),
        ]
    );

    let video = Folder::new("video", Some("days"), "01_VIDEO");
    let paths = build_folder_path(&video, &config, "Proj").unwrap();
    assert_eq!(
        paths,
        vec![
            "Proj/02_RUSHES/01_DAY01/01_VIDEO".to_string(),
            "Proj/02_RUSHES/02_DAY02/01_VIDEO".to_string(),
        ]
    );
}

#[test]
fn test_missing_parent_reported() {
    let config = Config::new_config();
    let err = find_parent_path("nonexistent", &config, "Proj").unwrap_err();
    assert!(err
        .to_string()
        .contains("Parent folder with ID 'nonexistent' not found"));
}

#[test]
fn test_cyclic_template_detected() {
    let mut config = Config::new_config();
    config.file_structure.folders_list = vec![
        Folder::new("a", Some("b"), "A"),
        Folder::new("b", Some("a"), "B"),
    ];
    let err = find_parent_path("a", &config, "Proj").unwrap_err();
    assert!(err.to_string().contains("Exceeded maximum ancestor depth"));

    let err = generate_folder_paths(&config).unwrap_err();
    assert!(err.to_string().contains("Exceeded maximum ancestor depth"));
}

#[test]
fn test_generate_folder_paths_default() {
    let mut config = Config::new_config();
    config.setup.name = "Proj".to_string();
    let paths = generate_folder_paths(&config).unwrap();

    // The project root comes first.
    assert_eq!(paths[0], "Proj");
    // Day folders under rushes, and per-day video and camera folders
    // (2 days, 2 cameras, 1 sound source by default).
    assert!(paths.contains(&"Proj/02_RUSHES/01_DAY01".to_string()));
    assert!(paths.contains(&"Proj/02_RUSHES/02_DAY02".to_string()));
    assert!(paths.contains(&"Proj/02_RUSHES/01_DAY01/01_VIDEO".to_string()));
    assert!(paths.contains(&"Proj/02_RUSHES/02_DAY02/01_VIDEO/02_B_CAM".to_string()));
    assert!(paths.contains(&"Proj/02_RUSHES/01_DAY01/02_AUDIO/01_A_REC".to_string()));
    assert!(paths.contains(&"Proj/01_DOCUMENTATION/01_PRE-PRO".to_string()));
    assert!(paths.contains(&"Proj/03_EXTERNAL/05_COMPS".to_string()));
    // No duplicates.
    for i in 0..paths.len() {
        for j in (i + 1)..paths.len() {
            assert_ne!(paths[i], paths[j]);
        }
    }
}

#[test]
fn test_generate_missing_parent() {
    let mut config = Config::new_config();
    config.file_structure.folders_list = vec![Folder::new("x", Some("ghost"), "X")];
    let err = generate_folder_paths(&config).unwrap_err();
    assert!(err
        .to_string()
        .contains("Parent folder with ID 'ghost' not found"));
}

#[test]
fn test_parents_precede_children() {
    // In the resolved list every path's parent directory appears earlier,
    // so the directories can be created in list order.
    let mut config = Config::new_config();
    config.setup.name = "Proj".to_string();
    let paths = generate_folder_paths(&config).unwrap();
    for t in 1..paths.len() {
        let parent = &paths[t][..paths[t].rfind('/').expect("no separator")];
        assert!(paths[..t].iter().any(|p| p == parent));
    }
}
