use malalongxia::version::{
    first_latest_versioned, latest_by_version, node_version_meets_minimum,
    version_tuple_from_path,
};

#[test]
fn version_meets_minimum_stable_releases() {
    assert!(node_version_meets_minimum("v22.22.0"));
    assert!(node_version_meets_minimum("v22.23.0"));
    assert!(node_version_meets_minimum("v23.0.0"));
    assert!(!node_version_meets_minimum("v22.21.0"));
    assert!(!node_version_meets_minimum("v22.16.0"));
    assert!(!node_version_meets_minimum("v18.20.0"));
}

#[test]
fn version_rejects_prerelease() {
    assert!(!node_version_meets_minimum("v22.16.0-rc.1"));
    assert!(!node_version_meets_minimum("v23.0.0-nightly.20250101"));
    assert!(!node_version_meets_minimum("v22.22.0-beta.1"));
}

#[test]
fn version_check_trims_and_tolerates_missing_fields() {
    assert!(node_version_meets_minimum("  v24.1.0\n"));
    assert!(node_version_meets_minimum("23"));
    assert!(node_version_meets_minimum("22.22"));
    assert!(!node_version_meets_minimum("22.21.9"));
    assert!(node_version_meets_minimum("22.22.0"));
    assert!(!node_version_meets_minimum(""));
    assert!(!node_version_meets_minimum("vx.y.z"));
    assert!(node_version_meets_minimum("v+23.0.0"));
}

#[test]
fn version_tuple_from_nvm_path() {
    assert_eq!(version_tuple_from_path("/home/u/.nvm/versions/node/v22.14.0/bin"), (22, 14, 0));
    assert_eq!(version_tuple_from_path(".fnm/node-versions/v20.1.3/installation/bin"), (20, 1, 3));
    assert_eq!(version_tuple_from_path("/usr/local/bin"), (0, 0, 0));
    assert_eq!(version_tuple_from_path("/x/18.2/bin"), (18, 2, 0));
    assert_eq!(version_tuple_from_path("/x/v9.1.rc/bin"), (9, 1, 0));
}

#[test]
fn latest_picks_highest_version_not_lexicographic() {
    let paths = vec![
        "/n/v9.11.2/bin".to_string(),
        "/n/v22.1.0/bin".to_string(),
        "/n/v10.0.0/bin".to_string(),
    ];
    assert_eq!(latest_by_version(&paths), Some(1));
    assert_eq!(latest_by_version(&vec![]), None);
    let ties = vec!["/a/v1.0.0/bin".to_string(), "/b/v1.0.0/bin".to_string()];
    assert_eq!(latest_by_version(&ties), Some(1));
}

#[test]
fn fnm_scan_keeps_first_highest_versioned_entry() {
    let paths = vec![
        "C:/fnm/node-versions/nothing".to_string(),
        "C:/fnm/node-versions/v20.0.0".to_string(),
        "C:/fnm/node-versions/v22.0.0".to_string(),
        "D:/fnm/node-versions/v22.0.0".to_string(),
    ];
    assert_eq!(first_latest_versioned(&paths), Some(2));
    assert_eq!(first_latest_versioned(&vec!["/x/y".to_string()]), None);
}

#[test]
fn path_version_examples() {
    assert_eq!(version_tuple_from_path("/o/1.2/v3.4.5"), (1, 2, 0));
    assert_eq!(version_tuple_from_path("v22.14"), (22, 14, 0));
    let paths = vec!["/n/v22.1.0/bin".to_string(), "/n/v9.12.0/bin".to_string()];
    assert_eq!(malalongxia::version::latest_by_version(&paths), Some(0));
}
