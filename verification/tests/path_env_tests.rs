use malalongxia::path_env::{
    assemble_expanded_path, fnm_versions_dir_exec, invalidate, invalidate_npm_prefix_cache,
    parse_reg_value, path_with_prepended, refresh_system_path, unix_extra_dirs_exec, unix_join_exec,
    unix_node_patterns, user_path_with_dirs, windows_extra_dirs_exec, windows_join_exec,
    NpmPrefixCache, WindowsPathInputs,
};

#[test]
fn parse_reg_value_reads_expand_sz() {
    let out = "\r\nHKEY_CURRENT_USER\\Environment\r\n    Path    REG_EXPAND_SZ    C:\\a;%USERPROFILE%\\b\r\n\r\n";
    assert_eq!(parse_reg_value(out).as_deref(), Some("C:\\a;%USERPROFILE%\\b"));
    let out = "    Path    REG_SZ    C:\\x\n";
    assert_eq!(parse_reg_value(out).as_deref(), Some("C:\\x"));
    assert_eq!(parse_reg_value("    Path    REG_SZ    \n"), None);
    assert_eq!(parse_reg_value("ERROR: not found"), None);
    assert_eq!(parse_reg_value("    Path    REG_DWORD    0x1\n    Other REG_SZ x\n"), None);
}

#[test]
fn refresh_merges_and_deduplicates() {
    assert_eq!(refresh_system_path("", "", "C:\\x"), None);
    let merged = refresh_system_path("C:\\Windows; C:\\Tools ;", "c:\\windows;D:\\Node", "C:\\TOOLS;E:\\Git").unwrap();
    assert_eq!(merged, "C:\\Windows;C:\\Tools;D:\\Node;E:\\Git");
    let entries: Vec<&str> = merged.split(';').collect();
    let mut lowered: Vec<String> = entries.iter().map(|e| e.to_lowercase()).collect();
    lowered.sort();
    lowered.dedup();
    assert_eq!(lowered.len(), entries.len());
}

#[test]
fn user_path_adds_only_missing_dirs() {
    let dirs = vec!["C:\\Node".to_string(), "C:\\npm".to_string()];
    assert_eq!(user_path_with_dirs("c:\\node; C:\\NPM", &dirs), None);
    assert_eq!(user_path_with_dirs("C:\\a", &dirs).as_deref(), Some("C:\\a;C:\\Node;C:\\npm"));
    assert_eq!(user_path_with_dirs("", &dirs).as_deref(), Some("C:\\Node;C:\\npm"));
    assert_eq!(user_path_with_dirs("C:\\node", &dirs).as_deref(), Some("C:\\node;C:\\npm"));
}

#[test]
fn npm_prefix_cache_remembers_and_forgets() {
    let mut cache = NpmPrefixCache::new();
    assert_eq!(cache.lookup(), None);
    assert_eq!(cache.record_query(Some("npm warn config\n")), None);
    assert_eq!(cache.lookup(), None);
    assert_eq!(cache.record_query(Some("  C:\\Users\\u\\AppData\\Roaming\\npm\r\n")).as_deref(), Some("C:\\Users\\u\\AppData\\Roaming\\npm"));
    assert_eq!(cache.lookup().as_deref(), Some("C:\\Users\\u\\AppData\\Roaming\\npm"));
    assert_eq!(cache.record_query(None), None);
    assert_eq!(cache.lookup().as_deref(), Some("C:\\Users\\u\\AppData\\Roaming\\npm"));
    invalidate_npm_prefix_cache(&mut cache);
    assert_eq!(cache.lookup(), None);
    cache.record_query(Some("/usr/local"));
    invalidate(&mut cache);
    assert_eq!(cache.lookup(), None);
}

#[test]
fn path_joins() {
    assert_eq!(unix_join_exec("/home/u", ".volta/bin"), "/home/u/.volta/bin");
    assert_eq!(unix_join_exec("/home/u/", "n/bin"), "/home/u/n/bin");
    assert_eq!(unix_join_exec("", ".local/bin"), ".local/bin");
    assert_eq!(windows_join_exec("C:\\Users\\u", ".volta"), "C:\\Users\\u\\.volta");
    assert_eq!(windows_join_exec("C:", "x"), "C:x");
    assert_eq!(windows_join_exec("C:\\", "x"), "C:\\x");
    let (nvm, fnm) = unix_node_patterns("/home/u");
    assert_eq!(nvm, "/home/u/.nvm/versions/node/*/bin");
    assert_eq!(fnm, "/home/u/.fnm/node-versions/*/installation/bin");
    assert_eq!(fnm_versions_dir_exec("C:\\L", true), "C:\\L\\fnm\\node-versions");
    assert_eq!(fnm_versions_dir_exec("D:\\fnm", false), "D:\\fnm\\node-versions");
}

#[test]
fn unix_candidates_in_order() {
    let dirs = unix_extra_dirs_exec("/home/u", &Some("/home/u/.nvm/versions/node/v22.1.0/bin".to_string()), &None);
    assert_eq!(
        dirs,
        vec![
            "/opt/homebrew/bin",
            "/opt/homebrew/sbin",
            "/usr/local/bin",
            "/home/u/.nvm/versions/node/v22.1.0/bin",
            "/home/u/.volta/bin",
            "/home/u/n/bin",
            "/home/u/.local/bin",
            "/home/u/.local/node/bin",
            "/home/u/.local/git/bin",
        ]
    );
}

#[test]
fn windows_candidates_in_order() {
    let w = WindowsPathInputs {
        home: "C:\\Users\\u".to_string(),
        appdata: "C:\\Users\\u\\AppData\\Roaming".to_string(),
        npm_prefix: Some("D:\\npm".to_string()),
        nvm_home: String::new(),
        nvm_symlink: "C:\\nvm4w\\nodejs".to_string(),
        local_app_data: "C:\\Users\\u\\AppData\\Local".to_string(),
        fnm_local_latest: None,
        fnm_dir: String::new(),
        fnm_dir_latest: Some("ignored".to_string()),
    };
    let dirs = windows_extra_dirs_exec(&w);
    assert_eq!(
        dirs,
        vec![
            "C:\\Program Files\\nodejs",
            "C:\\Program Files (x86)\\nodejs",
            "C:\\Users\\u\\AppData\\Roaming\\npm",
            "D:\\npm",
            "C:\\nvm4w\\nodejs",
            "C:\\Users\\u\\.volta\\bin",
            "C:\\Users\\u\\scoop\\shims",
            "C:\\Program Files\\Git\\cmd",
            "C:\\Program Files (x86)\\Git\\cmd",
            "C:\\Users\\u\\AppData\\Local\\Programs\\MinGit\\cmd",
            "C:\\Users\\u\\AppData\\Local\\Programs\\nodejs",
        ]
    );
}

#[test]
fn expanded_path_joins_existing_dirs_then_current() {
    let existing = vec!["/opt/homebrew/bin".to_string(), "/home/u/.local/bin".to_string()];
    assert_eq!(assemble_expanded_path(&existing, "/usr/bin:/bin", false), "/opt/homebrew/bin:/home/u/.local/bin:/usr/bin:/bin");
    assert_eq!(assemble_expanded_path(&vec![], "C:\\x", true), "C:\\x");
    assert_eq!(assemble_expanded_path(&vec!["C:\\a".to_string()], "", true), "C:\\a;");
}

#[test]
fn added_directories_are_deduplicated_ignoring_case() {
    let dirs = vec!["C:\\x".to_string(), "c:\\X".to_string(), "D:\\y".to_string()];
    assert_eq!(user_path_with_dirs("", &dirs), Some("C:\\x;D:\\y".to_string()));
    assert_eq!(user_path_with_dirs("d:\\Y", &dirs), Some("d:\\Y;C:\\x".to_string()));
    assert_eq!(user_path_with_dirs("c:\\x;D:\\y", &dirs), None);
}

#[test]
fn prepending_a_directory_once() {
    assert_eq!(path_with_prepended("/usr/bin", "/opt/node/bin", ":"), Some("/opt/node/bin:/usr/bin".to_string()));
    assert_eq!(path_with_prepended("/opt/node/bin:/usr/bin", "/opt/node/bin", ":"), None);
}

#[test]
fn refreshing_twice_changes_nothing() {
    let first = refresh_system_path("C:\\Win; c:\\tools", "C:\\TOOLS;D:\\u", "x;c:\\win;y").unwrap();
    assert_eq!(first, "C:\\Win;c:\\tools;D:\\u;x;y");
    assert_eq!(refresh_system_path("C:\\Win; c:\\tools", "C:\\TOOLS;D:\\u", &first), Some(first.clone()));
}
