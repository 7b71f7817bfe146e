use malalongxia::mirror::{
    build_config, check_latency_url, default_enabled, fetch_mirror_config, mirror_result,
    mirrors, sort_by_latency, MirrorResult,
};

#[test]
fn mirrors_list_has_four_entries() {
    assert_eq!(mirrors().len(), 4);
}

#[test]
fn all_mirror_urls_are_https() {
    for &(_, url) in mirrors().iter() {
        assert!(url.starts_with("https://"), "Mirror URL not https: {}", url);
    }
}

#[test]
fn test_mirror_latency_rejects_http() {
    let result = check_latency_url("http://example.com");
    assert!(result.is_err());
    assert!(result.unwrap_err().contains("Only https://"));
}

#[test]
fn test_mirror_latency_rejects_non_url() {
    assert!(check_latency_url("ftp://example.com").is_err());
    assert!(check_latency_url("https://example.com").is_ok());
}

#[test]
fn mirror_result_sort_order() {
    let mut results = vec![
        MirrorResult { name: "c".to_string(), url: "https://c.com".to_string(), latency_ms: None, reachable: false },
        MirrorResult { name: "a".to_string(), url: "https://a.com".to_string(), latency_ms: Some(50), reachable: true },
        MirrorResult { name: "b".to_string(), url: "https://b.com".to_string(), latency_ms: Some(100), reachable: true },
    ];

    sort_by_latency(&mut results);

    assert_eq!(results[0].name, "a");
    assert_eq!(results[1].name, "b");
    assert_eq!(results[2].name, "c");
}

#[test]
fn sort_keeps_order_of_equal_latencies() {
    let mk = |n: &str, l: Option<u64>| MirrorResult {
        name: n.to_string(),
        url: String::new(),
        latency_ms: l,
        reachable: l.is_some(),
    };
    let mut results = vec![mk("x", None), mk("p", Some(7)), mk("y", None), mk("q", Some(7)), mk("r", Some(3))];
    sort_by_latency(&mut results);
    let names: Vec<&str> = results.iter().map(|r| r.name.as_str()).collect();
    assert_eq!(names, vec!["r", "p", "q", "x", "y"]);
    let mut empty: Vec<MirrorResult> = vec![];
    sort_by_latency(&mut empty);
    assert!(empty.is_empty());
}

#[test]
fn mirror_probe_verdicts() {
    let r = mirror_result("aliyun", "https://npmmirror.com", Some(200), 42);
    assert!(r.reachable);
    assert_eq!(r.latency_ms, Some(42));
    assert_eq!(r.name, "aliyun");
    assert!(mirror_result("a", "u", Some(301), 1).reachable);
    assert!(mirror_result("a", "u", Some(405), 1).reachable);
    let r = mirror_result("a", "u", Some(404), 9);
    assert!(!r.reachable);
    assert_eq!(r.latency_ms, None);
    assert!(!mirror_result("a", "u", None, 9).reachable);
}

#[test]
fn built_in_configuration() {
    assert!(default_enabled());
    let c = build_config();
    assert_eq!(c.version, 1);
    assert_eq!(c.updated_at, "");
    assert_eq!(c.node_mirrors.len(), 4);
    assert_eq!(c.npm_mirrors.len(), 4);
    assert_eq!(c.node_mirrors[0].name, "mirror.aliyun");
    assert_eq!(c.node_mirrors[0].url, "https://npmmirror.com/mirrors/node/");
    assert_eq!(c.npm_mirrors[3].url, "https://registry.npmjs.org");
    assert!(c.node_mirrors.iter().all(|m| m.enabled));
    assert_eq!(c.nvm_install_script.as_deref(), Some("https://gitee.com/mirrors/nvm/raw/master/install.sh"));
    assert!(c.node_version.is_none());
    let f = fetch_mirror_config().unwrap();
    assert_eq!(f.node_mirrors.len(), 4);
}
