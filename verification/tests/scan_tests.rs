use plugin_host::scan::collect_manifests;
use plugin_host::scan::is_manifest_file;
use plugin_host::scan::should_descend;

#[test]
fn manifest_candidates_by_extension() {
    assert!(is_manifest_file("plugin1.json"));
    assert!(is_manifest_file("a.b.json"));
    assert!(!is_manifest_file("plugin1.toml"));
    assert!(!is_manifest_file("json"));
    assert!(!is_manifest_file(".json"));
}

#[test]
fn hidden_directories_are_skipped() {
    assert!(should_descend("test1"));
    assert!(should_descend("plugins"));
    assert!(!should_descend(".cargo"));
    assert!(!should_descend("."));
}

#[test]
fn partial_scan_keeps_good_manifests() {
    let good = r#"{"name":"testjson","version":"0.0.1",
                   "res":{"file":"testjson.dll","html":"testjson.html"}}"#;
    let files = vec![
        ("d1".to_string(), good.to_string()),
        ("d2".to_string(), "{ broken".to_string()),
        ("d3".to_string(), good.to_string()),
    ];
    let out = collect_manifests(&files);
    assert_eq!(out.len(), 2);
    assert_eq!(out[0].0, "d1");
    assert_eq!(out[0].1.name, "testjson");
    assert_eq!(out[1].0, "d3");
    assert_eq!(out[1].1.version, "0.0.1");
}

#[test]
fn empty_batch_collects_nothing() {
    let files: Vec<(String, String)> = Vec::new();
    assert!(collect_manifests(&files).is_empty());
}
