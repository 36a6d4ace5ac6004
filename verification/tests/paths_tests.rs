use plugin_host::config::Config;
use plugin_host::errors::PluginError;
use plugin_host::manifest::PluginInfo;
use plugin_host::paths::generate_res_net;
use plugin_host::paths::normalize_plugin_paths;
use plugin_host::paths::resolve_path;
use plugin_host::paths::PathKind;

#[test]
fn relative_paths_join_the_manifest_directory() {
    assert_eq!(resolve_path("plugins/demo", "demo.so"), "plugins/demo/demo.so");
    assert_eq!(resolve_path("plugins/demo", "/abs/demo.so"), "/abs/demo.so");
}

#[test]
fn normalize_rejects_non_files() {
    let res = plugin_host::manifest::PluginRes::new("f.so", "u.html");
    let ok = normalize_plugin_paths("d", &res, PathKind::File, PathKind::Missing).unwrap();
    assert_eq!(ok.0, "d/f.so");
    assert_eq!(ok.1, "d/u.html");
    let err = normalize_plugin_paths("d", &res, PathKind::File, PathKind::Other).unwrap_err();
    assert!(matches!(err, PluginError::PathValidation));
}

#[test]
fn publishing_twice_lands_on_the_same_link() {
    let config = Config::default();
    let first = PluginInfo::new("demo", "1.0", "demo.so", "one.html");
    let second = PluginInfo::new("demo", "1.1", "demo.so", "two.html");
    let id = plugin_host::ids::generate_id("demo");
    let p1 = generate_res_net(&config, &id, "d1", &first, PathKind::File, PathKind::File).unwrap();
    let p2 = generate_res_net(&config, &id, "d2", &second, PathKind::File, PathKind::File).unwrap();
    // The symlink path depends on the id alone, so the second publish
    // replaces the first; only the targets differ.
    assert_eq!(p1.link_path, p2.link_path);
    assert_eq!(p1.link_dir, p2.link_dir);
    assert_eq!(p1.net.html, p2.net.html);
    assert_eq!(p1.link_path, format!("test_dir_fs/{id}/index"));
    assert_eq!(p1.target, "d1/one.html");
    assert_eq!(p2.target, "d2/two.html");
}

#[test]
fn publish_plan_rewrites_the_ui_path() {
    let config = Config::default();
    let info = PluginInfo::new("demo", "1.0", "demo.so", "demo.html");
    let id = plugin_host::ids::generate_id("demo");
    let plan = generate_res_net(&config, &id, "dir", &info, PathKind::File, PathKind::File).unwrap();
    assert_eq!(plan.net.file, "dir/demo.so");
    assert_eq!(plan.net.html, plan.link_path);
    assert_eq!(plan.link_dir, format!("test_dir_fs/{id}"));
}
