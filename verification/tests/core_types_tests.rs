use plugin_host::config::Config;
use plugin_host::config::PluginManagerConfig;
use plugin_host::errors::PluginError;
use plugin_host::manifest::Launcher;
use plugin_host::manifest::PluginInfo;
use plugin_host::manifest::PluginInfoWrapper;
use plugin_host::manifest::PluginRes;
use plugin_host::resp::Resp;
use plugin_host::strings::contains_sub;
use plugin_host::strings::ends_with;
use plugin_host::strings::starts_with;
use plugin_host::strings::str_eq;
use plugin_host::strings::trim;

#[test]
fn plugin_info_constructors() {
    let info = PluginInfo::new("demo", "1.0", "demo.so", "demo.html");
    assert_eq!(info.name, "demo");
    assert_eq!(info.version, "1.0");
    assert_eq!(info.keyword, None);
    assert_eq!(info.luncher, Launcher::NewWindow);
    assert_eq!(info.res.file, "demo.so");
    assert_eq!(info.res.html, "demo.html");

    let d = PluginInfo::default("adb", "0.0.1");
    assert_eq!(d.name, "adb");
    assert_eq!(d.res.file, "index.so");
    assert_eq!(d.res.html, "index.html");
    assert_eq!(d.display_string(), "adb(0.0.1)");
}

#[test]
fn plugin_res_and_wrapper() {
    let res = PluginRes::new("f", "h");
    assert_eq!(res.file, "f");
    assert_eq!(res.html, "h");
    let w = PluginInfoWrapper::new(
        "id1".to_string(),
        PluginInfo::new("demo", "2.0", "f", "h"),
        Some(res),
    );
    assert_eq!(w.display_string(), "demo@2.0");
    let copy = w.clone();
    assert_eq!(copy.id, "id1");
    assert_eq!(copy.info.version, "2.0");
    assert_eq!(copy.info_net.unwrap().file, "f");
}

#[test]
fn resp_envelopes() {
    let ok: Resp<u32> = Resp::success(5);
    assert_eq!(ok.code, 0);
    assert_eq!(ok.msg, None);
    assert_eq!(ok.data, Some(5));

    let err: Resp<u32> = Resp::error(1, "plugin not found".to_string());
    assert_eq!(err.code, 1);
    assert_eq!(err.msg.as_deref(), Some("plugin not found"));
    assert_eq!(err.data, None);
}

#[test]
fn error_messages() {
    assert_eq!(PluginError::PluginNotFound.message(), "plugin not found");
    assert_eq!(PluginError::ManifestParse.message(), "manifest parse error");
    assert_eq!(PluginError::Symlink.message(), "symlink creation failed");
    assert_eq!(PluginError::LibraryLoad.message(), "library load failed");
    assert_eq!(
        PluginError::SymbolResolution.message(),
        "handler symbol missing"
    );
}

#[test]
fn config_paths() {
    let config = Config::default();
    assert_eq!(config.scan_base_dir, "test_dir_scan");
    assert_eq!(config.net_base_dir, "test_dir_fs");
    assert_eq!(config.num_cache, 20);
    assert_eq!(config.symlink_base_dir(), "test_dir_fs");
    assert_eq!(config.web_file_name(), "index");
    assert_eq!(config.num_cache(), 20);
    assert_eq!(config.get_fs_path("abc"), "test_dir_fs/abc/index");
}

#[test]
fn config_setup_dir() {
    let mut config = Config::default();
    config.setup_dir("/srv/host", "http://localhost:8080");
    assert_eq!(config.scan_base_dir, "/srv/host/test_dir_scan");
    assert_eq!(config.net_base_dir, "/srv/host/test_dir_fs");
    assert_eq!(config.host.as_deref(), Some("http://localhost:8080"));
    assert_eq!(config.get_fs_path("x"), "/srv/host/test_dir_fs/x/index");
}

#[test]
fn string_predicates() {
    assert!(str_eq("abc", "abc"));
    assert!(!str_eq("abc", "abd"));
    assert!(!str_eq("abc", "ab"));
    assert!(ends_with("plugin.json", ".json"));
    assert!(!ends_with("plugin.jso", ".json"));
    assert!(starts_with(".cargo", "."));
    assert!(!starts_with("cargo", "."));
    assert!(contains_sub("hello world", "lo wo"));
    assert!(!contains_sub("hello world", "low"));
    assert!(contains_sub("anything", ""));
    assert_eq!(trim("  a b \n"), "a b");
    assert_eq!(trim("\t\n "), "");
    assert_eq!(trim("demo "), "demo");
}
