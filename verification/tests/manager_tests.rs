use plugin_host::config::Config;
use plugin_host::ids::generate_id;
use plugin_host::manager::InvokeStep;
use plugin_host::manager::PluginManager;
use plugin_host::manifest::PluginInfo;
use plugin_host::parse::parse_manifest;
use plugin_host::paths::PathKind;

type Manager = PluginManager<Config, u64, fn(&str) -> i32>;

fn ping_handler(path: &str) -> i32 {
    if path == "ping" {
        42
    } else {
        0
    }
}

fn other_handler(_path: &str) -> i32 {
    7
}

fn load(pm: &mut Manager, name: &str, lib: u64) -> String {
    let info = PluginInfo::new(name, "1.0", "demo.so", "demo.html");
    let (id, plan) = pm
        .plan_load("dir", &info, PathKind::Missing, PathKind::File)
        .unwrap();
    pm.commit_load(id.clone(), info, plan.net, lib);
    id
}

#[test]
fn rescan_does_not_duplicate() {
    let mut pm = Manager::new(Config::default());
    let id1 = load(&mut pm, "demo", 1);
    assert_eq!(pm.count(), 1);
    let id2 = load(&mut pm, "demo", 2);
    assert_eq!(id1, id2);
    assert_eq!(pm.count(), 1);
    assert_eq!(*pm.lib_of(&id1).unwrap(), 2);
}

#[test]
fn find_and_get_report_entries() {
    let mut pm = Manager::new(Config::default());
    let id = load(&mut pm, "demo", 1);
    let w = pm.find(&id).unwrap();
    assert_eq!(w.id, id);
    assert_eq!(w.info.name, "demo");
    assert_eq!(
        w.info_net.as_ref().unwrap().html,
        "test_dir_fs/a5e41b674276d396/index"
    );
    assert!(pm.find("missing").is_none());
    assert_eq!(pm.get().len(), 1);
}

#[test]
fn cache_is_bounded_and_evicts_least_recently_used() {
    let mut config = Config::default();
    config.num_cache = 2;
    let mut pm = Manager::new(config);
    let ids: Vec<String> = ["one", "two", "three"]
        .iter()
        .map(|n| load(&mut pm, n, 1))
        .collect();
    for id in &ids {
        assert!(matches!(pm.prepare_invoke(id), InvokeStep::Resolve));
        pm.handler_resolved(id, ping_handler);
    }
    // Capacity 2: after caching three handlers in order, the least recently
    // used id ("one") is the one evicted.
    assert!(matches!(pm.prepare_invoke(&ids[0]), InvokeStep::Resolve));
    // "two" and "three" survived. Checking "two" first refreshes it.
    assert!(matches!(pm.prepare_invoke(&ids[2]), InvokeStep::Ready(_)));
}

#[test]
fn remove_invalidates_invocation() {
    let mut pm = Manager::new(Config::default());
    let id = load(&mut pm, "demo", 1);
    assert!(matches!(pm.prepare_invoke(&id), InvokeStep::Resolve));
    pm.handler_resolved(&id, ping_handler);
    assert!(matches!(pm.prepare_invoke(&id), InvokeStep::Ready(_)));

    let name = pm.remove(&id);
    assert_eq!(name.as_deref(), Some("demo"));
    assert!(matches!(pm.prepare_invoke(&id), InvokeStep::NotFound));
    assert_eq!(pm.count(), 0);
    assert!(pm.remove(&id).is_none());
}

#[test]
fn resolved_handler_is_cached_and_replaced() {
    let mut pm = Manager::new(Config::default());
    let id = load(&mut pm, "demo", 1);
    pm.handler_resolved(&id, ping_handler);
    match pm.prepare_invoke(&id) {
        InvokeStep::Ready(f) => assert_eq!(f("ping"), 42),
        _ => panic!("expected a cached handler"),
    }
    pm.handler_resolved(&id, other_handler);
    match pm.prepare_invoke(&id) {
        InvokeStep::Ready(f) => assert_eq!(f("ping"), 7),
        _ => panic!("expected a cached handler"),
    }
}

#[test]
fn end_to_end_load_invoke_remove() {
    let text = r#"{"name":"demo","version":"1.0",
                   "res":{"file":"demo.so","html":"demo.html"}}"#;
    let info = parse_manifest(text).unwrap();
    assert_eq!(info.name, "demo");

    let mut pm = Manager::new(Config::default());
    let (id, plan) = pm
        .plan_load("plugins/demo", &info, PathKind::Missing, PathKind::File)
        .unwrap();
    assert_eq!(id, generate_id("demo"));
    assert_eq!(plan.target, "plugins/demo/demo.html");
    assert_eq!(plan.net.file, "plugins/demo/demo.so");
    pm.commit_load(id.clone(), info, plan.net, 11);

    assert!(matches!(pm.prepare_invoke(&id), InvokeStep::Resolve));
    assert_eq!(*pm.lib_of(&id).unwrap(), 11);
    pm.handler_resolved(&id, ping_handler);
    let answer = match pm.prepare_invoke(&id) {
        InvokeStep::Ready(f) => f("ping"),
        _ => panic!("expected a cached handler"),
    };
    assert_eq!(answer, 42);

    assert_eq!(pm.remove(&id).as_deref(), Some("demo"));
    assert!(matches!(pm.prepare_invoke(&id), InvokeStep::NotFound));
}

#[test]
fn plan_load_rejects_non_file_paths() {
    let pm = Manager::new(Config::default());
    let info = PluginInfo::new("demo", "1.0", "demo.so", "demo.html");
    match pm.plan_load("dir", &info, PathKind::Other, PathKind::File) {
        Err(e) => assert!(matches!(e, plugin_host::errors::PluginError::PathValidation)),
        Ok(_) => panic!("a non-file library path must be rejected"),
    }
}

#[test]
fn zero_cache_capacity_is_raised_to_one() {
    let mut config = Config::default();
    config.num_cache = 0;
    let mut pm = Manager::new(config);
    let id = load(&mut pm, "demo", 1);
    pm.handler_resolved(&id, ping_handler);
    assert!(matches!(pm.prepare_invoke(&id), InvokeStep::Ready(_)));
}
