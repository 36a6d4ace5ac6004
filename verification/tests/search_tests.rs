use plugin_host::manifest::Launcher;
use plugin_host::manifest::PluginInfo;
use plugin_host::manifest::PluginInfoWrapper;
use plugin_host::manifest::PluginRes;
use plugin_host::search::fuzzy_search;
use plugin_host::search::on_update;
use plugin_host::search::search;
use plugin_host::search::to_pinyin;
use plugin_host::search::Execute;
use plugin_host::search::Search;
use plugin_host::search::SearchEngine;
use plugin_host::search::SearchItem;
use plugin_host::search::SearchResultItem;

fn item(name: &str, as_search: &str, full: bool) -> SearchItem {
    SearchItem {
        id: name.to_string(),
        name: name.to_string(),
        search: Search {
            as_search: as_search.to_string(),
            is_full_name: full,
        },
        execute: Execute {
            launcher: Launcher::NewWindow,
            path: format!("fs/{name}"),
        },
    }
}

#[test]
fn pinyin_folds_chinese_characters() {
    assert_eq!(to_pinyin("拼音"), "pinyin");
    assert_eq!(to_pinyin("abc"), "abc");
    assert_eq!(to_pinyin("a拼b"), "apinb");
    assert_eq!(to_pinyin(""), "");
}

#[test]
fn fuzzy_search_keeps_only_matches() {
    let data = vec![
        item("calculator", "calculator", false),
        item("calc", "calc", false),
        item("notes", "notes", false),
    ];
    let found = fuzzy_search("calc", data);
    // Both calculator and calc contain the query as a subsequence; notes
    // does not match at all.
    assert_eq!(found.len(), 2);
    assert!(found.iter().any(|i| i.name == "calc"));
    assert!(found.iter().any(|i| i.name == "calculator"));
}

#[test]
fn fuzzy_search_rejects_unrelated_queries() {
    let data = vec![item("calendar", "calendar", false)];
    assert!(fuzzy_search("zzz", data).is_empty());
}

#[test]
fn full_name_match_outranks_fuzzy() {
    let data = vec![
        item("weak", "axxbxxcxx", false),
        item("abcdef", "zzz", true),
    ];
    let found = fuzzy_search("abc", data);
    assert_eq!(found.len(), 2);
    assert_eq!(found[0].name, "abcdef");
    assert_eq!(found[1].name, "weak");
}

#[test]
fn search_truncates_and_converts() {
    let mut engine = SearchEngine::default();
    let items: Vec<SearchItem> = (0..10)
        .map(|i| item(&format!("app{i}"), &format!("app{i}"), false))
        .collect();
    on_update(&mut engine, items);
    let res: Vec<SearchResultItem> = search(&engine, Some("app".to_string()));
    assert_eq!(res.len(), 7);
    // Equal scores keep the snapshot order.
    assert_eq!(res[0].name, "app0");
    assert_eq!(res[0].path, "fs/app0");
}

#[test]
fn empty_query_returns_system_defaults() {
    let mut engine = SearchEngine::default();
    engine.sys = vec![item("settings", "settings", false)];
    on_update(&mut engine, vec![item("plugin", "plugin", false)]);
    let res = search(&engine, None);
    assert_eq!(res.len(), 1);
    assert_eq!(res[0].name, "settings");
    let res = search(&engine, Some(String::new()));
    assert_eq!(res.len(), 1);
    assert_eq!(res[0].name, "settings");
}

#[test]
fn snapshot_item_from_plugin_info() {
    let info = PluginInfo::new("拼音pad", "1.0", "a.so", "a.html");
    let wrapper = PluginInfoWrapper::new(
        "someid".to_string(),
        info,
        Some(PluginRes::new("/abs/a.so", "fs/someid/index")),
    );
    let item = SearchItem::from(wrapper);
    assert_eq!(item.id, "someid");
    assert_eq!(item.name, "拼音pad");
    assert_eq!(item.search.as_search, "pinyinpad");
    assert!(!item.search.is_full_name);
    assert_eq!(item.execute.path, "fs/someid/index");

    let shown = SearchResultItem::from(&item);
    assert_eq!(shown.name, "拼音pad");
    assert_eq!(shown.path, "fs/someid/index");
}

#[test]
fn snapshot_item_keeps_keyword_in_search_text() {
    let mut info = PluginInfo::new("demo", "1.0", "a.so", "a.html");
    info.keyword = Some("launcher".to_string());
    let wrapper = PluginInfoWrapper::new("id".to_string(), info, None);
    let item = SearchItem::from(wrapper);
    assert_eq!(item.search.as_search, "demo launcher");
    assert_eq!(item.execute.path, "");
}
