use plugin_host::errors::PluginError;
use plugin_host::manifest::Launcher;
use plugin_host::parse::parse_manifest;

#[test]
fn parse_full_manifest() {
    let text = r#"{ "name": "demo", "version": "1.0",
                   "keyword": "kw",
                   "luncher": "Content",
                   "res": { "file": "demo.so", "html": "demo.html" } }"#;
    let m = parse_manifest(text).unwrap();
    assert_eq!(m.name, "demo");
    assert_eq!(m.version, "1.0");
    assert_eq!(m.keyword.as_deref(), Some("kw"));
    assert_eq!(m.luncher, Launcher::Content);
    assert_eq!(m.res.file, "demo.so");
    assert_eq!(m.res.html, "demo.html");
}

#[test]
fn parse_minimal_manifest() {
    let text = r#"{"name":"demo","version":"1.0","res":{"file":"demo.so","html":"demo.html"}}"#;
    let m = parse_manifest(text).unwrap();
    assert_eq!(m.name, "demo");
    assert_eq!(m.keyword, None);
    assert_eq!(m.luncher, Launcher::NewWindow);
}

#[test]
fn parse_null_keyword() {
    let text = r#"{"name":"a","version":"b","keyword":null,"res":{"file":"f","html":"h"}}"#;
    let m = parse_manifest(text).unwrap();
    assert_eq!(m.keyword, None);
}

#[test]
fn parse_fields_in_any_order() {
    let text = r#"{"res":{"html":"h","file":"f"},"version":"2","name":"n"}"#;
    let m = parse_manifest(text).unwrap();
    assert_eq!(m.name, "n");
    assert_eq!(m.version, "2");
    assert_eq!(m.res.file, "f");
    assert_eq!(m.res.html, "h");
}

#[test]
fn parse_tolerates_whitespace_everywhere() {
    let text = " \t\n{ \"name\" : \"demo\" ,\n \"version\" : \"1.0\" ,\r\n \"res\" : { \"file\" : \"a.so\" , \"html\" : \"a.html\" } } \n";
    let m = parse_manifest(text).unwrap();
    assert_eq!(m.name, "demo");
    assert_eq!(m.res.html, "a.html");
}

#[test]
fn parse_keeps_unicode_names() {
    let text = r#"{"name":"拼音工具","version":"1.0","res":{"file":"a.so","html":"a.html"}}"#;
    let m = parse_manifest(text).unwrap();
    assert_eq!(m.name, "拼音工具");
}

#[test]
fn parse_explicit_new_window_luncher() {
    let text = r#"{"name":"a","version":"1","luncher":"NewWindow","res":{"file":"f","html":"h"}}"#;
    let m = parse_manifest(text).unwrap();
    assert_eq!(m.luncher, Launcher::NewWindow);
}

#[test]
fn parse_rejects_string_escapes() {
    let text = r#"{"name":"a\"b","version":"1","res":{"file":"f","html":"h"}}"#;
    assert!(parse_manifest(text).is_err());
}

#[test]
fn parse_rejects_malformed() {
    let err = parse_manifest("{ not json").unwrap_err();
    assert!(matches!(err, PluginError::ManifestParse));
    assert!(parse_manifest("").is_err());
    assert!(parse_manifest("[]").is_err());
    assert!(parse_manifest("{}").is_err());
}

#[test]
fn parse_rejects_missing_required_field() {
    assert!(parse_manifest(r#"{"name":"a","version":"b"}"#).is_err());
    assert!(parse_manifest(r#"{"name":"a","res":{"file":"f","html":"h"}}"#).is_err());
    assert!(parse_manifest(r#"{"name":"a","version":"b","res":{"file":"f"}}"#).is_err());
}

#[test]
fn parse_rejects_duplicate_field() {
    let text = r#"{"name":"a","name":"b","version":"1","res":{"file":"f","html":"h"}}"#;
    assert!(parse_manifest(text).is_err());
}

#[test]
fn parse_rejects_unknown_field() {
    let text = r#"{"name":"a","version":"1","extra":"x","res":{"file":"f","html":"h"}}"#;
    assert!(parse_manifest(text).is_err());
}

#[test]
fn parse_rejects_trailing_text() {
    let text = r#"{"name":"a","version":"1","res":{"file":"f","html":"h"}} x"#;
    assert!(parse_manifest(text).is_err());
}

#[test]
fn parse_rejects_bad_luncher() {
    let text = r#"{"name":"a","version":"1","luncher":"Sideways","res":{"file":"f","html":"h"}}"#;
    assert!(parse_manifest(text).is_err());
}
