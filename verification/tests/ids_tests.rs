use plugin_host::ids::generate_id;

#[test]
fn id_is_deterministic() {
    assert_eq!(generate_id("foo"), generate_id("foo"));
    assert_eq!(generate_id("demo"), generate_id("demo"));
}

#[test]
fn id_distinguishes_names() {
    assert_ne!(generate_id("foo"), generate_id("bar"));
    assert_ne!(generate_id("demo"), generate_id("omed"));
}

#[test]
fn id_exact_values() {
    assert_eq!(generate_id("foo"), "dcb27518fed9d577");
    assert_eq!(generate_id("bar"), "3934191339461a");
    assert_eq!(generate_id("demo"), "a5e41b674276d396");
}

#[test]
fn id_of_empty_name() {
    assert_eq!(generate_id(""), "cbf29ce484222325");
}
