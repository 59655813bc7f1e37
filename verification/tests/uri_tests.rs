use hci_bildung::uri::get_dynamic_segment_name;
use hci_bildung::uri::instantiate_uri;

fn args(pairs: &[(&str, &str)]) -> Vec<(String, String)> {
    pairs.iter().map(|(k, v)| (k.to_string(), v.to_string())).collect()
}

#[test]
fn static_uri() {
    let args: Vec<(String, String)> = Vec::new();
    let result = instantiate_uri("/test/static", &args);
    assert_eq!(result.unwrap(), "/test/static");
}

#[test]
fn instantiate_basic() {
    let args = args(&[("instantiate", "instantiated")]);
    let result = instantiate_uri("/test/<instantiate>", &args);
    assert_eq!(result.unwrap(), "/test/instantiated");
}

#[test]
fn instantiate_too_many_args() {
    let args = args(&[("instantiate", "instantiated"), ("other", "foo")]);
    let result = instantiate_uri("/test/<instantiate>", &args);
    assert_eq!(result.unwrap(), "/test/instantiated");
}

#[test]
fn instantiate_missing_arg() {
    let args: Vec<(String, String)> = Vec::new();
    let result = instantiate_uri("/test/<instantiate>", &args);
    let msg = result.unwrap_err();
    assert!(
        msg.contains("No argument found for instantiate"),
        "Message {} does not contain \"No argument found for instantiate\"",
        msg
    );
}

#[test]
fn instantiate_double() {
    let args = args(&[("one", "foo"), ("two", "bar")]);
    let result = instantiate_uri("/test/<one>/<two>", &args);
    assert_eq!(result.unwrap(), "/test/foo/bar");
}

#[test]
fn instantiate_path() {
    let args = args(&[("instantiate", "instantiated"), ("path", "path/to/res")]);
    let result = instantiate_uri("/test/<instantiate>/<path..>", &args);
    assert_eq!(result.unwrap(), "/test/instantiated/path/to/res");
}

#[test]
fn instantiate_query() {
    let args = args(&[("key", "instantiated")]);
    let result = instantiate_uri("/test/static?<key>", &args);
    assert_eq!(result.unwrap(), "/test/static?key=instantiated");
}

#[test]
fn instantiate_query_empty() {
    let args = args(&[("key", "")]);
    let result = instantiate_uri("/test/static?<key>", &args);
    assert_eq!(result.unwrap(), "/test/static?key");
}

#[test]
fn instantiate_query_double() {
    let args = args(&[("key", "val"), ("key2", "val2")]);
    let result = instantiate_uri("/test/static?<key>&<key2>", &args);
    assert_eq!(result.unwrap(), "/test/static?key=val&key2=val2");
}

#[test]
fn instantiate_query_double_empty() {
    let args = args(&[("key", ""), ("key2", "val2")]);
    let result = instantiate_uri("/test/static?<key>&<key2>", &args);
    assert_eq!(result.unwrap(), "/test/static?key&key2=val2");
}

#[test]
fn instantiate_both() {
    let args = args(&[
        ("instantiate", "instantiated"),
        ("path", "path/to/res"),
        ("key", "val"),
    ]);
    let result = instantiate_uri("/test/<instantiate>/<path..>?<key>", &args);
    assert_eq!(result.unwrap(), "/test/instantiated/path/to/res?key=val");
}

#[test]
fn instantiate_both_empty() {
    let args = args(&[("instantiate", "instantiated"), ("key", "")]);
    let result = instantiate_uri("/test/<instantiate>?<key>", &args);
    assert_eq!(result.unwrap(), "/test/instantiated?key");
}

#[test]
fn dynamic_segment_names() {
    assert_eq!(get_dynamic_segment_name("<id>"), Some("id"));
    assert_eq!(get_dynamic_segment_name("<path..>"), Some("path"));
    assert_eq!(get_dynamic_segment_name("static"), None);
    assert_eq!(get_dynamic_segment_name("<unclosed"), None);
}
