use cargo_binding::{BuildConfig, BuildError};

#[test]
fn decode_plain_request() {
    let cfg = BuildConfig::from_json(
        "{\"manifest_path\":\"/tmp/proj/Cargo.toml\",\"lib_only\":true,\"verbose\":2}",
    )
    .unwrap();
    assert_eq!(cfg.manifest_path, "/tmp/proj/Cargo.toml");
    assert!(cfg.lib_only);
    assert_eq!(cfg.verbose, 2);
}

#[test]
fn decode_any_field_order() {
    let cfg = BuildConfig::from_json(
        "{\"verbose\":0,\"lib_only\":false,\"manifest_path\":\"Cargo.toml\"}",
    )
    .unwrap();
    assert_eq!(cfg.manifest_path, "Cargo.toml");
    assert!(!cfg.lib_only);
    assert_eq!(cfg.verbose, 0);
}

#[test]
fn decode_with_whitespace() {
    let cfg = BuildConfig::from_json(
        " \t\r\n{ \"manifest_path\" : \"x\" ,\n \"lib_only\" : true , \"verbose\" : 7 }\n ",
    )
    .unwrap();
    assert_eq!(cfg.manifest_path, "x");
    assert!(cfg.lib_only);
    assert_eq!(cfg.verbose, 7);
}

#[test]
fn decode_string_escapes() {
    let cfg = BuildConfig::from_json(
        "{\"manifest_path\":\"a\\\"b\\\\c\\/d\\ne\\tf\\u0041g\\u00e9\",\"lib_only\":false,\"verbose\":1}",
    )
    .unwrap();
    assert_eq!(cfg.manifest_path, "a\"b\\c/d\ne\tfAg\u{e9}");
}

#[test]
fn decode_escaped_key() {
    // an escape inside a key still names the same field
    let cfg = BuildConfig::from_json(
        "{\"manifest\\u005fpath\":\"m\",\"lib_only\":true,\"verbose\":0}",
    )
    .unwrap();
    assert_eq!(cfg.manifest_path, "m");
}

#[test]
fn reject_surrogate_escape() {
    let r = BuildConfig::from_json(
        "{\"manifest_path\":\"\\ud800\",\"lib_only\":true,\"verbose\":0}",
    );
    assert_eq!(r.err().unwrap(), BuildError::RequestDecode);
}

#[test]
fn reject_bare_control_character() {
    let text = format!(
        "{{\"manifest_path\":\"a{}b\",\"lib_only\":true,\"verbose\":0}}",
        '\u{1}'
    );
    assert_eq!(
        BuildConfig::from_json(&text).err().unwrap(),
        BuildError::RequestDecode
    );
}

#[test]
fn reject_missing_field() {
    let r = BuildConfig::from_json("{\"manifest_path\":\"x\",\"lib_only\":true}");
    assert_eq!(r.err().unwrap(), BuildError::RequestDecode);
}

#[test]
fn reject_duplicate_field() {
    let r = BuildConfig::from_json(
        "{\"manifest_path\":\"x\",\"manifest_path\":\"y\",\"lib_only\":true,\"verbose\":0}",
    );
    assert_eq!(r.err().unwrap(), BuildError::RequestDecode);
}

#[test]
fn reject_unknown_field() {
    let r = BuildConfig::from_json(
        "{\"manifest_path\":\"x\",\"lib_only\":true,\"verbose\":0,\"extra\":1}",
    );
    assert_eq!(r.err().unwrap(), BuildError::RequestDecode);
}

#[test]
fn reject_trailing_text() {
    let r = BuildConfig::from_json(
        "{\"manifest_path\":\"x\",\"lib_only\":true,\"verbose\":0} {}",
    );
    assert_eq!(r.err().unwrap(), BuildError::RequestDecode);
}

#[test]
fn reject_empty_object() {
    assert_eq!(
        BuildConfig::from_json("{}").err().unwrap(),
        BuildError::RequestDecode
    );
}

#[test]
fn reject_non_object() {
    assert_eq!(
        BuildConfig::from_json("[1,2]").err().unwrap(),
        BuildError::RequestDecode
    );
    assert_eq!(
        BuildConfig::from_json("").err().unwrap(),
        BuildError::RequestDecode
    );
}

#[test]
fn reject_leading_zero() {
    let r = BuildConfig::from_json("{\"manifest_path\":\"x\",\"lib_only\":true,\"verbose\":01}");
    assert_eq!(r.err().unwrap(), BuildError::RequestDecode);
}

#[test]
fn reject_wrong_value_shape() {
    let r = BuildConfig::from_json(
        "{\"manifest_path\":true,\"lib_only\":true,\"verbose\":0}",
    );
    assert_eq!(r.err().unwrap(), BuildError::RequestDecode);
    let r = BuildConfig::from_json(
        "{\"manifest_path\":\"x\",\"lib_only\":1,\"verbose\":0}",
    );
    assert_eq!(r.err().unwrap(), BuildError::RequestDecode);
}

#[test]
fn verbose_bounds() {
    let max = usize::MAX.to_string();
    let text = format!(
        "{{\"manifest_path\":\"x\",\"lib_only\":false,\"verbose\":{}}}",
        max
    );
    let cfg = BuildConfig::from_json(&text).unwrap();
    assert_eq!(cfg.verbose, usize::MAX);

    let over = "184467440737095516160"; // ten times the largest word
    let text = format!(
        "{{\"manifest_path\":\"x\",\"lib_only\":false,\"verbose\":{}}}",
        over
    );
    assert_eq!(
        BuildConfig::from_json(&text).err().unwrap(),
        BuildError::RequestDecode
    );
}

#[test]
fn decode_what_serde_encodes() {
    let mut m = serde_json::Map::new();
    m.insert(
        "manifest_path".to_string(),
        serde_json::Value::String("/spaced dir/Cargo.toml \u{e9}\n".to_string()),
    );
    m.insert("lib_only".to_string(), serde_json::Value::Bool(true));
    m.insert(
        "verbose".to_string(),
        serde_json::Value::Number(serde_json::Number::from(3u64)),
    );
    let text = serde_json::to_string(&serde_json::Value::Object(m)).unwrap();
    let cfg = BuildConfig::from_json(&text).unwrap();
    assert_eq!(cfg.manifest_path, "/spaced dir/Cargo.toml \u{e9}\n");
    assert!(cfg.lib_only);
    assert_eq!(cfg.verbose, 3);
}
