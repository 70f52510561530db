use serde_json::Value;

use synapse_core::utils::sanitize::{is_sensitive_field, mask_value, sanitize_json, JsonValue};

fn to_model(v: &Value) -> JsonValue {
    match v {
        Value::Null => JsonValue::Null,
        Value::Bool(b) => JsonValue::Bool(*b),
        Value::Number(n) => JsonValue::Number(n.to_string()),
        Value::String(s) => JsonValue::Text(s.clone()),
        Value::Array(a) => JsonValue::Array(a.iter().map(to_model).collect()),
        Value::Object(m) => JsonValue::Object(m.iter().map(|(k, v)| (k.clone(), to_model(v))).collect()),
    }
}

fn from_model(v: &JsonValue) -> Value {
    match v {
        JsonValue::Null => Value::Null,
        JsonValue::Bool(b) => Value::Bool(*b),
        JsonValue::Number(n) => serde_json::from_str(n).unwrap(),
        JsonValue::Text(s) => Value::String(s.clone()),
        JsonValue::Array(a) => Value::Array(a.iter().map(from_model).collect()),
        JsonValue::Object(fields) => {
            let mut m = serde_json::Map::new();
            for (k, v) in fields {
                m.insert(k.clone(), from_model(v));
            }
            Value::Object(m)
        }
    }
}

fn sanitize(v: &Value) -> Value {
    from_model(&sanitize_json(&to_model(v)))
}

fn parse(text: &str) -> Value {
    serde_json::from_str(text).unwrap()
}

#[test]
fn test_sanitize_stellar_account() {
    let input = parse(r#"{"stellar_account": "GABCDEFGHIJKLMNOPQRSTUVWXYZ1234567890", "amount": "100.00"}"#);
    let sanitized = sanitize(&input);
    let account = sanitized["stellar_account"].as_str().unwrap();
    assert!(account.contains("****"));
    assert_eq!(sanitized["amount"], "100.00");
}

#[test]
fn test_sanitize_nested() {
    let input = parse(r#"{"user": {"account": "secret_account_123", "name": "John"}}"#);
    let sanitized = sanitize(&input);
    assert!(sanitized["user"]["account"].as_str().unwrap().contains("****"));
    assert_eq!(sanitized["user"]["name"], "John");
}

#[test]
fn test_sanitize_all_field_types() {
    let input = parse(
        r#"{
            "stellar_account": "GABCDEFGHIJKLMNOPQRSTUVWXYZ1234567890",
            "account": "user_account_123",
            "password": "mypassword123",
            "secret": "topsecret",
            "token": "bearer_token_xyz",
            "api_key": "sk_live_1234567890",
            "authorization": "Bearer abc123xyz",
            "public_field": "visible_data"
        }"#,
    );
    let sanitized = sanitize(&input);
    assert!(sanitized["stellar_account"].as_str().unwrap().contains("****"));
    assert!(sanitized["account"].as_str().unwrap().contains("****"));
    assert!(sanitized["password"].as_str().unwrap().contains("****"));
    assert!(sanitized["secret"].as_str().unwrap().contains("****"));
    assert!(sanitized["token"].as_str().unwrap().contains("****"));
    assert!(sanitized["api_key"].as_str().unwrap().contains("****"));
    assert!(sanitized["authorization"].as_str().unwrap().contains("****"));
    assert_eq!(sanitized["public_field"], "visible_data");
}

#[test]
fn test_sanitize_deeply_nested_objects() {
    let input = parse(
        r#"{
            "level1": {
                "level2": {
                    "level3": {
                        "password": "deep_secret",
                        "level4": {"token": "nested_token", "data": "public"}
                    },
                    "account": "mid_account"
                },
                "public": "visible"
            }
        }"#,
    );
    let sanitized = sanitize(&input);
    assert!(sanitized["level1"]["level2"]["level3"]["password"].as_str().unwrap().contains("****"));
    assert!(sanitized["level1"]["level2"]["level3"]["level4"]["token"].as_str().unwrap().contains("****"));
    assert_eq!(sanitized["level1"]["level2"]["level3"]["level4"]["data"], "public");
    assert!(sanitized["level1"]["level2"]["account"].as_str().unwrap().contains("****"));
    assert_eq!(sanitized["level1"]["public"], "visible");
}

#[test]
fn test_sanitize_arrays() {
    let input = parse(
        r#"{
            "users": [
                {"account": "user1_account", "name": "Alice"},
                {"account": "user2_account", "name": "Bob"},
                {"password": "pass123", "email": "test@example.com"}
            ],
            "tokens": ["token1", "token2", "token3"],
            "numbers": [1, 2, 3]
        }"#,
    );
    let sanitized = sanitize(&input);
    assert!(sanitized["users"][0]["account"].as_str().unwrap().contains("****"));
    assert_eq!(sanitized["users"][0]["name"], "Alice");
    assert!(sanitized["users"][1]["account"].as_str().unwrap().contains("****"));
    assert_eq!(sanitized["users"][1]["name"], "Bob");
    assert!(sanitized["users"][2]["password"].as_str().unwrap().contains("****"));
    assert_eq!(sanitized["users"][2]["email"], "test@example.com");
    assert_eq!(sanitized["tokens"], parse(r#"["token1", "token2", "token3"]"#));
    assert_eq!(sanitized["numbers"], parse("[1, 2, 3]"));
}

#[test]
fn test_sanitize_null_values() {
    let input = parse(
        r#"{
            "account": null,
            "password": null,
            "token": null,
            "normal_field": null,
            "nested": {"secret": null, "data": null}
        }"#,
    );
    let sanitized = sanitize(&input);
    assert_eq!(sanitized["account"], "****");
    assert_eq!(sanitized["password"], "****");
    assert_eq!(sanitized["token"], "****");
    assert!(sanitized["normal_field"].is_null());
    assert_eq!(sanitized["nested"]["secret"], "****");
    assert!(sanitized["nested"]["data"].is_null());
}

#[test]
fn test_sanitize_large_payload_performance() {
    let mut large_object = serde_json::Map::new();
    for i in 0..1000 {
        large_object.insert(format!("field_{}", i), Value::String(format!("value_{}", i)));
        large_object.insert(format!("account_{}", i), Value::String(format!("secret_account_{}", i)));
    }
    let input = Value::Object(large_object);

    let start = std::time::Instant::now();
    let sanitized = sanitize(&input);
    let duration = start.elapsed();

    assert!(duration.as_millis() < 1000, "Sanitization took too long: {:?}", duration);
    assert!(sanitized["account_0"].as_str().unwrap().contains("****"));
    assert_eq!(sanitized["field_0"], "value_0");
}

#[test]
fn sensitive_field_names() {
    for key in ["password", "PASSWORD", "Api_Key", "account_0", "user_password", "x_token", "token_x", "secret_1"] {
        assert!(is_sensitive_field(key), "{key} should be sensitive");
    }
    for key in ["tokens", "accounts", "passwords", "name", "accountant", "my_secrets"] {
        assert!(!is_sensitive_field(key), "{key} should not be sensitive");
    }
}

#[test]
fn mask_keeps_four_bytes_at_each_end() {
    assert_eq!(mask_value(Some("GABCDEFGHIJ123")), "GABC****J123");
    assert_eq!(mask_value(Some("123456789")), "1234****6789");
    assert_eq!(mask_value(Some("12345678")), "****");
    assert_eq!(mask_value(Some("")), "****");
    assert_eq!(mask_value(None), "****");
}

#[test]
fn sanitizing_twice_changes_nothing_more() {
    let input = parse(r#"{"password": "hunter2hunter2", "list": [{"token": 5}], "n": 1.5, "ok": true}"#);
    let once = sanitize(&input);
    let twice = sanitize(&once);
    assert_eq!(once, twice);
    assert_eq!(once["password"], "hunt****ter2");
    assert_eq!(once["list"][0]["token"], "****");
    assert_eq!(once["n"], 1.5);
}
