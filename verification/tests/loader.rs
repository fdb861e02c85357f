use wasmcloud_test_util::config::Config;
use wasmcloud_test_util::duration::Duration;
use wasmcloud_test_util::error::RpcError;
use wasmcloud_test_util::loader::{
    load_provider, settings_for, settings_from_json, startup_pauses, try_load_provider,
};
use wasmcloud_test_util::value_map::ValueMap;

fn config(entries: &[(&str, &str)]) -> Config {
    let mut config = Config::default();
    for (key, value) in entries {
        config.values.insert(key.to_string(), value.to_string());
    }
    config
}

#[test]
fn settings_hold_the_encoded_values() {
    let settings = settings_for(&config(&[("b", "2"), ("a", "1")])).unwrap();
    assert_eq!(settings.pairs().len(), 3);
    assert_eq!(settings.get("a").unwrap(), "1");
    assert_eq!(settings.get("b").unwrap(), "2");
    assert_eq!(settings.get("config_b64").unwrap(), "eyJhIjoiMSIsImIiOiIyIn0");
}

#[test]
fn no_values_are_not_encoded() {
    let settings = settings_for(&config(&[])).unwrap();
    assert!(settings.is_empty());
    assert!(settings_from_json(&ValueMap::new(), Err("x".to_string())).unwrap().is_empty());
}

#[test]
fn encoded_values_replace_a_value_of_that_key() {
    let settings =
        settings_for(&config(&[("config_b64", "old"), ("k", "quote\" and é")])).unwrap();
    assert_eq!(settings.pairs().len(), 2);
    assert_eq!(
        settings.get("config_b64").unwrap(),
        "eyJjb25maWdfYjY0Ijoib2xkIiwiayI6InF1b3RlXCIgYW5kIMOpIn0"
    );
}

#[test]
fn escapes_in_the_encoded_values() {
    let settings = settings_for(&config(&[("q", "a\"b\n")])).unwrap();
    assert_eq!(settings.get("config_b64").unwrap(), "eyJxIjoiYVwiYlxuIn0");
}

#[test]
fn every_kind_of_escape() {
    let entries = [
        ("", ""),
        ("c", "\u{0}\u{8}\t\n\u{b}\u{c}\r\u{1f}\u{7f}"),
        ("k\"\\", "/é\u{2028}"),
    ];
    let settings = settings_for(&config(&entries)).unwrap();
    let encoded = settings.get("config_b64").unwrap();
    assert_eq!(encoded, "eyIiOiIiLCJjIjoiXHUwMDAwXGJcdFxuXHUwMDBiXGZcclx1MDAxZn8iLCJrXCJcXCI6Ii/DqeKAqCJ9");
    let bytes = base64::decode_config(encoded, base64::STANDARD_NO_PAD).unwrap();
    let read: std::collections::BTreeMap<String, String> = serde_json::from_slice(&bytes).unwrap();
    assert_eq!(read.len(), 3);
    for (key, value) in entries {
        assert_eq!(read[key], value);
    }
}

#[test]
fn different_values_are_encoded_differently() {
    let encode = |entries: &[(&str, &str)]| {
        settings_for(&config(entries)).unwrap().get("config_b64").unwrap().clone()
    };
    assert_ne!(encode(&[("a", "1"), ("b", "2")]), encode(&[("a", "1\",\"b\":\"2")]));
    assert_ne!(encode(&[("a", "\n")]), encode(&[("a", "\\n")]));
    assert_eq!(encode(&[("b", "2"), ("a", "1")]), encode(&[("a", "1"), ("b", "2")]));
}

#[test]
fn values_that_cannot_be_written() {
    let values = config(&[("a", "1")]).values;
    match settings_from_json(&values, Err("broken".to_string())) {
        Err(RpcError::Ser(text)) => assert_eq!(text, "invalid 'values' map: broken"),
        other => panic!("no serialization error: {:?}", other),
    }
    let settings = settings_from_json(&values, Ok("{}".to_string())).unwrap();
    assert_eq!(settings.get("config_b64").unwrap(), "e30");
}

#[test]
fn link_between_fresh_parties() {
    let mut c = config(&[("a", "1")]);
    c.link_name = "ln".to_string();
    c.contract_id = "ct".to_string();
    let link = load_provider(&c).unwrap();
    assert_eq!(link.link_name, "ln");
    assert_eq!(link.contract_id, "ct");
    assert_eq!(link.actor_id.len(), 56);
    assert!(link.actor_id.starts_with('M'));
    assert_eq!(link.provider_id.len(), 56);
    assert!(link.provider_id.starts_with('V'));
    assert_ne!(link.actor_id, link.provider_id);
    assert_eq!(link.values.get("config_b64").unwrap(), "eyJhIjoiMSJ9");
    let again = try_load_provider(&c).unwrap().unwrap();
    assert_ne!(link.actor_id, again.actor_id);
    assert!(again.values.same_as(&link.values));
}

#[test]
fn pauses_after_the_start() {
    let mut c = Config::default();
    let pauses = startup_pauses(&c);
    assert_eq!(pauses.len(), 1);
    assert_eq!(pauses[0].as_millis(), 1000);
    c.link_delay = Duration::from_millis(250);
    let pauses = startup_pauses(&c);
    assert_eq!(pauses.len(), 2);
    assert_eq!(pauses[0].as_millis(), 1000);
    assert_eq!(pauses[1].as_millis(), 250);
}
