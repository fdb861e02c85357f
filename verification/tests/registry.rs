use wasmcloud_test_util::config::Config;
use wasmcloud_test_util::registry::Registry;

#[test]
fn one_provider_for_equal_configs() {
    let mut registry = Registry::new();
    let a = Config::default();
    let mut b = Config::default();
    b.values.insert("k".to_string(), "v".to_string());
    assert_eq!(registry.test_provider(&a), None);
    assert_eq!(registry.register(a.clone()), 0);
    assert_eq!(registry.test_provider(&a), Some(0));
    assert_eq!(registry.test_provider(&b), None);
    assert_eq!(registry.register(b.clone()), 1);
    assert_eq!(registry.test_provider(&Config::default()), Some(0));
    assert_eq!(registry.test_provider(&b), Some(1));
    assert_eq!(registry.register(Config::default()), 0);
    assert_eq!(registry.len(), 2);
}
