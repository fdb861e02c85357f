use wasmcloud_test_util::config::{Config, ConfigFile};
use wasmcloud_test_util::duration::Duration;
use wasmcloud_test_util::error::RpcError;
use wasmcloud_test_util::log_level::LogLevel;

fn init_text(result: Result<Config, RpcError>) -> String {
    match result {
        Err(RpcError::ProviderInit(text)) => text,
        other => panic!("no provider init error: {:?}", other),
    }
}

#[test]
fn default_config() {
    let c = Config::default();
    assert!(!c.backtrace);
    assert_eq!(c.contract_id, "wasmcloud:example");
    assert_eq!(c.lattice_rpc_prefix, "TEST");
    assert!(c.link_delay.is_zero());
    assert_eq!(c.link_name, "default");
    assert_eq!(c.log_level.0, log::Level::Info);
    assert_eq!(c.nats_url, "127.0.0.1:4222");
    assert_eq!(c.redis_url, "0.0.0.0:6379");
    assert_eq!(c.start_delay.as_secs(), 1);
    assert_eq!(c.start_delay.subsec_nanos(), 0);
    assert!(c.values.is_empty());
}

#[test]
fn config_path_comes_from_the_variable() {
    assert_eq!(Config::path(None), "./provider_test_config.toml");
    assert_eq!(Config::path(Some("/etc/x.toml".to_string())), "/etc/x.toml");
    assert_eq!(Config::path(Some(String::new())), "");
}

#[test]
fn missing_config_file() {
    assert_eq!(
        init_text(Config::load("./a.toml", ConfigFile::Missing)),
        "Missing configuration file './a.toml'. Config file should be 'provider_test_config.toml' \
         in the current directory, or a .toml file whose path is in the environment variable \
         'PROVIDER_TEST_CONFIG'"
    );
}

#[test]
fn unreadable_config_file() {
    assert_eq!(
        init_text(Config::load("p", ConfigFile::Unreadable("denied".to_string()))),
        "failed reading config from p: denied"
    );
}

#[test]
fn malformed_config_file() {
    assert_eq!(
        init_text(Config::load("p", ConfigFile::Malformed("line 1".to_string()))),
        "parse error in configuration file loaded from p: line 1"
    );
}

#[test]
fn parsed_config_file() {
    let mut config = Config::default();
    config.link_name = "other".to_string();
    let copy = config.clone();
    let loaded = Config::load("p", ConfigFile::Parsed(config)).unwrap();
    assert!(loaded == copy);
}

#[test]
fn configs_differ_in_any_field() {
    let base = Config::default();
    assert!(base == Config::default());
    let mut changed: Vec<Config> = Vec::new();
    for _ in 0..10 {
        changed.push(base.clone());
    }
    changed[0].backtrace = true;
    changed[1].contract_id.push('x');
    changed[2].lattice_rpc_prefix.push('x');
    changed[3].link_delay = Duration::from_millis(1);
    changed[4].link_name.push('x');
    changed[5].log_level = LogLevel(log::Level::Debug);
    changed[6].nats_url.push('x');
    changed[7].redis_url.push('x');
    changed[8].start_delay = Duration::from_secs(2);
    changed[9].values.insert("k".to_string(), "v".to_string());
    for config in &changed {
        assert!(*config != base);
        assert!(*config == config.clone());
    }
}

#[test]
fn spans_of_time() {
    assert_eq!(Duration::from_millis(1500).as_secs(), 1);
    assert_eq!(Duration::from_millis(1500).subsec_nanos(), 500_000_000);
    assert_eq!(Duration::from_millis(u64::MAX).as_millis(), u64::MAX as u128);
    assert_eq!(Duration::new(3, 2_000_000_001).as_secs(), 5);
    assert_eq!(Duration::new(3, 2_000_000_001).subsec_nanos(), 1);
    assert_eq!(Duration::new(0, 1_999_999).as_millis(), 1);
    assert!(!Duration::new(0, 1).is_zero());
    assert!(Duration::zero().is_zero());
    assert!(Duration::from_secs(2).same_as(&Duration::from_millis(2000)));
    assert!(!Duration::from_secs(2).same_as(&Duration::from_millis(2001)));
}
