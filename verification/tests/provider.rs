use wasmcloud_test_util::config::Config;
use wasmcloud_test_util::duration::Duration;
use wasmcloud_test_util::provider::{
    rpc_topic, shutdown_message, HostData, ProviderProcess, RpcTimeout, WasmCloudEntity,
};
use wasmcloud_test_util::value_map::ValueMap;

fn process() -> ProviderProcess {
    ProviderProcess {
        host_data: HostData {
            host_id: "_TEST_".to_string(),
            lattice_rpc_prefix: "lat".to_string(),
            link_name: "default".to_string(),
            lattice_rpc_url: "127.0.0.1:4222".to_string(),
            provider_key: "VKEY".to_string(),
            invocation_seed: "seed".to_string(),
            link_definitions: Vec::new(),
            cluster_issuers: Vec::new(),
            default_rpc_timeout_ms: None,
            structured_logging: false,
        },
        actor_id: "MKEY".to_string(),
        config: Config::default(),
    }
}

#[test]
fn ends_of_a_call() {
    let p = process();
    let origin = p.origin();
    assert_eq!(origin.public_key, "MKEY");
    assert_eq!(origin.link_name, "");
    assert_eq!(origin.contract_id, "");
    let target = p.target();
    assert_eq!(target.public_key, "VKEY");
    assert_eq!(target.link_name, "default");
    assert_eq!(target.contract_id, "");
    let route = p.send_rpc(&RpcTimeout::new());
    assert_eq!(route.origin.public_key, "MKEY");
    assert_eq!(route.target.public_key, "VKEY");
    assert_eq!(route.lattice, "lat");
    assert_eq!(route.timeout.as_millis(), 2000);
}

#[test]
fn topics_of_calls() {
    let actor = WasmCloudEntity {
        public_key: "MKEY".to_string(),
        link_name: String::new(),
        contract_id: "c".to_string(),
    };
    assert_eq!(rpc_topic(&actor, "p"), "wasmbus.rpc.p.MKEY");
    let provider = WasmCloudEntity {
        public_key: "VKEY".to_string(),
        link_name: "l".to_string(),
        contract_id: String::new(),
    };
    assert_eq!(rpc_topic(&provider, "p"), "wasmbus.rpc.p.VKEY.l");
    assert_eq!(process().subscribe_rpc(), "wasmbus.rpc.lat.MKEY");
}

#[test]
fn link_message() {
    let p = process();
    let mut values = ValueMap::new();
    values.insert("k".to_string(), "v".to_string());
    let request = p.link_to_test(values);
    assert_eq!(request.topic, "wasmbus.rpc.lat.VKEY.default.linkdefs.put");
    assert_eq!(request.link.actor_id, "MKEY");
    assert_eq!(request.link.provider_id, "VKEY");
    assert_eq!(request.link.link_name, "default");
    assert_eq!(request.link.contract_id, "wasmcloud:example");
    assert_eq!(request.link.values.get("k").unwrap(), "v");
}

#[test]
fn health_check() {
    assert_eq!(process().health_topic(), "wasmbus.rpc.lat.VKEY.default.health");
    assert_eq!(ProviderProcess::health_check(true), Ok(()));
    assert_eq!(
        ProviderProcess::health_check(false),
        Err("provider returned unhealthy".to_string())
    );
}

#[test]
fn shutdown_request_and_reply() {
    let request = process().shutdown();
    assert_eq!(request.topic, "wasmbus.rpc.lat.VKEY.default.shutdown");
    assert_eq!(request.host_id, "_TEST_");
    assert_eq!(request.message, "{\"host_id\":\"_TEST_\"}");
    assert_eq!(shutdown_message("a\"b\n"), "{\"host_id\":\"a\\\"b\\n\"}");
    let silent = ProviderProcess::shutdown_reply(Vec::new());
    assert!(silent.notice.is_none());
    assert_eq!(silent.pause.as_millis(), 2000);
    let spoken = ProviderProcess::shutdown_reply(b"bye".to_vec());
    assert_eq!(spoken.notice, Some(b"bye".to_vec()));
    assert_eq!(spoken.pause.as_secs(), 2);
}

#[test]
fn control_topics_continue_the_rpc_topic() {
    let p = process();
    let base = rpc_topic(&p.target(), "lat");
    assert_eq!(p.health_topic(), format!("{}.health", base));
    assert_eq!(p.shutdown().topic, format!("{}.shutdown", base));
    assert_eq!(p.link_to_test(ValueMap::new()).topic, format!("{}.linkdefs.put", base));
}

#[test]
fn control_topics_differ() {
    let p = process();
    let link = p.link_to_test(ValueMap::new()).topic;
    assert_ne!(link, p.health_topic());
    assert_ne!(link, p.shutdown().topic);
    assert_ne!(p.health_topic(), p.shutdown().topic);
}

#[test]
fn timeout_of_calls() {
    let mut timeout = RpcTimeout::new();
    assert_eq!(timeout.as_millis(), 2000);
    timeout.set_timeout(Duration::new(1, 1_500_000));
    assert_eq!(timeout.as_millis(), 1001);
    assert_eq!(process().send_rpc(&timeout).timeout.as_millis(), 1001);
    assert_eq!(timeout.interval().subsec_nanos(), 1_000_000);
    timeout.set_timeout(Duration::new(u64::MAX, 999_999_999));
    assert_eq!(timeout.as_millis(), u64::MAX as u128 * 1000 + 999);
    assert_eq!(timeout.interval().as_secs(), u64::MAX);
    assert_eq!(timeout.interval().subsec_nanos(), 999_000_000);
}
