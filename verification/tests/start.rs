use wasmcloud_test_util::config::Config;
use wasmcloud_test_util::error::RpcError;
use wasmcloud_test_util::log_level::LogLevel;
use wasmcloud_test_util::provider::LinkDefinition;
use wasmcloud_test_util::start::{
    rpc_client_timeout, start_provider_test, Stage, StartAction, StartEvent, Startup,
};
use wasmcloud_test_util::value_map::ValueMap;

fn begin(config: Config) -> Startup {
    let link = LinkDefinition {
        actor_id: "MKEY".to_string(),
        provider_id: "VKEY".to_string(),
        link_name: "ln".to_string(),
        contract_id: "ct".to_string(),
        values: ValueMap::new(),
    };
    start_provider_test(config, "bin/provider", link)
}

fn step(startup: &mut Startup, event: StartEvent) -> StartAction {
    assert!(startup.can_accept(&event));
    startup.next(event)
}

/// A start that has come through `n` steps with success.
fn after(n: usize) -> Startup {
    let mut s = begin(Config::default());
    let events = vec![
        StartEvent::Opened(Ok(())),
        StartEvent::Encoded(Ok(b"{}".to_vec())),
        StartEvent::Launched(Ok(())),
        StartEvent::StdinTaken(true),
        StartEvent::Fed(Ok(())),
        StartEvent::Connected(Ok(())),
        StartEvent::Bridged(Ok(())),
    ];
    for event in events.into_iter().take(n) {
        step(&mut s, event);
    }
    s
}

fn failure(mut startup: Startup, event: StartEvent) -> RpcError {
    match step(&mut startup, event) {
        StartAction::Fail(error) => {
            assert!(startup.stage == Stage::Failed);
            assert!(!startup.can_accept(&StartEvent::Opened(Ok(()))));
            error
        }
        _ => panic!("the step did not fail"),
    }
}

fn other_text(error: RpcError) -> String {
    match error {
        RpcError::Other(text) => text,
        e => panic!("another error: {:?}", e),
    }
}

#[test]
fn host_data_of_a_start() {
    let mut config = Config::default();
    config.nats_url = "1.2.3.4:5".to_string();
    let s = begin(config);
    let h = &s.process.host_data;
    assert_eq!(h.host_id, "_TEST_");
    assert_eq!(h.lattice_rpc_prefix, "TEST");
    assert_eq!(h.link_name, "ln");
    assert_eq!(h.lattice_rpc_url, "1.2.3.4:5");
    assert_eq!(h.provider_key, "VKEY");
    assert_eq!(h.invocation_seed, s.host.seed);
    assert_eq!(h.cluster_issuers, vec![s.host.public_key.clone()]);
    assert_eq!(h.link_definitions.len(), 1);
    assert_eq!(h.link_definitions[0].contract_id, "ct");
    assert_eq!(h.default_rpc_timeout_ms, None);
    assert!(!h.structured_logging);
    assert_eq!(s.process.actor_id, "MKEY");
}

#[test]
fn host_key_of_a_start() {
    let s = begin(Config::default());
    assert_eq!(s.host.public_key.len(), 56);
    assert!(s.host.public_key.starts_with('N'));
    assert_eq!(s.host.seed.len(), 58);
    assert!(s.host.seed.starts_with("SN"));
    assert_eq!(s.host.pair.public_key(), s.host.public_key);
    assert_eq!(s.host.pair.seed().unwrap(), s.host.seed);
    assert_ne!(begin(Config::default()).host.public_key, s.host.public_key);
}

#[test]
fn provider_trusts_the_key_that_signs() {
    let s = begin(Config::default());
    let h = &s.process.host_data;
    assert_eq!(h.cluster_issuers, vec![s.host.pair.public_key()]);
    assert_eq!(h.invocation_seed, s.host.pair.seed().unwrap());
}

#[test]
fn seed_rebuilds_the_trusted_key() {
    // a good key is refused by its checksum test now and then, so more than one is tried
    let mut rebuilt: usize = 0;
    for _ in 0..8 {
        let s = begin(Config::default());
        let h = &s.process.host_data;
        let signature = s.host.pair.sign(b"call").unwrap();
        let seeded = nkeys::KeyPair::from_seed(&h.invocation_seed);
        let issuer = nkeys::KeyPair::from_public_key(&h.cluster_issuers[0]);
        if let (Ok(seeded), Ok(issuer)) = (seeded, issuer) {
            assert_eq!(seeded.public_key(), h.cluster_issuers[0]);
            assert!(issuer.verify(b"call", &signature).is_ok());
            rebuilt += 1;
        }
    }
    assert!(rebuilt > 0);
}

#[test]
fn steps_of_a_start() {
    let mut config = Config::default();
    config.backtrace = true;
    config.log_level = LogLevel(log::Level::Debug);
    let mut s = begin(config);
    assert!(s.stage == Stage::Opening);
    assert!(matches!(step(&mut s, StartEvent::Opened(Ok(()))), StartAction::EncodeHostData));
    match step(&mut s, StartEvent::Encoded(Ok(b"{}".to_vec()))) {
        StartAction::Launch(env) => {
            assert_eq!(env.rust_log, "DEBUG");
            assert_eq!(env.rust_backtrace, "1");
        }
        _ => panic!("no launch"),
    }
    assert!(matches!(step(&mut s, StartEvent::Launched(Ok(()))), StartAction::TakeStdin));
    match step(&mut s, StartEvent::StdinTaken(true)) {
        StartAction::Feed(line) => assert_eq!(line, "e30\r\n"),
        _ => panic!("no feeding"),
    }
    assert!(matches!(step(&mut s, StartEvent::Fed(Ok(()))), StartAction::Connect));
    assert!(matches!(step(&mut s, StartEvent::Connected(Ok(()))), StartAction::Bridge));
    match step(&mut s, StartEvent::Bridged(Ok(()))) {
        StartAction::Finish(timeout) => assert_eq!(timeout.as_millis(), 2000),
        _ => panic!("no end"),
    }
    assert!(s.stage == Stage::Started);
}

#[test]
fn no_backtrace_by_default() {
    let mut s = after(1);
    match step(&mut s, StartEvent::Encoded(Ok(Vec::new()))) {
        StartAction::Launch(env) => {
            assert_eq!(env.rust_log, "INFO");
            assert_eq!(env.rust_backtrace, "0");
        }
        _ => panic!("no launch"),
    }
}

#[test]
fn first_failure_ends_a_start() {
    let cause = || "why".to_string();
    assert_eq!(other_text(failure(after(0), StartEvent::Opened(Err(cause())))), "io: why");
    assert!(matches!(
        failure(after(1), StartEvent::Encoded(Err(cause()))),
        RpcError::Ser(text) if text == "why"
    ));
    assert_eq!(
        other_text(failure(after(2), StartEvent::Launched(Err(cause())))),
        "launching provider bin at bin/provider: why"
    );
    assert!(matches!(
        failure(after(3), StartEvent::StdinTaken(false)),
        RpcError::ProviderInit(text) if text == "failed to open child stdin"
    ));
    assert_eq!(other_text(failure(after(4), StartEvent::Fed(Err(cause())))), "io: why");
    assert!(matches!(
        failure(after(5), StartEvent::Connected(Err(RpcError::InvalidParameter(cause())))),
        RpcError::InvalidParameter(text) if text == "why"
    ));
    assert!(matches!(
        failure(after(6), StartEvent::Bridged(Err(RpcError::NotImplemented))),
        RpcError::NotImplemented
    ));
}

#[test]
fn events_out_of_turn() {
    assert!(!after(0).can_accept(&StartEvent::Launched(Ok(()))));
    assert!(!after(3).can_accept(&StartEvent::Fed(Ok(()))));
    assert!(!after(7).can_accept(&StartEvent::Bridged(Ok(()))));
}

#[test]
fn timeout_of_the_client() {
    assert_eq!(rpc_client_timeout(None).as_millis(), 2000);
    assert_eq!(rpc_client_timeout(Some(150)).as_millis(), 150);
}
