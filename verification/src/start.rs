//! The steps by which a provider is started for a test.
//!
//! A `Startup` says what to do next; whoever performs the step hands the outcome back.
use crate::config::{Config, ConfigView};
use crate::duration::Duration;
use crate::encoding::{base64_fits, base64_text, encode_line, fits_base64, line_text};
use crate::error::RpcError;
use crate::identity::{
    is_public_key, is_seed, key_of_seed, new_identity, public_key_text, seed_text, Identity, Role,
};
use crate::log_level::level_name;
use crate::provider::{
    HostData, HostView, LinkDefinition, LinkView, ProcessView, ProviderProcess,
    DEFAULT_RPC_TIMEOUT_MILLIS, TEST_HOST_ID,
};
use vstd::prelude::*;
use vstd::string::*;

verus! {

/// What the host tells a provider under test: where to connect, who it is, the one link
/// it has, and the key that signs calls to it.
pub open spec fn host_data_for(
    config: ConfigView,
    link: LinkView,
    host_key: Seq<char>,
    host_seed: Seq<char>,
) -> HostView {
    HostView {
        host_id: "_TEST_"@,
        lattice_rpc_prefix: config.lattice_rpc_prefix,
        link_name: link.link_name,
        lattice_rpc_url: config.nats_url,
        provider_key: link.provider_id,
        invocation_seed: host_seed,
        link_definitions: seq![link],
        cluster_issuers: seq![host_key],
        default_rpc_timeout_ms: None,
        structured_logging: false,
    }
}

/// Makes what the host tells a provider under test.
pub fn make_host_data(
    config: &Config,
    link: LinkDefinition,
    host_key: String,
    host_seed: String,
) -> (host_data: HostData)
    ensures
        host_data@ == host_data_for(config@, link@, host_key@, host_seed@),
        host_data.host_id@ == "_TEST_"@,
        host_data.lattice_rpc_prefix@ == config.lattice_rpc_prefix@,
        host_data.link_name@ == link.link_name@,
        host_data.lattice_rpc_url@ == config.nats_url@,
        host_data.provider_key@ == link.provider_id@,
        host_data.invocation_seed@ == host_seed@,
        host_data.link_definitions@ == seq![link],
        host_data.cluster_issuers@.len() == 1,
        host_data.cluster_issuers@[0]@ == host_key@,
        host_data.default_rpc_timeout_ms is None,
        !host_data.structured_logging,
{
    let link_name: String = link.link_name.clone();
    let provider_key: String = link.provider_id.clone();
    let mut link_definitions: Vec<LinkDefinition> = Vec::new();
    let mut cluster_issuers: Vec<String> = Vec::new();
    let ghost link_view = link@;
    let ghost key_view = host_key@;
    link_definitions.push(link);
    cluster_issuers.push(host_key);
    assert(link_definitions@.map_values(|l: LinkDefinition| l@) =~= seq![link_view]);
    assert(cluster_issuers@.map_values(|k: String| k@) =~= seq![key_view]);
    HostData {
        host_id: TEST_HOST_ID.to_owned(),
        lattice_rpc_prefix: config.lattice_rpc_prefix.clone(),
        link_name,
        lattice_rpc_url: config.nats_url.clone(),
        provider_key,
        invocation_seed: host_seed,
        link_definitions,
        cluster_issuers,
        default_rpc_timeout_ms: None,
        structured_logging: false,
    }
}

/// The time in nanoseconds that a reply to a call may take: what the host says, or two
/// seconds where it says nothing.
pub open spec fn rpc_timeout_nanos(default_rpc_timeout_ms: Option<u64>) -> nat {
    match default_rpc_timeout_ms {
        Some(millis) => (millis * 1_000_000) as nat,
        None => 2_000_000_000,
    }
}

/// The time that a reply to a call may take.
pub fn rpc_client_timeout(default_rpc_timeout_ms: Option<u64>) -> (timeout: Duration)
    ensures
        timeout@ == rpc_timeout_nanos(default_rpc_timeout_ms),
        default_rpc_timeout_ms matches Some(millis) ==> timeout@ == millis * 1_000_000,
        default_rpc_timeout_ms is None ==> timeout@ == 2_000_000_000,
{
    match default_rpc_timeout_ms {
        Some(millis) => Duration::from_millis(millis),
        None => Duration::from_millis(DEFAULT_RPC_TIMEOUT_MILLIS),
    }
}

/// Settings of the environment that a provider runs in.
#[derive(Debug)]
pub struct LaunchEnv {
    /// Value of `RUST_LOG`
    pub rust_log: &'static str,
    /// Value of `RUST_BACKTRACE`
    pub rust_backtrace: &'static str,
}

/// The environment that a provider runs in under the given configuration.
pub fn launch_env(config: &Config) -> (env: LaunchEnv)
    ensures
        env.rust_log@ == level_name(config@.log_level),
        env.rust_log@ == (match config.log_level.0 {
            log::Level::Error => "ERROR"@,
            log::Level::Warn => "WARN"@,
            log::Level::Info => "INFO"@,
            log::Level::Debug => "DEBUG"@,
            log::Level::Trace => "TRACE"@,
        }),
        config.backtrace ==> env.rust_backtrace@ == "1"@,
        !config.backtrace ==> env.rust_backtrace@ == "0"@,
        env.rust_backtrace@ == (if config@.backtrace {
            "1"@
        } else {
            "0"@
        }),
{
    LaunchEnv {
        rust_log: config.log_level.as_str(),
        rust_backtrace: if config.backtrace {
            "1"
        } else {
            "0"
        },
    }
}

/// Which step of starting a provider is under way.
#[derive(Clone, Copy, Debug, Eq, PartialEq, Structural)]
pub enum Stage {
    /// The file of the provider is being opened.
    Opening,
    /// The host data is being written as JSON.
    Encoding,
    /// The process is being launched.
    Launching,
    /// The standard input of the process is being taken.
    TakingStdin,
    /// The host data is being written to the process.
    Feeding,
    /// The message bus is being connected to.
    Connecting,
    /// The host bridge is being set up.
    Bridging,
    /// The provider runs.
    Started,
    /// A step failed.
    Failed,
}

/// The outcome of a step, with the reason where it failed.
pub enum StartEvent {
    /// The file of the provider was opened.
    Opened(Result<(), String>),
    /// The host data was written as JSON.
    Encoded(Result<Vec<u8>, String>),
    /// The process was launched.
    Launched(Result<(), String>),
    /// The standard input of the process was taken, if it has one.
    StdinTaken(bool),
    /// The host data was written to the process.
    Fed(Result<(), String>),
    /// The message bus was connected to.
    Connected(Result<(), RpcError>),
    /// The host bridge was set up.
    Bridged(Result<(), RpcError>),
}

/// What to do next.
pub enum StartAction {
    /// Write the host data as JSON.
    EncodeHostData,
    /// Launch the process in this environment, with its standard input and output piped.
    Launch(LaunchEnv),
    /// Take the standard input of the process.
    TakeStdin,
    /// Write this line to the process.
    Feed(String),
    /// Connect to the message bus.
    Connect,
    /// Set up the host bridge.
    Bridge,
    /// Hand out the provider; a reply to a call may take this long.
    Finish(Duration),
    /// Give up, for this reason.
    Fail(RpcError),
}

/// Whether `event` is the outcome of the step that is under way.
pub open spec fn answers(event: StartEvent, stage: Stage) -> bool {
    match event {
        StartEvent::Opened(_) => stage is Opening,
        StartEvent::Encoded(_) => stage is Encoding,
        StartEvent::Launched(_) => stage is Launching,
        StartEvent::StdinTaken(_) => stage is TakingStdin,
        StartEvent::Fed(_) => stage is Feeding,
        StartEvent::Connected(_) => stage is Connecting,
        StartEvent::Bridged(_) => stage is Bridging,
    }
}

/// Whether the step that `event` tells of succeeded.
pub open spec fn succeeded(event: StartEvent) -> bool {
    match event {
        StartEvent::Opened(outcome) => outcome is Ok,
        StartEvent::Encoded(outcome) => outcome is Ok,
        StartEvent::Launched(outcome) => outcome is Ok,
        StartEvent::StdinTaken(present) => present,
        StartEvent::Fed(outcome) => outcome is Ok,
        StartEvent::Connected(outcome) => outcome is Ok,
        StartEvent::Bridged(outcome) => outcome is Ok,
    }
}

/// The step that follows `stage` when it succeeds.
pub open spec fn stage_after(stage: Stage) -> Stage {
    match stage {
        Stage::Opening => Stage::Encoding,
        Stage::Encoding => Stage::Launching,
        Stage::Launching => Stage::TakingStdin,
        Stage::TakingStdin => Stage::Feeding,
        Stage::Feeding => Stage::Connecting,
        Stage::Connecting => Stage::Bridging,
        Stage::Bridging => Stage::Started,
        Stage::Started => Stage::Started,
        Stage::Failed => Stage::Failed,
    }
}

/// The stage that `event` leads to: the next one, or failure.
pub open spec fn next_stage(stage: Stage, event: StartEvent) -> Stage {
    if succeeded(event) {
        stage_after(stage)
    } else {
        Stage::Failed
    }
}

/// The line with the host data after `event`.
pub open spec fn line_after(line: Seq<char>, event: StartEvent) -> Seq<char> {
    match event {
        StartEvent::Encoded(Ok(json)) => line_text(json@),
        _ => line,
    }
}

/// The message for a process that could not be launched.
pub open spec fn launch_error_text(path: Seq<char>, cause: Seq<char>) -> Seq<char> {
    "launching provider bin at "@ + path + ": "@ + cause
}

/// Whether giving up with `error` is right after the failure that `event` tells of.
pub open spec fn reports(error: RpcError, event: StartEvent, path: Seq<char>) -> bool {
    match event {
        StartEvent::Opened(Err(cause)) => error matches RpcError::Other(text) && text@ == "io: "@
            + cause@,
        StartEvent::Encoded(Err(cause)) => error matches RpcError::Ser(text) && text@ == cause@,
        StartEvent::Launched(Err(cause)) => error matches RpcError::Other(text) && text@
            == launch_error_text(path, cause@),
        StartEvent::StdinTaken(_) => error matches RpcError::ProviderInit(text) && text@
            == "failed to open child stdin"@,
        StartEvent::Fed(Err(cause)) => error matches RpcError::Other(text) && text@ == "io: "@
            + cause@,
        StartEvent::Connected(Err(cause)) => error == cause,
        StartEvent::Bridged(Err(cause)) => error == cause,
        _ => false,
    }
}

/// Starting a capability provider for a test.
pub struct Startup {
    /// The step that is under way
    pub stage: Stage,
    /// Path of the provider
    pub path: String,
    /// Line with the host data, once it is there
    pub line: String,
    /// Key of the host, which signs calls to the provider
    pub host: Identity,
    /// The provider as it will be handed out
    pub process: ProviderProcess,
}

impl Startup {
    /// Whether `event` can come next. The line that carries the host data is no longer
    /// than a string can be.
    pub open spec fn accepts(&self, event: StartEvent) -> bool {
        &&& answers(event, self.stage)
        &&& event matches StartEvent::Encoded(Ok(json)) ==> base64_fits(json@.len())
    }

    /// Tells whether `event` can come next.
    pub fn can_accept(&self, event: &StartEvent) -> (accepted: bool)
        ensures
            accepted == self.accepts(*event),
            accepted == (match *event {
                StartEvent::Opened(_) => self.stage is Opening,
                StartEvent::Encoded(Ok(json)) => self.stage is Encoding && (4 * json@.len() + 2) / 3
                    <= isize::MAX,
                StartEvent::Encoded(Err(_)) => self.stage is Encoding,
                StartEvent::Launched(_) => self.stage is Launching,
                StartEvent::StdinTaken(_) => self.stage is TakingStdin,
                StartEvent::Fed(_) => self.stage is Feeding,
                StartEvent::Connected(_) => self.stage is Connecting,
                StartEvent::Bridged(_) => self.stage is Bridging,
            }),
    {
        match event {
            StartEvent::Opened(_) => self.stage == Stage::Opening,
            StartEvent::Encoded(Ok(json)) => self.stage == Stage::Encoding && fits_base64(
                json.len(),
            ),
            StartEvent::Encoded(Err(_)) => self.stage == Stage::Encoding,
            StartEvent::Launched(_) => self.stage == Stage::Launching,
            StartEvent::StdinTaken(_) => self.stage == Stage::TakingStdin,
            StartEvent::Fed(_) => self.stage == Stage::Feeding,
            StartEvent::Connected(_) => self.stage == Stage::Connecting,
            StartEvent::Bridged(_) => self.stage == Stage::Bridging,
        }
    }

    /// Takes the outcome of the step that was under way and says what to do next.
    pub fn next(&mut self, event: StartEvent) -> (action: StartAction)
        requires
            old(self).accepts(event),
        ensures
            final(self).stage == next_stage(old(self).stage, event),
            final(self).path@ == old(self).path@,
            final(self).host == old(self).host,
            final(self).process == old(self).process,
            final(self).line@ == line_after(old(self).line@, event),
            succeeded(event) ==> match event {
                StartEvent::Opened(_) => action is EncodeHostData,
                StartEvent::Encoded(_) => action matches StartAction::Launch(env)
                    && env.rust_log@ == level_name(old(self).process@.config.log_level)
                    && env.rust_backtrace@ == (if old(self).process@.config.backtrace {
                    "1"@
                } else {
                    "0"@
                }),
                StartEvent::Launched(_) => action is TakeStdin,
                StartEvent::StdinTaken(_) => action matches StartAction::Feed(line) && line@
                    == old(self).line@,
                StartEvent::Fed(_) => action is Connect,
                StartEvent::Connected(_) => action is Bridge,
                StartEvent::Bridged(_) => action matches StartAction::Finish(timeout) && timeout@
                    == rpc_timeout_nanos(old(self).process@.host_data.default_rpc_timeout_ms),
            },
            !succeeded(event) ==> (action matches StartAction::Fail(error) && reports(
                error,
                event,
                old(self).path@,
            )),
            !(event matches StartEvent::Encoded(Ok(_))) ==> final(self).line@ == old(self).line@,
            match event {
                StartEvent::Opened(Ok(_)) => final(self).stage is Encoding
                    && action is EncodeHostData,
                StartEvent::Opened(Err(cause)) => final(self).stage is Failed && (
                action matches StartAction::Fail(RpcError::Other(text)) && text@ == "io: "@
                    + cause@),
                StartEvent::Encoded(Ok(json)) => final(self).stage is Launching
                    && final(self).line@ == base64_text(json@) + "\r\n"@ && (
                action matches StartAction::Launch(env) && env.rust_log@ == (match old(self).process.config.log_level.0 {
                    log::Level::Error => "ERROR"@,
                    log::Level::Warn => "WARN"@,
                    log::Level::Info => "INFO"@,
                    log::Level::Debug => "DEBUG"@,
                    log::Level::Trace => "TRACE"@,
                }) && (old(self).process.config.backtrace ==> env.rust_backtrace@ == "1"@) && (!old(self).process.config.backtrace ==> env.rust_backtrace@ == "0"@)),
                StartEvent::Encoded(Err(cause)) => final(self).stage is Failed && (
                action matches StartAction::Fail(RpcError::Ser(text)) && text@ == cause@),
                StartEvent::Launched(Ok(_)) => final(self).stage is TakingStdin
                    && action is TakeStdin,
                StartEvent::Launched(Err(cause)) => final(self).stage is Failed && (
                action matches StartAction::Fail(RpcError::Other(text)) && text@
                    == "launching provider bin at "@ + old(self).path@ + ": "@ + cause@),
                StartEvent::StdinTaken(present) => if present {
                    final(self).stage is Feeding && (action matches StartAction::Feed(line)
                        && line@ == old(self).line@)
                } else {
                    final(self).stage is Failed && (action matches StartAction::Fail(
                        RpcError::ProviderInit(text),
                    ) && text@ == "failed to open child stdin"@)
                },
                StartEvent::Fed(Ok(_)) => final(self).stage is Connecting && action is Connect,
                StartEvent::Fed(Err(cause)) => final(self).stage is Failed && (
                action matches StartAction::Fail(RpcError::Other(text)) && text@ == "io: "@
                    + cause@),
                StartEvent::Connected(Ok(_)) => final(self).stage is Bridging && action is Bridge,
                StartEvent::Connected(Err(cause)) => final(self).stage is Failed && action
                    == StartAction::Fail(cause),
                StartEvent::Bridged(Ok(_)) => final(self).stage is Started && (
                action matches StartAction::Finish(timeout) && timeout@ == (match old(self).process.host_data.default_rpc_timeout_ms {
                    Some(millis) => millis * 1_000_000,
                    None => 2_000_000_000,
                })),
                StartEvent::Bridged(Err(cause)) => final(self).stage is Failed && action
                    == StartAction::Fail(cause),
            },
    {
        match event {
            StartEvent::Opened(Ok(_)) => {
                self.stage = Stage::Encoding;
                StartAction::EncodeHostData
            },
            StartEvent::Opened(Err(cause)) => {
                self.stage = Stage::Failed;
                StartAction::Fail(RpcError::io(cause.as_str()))
            },
            StartEvent::Encoded(Ok(json)) => {
                self.stage = Stage::Launching;
                self.line = encode_line(json.as_slice());
                StartAction::Launch(launch_env(&self.process.config))
            },
            StartEvent::Encoded(Err(cause)) => {
                self.stage = Stage::Failed;
                StartAction::Fail(RpcError::Ser(cause))
            },
            StartEvent::Launched(Ok(_)) => {
                self.stage = Stage::TakingStdin;
                StartAction::TakeStdin
            },
            StartEvent::Launched(Err(cause)) => {
                self.stage = Stage::Failed;
                let mut text: String = "launching provider bin at ".to_owned();
                text.append(self.path.as_str());
                text.append(": ");
                text.append(cause.as_str());
                StartAction::Fail(RpcError::Other(text))
            },
            StartEvent::StdinTaken(present) => {
                if present {
                    self.stage = Stage::Feeding;
                    StartAction::Feed(self.line.clone())
                } else {
                    self.stage = Stage::Failed;
                    StartAction::Fail(
                        RpcError::ProviderInit("failed to open child stdin".to_owned()),
                    )
                }
            },
            StartEvent::Fed(Ok(_)) => {
                self.stage = Stage::Connecting;
                StartAction::Connect
            },
            StartEvent::Fed(Err(cause)) => {
                self.stage = Stage::Failed;
                StartAction::Fail(RpcError::io(cause.as_str()))
            },
            StartEvent::Connected(Ok(_)) => {
                self.stage = Stage::Bridging;
                StartAction::Bridge
            },
            StartEvent::Connected(Err(error)) => {
                self.stage = Stage::Failed;
                StartAction::Fail(error)
            },
            StartEvent::Bridged(Ok(_)) => {
                self.stage = Stage::Started;
                StartAction::Finish(
                    rpc_client_timeout(self.process.host_data.default_rpc_timeout_ms),
                )
            },
            StartEvent::Bridged(Err(error)) => {
                self.stage = Stage::Failed;
                StartAction::Fail(error)
            },
        }
    }
}

/// Begins to start the provider at `path` for a test, over the link `link`. The first
/// step is to open the file of the provider. One fresh key pair stands for the host: calls
/// are signed with it, the provider is told its seed, and its public key is the only one
/// that the provider is told to trust.
pub fn start_provider_test(config: Config, path: &str, link: LinkDefinition) -> (startup: Startup)
    ensures
        startup.stage is Opening,
        startup.path@ == path@,
        is_public_key(Role::Host, startup.host.public_key@),
        is_seed(Role::Host, startup.host.seed@),
        startup.host.public_key@ == public_key_text(startup.host.pair),
        startup.host.seed@ == seed_text(startup.host.pair),
        startup.process@.host_data.cluster_issuers == seq![
            key_of_seed(startup.process@.host_data.invocation_seed),
        ],
        startup.process@ == (ProcessView {
            host_data: host_data_for(
                config@,
                link@,
                startup.host.public_key@,
                startup.host.seed@,
            ),
            actor_id: link@.actor_id,
            config: config@,
        }),
        startup.process.config == config,
        startup.process.actor_id@ == link.actor_id@,
        startup.host.public_key@.len() == 56 && startup.host.public_key@[0] == 'N',
        startup.host.seed@.len() == 58 && startup.host.seed@[0] == 'S' && startup.host.seed@[1]
            == 'N',
        startup.line@.len() == 0,
        startup.process.host_data.host_id@ == "_TEST_"@,
        startup.process.host_data.lattice_rpc_prefix@ == config.lattice_rpc_prefix@,
        startup.process.host_data.link_name@ == link.link_name@,
        startup.process.host_data.lattice_rpc_url@ == config.nats_url@,
        startup.process.host_data.provider_key@ == link.provider_id@,
        startup.process.host_data.invocation_seed@ == startup.host.seed@,
        startup.process.host_data.link_definitions@ == seq![link],
        startup.process.host_data.cluster_issuers@.len() == 1,
        startup.process.host_data.cluster_issuers@[0]@ == startup.host.public_key@,
        startup.process.host_data.default_rpc_timeout_ms is None,
        !startup.process.host_data.structured_logging,
{
    let host = new_identity(Role::Host);
    let actor_id: String = link.actor_id.clone();
    let host_data = make_host_data(&config, link, host.public_key.clone(), host.seed.clone());
    Startup {
        stage: Stage::Opening,
        path: path.to_owned(),
        line: String::new(),
        host,
        process: ProviderProcess { host_data, actor_id, config },
    }
}

/// A provider is handed out only when each step was taken and succeeded: a start ends
/// in `Started` only from the last step, by its success.
pub proof fn started_only_after_last_step(stage: Stage, event: StartEvent)
    requires
        answers(event, stage),
        next_stage(stage, event) is Started,
    ensures
        stage is Bridging,
        succeeded(event),
{
}

/// A failure ends the start: after it no outcome is taken any more.
pub proof fn failure_is_final(stage: Stage, event: StartEvent, later: StartEvent)
    requires
        answers(event, stage),
        !succeeded(event),
    ensures
        next_stage(stage, event) is Failed,
        !answers(later, next_stage(stage, event)),
{
}

/// The stages that a list of outcomes leads through, from `stage` on.
pub open spec fn stage_reached(stage: Stage, events: Seq<StartEvent>) -> Stage
    decreases events.len(),
{
    if events.len() == 0 {
        stage
    } else {
        next_stage(stage_reached(stage, events.drop_last()), events.last())
    }
}

/// Whether each of a list of outcomes answers the step under way when it comes.
pub open spec fn answers_in_turn(stage: Stage, events: Seq<StartEvent>) -> bool
    decreases events.len(),
{
    events.len() > 0 ==> {
        &&& answers_in_turn(stage, events.drop_last())
        &&& answers(events.last(), stage_reached(stage, events.drop_last()))
    }
}

/// Whether each of a list of outcomes is a success.
pub open spec fn all_succeeded(events: Seq<StartEvent>) -> bool {
    forall|i: int| 0 <= i < events.len() ==> succeeded(#[trigger] events[i])
}

/// How many steps come before `stage`.
pub open spec fn steps_before(stage: Stage) -> nat {
    match stage {
        Stage::Opening => 0,
        Stage::Encoding => 1,
        Stage::Launching => 2,
        Stage::TakingStdin => 3,
        Stage::Feeding => 4,
        Stage::Connecting => 5,
        Stage::Bridging => 6,
        Stage::Started => 7,
        Stage::Failed => 0,
    }
}

/// A start that has not failed has come as many steps as there were outcomes, each of
/// them a success; and with nothing but successes it has not failed.
proof fn progress(events: Seq<StartEvent>)
    requires
        answers_in_turn(Stage::Opening, events),
    ensures
        !(stage_reached(Stage::Opening, events) is Failed) <==> all_succeeded(events),
        all_succeeded(events) ==> events.len() == steps_before(
            stage_reached(Stage::Opening, events),
        ),
    decreases events.len(),
{
    if events.len() > 0 {
        let rest = events.drop_last();
        progress(rest);
        assert(events.last() == events[events.len() - 1]);
        assert(forall|i: int| 0 <= i < rest.len() ==> #[trigger] events[i] == rest[i]);
        assert(forall|i: int| 0 <= i < rest.len() ==> #[trigger] rest[i] == events[i]);
        assert(all_succeeded(events) <==> all_succeeded(rest) && succeeded(events.last()));
    }
}

/// A start from the first step on ends in `Started` exactly when seven outcomes came in
/// turn and each of them was a success.
pub proof fn started_after_seven_successes(events: Seq<StartEvent>)
    requires
        answers_in_turn(Stage::Opening, events),
    ensures
        stage_reached(Stage::Opening, events) is Started <==> events.len() == 7 && all_succeeded(
            events,
        ),
{
    progress(events);
}

/// The line with the host data after a list of outcomes.
pub open spec fn line_reached(line: Seq<char>, events: Seq<StartEvent>) -> Seq<char>
    decreases events.len(),
{
    if events.len() == 0 {
        line
    } else {
        line_after(line_reached(line, events.drop_last()), events.last())
    }
}

/// The line that is written to the process is the one that carries the host data: when
/// a start from the first step on comes to feeding the process, its line holds the JSON
/// that the host data was written as.
pub proof fn fed_line_carries_host_data(line: Seq<char>, events: Seq<StartEvent>)
    requires
        answers_in_turn(Stage::Opening, events),
        stage_reached(Stage::Opening, events) is Feeding,
    ensures
        events.len() == 4,
        events[1] is Encoded,
        events[1]->Encoded_0 is Ok,
        line_reached(line, events) == line_text(events[1]->Encoded_0->Ok_0@),
{
    progress(events);
    let third = events.drop_last();
    let second = third.drop_last();
    let first = second.drop_last();
    reveal_with_fuel(answers_in_turn, 4);
    progress(third);
    progress(second);
    progress(first);
    assert(stage_reached(Stage::Opening, first) is Encoding);
    assert(second.last() == events[1]);
    assert(line_reached(line, second) == line_text(events[1]->Encoded_0->Ok_0@));
    assert(line_reached(line, third) == line_reached(line, second));
}

/// A provider is told what the configuration and the link say: it joins the lattice and the
/// message bus of the configuration under the key and the link name of the link, has this
/// link and no other, and trusts the key of the host and no other.
pub proof fn host_data_follows_config_and_link(
    config: ConfigView,
    link: LinkView,
    host_key: Seq<char>,
    host_seed: Seq<char>,
)
    ensures
        host_data_for(config, link, host_key, host_seed).lattice_rpc_prefix
            == config.lattice_rpc_prefix,
        host_data_for(config, link, host_key, host_seed).lattice_rpc_url == config.nats_url,
        host_data_for(config, link, host_key, host_seed).link_name == link.link_name,
        host_data_for(config, link, host_key, host_seed).provider_key == link.provider_id,
        host_data_for(config, link, host_key, host_seed).link_definitions.len() == 1,
        host_data_for(config, link, host_key, host_seed).link_definitions[0] == link,
        host_data_for(config, link, host_key, host_seed).cluster_issuers.len() == 1,
        host_data_for(config, link, host_key, host_seed).cluster_issuers[0] == host_key,
        host_data_for(config, link, host_key, host_seed).invocation_seed == host_seed,
        host_data_for(config, link, host_key, host_seed).host_id == "_TEST_"@,
        host_data_for(config, link, host_key, host_seed).default_rpc_timeout_ms is None,
        !host_data_for(config, link, host_key, host_seed).structured_logging,
{
}

/// Starts differ where their configurations and links do: providers that are told the same
/// were started in the same lattice, on the same message bus, over the same link and by the
/// same key.
pub proof fn host_data_determines_its_sources(
    config: ConfigView,
    link: LinkView,
    key: Seq<char>,
    seed: Seq<char>,
    other_config: ConfigView,
    other_link: LinkView,
    other_key: Seq<char>,
    other_seed: Seq<char>,
)
    requires
        host_data_for(config, link, key, seed) == host_data_for(
            other_config,
            other_link,
            other_key,
            other_seed,
        ),
    ensures
        config.lattice_rpc_prefix == other_config.lattice_rpc_prefix,
        config.nats_url == other_config.nats_url,
        link == other_link,
        key == other_key,
        seed == other_seed,
{
    let data = host_data_for(config, link, key, seed);
    assert(data.link_definitions[0] == link);
    assert(data.link_definitions[0] == other_link);
    assert(data.cluster_issuers[0] == key);
    assert(data.cluster_issuers[0] == other_key);
}

/// The steps of a start come in one order: opening, encoding, launching, taking the input,
/// feeding, connecting and bridging, each by the success of the one before and answered by
/// its own outcome only.
pub proof fn steps_come_in_order(json: Vec<u8>, stage: Stage)
    ensures
        next_stage(Stage::Opening, StartEvent::Opened(Ok(()))) is Encoding,
        next_stage(Stage::Encoding, StartEvent::Encoded(Ok(json))) is Launching,
        next_stage(Stage::Launching, StartEvent::Launched(Ok(()))) is TakingStdin,
        next_stage(Stage::TakingStdin, StartEvent::StdinTaken(true)) is Feeding,
        next_stage(Stage::Feeding, StartEvent::Fed(Ok(()))) is Connecting,
        next_stage(Stage::Connecting, StartEvent::Connected(Ok(()))) is Bridging,
        next_stage(Stage::Bridging, StartEvent::Bridged(Ok(()))) is Started,
        answers(StartEvent::Opened(Ok(())), stage) <==> stage is Opening,
        answers(StartEvent::Encoded(Ok(json)), stage) <==> stage is Encoding,
        answers(StartEvent::Launched(Ok(())), stage) <==> stage is Launching,
        answers(StartEvent::StdinTaken(true), stage) <==> stage is TakingStdin,
        answers(StartEvent::Fed(Ok(())), stage) <==> stage is Feeding,
        answers(StartEvent::Connected(Ok(())), stage) <==> stage is Connecting,
        answers(StartEvent::Bridged(Ok(())), stage) <==> stage is Bridging,
{
}

} // verus!
