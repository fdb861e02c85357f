//! A provider under test: who talks to it, on which topics, and what the replies mean.
use crate::config::{Config, ConfigView};
use crate::duration::Duration;
use crate::json::{
    json_escaped, json_object, json_object_of, one_member_object, plain, plain_text_stays,
};
use crate::value_map::{pairs_of, ValueMap};
use vstd::prelude::*;
use vstd::string::*;

verus! {

/// Identity of the host that a provider under test is told about.
pub const TEST_HOST_ID: &'static str = "_TEST_";

/// Milliseconds that a reply to a call may take where nothing else is set.
pub const DEFAULT_RPC_TIMEOUT_MILLIS: u64 = 2000;

/// Seconds that a provider gets to exit after it was told to shut down.
pub const SHUTDOWN_PAUSE_SECS: u64 = 2;

/// One end of a call: an actor, which has no link name, or a provider.
#[derive(Debug)]
pub struct WasmCloudEntity {
    /// Public key of the actor or provider
    pub public_key: String,
    /// Link name of a provider
    pub link_name: String,
    /// Contract of a provider
    pub contract_id: String,
}

/// What an entity says.
pub struct EntityView {
    pub public_key: Seq<char>,
    pub link_name: Seq<char>,
    pub contract_id: Seq<char>,
}

impl View for WasmCloudEntity {
    type V = EntityView;

    open spec fn view(&self) -> EntityView {
        EntityView {
            public_key: self.public_key@,
            link_name: self.link_name@,
            contract_id: self.contract_id@,
        }
    }
}

/// A link that binds an actor to a provider.
#[derive(Debug)]
pub struct LinkDefinition {
    /// actor public key
    pub actor_id: String,
    /// provider public key
    pub provider_id: String,
    /// link name
    pub link_name: String,
    /// contract id
    pub contract_id: String,
    /// settings of the link
    pub values: ValueMap,
}

/// What a link definition says.
#[verifier::ext_equal]
pub struct LinkView {
    pub actor_id: Seq<char>,
    pub provider_id: Seq<char>,
    pub link_name: Seq<char>,
    pub contract_id: Seq<char>,
    pub values: Map<Seq<char>, Seq<char>>,
}

impl View for LinkDefinition {
    type V = LinkView;

    open spec fn view(&self) -> LinkView {
        LinkView {
            actor_id: self.actor_id@,
            provider_id: self.provider_id@,
            link_name: self.link_name@,
            contract_id: self.contract_id@,
            values: self.values@,
        }
    }
}

impl Clone for LinkDefinition {
    fn clone(&self) -> (copy: LinkDefinition)
        ensures
            copy@ == self@,
            copy.actor_id@ == self.actor_id@,
            copy.provider_id@ == self.provider_id@,
            copy.link_name@ == self.link_name@,
            copy.contract_id@ == self.contract_id@,
            copy.values@ == self.values@,
    {
        LinkDefinition {
            actor_id: self.actor_id.clone(),
            provider_id: self.provider_id.clone(),
            link_name: self.link_name.clone(),
            contract_id: self.contract_id.clone(),
            values: self.values.clone(),
        }
    }
}

/// What the host tells a provider at its start.
#[derive(Debug)]
pub struct HostData {
    /// identity of the host
    pub host_id: String,
    /// prefix of the topics of the lattice
    pub lattice_rpc_prefix: String,
    /// link name of the provider
    pub link_name: String,
    /// address of the message bus
    pub lattice_rpc_url: String,
    /// public key of the provider
    pub provider_key: String,
    /// seed of the key that signs calls
    pub invocation_seed: String,
    /// links of the provider at its start
    pub link_definitions: Vec<LinkDefinition>,
    /// public keys of those who may sign calls
    pub cluster_issuers: Vec<String>,
    /// milliseconds that a reply to a call may take
    pub default_rpc_timeout_ms: Option<u64>,
    /// whether the provider logs in structured form
    pub structured_logging: bool,
}

/// What host data says.
#[verifier::ext_equal]
pub struct HostView {
    pub host_id: Seq<char>,
    pub lattice_rpc_prefix: Seq<char>,
    pub link_name: Seq<char>,
    pub lattice_rpc_url: Seq<char>,
    pub provider_key: Seq<char>,
    pub invocation_seed: Seq<char>,
    pub link_definitions: Seq<LinkView>,
    pub cluster_issuers: Seq<Seq<char>>,
    pub default_rpc_timeout_ms: Option<u64>,
    pub structured_logging: bool,
}

impl View for HostData {
    type V = HostView;

    open spec fn view(&self) -> HostView {
        HostView {
            host_id: self.host_id@,
            lattice_rpc_prefix: self.lattice_rpc_prefix@,
            link_name: self.link_name@,
            lattice_rpc_url: self.lattice_rpc_url@,
            provider_key: self.provider_key@,
            invocation_seed: self.invocation_seed@,
            link_definitions: self.link_definitions@.map_values(|link: LinkDefinition| link@),
            cluster_issuers: self.cluster_issuers@.map_values(|key: String| key@),
            default_rpc_timeout_ms: self.default_rpc_timeout_ms,
            structured_logging: self.structured_logging,
        }
    }
}

/// The topic of calls to `entity`: that of a provider ends in its link name, that of an
/// actor, which has none, in its key.
pub open spec fn rpc_topic_text(entity: EntityView, lattice_prefix: Seq<char>) -> Seq<char> {
    if entity.link_name.len() > 0 {
        "wasmbus.rpc."@ + lattice_prefix + "."@ + entity.public_key + "."@ + entity.link_name
    } else {
        "wasmbus.rpc."@ + lattice_prefix + "."@ + entity.public_key
    }
}

/// The topic of calls to `entity` in the lattice with the given prefix.
pub fn rpc_topic(entity: &WasmCloudEntity, lattice_prefix: &str) -> (topic: String)
    ensures
        topic@ == rpc_topic_text(entity@, lattice_prefix@),
        entity.link_name@.len() > 0 ==> topic@ == "wasmbus.rpc."@ + lattice_prefix@ + "."@
            + entity.public_key@ + "."@ + entity.link_name@,
        entity.link_name@.len() == 0 ==> topic@ == "wasmbus.rpc."@ + lattice_prefix@ + "."@
            + entity.public_key@,
{
    let mut topic: String = "wasmbus.rpc.".to_owned();
    topic.append(lattice_prefix);
    topic.append(".");
    topic.append(entity.public_key.as_str());
    if !entity.link_name.as_str().is_empty() {
        topic.append(".");
        topic.append(entity.link_name.as_str());
    }
    topic
}

/// The topic of control messages to the provider that `host` tells of, with its last part.
pub open spec fn control_topic_text(host: HostView, last: Seq<char>) -> Seq<char> {
    "wasmbus.rpc."@ + host.lattice_rpc_prefix + "."@ + host.provider_key + "."@ + host.link_name
        + last
}

/// A message that puts a link to the provider.
#[derive(Debug)]
pub struct LinkRequest {
    /// Topic to publish on
    pub topic: String,
    /// Link to publish, as JSON
    pub link: LinkDefinition,
}

/// The ends of a call to the provider, the lattice it goes through, and the time for it.
#[derive(Debug)]
pub struct RpcRoute {
    /// Who calls
    pub origin: WasmCloudEntity,
    /// Who is called
    pub target: WasmCloudEntity,
    /// Prefix of the lattice
    pub lattice: String,
    /// Time that the reply may take
    pub timeout: Duration,
}

/// A message that tells the provider to shut down.
#[derive(Debug)]
pub struct ShutdownRequest {
    /// Topic of the request
    pub topic: String,
    /// The ID of the host that sent the message
    pub host_id: String,
    /// Payload of the request: a JSON object that holds the ID of the host
    pub message: String,
}

/// The payload that tells a provider which host wants it to shut down.
pub fn shutdown_message(host_id: &str) -> (message: String)
    ensures
        message@ == json_object_of(seq![("host_id"@, host_id@)]),
        message@ == "{\"host_id\":\""@ + json_escaped(host_id@) + "\"}"@,
{
    let mut pairs: Vec<(String, String)> = Vec::new();
    pairs.push(("host_id".to_owned(), host_id.to_owned()));
    assert(pairs_of(pairs@) =~= seq![("host_id"@, host_id@)]);
    proof {
        one_member_object("host_id"@, host_id@);
        reveal_strlit("host_id");
        reveal_strlit("{\"host_id\":\"");
        reveal_strlit("\"}");
        assert(forall|i: int| 0 <= i < "host_id"@.len() ==> plain(#[trigger] "host_id"@[i]));
        plain_text_stays("host_id"@);
    }
    json_object(&pairs).unwrap()
}

/// What follows the reply to a shutdown message.
#[derive(Debug)]
pub struct ShutdownReply {
    /// Reply to show
    pub notice: Option<Vec<u8>>,
    /// Time for the provider to exit
    pub pause: Duration,
}

/// Info needed to test a capability provider process.
#[derive(Debug)]
pub struct ProviderProcess {
    /// What the provider was told at its start
    pub host_data: HostData,
    /// Key of the actor that the test stands for
    pub actor_id: String,
    /// Configuration of the test
    pub config: Config,
}

/// What is known of a provider process.
#[verifier::ext_equal]
pub struct ProcessView {
    pub host_data: HostView,
    pub actor_id: Seq<char>,
    pub config: ConfigView,
}

impl View for ProviderProcess {
    type V = ProcessView;

    open spec fn view(&self) -> ProcessView {
        ProcessView {
            host_data: self.host_data@,
            actor_id: self.actor_id@,
            config: self.config@,
        }
    }
}

/// The end of a call that the test stands for.
pub open spec fn origin_of(process: ProcessView) -> EntityView {
    EntityView {
        public_key: process.actor_id,
        link_name: Seq::empty(),
        contract_id: Seq::empty(),
    }
}

/// The end of a call that the provider stands for.
pub open spec fn target_of(process: ProcessView) -> EntityView {
    EntityView {
        public_key: process.host_data.provider_key,
        link_name: process.host_data.link_name,
        contract_id: Seq::empty(),
    }
}

impl ProviderProcess {
    /// generate the `origin` field for an Invocation. To the receiving provider,
    /// the origin field looks like an actor
    pub fn origin(&self) -> (entity: WasmCloudEntity)
        ensures
            entity@ == origin_of(self@),
            entity.public_key@ == self.actor_id@,
            entity.link_name@.len() == 0,
            entity.contract_id@.len() == 0,
    {
        WasmCloudEntity {
            contract_id: String::new(),
            link_name: String::new(),
            public_key: self.actor_id.clone(),
        }
    }

    /// generate the `target` field for sending an Invocation to the provider
    pub fn target(&self) -> (entity: WasmCloudEntity)
        ensures
            entity@ == target_of(self@),
            entity.public_key@ == self.host_data.provider_key@,
            entity.link_name@ == self.host_data.link_name@,
            entity.contract_id@.len() == 0,
    {
        WasmCloudEntity {
            contract_id: String::new(),
            link_name: self.host_data.link_name.clone(),
            public_key: self.host_data.provider_key.clone(),
        }
    }

    /// The topic of control messages with the given last part.
    fn control_topic(&self, last: &str) -> (topic: String)
        ensures
            topic@ == control_topic_text(self@.host_data, last@),
            topic@ == "wasmbus.rpc."@ + self.host_data.lattice_rpc_prefix@ + "."@
                + self.host_data.provider_key@ + "."@ + self.host_data.link_name@ + last@,
    {
        let mut topic: String = "wasmbus.rpc.".to_owned();
        topic.append(self.host_data.lattice_rpc_prefix.as_str());
        topic.append(".");
        topic.append(self.host_data.provider_key.as_str());
        topic.append(".");
        topic.append(self.host_data.link_name.as_str());
        topic.append(last);
        topic
    }

    /// The message that links the test to the provider, with the given settings.
    pub fn link_to_test(&self, values: ValueMap) -> (request: LinkRequest)
        ensures
            request.topic@ == control_topic_text(self@.host_data, ".linkdefs.put"@),
            request.topic@ == "wasmbus.rpc."@ + self.host_data.lattice_rpc_prefix@ + "."@
                + self.host_data.provider_key@ + "."@ + self.host_data.link_name@ + ".linkdefs.put"@,
            request.link.actor_id@ == self.actor_id@,
            request.link.provider_id@ == self.host_data.provider_key@,
            request.link.link_name@ == self.host_data.link_name@,
            request.link.contract_id@ == self.config.contract_id@,
            request.link.values == values,
            request.link@ == (LinkView {
                actor_id: self@.actor_id,
                provider_id: self@.host_data.provider_key,
                link_name: self@.host_data.link_name,
                contract_id: self@.config.contract_id,
                values: values@,
            }),
    {
        LinkRequest {
            topic: self.control_topic(".linkdefs.put"),
            link: LinkDefinition {
                actor_id: self.actor_id.clone(),
                contract_id: self.config.contract_id.clone(),
                link_name: self.host_data.link_name.clone(),
                provider_id: self.host_data.provider_key.clone(),
                values,
            },
        }
    }

    /// The topic on which the provider is asked for its health.
    pub fn health_topic(&self) -> (topic: String)
        ensures
            topic@ == control_topic_text(self@.host_data, ".health"@),
            topic@ == "wasmbus.rpc."@ + self.host_data.lattice_rpc_prefix@ + "."@
                + self.host_data.provider_key@ + "."@ + self.host_data.link_name@ + ".health"@,
    {
        self.control_topic(".health")
    }

    /// The outcome of a health check, from what the provider says of its health.
    pub fn health_check(healthy: bool) -> (outcome: Result<(), String>)
        ensures
            healthy ==> outcome == Ok::<(), String>(()),
            !healthy ==> (outcome matches Err(text) && text@ == "provider returned unhealthy"@),
    {
        if !healthy {
            return Err("provider returned unhealthy".to_owned());
        }
        Ok(())
    }

    /// The ends of an rpc message to the provider, the lattice it goes through, and the
    /// time after which its reply is no longer waited for.
    pub fn send_rpc(&self, timeout: &RpcTimeout) -> (route: RpcRoute)
        ensures
            route.origin@ == origin_of(self@),
            route.target@ == target_of(self@),
            route.lattice@ == self@.host_data.lattice_rpc_prefix,
            route.timeout@ == timeout@ * 1_000_000,
            route.origin.public_key@ == self.actor_id@,
            route.origin.link_name@.len() == 0,
            route.origin.contract_id@.len() == 0,
            route.target.public_key@ == self.host_data.provider_key@,
            route.target.link_name@ == self.host_data.link_name@,
            route.target.contract_id@.len() == 0,
            route.lattice@ == self.host_data.lattice_rpc_prefix@,
    {
        RpcRoute {
            origin: self.origin(),
            target: self.target(),
            lattice: self.host_data.lattice_rpc_prefix.clone(),
            timeout: timeout.interval(),
        }
    }

    /// The subject of rpc messages from the provider over the established link.
    pub fn subscribe_rpc(&self) -> (subject: String)
        ensures
            subject@ == rpc_topic_text(origin_of(self@), self@.host_data.lattice_rpc_prefix),
            subject@ == "wasmbus.rpc."@ + self.host_data.lattice_rpc_prefix@ + "."@
                + self.actor_id@,
    {
        let origin = self.origin();
        rpc_topic(&origin, self.host_data.lattice_rpc_prefix.as_str())
    }

    /// The message that tells the provider process to shut down.
    pub fn shutdown(&self) -> (request: ShutdownRequest)
        ensures
            request.topic@ == control_topic_text(self@.host_data, ".shutdown"@),
            request.topic@ == "wasmbus.rpc."@ + self.host_data.lattice_rpc_prefix@ + "."@
                + self.host_data.provider_key@ + "."@ + self.host_data.link_name@ + ".shutdown"@,
            request.host_id@ == "_TEST_"@,
            request.message@ == json_object_of(seq![("host_id"@, "_TEST_"@)]),
            request.message@ == "{\"host_id\":\"_TEST_\"}"@,
    {
        proof {
            reveal_strlit("_TEST_");
            reveal_strlit("{\"host_id\":\"");
            reveal_strlit("\"}");
            reveal_strlit("{\"host_id\":\"_TEST_\"}");
            assert(forall|i: int| 0 <= i < "_TEST_"@.len() ==> plain(#[trigger] "_TEST_"@[i]));
            plain_text_stays("_TEST_"@);
            assert("{\"host_id\":\""@ + "_TEST_"@ + "\"}"@ =~= "{\"host_id\":\"_TEST_\"}"@);
        }
        ShutdownRequest {
            topic: self.control_topic(".shutdown"),
            host_id: TEST_HOST_ID.to_owned(),
            message: shutdown_message(TEST_HOST_ID),
        }
    }

    /// What follows the provider's reply to the shutdown message: an empty reply is not
    /// worth showing, and the provider gets time to exit.
    pub fn shutdown_reply(response: Vec<u8>) -> (reply: ShutdownReply)
        ensures
            reply.pause@ == 2_000_000_000,
            response@.len() == 0 ==> reply.notice is None,
            response@.len() > 0 ==> reply.notice == Some(response),
    {
        let notice: Option<Vec<u8>> = if response.len() == 0 {
            None
        } else {
            Some(response)
        };
        ShutdownReply { notice, pause: Duration::from_secs(SHUTDOWN_PAUSE_SECS) }
    }
}

/// The time that a reply to a call may take, which can be changed while the provider runs.
#[derive(Debug)]
pub struct RpcTimeout {
    millis: u128,
}

impl View for RpcTimeout {
    type V = nat;

    /// The time in milliseconds.
    closed spec fn view(&self) -> nat {
        self.millis as nat
    }
}

impl RpcTimeout {
    #[verifier::type_invariant]
    spec fn well_formed(self) -> bool {
        self.millis <= u64::MAX * 1000 + 999
    }

    /// The time that holds until another is set.
    pub fn new() -> (timeout: RpcTimeout)
        ensures
            timeout@ == 2000,
    {
        RpcTimeout { millis: Duration::from_millis(DEFAULT_RPC_TIMEOUT_MILLIS).as_millis() }
    }

    /// The time in milliseconds.
    pub fn as_millis(&self) -> (millis: u128)
        ensures
            millis == self@,
    {
        self.millis
    }

    /// The time as a span.
    pub fn interval(&self) -> (span: Duration)
        ensures
            span@ == self@ * 1_000_000,
    {
        proof {
            use_type_invariant(self);
        }
        let secs: u64 = (self.millis / 1000) as u64;
        let rest: u32 = (self.millis % 1000) as u32;
        Duration::new(secs, rest * 1_000_000)
    }

    /// Sets the time period for an expected response to rpc messages, in whole
    /// milliseconds, after which an `RpcError::Timeout` will occur.
    pub fn set_timeout(&mut self, interval: Duration)
        ensures
            final(self)@ == interval@ / 1_000_000,
    {
        self.millis = interval.as_millis();
    }
}

/// The control topics of a provider continue the topic of calls to it.
pub proof fn control_topics_continue_rpc_topic(process: ProcessView, last: Seq<char>)
    requires
        process.host_data.link_name.len() > 0,
    ensures
        control_topic_text(process.host_data, last) == rpc_topic_text(
            target_of(process),
            process.host_data.lattice_rpc_prefix,
        ) + last,
{
}

/// A provider is told to put a link, to report its health and to shut down on three
/// different topics.
pub proof fn control_topics_differ(host: HostView)
    ensures
        control_topic_text(host, ".linkdefs.put"@) != control_topic_text(host, ".health"@),
        control_topic_text(host, ".linkdefs.put"@) != control_topic_text(host, ".shutdown"@),
        control_topic_text(host, ".health"@) != control_topic_text(host, ".shutdown"@),
{
    reveal_strlit(".linkdefs.put");
    reveal_strlit(".health");
    reveal_strlit(".shutdown");
    assert(control_topic_text(host, ".linkdefs.put"@).last() == 't');
    assert(control_topic_text(host, ".health"@).last() == 'h');
    assert(control_topic_text(host, ".shutdown"@).last() == 'n');
}

/// To the provider the test looks like an actor: the topic of calls back to it ends in
/// the key of the actor, with no link name after it.
pub proof fn origin_is_an_actor(process: ProcessView, lattice_prefix: Seq<char>)
    ensures
        rpc_topic_text(origin_of(process), lattice_prefix) == "wasmbus.rpc."@ + lattice_prefix
            + "."@ + process.actor_id,
{
}

/// What a process says is what its parts say, and what these say is in their fields: no
/// field is left out and none says what another one holds.
pub proof fn process_says_its_parts(process: ProviderProcess)
    ensures
        process@.actor_id == process.actor_id@,
        process@.config == process.config@,
        process@.host_data == process.host_data@,
        process@.host_data.host_id == process.host_data.host_id@,
        process@.host_data.lattice_rpc_prefix == process.host_data.lattice_rpc_prefix@,
        process@.host_data.link_name == process.host_data.link_name@,
        process@.host_data.lattice_rpc_url == process.host_data.lattice_rpc_url@,
        process@.host_data.provider_key == process.host_data.provider_key@,
        process@.host_data.invocation_seed == process.host_data.invocation_seed@,
        process@.host_data.default_rpc_timeout_ms == process.host_data.default_rpc_timeout_ms,
        process@.host_data.structured_logging == process.host_data.structured_logging,
        process@.host_data.link_definitions.len() == process.host_data.link_definitions@.len(),
        forall|i: int|
            0 <= i < process.host_data.link_definitions@.len()
                ==> #[trigger] process@.host_data.link_definitions[i]
                == process.host_data.link_definitions@[i]@,
        process@.host_data.cluster_issuers.len() == process.host_data.cluster_issuers@.len(),
        forall|i: int|
            0 <= i < process.host_data.cluster_issuers@.len()
                ==> #[trigger] process@.host_data.cluster_issuers[i]
                == process.host_data.cluster_issuers@[i]@,
{
}

/// What a link definition says is in its fields.
pub proof fn link_says_its_fields(link: LinkDefinition)
    ensures
        link@.actor_id == link.actor_id@,
        link@.provider_id == link.provider_id@,
        link@.link_name == link.link_name@,
        link@.contract_id == link.contract_id@,
        link@.values == link.values@,
{
}

/// What an entity says is in its fields.
pub proof fn entity_says_its_fields(entity: WasmCloudEntity)
    ensures
        entity@.public_key == entity.public_key@,
        entity@.link_name == entity.link_name@,
        entity@.contract_id == entity.contract_id@,
{
}

/// The provider is called, told of links, asked for its health and told to shut down under
/// topics of its own lattice, key and link name.
pub proof fn topics_name_the_provider(process: ProcessView, last: Seq<char>)
    ensures
        control_topic_text(process.host_data, last) == "wasmbus.rpc."@
            + process.host_data.lattice_rpc_prefix + "."@ + process.host_data.provider_key + "."@
            + process.host_data.link_name + last,
        process.host_data.link_name.len() > 0 ==> rpc_topic_text(
            target_of(process),
            process.host_data.lattice_rpc_prefix,
        ) == "wasmbus.rpc."@ + process.host_data.lattice_rpc_prefix + "."@
            + process.host_data.provider_key + "."@ + process.host_data.link_name,
        target_of(process).public_key == process.host_data.provider_key,
        target_of(process).link_name == process.host_data.link_name,
        origin_of(process).public_key == process.actor_id,
        origin_of(process).link_name.len() == 0,
{
}

} // verus!
