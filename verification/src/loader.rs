//! The link and the pauses with which a provider is loaded for a test.
use crate::config::{Config, ConfigView};
use crate::duration::Duration;
use crate::encoding::{
    base64_encode, base64_fits, base64_text, base64_text_is_injective, fits_base64,
};
use crate::error::RpcError;
use crate::identity::{
    has_a_pair, is_public_key, new_identity, public_key_determines_role, public_key_text, Role,
};
use crate::json::{json_object, json_object_determines_values, json_object_text};
use crate::provider::{LinkDefinition, LinkView};
use crate::value_map::{entries_of_contents, pairs_of, ValueMap};
use vstd::prelude::*;
use vstd::string::*;
use vstd::utf8::*;

verus! {

/// Key under which the settings of a link hold all of its values at once.
pub const CONFIG_KEY: &'static str = "config_b64";

/// The settings of a link made from the values of a configuration and their JSON text:
/// the values, and the base64 form of the text; no values at all stay as they are.
pub open spec fn link_settings(
    values: Map<Seq<char>, Seq<char>>,
    json: Seq<char>,
) -> Map<Seq<char>, Seq<char>> {
    if values == Map::<Seq<char>, Seq<char>>::empty() {
        values
    } else {
        values.insert("config_b64"@, base64_text(encode_utf8(json)))
    }
}

/// Whether the base64 form of the values of a configuration is no longer than a string
/// can be; no values at all have none.
pub open spec fn settings_fit(values: Map<Seq<char>, Seq<char>>, json: Seq<char>) -> bool {
    values != Map::<Seq<char>, Seq<char>>::empty() ==> base64_fits(encode_utf8(json).len())
}

/// The settings of a link, from the values of a configuration and their JSON text or the
/// reason why there is none.
pub fn settings_from_json(values: &ValueMap, json: Result<String, String>) -> (settings: Result<
    ValueMap,
    RpcError,
>)
    requires
        json matches Ok(text) ==> settings_fit(values@, text@),
    ensures
        values@ == Map::<Seq<char>, Seq<char>>::empty() ==> (settings matches Ok(map) && map@
            == values@),
        values@ != Map::<Seq<char>, Seq<char>>::empty() ==> match json {
            Ok(text) => settings matches Ok(map) && map@ == link_settings(values@, text@),
            Err(cause) => settings matches Err(RpcError::Ser(text)) && text@
                == "invalid 'values' map: "@ + cause@,
        },
        settings matches Ok(map) ==> {
            &&& forall|key: Seq<char>|
                key != "config_b64"@ ==> #[trigger] map@.contains_key(key) == values@.contains_key(
                    key,
                )
            &&& forall|key: Seq<char>|
                key != "config_b64"@ && values@.contains_key(key) ==> #[trigger] map@[key]
                    == values@[key]
            &&& values@ != Map::<Seq<char>, Seq<char>>::empty() ==> (json matches Ok(text)
                && map@.contains_key("config_b64"@) && map@["config_b64"@] == base64_text(
                encode_utf8(text@),
            ))
        },
{
    let mut settings: ValueMap = values.clone();
    if !values.is_empty() {
        match json {
            Ok(text) => {
                settings.insert(CONFIG_KEY.to_owned(), base64_encode(text.as_str().as_bytes()));
            },
            Err(cause) => {
                return Err(
                    RpcError::Ser("invalid 'values' map: ".to_owned().concat(cause.as_str())),
                );
            },
        }
    }
    Ok(settings)
}

/// The settings of the link to a provider under test: the values of the configuration,
/// and all of them again under one key, as base64 of their JSON text.
pub fn settings_for(config: &Config) -> (settings: Result<ValueMap, RpcError>)
    requires
        settings_fit(config@.values, json_object_text(config@.values)),
    ensures
        settings matches Ok(map) && map@ == link_settings(
            config@.values,
            json_object_text(config@.values),
        ),
        settings matches Ok(map) && {
            &&& forall|key: Seq<char>|
                key != "config_b64"@ ==> #[trigger] map@.contains_key(key)
                    == config.values@.contains_key(key)
            &&& forall|key: Seq<char>|
                key != "config_b64"@ && config.values@.contains_key(key) ==> #[trigger] map@[key]
                    == config.values@[key]
            &&& config.values@ == Map::<Seq<char>, Seq<char>>::empty() ==> map@ == config.values@
            &&& config.values@ != Map::<Seq<char>, Seq<char>>::empty() ==> map@.contains_key(
                "config_b64"@,
            ) && map@["config_b64"@] == base64_text(encode_utf8(json_object_text(config.values@)))
        },
{
    if config.values.is_empty() {
        return Ok(config.values.clone());
    }
    let pairs = config.values.pairs();
    proof {
        entries_of_contents(pairs_of(pairs@));
    }
    let json = json_object(pairs);
    settings_from_json(&config.values, json)
}

/// The link to a provider under test, between parties with the given keys.
pub open spec fn link_for(
    config: ConfigView,
    actor_key: Seq<char>,
    provider_key: Seq<char>,
    settings: Map<Seq<char>, Seq<char>>,
) -> LinkView {
    LinkView {
        actor_id: actor_key,
        provider_id: provider_key,
        link_name: config.link_name,
        contract_id: config.contract_id,
        values: settings,
    }
}

/// Makes the link to a provider under test, between parties with the given keys.
pub fn make_link(
    config: &Config,
    actor_key: String,
    provider_key: String,
    settings: ValueMap,
) -> (link: LinkDefinition)
    ensures
        link@ == link_for(config@, actor_key@, provider_key@, settings@),
        link.actor_id@ == actor_key@,
        link.provider_id@ == provider_key@,
        link.link_name@ == config.link_name@,
        link.contract_id@ == config.contract_id@,
        link.values == settings,
{
    LinkDefinition {
        actor_id: actor_key,
        contract_id: config.contract_id.clone(),
        link_name: config.link_name.clone(),
        provider_id: provider_key,
        values: settings,
    }
}

/// Makes the link with which a provider is loaded: between a fresh actor and a fresh
/// provider, with the settings of the configuration.
pub fn load_provider(config: &Config) -> (link: Result<LinkDefinition, RpcError>)
    requires
        settings_fit(config@.values, json_object_text(config@.values)),
    ensures
        link matches Ok(made) && {
            &&& is_public_key(Role::Actor, made@.actor_id)
            &&& is_public_key(Role::Provider, made@.provider_id)
            &&& has_a_pair(made@.actor_id)
            &&& has_a_pair(made@.provider_id)
            &&& exists|pair: nkeys::KeyPair| made.actor_id@ == #[trigger] public_key_text(pair)
            &&& exists|pair: nkeys::KeyPair| made.provider_id@ == #[trigger] public_key_text(pair)
            &&& made.actor_id@.len() == 56 && made.actor_id@[0] == 'M'
            &&& made.provider_id@.len() == 56 && made.provider_id@[0] == 'V'
            &&& made.link_name@ == config.link_name@
            &&& made.contract_id@ == config.contract_id@
            &&& forall|key: Seq<char>|
                key != "config_b64"@ ==> #[trigger] made.values@.contains_key(key)
                    == config.values@.contains_key(key)
            &&& forall|key: Seq<char>|
                key != "config_b64"@ && config.values@.contains_key(key)
                    ==> #[trigger] made.values@[key] == config.values@[key]
            &&& config.values@ == Map::<Seq<char>, Seq<char>>::empty() ==> made.values@
                == config.values@
            &&& config.values@ != Map::<Seq<char>, Seq<char>>::empty()
                ==> made.values@.contains_key("config_b64"@) && made.values@["config_b64"@]
                == base64_text(encode_utf8(json_object_text(config.values@)))
            &&& made@ == link_for(
                config@,
                made@.actor_id,
                made@.provider_id,
                link_settings(config@.values, json_object_text(config@.values)),
            )
        },
{
    let actor = new_identity(Role::Actor);
    let provider = new_identity(Role::Provider);
    assert(actor.public_key@ == public_key_text(actor.pair));
    assert(provider.public_key@ == public_key_text(provider.pair));
    match settings_for(config) {
        Ok(settings) => Ok(make_link(config, actor.public_key, provider.public_key, settings)),
        Err(e) => Err(e),
    }
}

/// Makes the link as `load_provider` does, unless the base64 form of the values of the
/// configuration would be longer than a string can be.
pub fn try_load_provider(config: &Config) -> (link: Option<Result<LinkDefinition, RpcError>>)
    ensures
        link is Some <==> settings_fit(config@.values, json_object_text(config@.values)),
        link is None <==> config.values@ != Map::<Seq<char>, Seq<char>>::empty() && (4
            * encode_utf8(json_object_text(config.values@)).len() + 2) / 3 > isize::MAX,
        link matches Some(loaded) ==> (loaded matches Ok(made) && {
            &&& is_public_key(Role::Actor, made@.actor_id)
            &&& is_public_key(Role::Provider, made@.provider_id)
            &&& has_a_pair(made@.actor_id)
            &&& has_a_pair(made@.provider_id)
            &&& exists|pair: nkeys::KeyPair| made.actor_id@ == #[trigger] public_key_text(pair)
            &&& exists|pair: nkeys::KeyPair| made.provider_id@ == #[trigger] public_key_text(pair)
            &&& made.actor_id@.len() == 56 && made.actor_id@[0] == 'M'
            &&& made.provider_id@.len() == 56 && made.provider_id@[0] == 'V'
            &&& made.link_name@ == config.link_name@
            &&& made.contract_id@ == config.contract_id@
            &&& forall|key: Seq<char>|
                key != "config_b64"@ ==> #[trigger] made.values@.contains_key(key)
                    == config.values@.contains_key(key)
            &&& forall|key: Seq<char>|
                key != "config_b64"@ && config.values@.contains_key(key)
                    ==> #[trigger] made.values@[key] == config.values@[key]
            &&& config.values@ == Map::<Seq<char>, Seq<char>>::empty() ==> made.values@
                == config.values@
            &&& config.values@ != Map::<Seq<char>, Seq<char>>::empty()
                ==> made.values@.contains_key("config_b64"@) && made.values@["config_b64"@]
                == base64_text(encode_utf8(json_object_text(config.values@)))
            &&& made@ == link_for(
                config@,
                made@.actor_id,
                made@.provider_id,
                link_settings(config@.values, json_object_text(config@.values)),
            )
        }),
{
    if !config.values.is_empty() {
        let pairs = config.values.pairs();
        proof {
            entries_of_contents(pairs_of(pairs@));
        }
        if let Ok(json) = json_object(pairs) {
            if !fits_base64(json.as_str().as_bytes().len()) {
                return None;
            }
        }
    }
    Some(load_provider(config))
}

/// The pauses after a provider was started: time to start up, then, where the
/// configuration asks for it, extra time to handle the link.
pub open spec fn pauses_for(config: ConfigView) -> Seq<nat> {
    if config.link_delay == 0 {
        seq![config.start_delay]
    } else {
        seq![config.start_delay, config.link_delay]
    }
}

/// The pauses to make after a provider was started.
pub fn startup_pauses(config: &Config) -> (pauses: Vec<Duration>)
    ensures
        pauses@.map_values(|span: Duration| span@) == pauses_for(config@),
        pauses@.len() == (if config.link_delay@ == 0 {
            1int
        } else {
            2int
        }),
        pauses@[0] == config.start_delay,
        config.link_delay@ != 0 ==> pauses@[1] == config.link_delay,
{
    let mut pauses: Vec<Duration> = Vec::new();
    pauses.push(config.start_delay);
    if !config.link_delay.is_zero() {
        pauses.push(config.link_delay);
    }
    assert(pauses@.map_values(|span: Duration| span@) =~= pauses_for(config@));
    pauses
}

/// The settings of a link keep every value of the configuration, except one that stands
/// under the key of the encoded values; that key is there whenever there are values.
pub proof fn settings_keep_values(
    values: Map<Seq<char>, Seq<char>>,
    json: Seq<char>,
    key: Seq<char>,
)
    ensures
        key != "config_b64"@ ==> (link_settings(values, json).contains_key(key)
            == values.contains_key(key)),
        key != "config_b64"@ && values.contains_key(key) ==> link_settings(values, json)[key]
            == values[key],
        link_settings(values, json).contains_key("config_b64"@) <==> values != Map::<
            Seq<char>,
            Seq<char>,
        >::empty(),
{
}

/// The encoded values of a link determine the JSON text that they were made from.
pub proof fn encoded_values_determine_json(
    values: Map<Seq<char>, Seq<char>>,
    json: Seq<char>,
    other_values: Map<Seq<char>, Seq<char>>,
    other_json: Seq<char>,
)
    requires
        values != Map::<Seq<char>, Seq<char>>::empty(),
        other_values != Map::<Seq<char>, Seq<char>>::empty(),
        link_settings(values, json)["config_b64"@] == link_settings(
            other_values,
            other_json,
        )["config_b64"@],
    ensures
        json == other_json,
{
    base64_text_is_injective(encode_utf8(json), encode_utf8(other_json));
    encode_utf8_decode_utf8(json);
    encode_utf8_decode_utf8(other_json);
}

/// The encoded values of a link determine the values of the configuration: what a
/// provider finds there says all that the configuration said.
pub proof fn encoded_values_determine_values(
    values: Map<Seq<char>, Seq<char>>,
    other: Map<Seq<char>, Seq<char>>,
)
    requires
        values.dom().finite(),
        other.dom().finite(),
        values != Map::<Seq<char>, Seq<char>>::empty(),
        other != Map::<Seq<char>, Seq<char>>::empty(),
        link_settings(values, json_object_text(values))["config_b64"@] == link_settings(
            other,
            json_object_text(other),
        )["config_b64"@],
    ensures
        values == other,
{
    encoded_values_determine_json(
        values,
        json_object_text(values),
        other,
        json_object_text(other),
    );
    json_object_determines_values(values, other);
}

/// The two ends of a link between fresh parties have different keys.
pub proof fn link_ends_differ(actor_key: Seq<char>, provider_key: Seq<char>)
    requires
        is_public_key(Role::Actor, actor_key),
        is_public_key(Role::Provider, provider_key),
    ensures
        actor_key != provider_key,
{
    if actor_key == provider_key {
        public_key_determines_role(Role::Actor, Role::Provider, actor_key);
    }
}

/// A link between given parties carries every value of the configuration, and all of them
/// again under one key: under any other key there is what the configuration has there, and
/// the one key is there whenever the configuration has values.
pub proof fn link_carries_the_values(
    config: ConfigView,
    actor_key: Seq<char>,
    provider_key: Seq<char>,
    json: Seq<char>,
    key: Seq<char>,
)
    ensures
        ({
            let link = link_for(
                config,
                actor_key,
                provider_key,
                link_settings(config.values, json),
            );
            &&& key != "config_b64"@ ==> link.values.contains_key(key)
                == config.values.contains_key(key)
            &&& key != "config_b64"@ && config.values.contains_key(key) ==> link.values[key]
                == config.values[key]
            &&& link.values.contains_key("config_b64"@) <==> config.values != Map::<
                Seq<char>,
                Seq<char>,
            >::empty()
            &&& config.values != Map::<Seq<char>, Seq<char>>::empty() ==> link.values["config_b64"@]
                == base64_text(encode_utf8(json))
            &&& link.actor_id == actor_key
            &&& link.provider_id == provider_key
            &&& link.link_name == config.link_name
            &&& link.contract_id == config.contract_id
        }),
{
}

/// Links that are the same were made for the same values under every key but the one of
/// the encoded values, for the same parties, link name and contract.
pub proof fn link_determines_its_sources(
    config: ConfigView,
    actor_key: Seq<char>,
    provider_key: Seq<char>,
    json: Seq<char>,
    other: ConfigView,
    other_actor: Seq<char>,
    other_provider: Seq<char>,
    other_json: Seq<char>,
    key: Seq<char>,
)
    requires
        link_for(config, actor_key, provider_key, link_settings(config.values, json)) == link_for(
            other,
            other_actor,
            other_provider,
            link_settings(other.values, other_json),
        ),
        key != "config_b64"@,
    ensures
        actor_key == other_actor,
        provider_key == other_provider,
        config.link_name == other.link_name,
        config.contract_id == other.contract_id,
        config.values.contains_key(key) == other.values.contains_key(key),
        config.values.contains_key(key) ==> config.values[key] == other.values[key],
        config.values == Map::<Seq<char>, Seq<char>>::empty() <==> other.values == Map::<
            Seq<char>,
            Seq<char>,
        >::empty(),
        config.values != Map::<Seq<char>, Seq<char>>::empty() ==> json == other_json,
{
    link_carries_the_values(config, actor_key, provider_key, json, key);
    link_carries_the_values(other, other_actor, other_provider, other_json, key);
    if config.values != Map::<Seq<char>, Seq<char>>::empty() {
        encoded_values_determine_json(config.values, json, other.values, other_json);
    }
}

/// The pauses are the time to start up, and then the time for the link where there is any.
pub proof fn pauses_are_the_delays(config: ConfigView)
    ensures
        pauses_for(config)[0] == config.start_delay,
        config.link_delay == 0 <==> pauses_for(config).len() == 1,
        config.link_delay != 0 ==> pauses_for(config).len() == 2 && pauses_for(config)[1]
            == config.link_delay,
{
}

/// Settings fit where there are no values, or where the base64 form of their JSON text is
/// no longer than a string can be.
pub proof fn settings_fit_by_length(values: Map<Seq<char>, Seq<char>>, json: Seq<char>)
    ensures
        settings_fit(values, json) <==> values == Map::<Seq<char>, Seq<char>>::empty() || (4
            * encode_utf8(json).len() + 2) / 3 <= isize::MAX,
{
}

} // verus!
