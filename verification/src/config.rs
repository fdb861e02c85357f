//! Configuration of a provider under test.
use crate::duration::Duration;
use crate::error::RpcError;
use crate::log_level::LogLevel;
use crate::value_map::ValueMap;
use vstd::prelude::*;
use vstd::std_specs::cmp::PartialEqSpecImpl;
use vstd::string::*;

verus! {

/// File that the configuration is read from where no other is named.
pub const DEFAULT_CONFIG_PATH: &'static str = "./provider_test_config.toml";

/// Address of the message bus in the default configuration.
pub const DEFAULT_NATS_URL: &'static str = "127.0.0.1:4222";

/// Lattice prefix in the default configuration, which sets test traffic apart.
pub const TEST_LATTICE_PREFIX: &'static str = "TEST";

/// Seconds that a provider gets to start up in the default configuration.
pub const DEFAULT_START_DELAY_SECS: u64 = 1;

/// Provider test config
#[derive(Debug, Hash)]
pub struct Config {
    /// Whether to enable Rust backtrace
    pub backtrace: bool,
    /// Contract ID
    pub contract_id: String,
    /// Lattice RPC prefix
    pub lattice_rpc_prefix: String,
    /// Extra time for handling the link after startup
    pub link_delay: Duration,
    /// Name of the link to the provider
    pub link_name: String,
    /// Level for the capability provider, set using the "RUST_LOG" environment variable
    pub log_level: LogLevel,
    /// URL at which NATS is accessible
    pub nats_url: String,
    /// URL at which Redis is accessible
    pub redis_url: String,
    /// Time for the provider to start up
    pub start_delay: Duration,
    /// Settings of the link to the provider
    pub values: ValueMap,
}

/// What a configuration says: texts as sequences of characters, times in nanoseconds.
#[verifier::ext_equal]
pub struct ConfigView {
    pub backtrace: bool,
    pub contract_id: Seq<char>,
    pub lattice_rpc_prefix: Seq<char>,
    pub link_delay: nat,
    pub link_name: Seq<char>,
    pub log_level: log::Level,
    pub nats_url: Seq<char>,
    pub redis_url: Seq<char>,
    pub start_delay: nat,
    pub values: Map<Seq<char>, Seq<char>>,
}

impl View for Config {
    type V = ConfigView;

    open spec fn view(&self) -> ConfigView {
        ConfigView {
            backtrace: self.backtrace,
            contract_id: self.contract_id@,
            lattice_rpc_prefix: self.lattice_rpc_prefix@,
            link_delay: self.link_delay@,
            link_name: self.link_name@,
            log_level: self.log_level.0,
            nats_url: self.nats_url@,
            redis_url: self.redis_url@,
            start_delay: self.start_delay@,
            values: self.values@,
        }
    }
}

/// The configuration that holds where nothing else is said.
pub open spec fn default_config() -> ConfigView {
    ConfigView {
        backtrace: false,
        contract_id: "wasmcloud:example"@,
        lattice_rpc_prefix: "TEST"@,
        link_delay: 0,
        link_name: "default"@,
        log_level: log::Level::Info,
        nats_url: "127.0.0.1:4222"@,
        redis_url: "0.0.0.0:6379"@,
        start_delay: 1_000_000_000,
        values: Map::empty(),
    }
}

impl Default for Config {
    fn default() -> (config: Config)
        ensures
            config@ == default_config(),
            !config.backtrace,
            config.contract_id@ == "wasmcloud:example"@,
            config.lattice_rpc_prefix@ == "TEST"@,
            config.link_delay@ == 0,
            config.link_name@ == "default"@,
            config.log_level.0 == log::Level::Info,
            config.nats_url@ == "127.0.0.1:4222"@,
            config.redis_url@ == "0.0.0.0:6379"@,
            config.start_delay@ == 1_000_000_000,
            config.values@ == Map::<Seq<char>, Seq<char>>::empty(),
    {
        Config {
            backtrace: false,
            contract_id: "wasmcloud:example".to_owned(),
            lattice_rpc_prefix: TEST_LATTICE_PREFIX.to_owned(),
            link_delay: Duration::zero(),
            link_name: "default".to_owned(),
            log_level: LogLevel::from(log::Level::Info),
            nats_url: DEFAULT_NATS_URL.to_owned(),
            redis_url: "0.0.0.0:6379".to_owned(),
            start_delay: Duration::from_secs(DEFAULT_START_DELAY_SECS),
            values: ValueMap::new(),
        }
    }
}

/// What became of the configuration file.
pub enum ConfigFile {
    /// There is no such file.
    Missing,
    /// The file could not be read, for the reason given.
    Unreadable(String),
    /// The file holds no configuration, for the reason given.
    Malformed(String),
    /// The file holds this configuration.
    Parsed(Config),
}

/// The message for a configuration file that is not there.
pub open spec fn missing_file_text(path: Seq<char>) -> Seq<char> {
    "Missing configuration file '"@ + path
        + "'. Config file should be 'provider_test_config.toml' in the current directory, or a .toml file whose path is in the environment variable 'PROVIDER_TEST_CONFIG'"@
}

/// The message for a configuration file that could not be read.
pub open spec fn unreadable_file_text(path: Seq<char>, cause: Seq<char>) -> Seq<char> {
    "failed reading config from "@ + path + ": "@ + cause
}

/// The message for a file that holds no configuration.
pub open spec fn malformed_file_text(path: Seq<char>, cause: Seq<char>) -> Seq<char> {
    "parse error in configuration file loaded from "@ + path + ": "@ + cause
}

impl Config {
    /// The path of the configuration file: the value of the environment variable
    /// `PROVIDER_TEST_CONFIG` where it is set, otherwise `provider_test_config.toml`
    /// in the working directory.
    pub fn path(variable: Option<String>) -> (path: String)
        ensures
            path@ == (match variable {
                Some(value) => value@,
                None => "./provider_test_config.toml"@,
            }),
    {
        match variable {
            Some(value) => value,
            None => DEFAULT_CONFIG_PATH.to_owned(),
        }
    }

    /// Loads the configuration from what became of the file at `path`.
    pub fn load(path: &str, file: ConfigFile) -> (config: Result<Config, RpcError>)
        ensures
            match file {
                ConfigFile::Missing => config matches Err(RpcError::ProviderInit(text)) && text@
                    == missing_file_text(path@),
                ConfigFile::Unreadable(cause) => config matches Err(RpcError::ProviderInit(text))
                    && text@ == unreadable_file_text(path@, cause@),
                ConfigFile::Malformed(cause) => config matches Err(RpcError::ProviderInit(text))
                    && text@ == malformed_file_text(path@, cause@),
                ConfigFile::Parsed(parsed) => config == Ok::<Config, RpcError>(parsed),
            },
            file is Missing ==> (config matches Err(RpcError::ProviderInit(text)) && text@
                == "Missing configuration file '"@ + path@
                + "'. Config file should be 'provider_test_config.toml' in the current directory, or a .toml file whose path is in the environment variable 'PROVIDER_TEST_CONFIG'"@),
            file matches ConfigFile::Unreadable(cause) ==> (config matches Err(
                RpcError::ProviderInit(text),
            ) && text@ == "failed reading config from "@ + path@ + ": "@ + cause@),
            file matches ConfigFile::Malformed(cause) ==> (config matches Err(
                RpcError::ProviderInit(text),
            ) && text@ == "parse error in configuration file loaded from "@ + path@ + ": "@
                + cause@),
    {
        match file {
            ConfigFile::Missing => {
                let mut text: String = "Missing configuration file '".to_owned();
                text.append(path);
                text.append(
                    "'. Config file should be 'provider_test_config.toml' in the current directory, or a .toml file whose path is in the environment variable 'PROVIDER_TEST_CONFIG'",
                );
                Err(RpcError::ProviderInit(text))
            },
            ConfigFile::Unreadable(cause) => {
                let mut text: String = "failed reading config from ".to_owned();
                text.append(path);
                text.append(": ");
                text.append(cause.as_str());
                Err(RpcError::ProviderInit(text))
            },
            ConfigFile::Malformed(cause) => {
                let mut text: String = "parse error in configuration file loaded from ".to_owned();
                text.append(path);
                text.append(": ");
                text.append(cause.as_str());
                Err(RpcError::ProviderInit(text))
            },
            ConfigFile::Parsed(config) => Ok(config),
        }
    }

    /// Whether both configurations say the same.
    pub fn same_as(&self, other: &Config) -> (same: bool)
        ensures
            same == (self@ == other@),
            same == (self.backtrace == other.backtrace && self.contract_id@ == other.contract_id@
                && self.lattice_rpc_prefix@ == other.lattice_rpc_prefix@ && self.link_delay@
                == other.link_delay@ && self.link_name@ == other.link_name@ && self.log_level.0
                == other.log_level.0 && self.nats_url@ == other.nats_url@ && self.redis_url@
                == other.redis_url@ && self.start_delay@ == other.start_delay@ && self.values@
                == other.values@),
    {
        self.backtrace == other.backtrace && self.contract_id == other.contract_id
            && self.lattice_rpc_prefix == other.lattice_rpc_prefix && self.link_delay.same_as(
            &other.link_delay,
        ) && self.link_name == other.link_name && self.log_level.same_as(&other.log_level)
            && self.nats_url == other.nats_url && self.redis_url == other.redis_url
            && self.start_delay.same_as(&other.start_delay) && self.values.same_as(&other.values)
    }
}

impl PartialEq for Config {
    fn eq(&self, other: &Config) -> (same: bool) {
        self.same_as(other)
    }
}

impl PartialEqSpecImpl for Config {
    open spec fn obeys_eq_spec() -> bool {
        true
    }

    open spec fn eq_spec(&self, other: &Config) -> bool {
        self@ == other@
    }
}

impl Eq for Config {

}

impl Clone for Config {
    fn clone(&self) -> (copy: Config)
        ensures
            copy@ == self@,
            copy.backtrace == self.backtrace,
            copy.contract_id@ == self.contract_id@,
            copy.lattice_rpc_prefix@ == self.lattice_rpc_prefix@,
            copy.link_delay@ == self.link_delay@,
            copy.link_name@ == self.link_name@,
            copy.log_level == self.log_level,
            copy.nats_url@ == self.nats_url@,
            copy.redis_url@ == self.redis_url@,
            copy.start_delay@ == self.start_delay@,
            copy.values@ == self.values@,
    {
        Config {
            backtrace: self.backtrace,
            contract_id: self.contract_id.clone(),
            lattice_rpc_prefix: self.lattice_rpc_prefix.clone(),
            link_delay: self.link_delay,
            link_name: self.link_name.clone(),
            log_level: self.log_level.clone(),
            nats_url: self.nats_url.clone(),
            redis_url: self.redis_url.clone(),
            start_delay: self.start_delay,
            values: self.values.clone(),
        }
    }
}

/// Two configurations say the same, and are equal, exactly when they agree in each of their
/// ten settings.
pub proof fn config_says_all_settings(a: Config, b: Config)
    ensures
        a@ == b@ <==> {
            &&& a.backtrace == b.backtrace
            &&& a.contract_id@ == b.contract_id@
            &&& a.lattice_rpc_prefix@ == b.lattice_rpc_prefix@
            &&& a.link_delay@ == b.link_delay@
            &&& a.link_name@ == b.link_name@
            &&& a.log_level.0 == b.log_level.0
            &&& a.nats_url@ == b.nats_url@
            &&& a.redis_url@ == b.redis_url@
            &&& a.start_delay@ == b.start_delay@
            &&& a.values@ == b.values@
        },
        vstd::std_specs::cmp::PartialEqSpec::eq_spec(&a, &b) <==> a@ == b@,
{
}

/// What a configuration says of each setting is that setting.
pub proof fn config_says_its_settings(config: Config)
    ensures
        config@.backtrace == config.backtrace,
        config@.contract_id == config.contract_id@,
        config@.lattice_rpc_prefix == config.lattice_rpc_prefix@,
        config@.link_delay == config.link_delay@,
        config@.link_name == config.link_name@,
        config@.log_level == config.log_level.0,
        config@.nats_url == config.nats_url@,
        config@.redis_url == config.redis_url@,
        config@.start_delay == config.start_delay@,
        config@.values == config.values@,
{
}

} // verus!
