//! The providers that already run, by the configuration they were loaded with.
use crate::config::{Config, ConfigView};
use vstd::prelude::*;

verus! {

/// What a list of configurations says.
pub open spec fn views_of(configs: Seq<Config>) -> Seq<ConfigView> {
    configs.map_values(|config: Config| config@)
}

/// Configurations of the providers that run. Each provider has a number: the first one
/// is number 0. No two of them have the same configuration.
pub struct Registry {
    configs: Vec<Config>,
}

impl View for Registry {
    type V = Seq<ConfigView>;

    /// The configurations, by the numbers of their providers.
    closed spec fn view(&self) -> Seq<ConfigView> {
        views_of(self.configs@)
    }
}

impl Registry {
    #[verifier::type_invariant]
    spec fn well_formed(self) -> bool {
        views_of(self.configs@).no_duplicates()
    }

    /// A registry without providers.
    pub fn new() -> (registry: Registry)
        ensures
            registry@ == Seq::<ConfigView>::empty(),
    {
        let registry = Registry { configs: Vec::new() };
        assert(registry@ =~= Seq::<ConfigView>::empty());
        registry
    }

    /// How many providers run.
    pub fn len(&self) -> (n: usize)
        ensures
            n == self@.len(),
    {
        self.configs.len()
    }

    /// The number of the provider that runs with `config`, if there is one; otherwise a
    /// provider has to be loaded.
    pub fn test_provider(&self, config: &Config) -> (number: Option<usize>)
        ensures
            match number {
                Some(n) => n < self@.len() && self@[n as int] == config@,
                None => !self@.contains(config@),
            },
            self@.no_duplicates(),
    {
        proof {
            use_type_invariant(self);
        }
        let mut n: usize = 0;
        while n < self.configs.len()
            invariant
                n <= self.configs@.len(),
                self@.no_duplicates(),
                forall|i: int| 0 <= i < n ==> #[trigger] self@[i] != config@,
            decreases self.configs@.len() - n,
        {
            assert(self@[n as int] == self.configs@[n as int]@);
            if self.configs[n].same_as(config) {
                return Some(n);
            }
            n = n + 1;
        }
        None
    }

    /// Takes in a provider that was loaded with `config`, under the next number, unless
    /// one already runs with it.
    pub fn register(&mut self, config: Config) -> (number: usize)
        ensures
            !old(self)@.contains(config@) ==> final(self)@ == old(self)@.push(config@) && number
                == old(self)@.len(),
            old(self)@.contains(config@) ==> final(self)@ == old(self)@,
            number < final(self)@.len(),
            final(self)@[number as int] == config@,
    {
        if let Some(number) = self.test_provider(&config) {
            return number;
        }
        proof {
            use_type_invariant(&*self);
        }
        let number: usize = self.configs.len();
        let mut configs: Vec<Config> = Vec::new();
        std::mem::swap(&mut configs, &mut self.configs);
        let ghost before = views_of(configs@);
        let ghost view = config@;
        configs.push(config);
        assert(views_of(configs@) =~= before.push(view));
        self.configs = configs;
        number
    }
}

/// A configuration has one provider: two numbers under which a registry holds it are
/// the same.
pub proof fn one_provider_per_config(registry: Seq<ConfigView>, config: ConfigView, a: int, b: int)
    requires
        registry.no_duplicates(),
        0 <= a < registry.len(),
        0 <= b < registry.len(),
        registry[a] == config,
        registry[b] == config,
    ensures
        a == b,
{
}

/// Once a provider is registered with a configuration, it is the one found for it, and
/// what is found for any other configuration stays as it was.
pub proof fn registered_provider_is_found(
    registry: Seq<ConfigView>,
    config: ConfigView,
    other: ConfigView,
    n: int,
)
    requires
        !registry.contains(config),
        0 <= n <= registry.len(),
    ensures
        registry.push(config)[n] == config <==> n == registry.len(),
        other != config ==> registry.push(config).contains(other) == registry.contains(other),
        other != config && n < registry.len() ==> (registry.push(config)[n] == other <==> registry[n]
            == other),
{
    let after = registry.push(config);
    if n < registry.len() {
        assert(after[n] == registry[n]);
        assert(registry.contains(registry[n]));
    }
    if registry.contains(other) {
        let i = choose|i: int| 0 <= i < registry.len() && registry[i] == other;
        assert(after[i] == other);
    }
    if after.contains(other) && other != config {
        let i = choose|i: int| 0 <= i < after.len() && after[i] == other;
        assert(registry[i] == other);
    }
}

/// A list of configurations says what each of them says, in their order.
pub proof fn views_keep_configs(configs: Seq<Config>)
    ensures
        views_of(configs).len() == configs.len(),
        forall|i: int| 0 <= i < configs.len() ==> #[trigger] views_of(configs)[i] == configs[i]@,
{
}

} // verus!
