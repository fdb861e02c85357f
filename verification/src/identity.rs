//! Fresh keys for the parties of a test.
use vstd::prelude::*;

verus! {

/// A key pair of the `nkeys` crate, which proofs do not look into.
#[verifier::external_type_specification]
#[verifier::external_body]
pub struct ExKeyPair(nkeys::KeyPair);

/// A party of a test that has a key.
#[derive(Clone, Copy, Debug)]
pub enum Role {
    /// The host that starts a provider
    Host,
    /// The actor that the test stands for
    Actor,
    /// The provider under test
    Provider,
}

/// The letter that the public keys of a role begin with.
pub open spec fn key_prefix(role: Role) -> char {
    match role {
        Role::Host => 'N',
        Role::Actor => 'M',
        Role::Provider => 'V',
    }
}

/// Whether `key` has the form of a public key of `role`.
pub open spec fn is_public_key(role: Role, key: Seq<char>) -> bool {
    key.len() == 56 && key[0] == key_prefix(role)
}

/// Whether `seed` has the form of a seed of `role`.
pub open spec fn is_seed(role: Role, seed: Seq<char>) -> bool {
    seed.len() == 58 && seed[0] == 'S' && seed[1] == key_prefix(role)
}

/// The public key of a key pair as text, as `nkeys::KeyPair::public_key` writes it.
pub uninterp spec fn public_key_text(pair: nkeys::KeyPair) -> Seq<char>;

/// The seed of a key pair as text, as `nkeys::KeyPair::seed` writes it.
pub uninterp spec fn seed_text(pair: nkeys::KeyPair) -> Seq<char>;

/// The public key, as text, of the key pair that a seed stands for. Where
/// `nkeys::KeyPair::from_seed` accepts the seed, it gives that key pair; its checksum test
/// refuses about one good seed in 65536, of which nothing is said here.
pub uninterp spec fn key_of_seed(seed: Seq<char>) -> Seq<char>;

/// Whether `key` is the public key of some key pair.
pub open spec fn has_a_pair(key: Seq<char>) -> bool {
    exists|pair: nkeys::KeyPair| key == #[trigger] public_key_text(pair)
}

/// A key pair with its public key and its seed as text.
pub struct Identity {
    /// The key pair itself
    pub pair: nkeys::KeyPair,
    /// Its public key
    pub public_key: String,
    /// Its seed
    pub seed: String,
}

/// `nkeys::KeyPair::new` makes a key pair of the given type from random bytes.
/// `public_key` writes its type, its key and a checksum in base32: 56 characters, of which
/// the first stands for the type. `seed` does the same with the secret, after the letter
/// `S`: 58 characters. It fails only on a key pair without a secret, which a new one has.
/// Both texts depend on the key pair alone. The seed holds the type and the secret, from
/// which the key is computed, so it determines the public key.
/// Nothing is said of the key itself, which is random.
#[verifier::external_body]
pub(crate) fn new_identity(role: Role) -> (identity: Identity)
    ensures
        is_public_key(role, identity.public_key@),
        is_seed(role, identity.seed@),
        identity.public_key@ == public_key_text(identity.pair),
        identity.seed@ == seed_text(identity.pair),
        identity.public_key@ == key_of_seed(identity.seed@),
{
    let pair = nkeys::KeyPair::new(match role {
        Role::Host => nkeys::KeyPairType::Server,
        Role::Actor => nkeys::KeyPairType::Module,
        Role::Provider => nkeys::KeyPairType::Service,
    });
    let public_key = pair.public_key();
    let seed = pair.seed().unwrap();
    Identity { pair, public_key, seed }
}

/// Public keys tell their roles apart: one key is never that of two different roles.
pub proof fn public_key_determines_role(a: Role, b: Role, key: Seq<char>)
    requires
        is_public_key(a, key),
        is_public_key(b, key),
    ensures
        a == b,
{
}

} // verus!
