use vstd::prelude::*;
use vstd::string::*;
use crate::types::{AccountId, AuthorityKey, AuthorityKeys, GenesisError, SessionKeys};

verus! {

/// The signature schemes that keys are derived for.
#[derive(Clone, Copy, Debug, PartialEq, Eq)]
pub enum KeyScheme {
    /// Schnorr signatures on Ristretto: accounts and block authoring.
    Sr25519,
    /// Edwards signatures: finality voting and liveness attestation.
    Ed25519,
}

/// The sr25519 public key that a secret URI derives.
pub uninterp spec fn sr25519_public_of(uri: Seq<char>) -> Seq<u8>;

/// The ed25519 public key that a secret URI derives.
pub uninterp spec fn ed25519_public_of(uri: Seq<char>) -> Seq<u8>;

/// Non-empty names free of `/`, joined by `//`: every run of slashes is
/// exactly two long, and none starts or ends the text.
pub open spec fn hard_junctions(s: Seq<char>) -> bool {
    &&& s.len() > 0
    &&& s[0] != '/'
    &&& s.last() != '/'
    &&& forall|i: int| 0 < i < s.len() - 1 && #[trigger] s[i] == '/' ==> (s[i - 1] == '/') != (s[i + 1] == '/')
}

/// A secret URI that derives from the development phrase by hard junctions
/// only: `//` followed by a chain of hard junctions.
pub open spec fn hard_path(uri: Seq<char>) -> bool {
    uri.len() >= 2 && uri[0] == '/' && uri[1] == '/' && hard_junctions(uri.subrange(2, uri.len() as int))
}

/// Relies on `sp_core::sr25519::Pair::from_string` (no password): it reads a
/// secret URI and derives a key pair from it, so the public key is a function
/// of the URI alone. A URI with no phrase takes the development phrase, which is
/// valid, and hard junctions always derive, so a hard path always succeeds.
#[verifier::external_body]
fn sr25519_public_from_uri(uri: &str) -> (r: Option<[u8; 32]>)
    ensures
        r matches Some(k) ==> k@ == sr25519_public_of(uri@),
        hard_path(uri@) ==> r is Some,
{
    match <sp_core::sr25519::Pair as sp_core::Pair>::from_string(uri, None) {
        Ok(pair) => Some(sp_core::Pair::public(&pair).0),
        Err(_) => None,
    }
}

/// Relies on `sp_core::ed25519::Pair::from_string` (no password): it reads a
/// secret URI and derives a key pair from it, so the public key is a function
/// of the URI alone. A URI with no phrase takes the development phrase, which is
/// valid, and ed25519 fails only on soft junctions, so a hard path always
/// succeeds.
#[verifier::external_body]
fn ed25519_public_from_uri(uri: &str) -> (r: Option<[u8; 32]>)
    ensures
        r matches Some(k) ==> k@ == ed25519_public_of(uri@),
        hard_path(uri@) ==> r is Some,
{
    match <sp_core::ed25519::Pair as sp_core::Pair>::from_string(uri, None) {
        Ok(pair) => Some(sp_core::Pair::public(&pair).0),
        Err(_) => None,
    }
}

/// The secret URI of a development seed: the seed as a hard derivation step
/// from the well-known development phrase.
pub open spec fn dev_uri(seed: Seq<char>) -> Seq<char> {
    seq!['/', '/'] + seed
}

/// The public key of `scheme` that `seed` derives.
pub open spec fn public_of(scheme: KeyScheme, seed: Seq<char>) -> Seq<u8> {
    match scheme {
        KeyScheme::Sr25519 => sr25519_public_of(dev_uri(seed)),
        KeyScheme::Ed25519 => ed25519_public_of(dev_uri(seed)),
    }
}

/// The seed of the stash account that goes with `seed`.
pub open spec fn stash_seed(seed: Seq<char>) -> Seq<char> {
    seed + seq!['/', '/', 's', 't', 'a', 's', 'h']
}

/// `a` is the account that `seed` derives.
pub open spec fn account_of_seed(seed: Seq<char>, a: AccountId) -> bool {
    a.bytes@ == public_of(KeyScheme::Sr25519, seed)
}

/// `k` holds the identities that `seed` derives: the stash account from the
/// stash seed, the controller account and the block-authoring key from the
/// seed with sr25519, the finality and liveness keys from the seed with ed25519.
pub open spec fn authority_keys_of_seed(seed: Seq<char>, k: AuthorityKeys) -> bool {
    &&& account_of_seed(stash_seed(seed), k.stash)
    &&& account_of_seed(seed, k.controller)
    &&& k.keys.aura.bytes@ == public_of(KeyScheme::Sr25519, seed)
    &&& k.keys.grandpa.bytes@ == public_of(KeyScheme::Ed25519, seed)
    &&& k.keys.im_online.bytes@ == public_of(KeyScheme::Ed25519, seed)
}

/// The stash seed of a chain of hard junctions is one too.
pub proof fn lemma_stash_seed_hard(seed: Seq<char>)
    requires
        hard_junctions(seed),
    ensures
        hard_junctions(stash_seed(seed)),
{
    let t = stash_seed(seed);
    let n = seed.len() as int;
    assert forall|i: int| 0 < i < t.len() - 1 && #[trigger] t[i] == '/' implies (t[i - 1] == '/') != (t[i + 1] == '/') by {
        if i < n - 1 {
            assert(t[i] == seed[i] && t[i - 1] == seed[i - 1] && t[i + 1] == seed[i + 1]);
        } else if i == n - 1 {
            assert(t[i] == seed.last());
        } else if i == n {
            assert(t[i - 1] == seed.last());
        }
    }
}

/// Derives the public key of `scheme` for a development seed.
pub fn get_from_seed(scheme: KeyScheme, seed: &str) -> (r: Result<[u8; 32], GenesisError>)
    ensures
        r matches Ok(k) ==> k@ == public_of(scheme, seed@),
        r matches Err(e) ==> e == GenesisError::InvalidSeedEncoding,
        hard_junctions(seed@) ==> r is Ok,
{
    let prefix = String::from_str("//");
    proof {
        reveal_strlit("//");
    }
    let uri = prefix.concat(seed);
    assert(uri@ =~= dev_uri(seed@));
    assert(dev_uri(seed@).subrange(2, dev_uri(seed@).len() as int) =~= seed@);
    let derived = match scheme {
        KeyScheme::Sr25519 => sr25519_public_from_uri(uri.as_str()),
        KeyScheme::Ed25519 => ed25519_public_from_uri(uri.as_str()),
    };
    match derived {
        Some(k) => Ok(k),
        None => Err(GenesisError::InvalidSeedEncoding),
    }
}

/// Derives the account of a development seed.
pub fn get_account_id_from_seed(seed: &str) -> (r: Result<AccountId, GenesisError>)
    ensures
        r matches Ok(a) ==> account_of_seed(seed@, a),
        r matches Err(e) ==> e == GenesisError::InvalidSeedEncoding,
        hard_junctions(seed@) ==> r is Ok,
{
    let bytes = get_from_seed(KeyScheme::Sr25519, seed)?;
    Ok(AccountId { bytes })
}

/// Derives the stash account, controller account and session keys of a
/// development validator from one seed.
pub fn get_authority_keys_from_seed(seed: &str) -> (r: Result<AuthorityKeys, GenesisError>)
    ensures
        r matches Ok(k) ==> authority_keys_of_seed(seed@, k),
        r matches Err(e) ==> e == GenesisError::InvalidSeedEncoding,
        hard_junctions(seed@) ==> r is Ok,
{
    let suffix = "//stash";
    proof {
        reveal_strlit("//stash");
    }
    let stash_text = String::from_str(seed).concat(suffix);
    assert(stash_text@ =~= stash_seed(seed@));
    proof {
        if hard_junctions(seed@) {
            lemma_stash_seed_hard(seed@);
        }
    }
    let stash = get_account_id_from_seed(stash_text.as_str())?;
    let controller = get_account_id_from_seed(seed)?;
    let aura = get_from_seed(KeyScheme::Sr25519, seed)?;
    let grandpa = get_from_seed(KeyScheme::Ed25519, seed)?;
    let im_online = get_from_seed(KeyScheme::Ed25519, seed)?;
    Ok(AuthorityKeys {
        stash,
        controller,
        keys: SessionKeys {
            aura: AuthorityKey { bytes: aura },
            grandpa: AuthorityKey { bytes: grandpa },
            im_online: AuthorityKey { bytes: im_online },
        },
    })
}

} // verus!

verus! {

/// A seed derives one account only: deriving it twice gives the same account.
pub proof fn lemma_account_of_seed_unique(seed: Seq<char>, a: AccountId, b: AccountId)
    requires
        account_of_seed(seed, a),
        account_of_seed(seed, b),
    ensures
        a == b,
{
    broadcast use vstd::array::group_array_axioms;
    assert forall|i: int| 0 <= i < 32 implies a.bytes[i] == b.bytes[i] by {
        assert(a.bytes@[i] == b.bytes@[i]);
    }
    assert(a.bytes =~= b.bytes);
}

/// A seed derives one set of validator identities only.
pub proof fn lemma_authority_keys_of_seed_unique(seed: Seq<char>, a: AuthorityKeys, b: AuthorityKeys)
    requires
        authority_keys_of_seed(seed, a),
        authority_keys_of_seed(seed, b),
    ensures
        a == b,
{
    broadcast use vstd::array::group_array_axioms;
    lemma_account_of_seed_unique(stash_seed(seed), a.stash, b.stash);
    lemma_account_of_seed_unique(seed, a.controller, b.controller);
    assert forall|i: int| 0 <= i < 32 implies a.keys.aura.bytes[i] == b.keys.aura.bytes[i] && a.keys.grandpa.bytes[i]
        == b.keys.grandpa.bytes[i] && a.keys.im_online.bytes[i] == b.keys.im_online.bytes[i] by {
        assert(a.keys.aura.bytes@[i] == b.keys.aura.bytes@[i]);
        assert(a.keys.grandpa.bytes@[i] == b.keys.grandpa.bytes@[i]);
        assert(a.keys.im_online.bytes@[i] == b.keys.im_online.bytes@[i]);
    }
    assert(a.keys.aura.bytes =~= b.keys.aura.bytes);
    assert(a.keys.grandpa.bytes =~= b.keys.grandpa.bytes);
    assert(a.keys.im_online.bytes =~= b.keys.im_online.bytes);
}

} // verus!
