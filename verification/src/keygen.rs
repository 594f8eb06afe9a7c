//! Key pairs and the seed phrases that they come from.
//!
//! Entropy comes from the operating system through `rand`; the phrase and
//! its seed are `bip39`'s; the key at the account's path is
//! `slip10_ed25519`'s. This module fixes the order of these steps, the
//! path, and the text form of the keys.
use vstd::prelude::*;
use rand::RngCore;
use crate::error::WalletError;
use crate::bytes::lemma_array_of_content;
use crate::strkey::{
    account_key, account_of, secret_seed, seed_of, ed25519_public_from_seed, ed25519_public_key, strkey_account_text, strkey_encode_account,
    strkey_encode_seed, strkey_seed_text, KEY_LEN, STRKEY_LEN,
};

verus! {

/// `rand::Error`, the failure of a random source. Nothing is known of a
/// value but that it is there.
#[verifier::external_type_specification]
#[verifier::external_body]
pub struct ExRandError(rand::Error);

/// `bip39::Error`, the reason why entropy or a phrase was refused. Nothing
/// is known of a value but that it is there.
#[verifier::external_type_specification]
#[verifier::external_body]
pub struct ExMnemonicError(bip39::Error);

/// The English seed phrase that `bip39` makes of entropy.
pub uninterp spec fn bip39_phrase(entropy: Seq<u8>) -> Seq<char>;

/// The 64-byte seed that `bip39` makes of a phrase and a passphrase, where
/// it accepts the phrase.
pub uninterp spec fn bip39_seed(phrase: Seq<char>, passphrase: Seq<char>) -> Option<Seq<u8>>;

/// The Ed25519 private key that `slip10_ed25519` derives from a seed along
/// a path of hardened indexes.
pub uninterp spec fn slip10_private_key(seed: Seq<u8>, path: Seq<u32>) -> Seq<u8>;

/// Calls `try_fill_bytes` of `rand::rngs::OsRng` on 32 bytes: 256 bits of
/// entropy, for a phrase of 24 words.
///
/// Trusted: nothing but the type. The bytes are the operating system's, and
/// differ from call to call.
#[verifier::external_body]
pub(crate) fn os_entropy() -> (entropy: Result<[u8; 32], rand::Error>) {
    let mut bytes = [0u8; 32];
    rand::rngs::OsRng.try_fill_bytes(&mut bytes).map(|_| bytes)
}

/// Calls `bip39::Mnemonic::from_entropy` and writes the mnemonic out with
/// `to_string`.
///
/// Trusted: the call accepts exactly entropy of 16, 20, 24, 28 or 32 bytes,
/// and the phrase is a function of the entropy alone. It has twelve words or
/// more, so it is not empty.
#[verifier::external_body]
pub(crate) fn mnemonic_phrase(entropy: &[u8]) -> (phrase: Result<String, bip39::Error>)
    ensures
        phrase is Ok <==> (entropy@.len() == 16 || entropy@.len() == 20 || entropy@.len() == 24
            || entropy@.len() == 28 || entropy@.len() == 32),
        phrase matches Ok(p) ==> p@ == bip39_phrase(entropy@) && p@.len() > 0,
{
    bip39::Mnemonic::from_entropy(entropy).map(|mnemonic| mnemonic.to_string())
}

/// Calls `bip39::Mnemonic::parse` and then `to_seed` with the passphrase.
///
/// Trusted: whether the phrase is accepted, and the 64 bytes of the seed,
/// are functions of the phrase and the passphrase alone. A phrase of fewer
/// than twelve words is refused, so one that is accepted is not empty.
#[verifier::external_body]
pub(crate) fn mnemonic_seed(phrase: &str, passphrase: &str) -> (seed: Result<[u8; 64], bip39::Error>)
    ensures
        match seed {
            Ok(s) => bip39_seed(phrase@, passphrase@) == Some(s@),
            Err(_) => bip39_seed(phrase@, passphrase@) is None,
        },
        seed is Ok ==> phrase@.len() > 0,
{
    bip39::Mnemonic::parse(phrase).map(|mnemonic| mnemonic.to_seed(passphrase))
}

/// `slip10_ed25519::derive_ed25519_private_key`: the key is a function of
/// the seed and the path alone.
pub assume_specification[ slip10_ed25519::derive_ed25519_private_key ](
    seed: &[u8],
    indexes: &[u32],
) -> (key: [u8; 32])
    ensures
        key@ == slip10_private_key(seed@, indexes@),
;

/// A key pair in its text form, with the seed phrase that it was derived
/// from. Whoever holds it holds the account: the phrase and the secret key
/// are never to be logged or sent.
pub struct StellarKeyPair {
    pub mnemonic_phrase: String,
    pub public_key: String,
    pub secret_key: String,
}

/// The derivation path of the first account: `m/44'/148'/0'`.
pub open spec fn account_path() -> Seq<u32> {
    seq![44u32, 148u32, 0u32]
}

/// The secret seed that a phrase leads to, without a passphrase, where the
/// phrase is a valid mnemonic.
pub open spec fn derived_seed(phrase: Seq<char>) -> Option<Seq<u8>> {
    match bip39_seed(phrase, Seq::<char>::empty()) {
        Some(seed) => Some(slip10_private_key(seed, account_path())),
        None => None,
    }
}

impl StellarKeyPair {
    /// Both keys have the length of their text form, the public key starts
    /// with `G` and the secret key with `S`.
    pub open spec fn wf(&self) -> bool {
        &&& self.public_key@.len() == STRKEY_LEN
        &&& self.public_key@[0] == 'G'
        &&& self.secret_key@.len() == STRKEY_LEN
        &&& self.secret_key@[0] == 'S'
    }

    /// The pair can be used as it stands: its secret key parses to a seed,
    /// and its public key parses to the account of that seed.
    pub open spec fn is_usable(&self) -> bool {
        &&& seed_of(self.secret_key@) is Some
        &&& account_of(self.public_key@) == Some(seed_of(self.secret_key@)->0.account())
    }

    /// The pair is the one that `phrase` leads to: it holds the phrase, the
    /// text of the derived seed, and the text of that seed's public key.
    /// The phrase is not empty, and seed and public key have 32 bytes.
    pub open spec fn is_derived_from(&self, phrase: Seq<char>) -> bool {
        match derived_seed(phrase) {
            Some(seed) => {
                &&& phrase.len() > 0
                &&& seed.len() == KEY_LEN
                &&& ed25519_public_key(seed).len() == KEY_LEN
                &&& self.mnemonic_phrase@ == phrase
                &&& self.secret_key@ == strkey_seed_text(seed)
                &&& self.public_key@ == strkey_account_text(ed25519_public_key(seed))
            },
            None => false,
        }
    }
}

/// What derivation owes for a phrase: the pair that the phrase leads to,
/// in the key format and usable as it stands, or `DerivationError` exactly
/// where the phrase is no valid mnemonic.
pub open spec fn is_derivation_of(out: Result<StellarKeyPair, WalletError>, phrase: Seq<char>)
    -> bool {
    match out {
        Ok(p) => p.is_derived_from(phrase) && p.wf() && p.is_usable(),
        Err(e) => e == WalletError::DerivationError && derived_seed(phrase) is None,
    }
}

/// Derives the key pair of a seed phrase, without a passphrase.
///
/// Fails with `DerivationError` exactly where the phrase is no valid
/// mnemonic. The same phrase always gives the same pair.
pub fn derive_key_pair(phrase: &str) -> (pair: Result<StellarKeyPair, WalletError>)
    ensures
        is_derivation_of(pair, phrase@),
        pair matches Ok(p) ==> p.wf() && p.mnemonic_phrase@.len() > 0,
{
    proof {
        reveal_strlit("");
        assert(""@ =~= Seq::<char>::empty());
    }
    let seed: [u8; 64] = match mnemonic_seed(phrase, "") {
        Ok(seed) => seed,
        Err(_) => {
            return Err(WalletError::DerivationError);
        },
    };
    let path: [u32; 3] = [44, 148, 0];
    proof {
        assert(path@ =~= account_path());
    }
    let secret: [u8; 32] = slip10_ed25519::derive_ed25519_private_key(
        seed.as_slice(),
        path.as_slice(),
    );
    let public: Vec<u8> = match ed25519_public_from_seed(secret.as_slice()) {
        Ok(public) => public,
        Err(_) => {
            return Err(WalletError::DerivationError);
        },
    };
    let pair = StellarKeyPair {
        mnemonic_phrase: phrase.to_owned(),
        public_key: strkey_encode_account(public.as_slice()),
        secret_key: strkey_encode_seed(secret.as_slice()),
    };
    proof {
        lemma_derived_pair_is_usable(pair, phrase@);
    }
    Ok(pair)
}

/// Makes the seed phrase of the given entropy and derives its key pair.
///
/// Fails with `DerivationError` exactly where the phrase made of the
/// entropy is refused as a mnemonic.
pub fn key_pair_from_entropy(entropy: &[u8; 32]) -> (pair: Result<StellarKeyPair, WalletError>)
    ensures
        is_derivation_of(pair, bip39_phrase(entropy@)),
        pair matches Ok(p) ==> p.wf() && p.mnemonic_phrase@.len() > 0,
{
    match mnemonic_phrase(entropy.as_slice()) {
        Ok(phrase) => derive_key_pair(phrase.as_str()),
        Err(_) => Err(WalletError::DerivationError),
    }
}

/// Generates a new key pair from fresh entropy of the operating system.
///
/// Fails with `EntropyError` where the random source gives nothing, and
/// with `DerivationError` where derivation fails. A pair that is returned
/// is the pair of the phrase that it holds.
pub fn generate_key_pair() -> (pair: Result<StellarKeyPair, WalletError>)
    ensures
        match pair {
            Ok(p) => {
                &&& p.is_derived_from(p.mnemonic_phrase@)
                &&& p.wf()
                &&& p.is_usable()
                &&& p.mnemonic_phrase@.len() > 0
            },
            Err(e) => e == WalletError::EntropyError || e == WalletError::DerivationError,
        },
{
    match os_entropy() {
        Ok(entropy) => key_pair_from_entropy(&entropy),
        Err(_) => Err(WalletError::EntropyError),
    }
}

/// A derived pair can be used as it stands: its secret key parses to the
/// derived seed, and its public key to the account of that seed.
pub proof fn lemma_derived_pair_is_usable(pair: StellarKeyPair, phrase: Seq<char>)
    requires
        pair.is_derived_from(phrase),
        ({
            let seed = derived_seed(phrase)->0;
            &&& secret_seed(pair.secret_key@) == Some(seed)
            &&& account_key(pair.public_key@) == Some(ed25519_public_key(seed))
        }),
    ensures
        pair.is_usable(),
{
    let seed = derived_seed(phrase)->0;
    lemma_array_of_content::<32>(seed);
}

/// Generation is a function of the entropy alone: two outcomes on the same
/// entropy are both a pair or both the same error, and two pairs have the
/// same phrase, the same public key and the same secret key.
pub proof fn lemma_generation_follows_entropy(
    entropy: Seq<u8>,
    first: Result<StellarKeyPair, WalletError>,
    second: Result<StellarKeyPair, WalletError>,
)
    requires
        is_derivation_of(first, bip39_phrase(entropy)),
        is_derivation_of(second, bip39_phrase(entropy)),
    ensures
        first is Ok <==> second is Ok,
        first is Err ==> first->Err_0 == second->Err_0,
        first is Ok ==> {
            &&& first->Ok_0.mnemonic_phrase@ == second->Ok_0.mnemonic_phrase@
            &&& first->Ok_0.public_key@ == second->Ok_0.public_key@
            &&& first->Ok_0.secret_key@ == second->Ok_0.secret_key@
        },
{
}

/// Two pairs derived from the same phrase have the same public key and the
/// same secret key.
pub proof fn lemma_derivation_is_deterministic(
    phrase: Seq<char>,
    first: StellarKeyPair,
    second: StellarKeyPair,
)
    requires
        first.is_derived_from(phrase),
        second.is_derived_from(phrase),
    ensures
        first.public_key@ == second.public_key@,
        first.secret_key@ == second.secret_key@,
        first.mnemonic_phrase@ == second.mnemonic_phrase@,
{
}

} // verus!
