//! Account identifiers and secret seeds in their text form, and the Ed25519
//! keys behind them. The text encoding and the curve arithmetic are the
//! `stellar_sdk` crate's; this module names their results and checks sizes.
use vstd::prelude::*;
use vstd::string::StringSliceAdditionalSpecFns;
use crate::bytes::{array_of, lemma_array_of, to_array};

verus! {

/// Length in characters of an encoded account identifier or secret seed.
pub const STRKEY_LEN: usize = 56;

/// Length in bytes of a raw Ed25519 public key or seed.
pub const KEY_LEN: usize = 32;

/// `anyhow::Error`, in which `stellar_sdk` reports its failures. Nothing is
/// known of a value but that it is there.
#[verifier::external_type_specification]
#[verifier::external_body]
pub struct ExAnyhowError(anyhow::Error);

/// The payload that `stellar_sdk` decodes from the text of an account
/// identifier, where it accepts the text.
pub uninterp spec fn strkey_account_payload(text: Seq<char>) -> Option<Seq<u8>>;

/// The payload that `stellar_sdk` decodes from the text of a secret seed,
/// where it accepts the text.
pub uninterp spec fn strkey_seed_payload(text: Seq<char>) -> Option<Seq<u8>>;

/// The text that `stellar_sdk` encodes a public key to.
pub uninterp spec fn strkey_account_text(key: Seq<u8>) -> Seq<char>;

/// The text that `stellar_sdk` encodes a secret seed to.
pub uninterp spec fn strkey_seed_text(seed: Seq<u8>) -> Seq<char>;

/// The Ed25519 public key that belongs to a 32-byte seed.
pub uninterp spec fn ed25519_public_key(seed: Seq<u8>) -> Seq<u8>;

/// The Ed25519 signature of `message` under the key of a 32-byte seed.
pub uninterp spec fn ed25519_signature(seed: Seq<u8>, message: Seq<u8>) -> Seq<u8>;

/// Calls `stellar_sdk::StrKey::decode_ed25519_public_key`.
///
/// Trusted: the outcome is a function of the text alone. On text of 56
/// bytes the call does not panic: base32 either refuses it or yields at
/// least three bytes, which is all that the decoder's slicing needs.
#[verifier::external_body]
pub(crate) fn strkey_decode_account(text: &str) -> (decoded: Result<Vec<u8>, anyhow::Error>)
    requires
        text.spec_bytes().len() == STRKEY_LEN,
    ensures
        match decoded {
            Ok(payload) => strkey_account_payload(text@) == Some(payload@),
            Err(_) => strkey_account_payload(text@) is None,
        },
{
    stellar_sdk::StrKey::decode_ed25519_public_key(text)
}

/// Calls `stellar_sdk::StrKey::decode_ed25519_secret_seed`.
///
/// Trusted: the outcome is a function of the text alone, and on text of
/// 56 bytes the call does not panic.
#[verifier::external_body]
pub(crate) fn strkey_decode_seed(text: &str) -> (decoded: Result<Vec<u8>, anyhow::Error>)
    requires
        text.spec_bytes().len() == STRKEY_LEN,
    ensures
        match decoded {
            Ok(payload) => strkey_seed_payload(text@) == Some(payload@),
            Err(_) => strkey_seed_payload(text@) is None,
        },
{
    stellar_sdk::StrKey::decode_ed25519_secret_seed(text)
}

/// Calls `stellar_sdk::StrKey::encode_ed25519_public_key`.
///
/// Trusted: the text is a function of the key alone. For a key of 32 bytes
/// it is the base32 form of 35 bytes, so 56 ASCII characters, and the
/// version byte `6 << 3` makes the first of them `G`. The crate's decoder
/// takes that text back to the key: it finds the version byte and the
/// checksum that the encoder wrote.
#[verifier::external_body]
pub(crate) fn strkey_encode_account(key: &[u8]) -> (text: String)
    ensures
        text@ == strkey_account_text(key@),
        key@.len() == KEY_LEN ==> text@.len() == STRKEY_LEN && text@[0] == 'G',
        key@.len() == KEY_LEN ==> account_key(text@) == Some(key@),
{
    stellar_sdk::StrKey::encode_ed25519_public_key(key)
}

/// Calls `stellar_sdk::StrKey::encode_ed25519_secret_seed`.
///
/// Trusted: the text is a function of the seed alone. For a seed of 32
/// bytes it has 56 ASCII characters, and the version byte `18 << 3` makes
/// the first of them `S`. The crate's decoder takes that text back to the
/// seed.
#[verifier::external_body]
pub(crate) fn strkey_encode_seed(seed: &[u8]) -> (text: String)
    ensures
        text@ == strkey_seed_text(seed@),
        seed@.len() == KEY_LEN ==> text@.len() == STRKEY_LEN && text@[0] == 'S',
        seed@.len() == KEY_LEN ==> secret_seed(text@) == Some(seed@),
{
    stellar_sdk::StrKey::encode_ed25519_secret_seed(seed)
}

/// Calls `stellar_sdk::Keypair::from_raw_ed25519_seed` and reads the public
/// key of the pair with `raw_public_key`.
///
/// Trusted: the constructor accepts exactly the seeds of 32 bytes, and the
/// public key is then 32 bytes that depend on the seed alone.
#[verifier::external_body]
pub(crate) fn ed25519_public_from_seed(seed: &[u8]) -> (key: Result<Vec<u8>, anyhow::Error>)
    ensures
        key is Ok <==> seed@.len() == KEY_LEN,
        key matches Ok(k) ==> k@ == ed25519_public_key(seed@) && k@.len() == KEY_LEN,
{
    stellar_sdk::Keypair::from_raw_ed25519_seed(seed).map(|pair| pair.raw_public_key().clone())
}

/// Calls `stellar_sdk::Keypair::from_raw_ed25519_seed` and signs with the
/// pair's `sign`.
///
/// Trusted: signing succeeds exactly for a seed of 32 bytes and a message
/// that is not empty; the signature is 64 bytes that depend on the seed and
/// the message alone.
#[verifier::external_body]
pub(crate) fn ed25519_sign(seed: &[u8], message: &[u8]) -> (signed: Result<Vec<u8>, anyhow::Error>)
    ensures
        signed is Ok <==> (seed@.len() == KEY_LEN && message@.len() > 0),
        signed matches Ok(s) ==> (s@ == ed25519_signature(seed@, message@) && s@.len() == 64),
{
    stellar_sdk::Keypair::from_raw_ed25519_seed(seed).and_then(|pair| pair.sign(message))
}

/// A public account key: the 32 raw bytes behind an account identifier.
#[derive(Clone, Copy, Debug, PartialEq, Eq)]
pub struct AccountId {
    pub key: [u8; 32],
}

/// A secret seed: the 32 raw bytes behind a secret key's text. It cannot be
/// copied or printed: whoever holds the value decides where it goes.
#[derive(PartialEq, Eq)]
pub struct SecretSeed {
    pub seed: [u8; 32],
}

/// The raw key that the text of an account identifier stands for: defined
/// where the text has 56 bytes, decodes, and carries 32 bytes.
pub open spec fn account_key(text: Seq<char>) -> Option<Seq<u8>> {
    if vstd::utf8::encode_utf8(text).len() == STRKEY_LEN {
        match strkey_account_payload(text) {
            Some(payload) => if payload.len() == KEY_LEN {
                Some(payload)
            } else {
                None
            },
            None => None,
        }
    } else {
        None
    }
}

/// The raw seed that the text of a secret key stands for: defined where the
/// text has 56 bytes, decodes, and carries 32 bytes.
pub open spec fn secret_seed(text: Seq<char>) -> Option<Seq<u8>> {
    if vstd::utf8::encode_utf8(text).len() == STRKEY_LEN {
        match strkey_seed_payload(text) {
            Some(payload) => if payload.len() == KEY_LEN {
                Some(payload)
            } else {
                None
            },
            None => None,
        }
    } else {
        None
    }
}

/// The account that the text of an account identifier stands for.
pub open spec fn account_of(text: Seq<char>) -> Option<AccountId> {
    match account_key(text) {
        Some(key) => Some(AccountId { key: array_of::<32>(key) }),
        None => None,
    }
}

/// The seed that the text of a secret key stands for.
pub open spec fn seed_of(text: Seq<char>) -> Option<SecretSeed> {
    match secret_seed(text) {
        Some(raw) => Some(SecretSeed { seed: array_of::<32>(raw) }),
        None => None,
    }
}

impl AccountId {
    /// Parses the text of an account identifier (`G...`).
    ///
    /// Returns the account exactly where [`account_key`] is defined on the
    /// text, with that key.
    pub fn parse(text: &str) -> (id: Option<AccountId>)
        ensures
            id == account_of(text@),
            id matches Some(a) ==> account_key(text@) == Some(a.key@),
    {
        if text.as_bytes().len() != STRKEY_LEN {
            return None;
        }
        match strkey_decode_account(text) {
            Ok(payload) => {
                if payload.len() == KEY_LEN {
                    Some(AccountId { key: to_array::<32>(payload.as_slice()) })
                } else {
                    None
                }
            },
            Err(_) => None,
        }
    }

    /// The text of this account identifier: 56 characters, the first a
    /// `G`. Parsing the text gives the account back.
    pub fn to_text(&self) -> (text: String)
        ensures
            text@ == strkey_account_text(self.key@),
            text@.len() == STRKEY_LEN,
            text@[0] == 'G',
            account_of(text@) == Some(*self),
    {
        proof {
            lemma_array_of::<32>(self.key);
        }
        strkey_encode_account(self.key.as_slice())
    }
}

impl SecretSeed {
    /// Parses the text of a secret key (`S...`).
    ///
    /// Returns the seed exactly where [`secret_seed`] is defined on the
    /// text, with those bytes.
    pub fn parse(text: &str) -> (seed: Option<SecretSeed>)
        ensures
            seed == seed_of(text@),
            seed matches Some(s) ==> secret_seed(text@) == Some(s.seed@),
    {
        if text.as_bytes().len() != STRKEY_LEN {
            return None;
        }
        match strkey_decode_seed(text) {
            Ok(payload) => {
                if payload.len() == KEY_LEN {
                    Some(SecretSeed { seed: to_array::<32>(payload.as_slice()) })
                } else {
                    None
                }
            },
            Err(_) => None,
        }
    }

    /// The text of this secret key: 56 characters, the first an `S`.
    /// Parsing the text gives the seed back.
    pub fn to_text(&self) -> (text: String)
        ensures
            text@ == strkey_seed_text(self.seed@),
            text@.len() == STRKEY_LEN,
            text@[0] == 'S',
            secret_seed(text@) == Some(self.seed@),
    {
        strkey_encode_seed(self.seed.as_slice())
    }

    /// The account that this seed controls.
    pub open spec fn account(self) -> AccountId {
        AccountId { key: array_of::<32>(ed25519_public_key(self.seed@)) }
    }

    /// The account that this seed controls.
    pub fn account_id(&self) -> (id: AccountId)
        ensures
            id == self.account(),
            id.key@ == ed25519_public_key(self.seed@),
    {
        match ed25519_public_from_seed(self.seed.as_slice()) {
            Ok(key) => AccountId { key: to_array::<32>(key.as_slice()) },
            Err(_) => AccountId { key: [0u8; 32] },
        }
    }
}

} // verus!
