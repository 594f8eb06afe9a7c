//! Signing an envelope: the signer hashes the network's identifier together
//! with the transaction, signs the hash, and appends the signature.
use vstd::prelude::*;
use crate::assembler::outcome_view;
use crate::bytes::{array_of, get_bytes, to_array};
use crate::encoder::{encoded, is_decoding_of, lemma_decode_inverts_encode, lemma_encoded_is_not_empty};
use crate::error::WalletError;
use crate::hashing::{sha256, sha256_digest};
use crate::keygen::StellarKeyPair;
use crate::strkey::{
    ed25519_public_from_seed, ed25519_public_key, ed25519_sign, ed25519_signature, seed_of,
    SecretSeed,
};
use crate::transaction::{EnvelopeView, Signature, TransactionEnvelope, MAX_SIGNATURES};
use crate::xdr::{payload_bytes, signature_payload};

verus! {

/// The identifier of a network: the hash of its passphrase.
pub open spec fn network_id(network_identity: Seq<char>) -> Seq<u8> {
    sha256(vstd::utf8::encode_utf8(network_identity))
}

/// What is signed: the hash of the network's identifier, the envelope type
/// and the transaction without its signatures.
pub open spec fn signing_hash(e: EnvelopeView, network_identity: Seq<char>) -> Seq<u8> {
    sha256(signature_payload(network_id(network_identity), e))
}

/// The signature of `seed` on the transaction of `e` for a network: the
/// last four bytes of the public key as the hint, and the Ed25519 signature
/// of the signing hash.
pub open spec fn signature_by(seed: SecretSeed, e: EnvelopeView, network_identity: Seq<char>)
    -> Signature {
    Signature {
        hint: array_of::<4>(ed25519_public_key(seed.seed@).subrange(28, 32)),
        signature: array_of::<64>(
            ed25519_signature(seed.seed@, signing_hash(e, network_identity)),
        ),
    }
}

/// What [`sign_with`] makes of an envelope.
pub open spec fn signed_with(e: EnvelopeView, seed: SecretSeed, network_identity: Seq<char>)
    -> Result<EnvelopeView, WalletError> {
    if !e.wf() || e.signatures.len() >= MAX_SIGNATURES {
        Err(WalletError::EncodingError)
    } else {
        Ok(e.with_signature(signature_by(seed, e, network_identity)))
    }
}

/// What [`sign`] makes of an envelope: the secret key is checked first.
pub open spec fn signed(e: EnvelopeView, secret_key: Seq<char>, network_identity: Seq<char>)
    -> Result<EnvelopeView, WalletError> {
    match seed_of(secret_key) {
        None => Err(WalletError::SigningError),
        Some(seed) => signed_with(e, seed, network_identity),
    }
}

/// Signs the transaction of `envelope` with `seed` for the network of
/// `network_identity`, and appends the signature.
///
/// Fails with `EncodingError` where the envelope is not well formed or
/// already holds twenty signatures. The signatures that the envelope held
/// stay where they were; signing twice appends two signatures.
pub fn sign_with(envelope: TransactionEnvelope, seed: &SecretSeed, network_identity: &str) -> (out:
    Result<TransactionEnvelope, WalletError>)
    ensures
        outcome_view(out) == signed_with(envelope@, *seed, network_identity@),
        out matches Ok(e) ==> {
            &&& e@.wf()
            &&& e@.signatures.len() == envelope@.signatures.len() + 1
            &&& e@.signatures.drop_last() == envelope@.signatures
            &&& e@.unsigned() == envelope@.unsigned()
        },
{
    if !envelope.is_well_formed() || envelope.signatures.len() >= MAX_SIGNATURES {
        return Err(WalletError::EncodingError);
    }
    let id: [u8; 32] = sha256_digest(network_identity.as_bytes());
    let payload: Vec<u8> = payload_bytes(&id, &envelope);
    let hash: [u8; 32] = sha256_digest(payload.as_slice());
    let key: Vec<u8> = match ed25519_public_from_seed(seed.seed.as_slice()) {
        Ok(key) => key,
        Err(_) => {
            return Err(WalletError::SigningError);
        },
    };
    let raw: Vec<u8> = match ed25519_sign(seed.seed.as_slice(), hash.as_slice()) {
        Ok(raw) => raw,
        Err(_) => {
            return Err(WalletError::SigningError);
        },
    };
    let signature = Signature {
        hint: get_bytes::<4>(key.as_slice(), 28),
        signature: to_array::<64>(raw.as_slice()),
    };
    let ghost before = envelope@;
    let mut envelope = envelope;
    envelope.signatures.push(signature);
    proof {
        assert(signature == signature_by(*seed, before, network_identity@));
        assert(envelope@ == before.with_signature(signature));
        assert(envelope@.signatures.drop_last() =~= before.signatures);
    }
    Ok(envelope)
}

/// Signs the transaction of `envelope` with the secret key of `key_pair`.
///
/// Fails with `SigningError` where the secret key is malformed; everything
/// else is as in [`sign_with`].
pub fn sign(envelope: TransactionEnvelope, key_pair: &StellarKeyPair, network_identity: &str) -> (out:
    Result<TransactionEnvelope, WalletError>)
    ensures
        outcome_view(out) == signed(envelope@, key_pair.secret_key@, network_identity@),
        out matches Ok(e) ==> {
            &&& e@.wf()
            &&& e@.signatures.len() == envelope@.signatures.len() + 1
            &&& e@.signatures.drop_last() == envelope@.signatures
            &&& e@.unsigned() == envelope@.unsigned()
        },
{
    match SecretSeed::parse(key_pair.secret_key.as_str()) {
        Some(seed) => sign_with(envelope, &seed, network_identity),
        None => Err(WalletError::SigningError),
    }
}

/// Signing changes nothing but the signatures, and what is signed does not
/// depend on the signatures already there: a second signer signs the same
/// hash as the first.
pub proof fn lemma_signing_appends(e: EnvelopeView, seed: SecretSeed, network_identity: Seq<char>)
    requires
        signed_with(e, seed, network_identity) is Ok,
    ensures
        ({
            let s = signed_with(e, seed, network_identity)->Ok_0;
            &&& s.wf()
            &&& s.unsigned() == e.unsigned()
            &&& s.signatures == e.signatures.push(signature_by(seed, e, network_identity))
            &&& signing_hash(s, network_identity) == signing_hash(e, network_identity)
        }),
{
}

/// Signing and then encoding a well-formed envelope gives a text that is
/// not empty, and decoding that text gives back the source account, the
/// sequence number and every payment with its destination, asset and
/// amount, exactly as they were before signing, with one signature more.
pub proof fn lemma_sign_encode_decode(
    e: EnvelopeView,
    seed: SecretSeed,
    network_identity: Seq<char>,
    decoded: Option<EnvelopeView>,
)
    requires
        signed_with(e, seed, network_identity) is Ok,
        is_decoding_of(
            decoded,
            encoded(signed_with(e, seed, network_identity)->Ok_0),
            e.network_identity,
        ),
    ensures
        encoded(signed_with(e, seed, network_identity)->Ok_0).len() > 0,
        decoded == Some(signed_with(e, seed, network_identity)->Ok_0),
        decoded->0.source_account == e.source_account,
        decoded->0.sequence_number == e.sequence_number,
        decoded->0.fee == e.fee,
        decoded->0.operations == e.operations,
        decoded->0.signatures.len() == e.signatures.len() + 1,
{
    let s = signed_with(e, seed, network_identity)->Ok_0;
    lemma_encoded_is_not_empty(s);
    lemma_decode_inverts_encode(s, decoded);
}

} // verus!
