//! The two operations of the wallet, end to end.
use vstd::prelude::*;
use crate::amount::amount_stroops;
use crate::assembler::{assemble_from, assembled_from, MAX_SEQUENCE};
use crate::asset::{is_native_code, resolve, resolved, text_of};
use crate::bytes::bytes_equal;
use crate::encoder::{encode, encoded};
use crate::error::WalletError;
use crate::keygen::StellarKeyPair;
use crate::signer::{sign_with, signed_with};
use crate::strkey::{account_of, seed_of, AccountId, SecretSeed};
use crate::text::ascii_text;
use crate::transaction::{AccountState, EnvelopeView};

verus! {

/// The wallet's operations. It holds no state: each call owns what it
/// makes.
pub struct StellarWalletTools;

/// The signed envelope that [`StellarWalletTools::create_payment_transaction`]
/// encodes, or the error that it ends in. The steps come in this order: the
/// secret key, the asset, the fetched account, the assembly, the signature.
pub open spec fn payment_transaction(
    source_secret_key: Seq<char>,
    destination_public_key: Seq<char>,
    amount: Seq<char>,
    asset_code: Seq<char>,
    asset_issuer_public_key: Option<Seq<char>>,
    network_passphrase: Seq<char>,
    fetched_account_id: Seq<char>,
    fetched_sequence: i64,
) -> Result<EnvelopeView, WalletError> {
    match seed_of(source_secret_key) {
        None => Err(WalletError::SigningError),
        Some(seed) => match resolved(asset_code, asset_issuer_public_key) {
            Err(e) => Err(e),
            Ok(asset) => if account_of(fetched_account_id) != Some(seed.account()) {
                Err(WalletError::FetchError)
            } else {
                match assembled_from(
                    seed.account(),
                    destination_public_key,
                    asset,
                    amount,
                    network_passphrase,
                    fetched_sequence,
                ) {
                    Err(e) => Err(e),
                    Ok(unsigned) => signed_with(unsigned, seed, network_passphrase),
                }
            },
        },
    }
}

impl StellarWalletTools {
    /// Generates a new key pair with its seed phrase; see
    /// [`crate::keygen::generate_key_pair`].
    pub fn generate_key_pair() -> (pair: Result<StellarKeyPair, WalletError>)
        ensures
            match pair {
                Ok(p) => {
                    &&& p.is_derived_from(p.mnemonic_phrase@)
                    &&& p.wf()
                    &&& p.is_usable()
                    &&& p.mnemonic_phrase@.len() > 0
                },
                Err(e) => e == WalletError::EntropyError || e == WalletError::DerivationError,
            },
    {
        crate::keygen::generate_key_pair()
    }

    /// Builds, signs and encodes the payment of `amount` of an asset from
    /// the account of `source_secret_key` to `destination_public_key`.
    ///
    /// `source_account` is the state of the source account as the network
    /// reported it just now; the transaction gets the sequence number after
    /// the one in it. Nothing is sent: the text returned is the signed
    /// envelope, ready for submission.
    ///
    /// Fails with `SigningError` where the secret key is malformed, with the
    /// asset resolver's errors, with `FetchError` where `source_account` is
    /// not the state of the source account, and with the assembler's errors;
    /// in this order.
    pub fn create_payment_transaction(
        source_secret_key: &str,
        destination_public_key: &str,
        amount: &str,
        asset_code: &str,
        asset_issuer_public_key: Option<&str>,
        network_passphrase: &str,
        source_account: &AccountState,
    ) -> (text: Result<String, WalletError>)
        ensures
            match text {
                Ok(t) => {
                    &&& payment_transaction(
                        source_secret_key@,
                        destination_public_key@,
                        amount@,
                        asset_code@,
                        text_of(asset_issuer_public_key),
                        network_passphrase@,
                        source_account.account_id@,
                        source_account.sequence_number,
                    ) matches Ok(e)
                    &&& t@ == ascii_text(encoded(e))
                    &&& e.sequence_number == source_account.sequence_number + 1
                    &&& e.operations.len() == 1
                    &&& e.signatures.len() == 1
                    &&& t@.len() > 0
                },
                Err(err) => payment_transaction(
                    source_secret_key@,
                    destination_public_key@,
                    amount@,
                    asset_code@,
                    text_of(asset_issuer_public_key),
                    network_passphrase@,
                    source_account.account_id@,
                    source_account.sequence_number,
                ) == Err::<EnvelopeView, WalletError>(err),
            },
    {
        let seed = match SecretSeed::parse(source_secret_key) {
            Some(seed) => seed,
            None => {
                return Err(WalletError::SigningError);
            },
        };
        let asset = match resolve(asset_code, asset_issuer_public_key) {
            Ok(asset) => asset,
            Err(e) => {
                return Err(e);
            },
        };
        let source: AccountId = seed.account_id();
        let fetched_is_source = match AccountId::parse(source_account.account_id.as_str()) {
            Some(fetched) => {
                let same = bytes_equal(fetched.key.as_slice(), source.key.as_slice());
                proof {
                    if same {
                        assert(fetched.key =~= source.key);
                    }
                }
                same
            },
            None => false,
        };
        if !fetched_is_source {
            return Err(WalletError::FetchError);
        }
        let unsigned = match assemble_from(
            source,
            destination_public_key,
            asset,
            amount,
            network_passphrase,
            source_account.sequence_number,
        ) {
            Ok(unsigned) => unsigned,
            Err(e) => {
                return Err(e);
            },
        };
        let signed = match sign_with(unsigned, &seed, network_passphrase) {
            Ok(signed) => signed,
            Err(e) => {
                return Err(e);
            },
        };
        match encode(&signed) {
            Ok(text) => Ok(text),
            Err(e) => Err(e),
        }
    }
}

/// A payment of the native asset from a derived or generated key pair
/// succeeds: with the pair's secret key, the state of the pair's own
/// account, a destination that is an account identifier, an amount that is
/// accepted and a fetched sequence number below the largest, the outcome is
/// an envelope with the number after the fetched one, one payment and one
/// signature.
pub proof fn lemma_native_payment_succeeds(
    pair: StellarKeyPair,
    destination_public_key: Seq<char>,
    amount: Seq<char>,
    asset_code: Seq<char>,
    asset_issuer_public_key: Option<Seq<char>>,
    network_passphrase: Seq<char>,
    fetched_sequence: i64,
)
    requires
        pair.is_usable(),
        is_native_code(vstd::utf8::encode_utf8(asset_code)),
        account_of(destination_public_key) is Some,
        amount_stroops(vstd::utf8::encode_utf8(amount)) is Some,
        fetched_sequence < MAX_SEQUENCE,
    ensures
        ({
            let out = payment_transaction(
                pair.secret_key@,
                destination_public_key,
                amount,
                asset_code,
                asset_issuer_public_key,
                network_passphrase,
                pair.public_key@,
                fetched_sequence,
            );
            &&& out is Ok
            &&& out->Ok_0.wf()
            &&& out->Ok_0.sequence_number == fetched_sequence + 1
            &&& out->Ok_0.operations.len() == 1
            &&& out->Ok_0.signatures.len() == 1
        }),
{
}

} // verus!
