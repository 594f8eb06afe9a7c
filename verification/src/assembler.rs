//! Building the unsigned envelope of a single payment.
use vstd::prelude::*;
use crate::amount::{
    amount_stroops, is_digit, lemma_accepted_amounts_are_positive, parse_amount, written_stroops,
};
use crate::asset::Asset;
use crate::error::WalletError;
use crate::keygen::StellarKeyPair;
use crate::strkey::{account_of, AccountId};
use crate::transaction::{EnvelopeView, PaymentOperation, TransactionEnvelope, BASE_FEE};

verus! {

/// Largest sequence number that an account can hold.
pub const MAX_SEQUENCE: i64 = 0x7fff_ffff_ffff_ffff;

/// What [`assemble_from`] makes of its arguments. The checks come in this
/// order: amount, destination, asset, sequence number.
pub open spec fn assembled_from(
    source: AccountId,
    destination: Seq<char>,
    asset: Asset,
    amount: Seq<char>,
    network_identity: Seq<char>,
    current_sequence: i64,
) -> Result<EnvelopeView, WalletError> {
    match amount_stroops(vstd::utf8::encode_utf8(amount)) {
        None => Err(WalletError::InvalidAmountError),
        Some(stroops) => match account_of(destination) {
            None => Err(WalletError::InvalidDestinationError),
            Some(account) => if !asset.wf() {
                Err(WalletError::InvalidAssetError)
            } else if current_sequence >= MAX_SEQUENCE {
                Err(WalletError::SequenceOverflowError)
            } else {
                Ok(
                    EnvelopeView {
                        source_account: source,
                        fee: BASE_FEE,
                        sequence_number: (current_sequence + 1) as i64,
                        network_identity,
                        operations: seq![
                            PaymentOperation { destination: account, asset, amount: stroops },
                        ],
                        signatures: Seq::empty(),
                    },
                )
            },
        },
    }
}

/// What [`assemble`] makes of its arguments: the source's public key is
/// checked first, then the rest as in [`assembled_from`].
pub open spec fn assembled(
    source_public_key: Seq<char>,
    destination: Seq<char>,
    asset: Asset,
    amount: Seq<char>,
    network_identity: Seq<char>,
    current_sequence: i64,
) -> Result<EnvelopeView, WalletError> {
    match account_of(source_public_key) {
        None => Err(WalletError::InvalidAccountIdError),
        Some(source) => assembled_from(
            source,
            destination,
            asset,
            amount,
            network_identity,
            current_sequence,
        ),
    }
}

/// The view of an assembly's outcome.
pub open spec fn outcome_view(outcome: Result<TransactionEnvelope, WalletError>) -> Result<
    EnvelopeView,
    WalletError,
> {
    match outcome {
        Ok(envelope) => Ok(envelope@),
        Err(e) => Err(e),
    }
}

/// Assembles the unsigned envelope of one payment from `source`.
///
/// `current_sequence` is the sequence number that the account has used
/// last, as fetched: the envelope gets the number after it, and the caller
/// must not add one itself.
///
/// Fails with `InvalidAmountError` where `amount` is no positive decimal of
/// at most seven fractional digits within range, `InvalidDestinationError`
/// where `destination` is no account identifier, `InvalidAssetError` where
/// the asset is malformed, and `SequenceOverflowError` where
/// `current_sequence` is the largest number there is; in this order.
/// On success the envelope holds exactly one payment, the base fee and no
/// signature, and is well formed.
pub fn assemble_from(
    source: AccountId,
    destination: &str,
    asset: Asset,
    amount: &str,
    network_identity: &str,
    current_sequence: i64,
) -> (envelope: Result<TransactionEnvelope, WalletError>)
    ensures
        outcome_view(envelope) == assembled_from(
            source,
            destination@,
            asset,
            amount@,
            network_identity@,
            current_sequence,
        ),
        envelope matches Ok(e) ==> {
            &&& e@.wf()
            &&& e@.sequence_number == current_sequence + 1
            &&& e@.operations.len() == 1
            &&& e@.signatures.len() == 0
        },
{
    let stroops: i64 = match parse_amount(amount) {
        Ok(stroops) => stroops,
        Err(_) => {
            return Err(WalletError::InvalidAmountError);
        },
    };
    let account = match AccountId::parse(destination) {
        Some(account) => account,
        None => {
            return Err(WalletError::InvalidDestinationError);
        },
    };
    if !asset.is_well_formed() {
        return Err(WalletError::InvalidAssetError);
    }
    if current_sequence >= MAX_SEQUENCE {
        return Err(WalletError::SequenceOverflowError);
    }
    let mut operations: Vec<PaymentOperation> = Vec::new();
    operations.push(PaymentOperation { destination: account, asset, amount: stroops });
    let envelope = TransactionEnvelope {
        source_account: source,
        fee: BASE_FEE,
        sequence_number: current_sequence + 1,
        network_identity: network_identity.to_owned(),
        operations,
        signatures: Vec::new(),
    };
    proof {
        assert(envelope@.operations =~= seq![
            PaymentOperation { destination: account, asset, amount: stroops },
        ]);
        assert(envelope@.signatures =~= Seq::empty());
    }
    Ok(envelope)
}

/// Assembles the unsigned envelope of one payment from the account of a
/// key pair.
///
/// Fails with `InvalidAccountIdError` where the pair's public key is no
/// account identifier; everything else is as in [`assemble_from`].
pub fn assemble(
    source: &StellarKeyPair,
    destination: &str,
    asset: Asset,
    amount: &str,
    network_identity: &str,
    current_sequence: i64,
) -> (envelope: Result<TransactionEnvelope, WalletError>)
    ensures
        outcome_view(envelope) == assembled(
            source.public_key@,
            destination@,
            asset,
            amount@,
            network_identity@,
            current_sequence,
        ),
        envelope matches Ok(e) ==> {
            &&& e@.wf()
            &&& e@.sequence_number == current_sequence + 1
            &&& e@.operations.len() == 1
            &&& e@.signatures.len() == 0
        },
{
    match AccountId::parse(source.public_key.as_str()) {
        Some(account) => assemble_from(
            account,
            destination,
            asset,
            amount,
            network_identity,
            current_sequence,
        ),
        None => Err(WalletError::InvalidAccountIdError),
    }
}

/// Every envelope assembled on one fetched sequence number carries the
/// number after it: two assemblies on the same fetched number agree, and
/// neither can carry the fetched number itself again.
pub proof fn lemma_sequence_follows_fetch(
    source: AccountId,
    destination_a: Seq<char>,
    asset_a: Asset,
    amount_a: Seq<char>,
    destination_b: Seq<char>,
    asset_b: Asset,
    amount_b: Seq<char>,
    network_identity: Seq<char>,
    fetched: i64,
)
    requires
        assembled_from(source, destination_a, asset_a, amount_a, network_identity, fetched) is Ok,
        assembled_from(source, destination_b, asset_b, amount_b, network_identity, fetched) is Ok,
    ensures
        ({
            let a = assembled_from(
                source,
                destination_a,
                asset_a,
                amount_a,
                network_identity,
                fetched,
            )->Ok_0;
            let b = assembled_from(
                source,
                destination_b,
                asset_b,
                amount_b,
                network_identity,
                fetched,
            )->Ok_0;
            &&& a.sequence_number == fetched + 1
            &&& b.sequence_number == fetched + 1
            &&& a.sequence_number > fetched
        }),
{
}

/// An amount with a sign in front, or one that writes zero, never passes:
/// assembly ends in `InvalidAmountError`, whatever the other arguments.
pub proof fn lemma_amount_must_be_positive(
    source: AccountId,
    destination: Seq<char>,
    asset: Asset,
    amount: Seq<char>,
    network_identity: Seq<char>,
    current_sequence: i64,
)
    requires
        ({
            let s = vstd::utf8::encode_utf8(amount);
            (s.len() > 0 && !is_digit(s[0])) || written_stroops(s) == 0
        }),
    ensures
        assembled_from(source, destination, asset, amount, network_identity, current_sequence)
            == Err::<EnvelopeView, WalletError>(WalletError::InvalidAmountError),
{
    lemma_accepted_amounts_are_positive(vstd::utf8::encode_utf8(amount));
}

} // verus!
