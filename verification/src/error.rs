//! The one error type that every step of the pipeline reports through.
use vstd::prelude::*;

verus! {

/// Why a step of the pipeline refused its input.
#[derive(Clone, Copy, Debug, PartialEq, Eq, Structural)]
pub enum WalletError {
    /// The operating system's random source gave no entropy.
    EntropyError,
    /// A seed phrase is not a valid mnemonic, or no key follows from it.
    DerivationError,
    /// A non-native asset came without an issuer, or its code is not one to
    /// twelve letters and digits.
    InvalidAssetError,
    /// An issuer, or the public key of a source, does not parse as an
    /// account identifier.
    InvalidAccountIdError,
    /// The account's state could not be fetched from the network.
    FetchError,
    /// An amount is not a positive decimal with at most seven fractional
    /// digits that fits the ledger's range.
    InvalidAmountError,
    /// A destination does not parse as an account identifier.
    InvalidDestinationError,
    /// The account's sequence number is already the largest one.
    SequenceOverflowError,
    /// The secret key is malformed, or nothing could be signed with it.
    SigningError,
    /// The envelope is structurally invalid and has no wire form.
    EncodingError,
}

impl WalletError {
    /// A short description of the error for display to a user.
    pub fn message(&self) -> (text: &'static str)
        ensures
            text@ == Self::message_of(*self)@,
    {
        match self {
            WalletError::EntropyError => "no entropy available",
            WalletError::DerivationError => "key derivation failed",
            WalletError::InvalidAssetError => "issuer key required for non-native asset",
            WalletError::InvalidAccountIdError => "invalid account id",
            WalletError::FetchError => "account lookup failed",
            WalletError::InvalidAmountError => "invalid amount",
            WalletError::InvalidDestinationError => "invalid destination account id",
            WalletError::SequenceOverflowError => "sequence number overflow",
            WalletError::SigningError => "signing failed",
            WalletError::EncodingError => "envelope cannot be encoded",
        }
    }

    /// The text that [`WalletError::message`] returns for each error.
    pub open spec fn message_of(e: WalletError) -> &'static str {
        match e {
            WalletError::EntropyError => "no entropy available",
            WalletError::DerivationError => "key derivation failed",
            WalletError::InvalidAssetError => "issuer key required for non-native asset",
            WalletError::InvalidAccountIdError => "invalid account id",
            WalletError::FetchError => "account lookup failed",
            WalletError::InvalidAmountError => "invalid amount",
            WalletError::InvalidDestinationError => "invalid destination account id",
            WalletError::SequenceOverflowError => "sequence number overflow",
            WalletError::SigningError => "signing failed",
            WalletError::EncodingError => "envelope cannot be encoded",
        }
    }
}

} // verus!
