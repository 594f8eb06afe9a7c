//! Key generation and single-payment transaction building for a Stellar
//! ledger account, with machine-checked contracts.
//!
//! The pipeline is linear: a key pair is derived from a seed phrase
//! ([`keygen`]); the asset and the amount of a payment are validated
//! ([`asset`], [`amount`]); an unsigned envelope is assembled
//! ([`assembler`]), signed ([`signer`]) and encoded ([`encoder`]) through its
//! canonical bytes ([`xdr`]) and base64 ([`base64`]). [`wallet`] runs the
//! steps end to end. Nothing here talks to the network: the state of the
//! source account is handed in.
//!
//! [`counter`] holds the rules of the counter contract, which the pipeline
//! does not use.
pub mod amount;
pub mod assembler;
pub mod asset;
pub mod base64;
pub mod bytes;
pub mod counter;
pub mod encoder;
pub mod error;
pub mod hashing;
pub mod keygen;
pub mod signer;
pub mod strkey;
pub mod text;
pub mod transaction;
pub mod wallet;
pub mod xdr;
pub mod xdr_read;

pub use counter::CounterContract;
pub use error::WalletError;
pub use keygen::StellarKeyPair;
pub use wallet::StellarWalletTools;
