//! The transaction envelope and what it carries.
use vstd::prelude::*;
use crate::asset::Asset;
use crate::strkey::AccountId;

verus! {

/// Fee offered for each operation, in stroops: the ledger's minimum.
pub const BASE_FEE: u32 = 100;

/// Most operations that one transaction may hold.
pub const MAX_OPERATIONS: usize = 100;

/// Most signatures that one envelope may hold.
pub const MAX_SIGNATURES: usize = 20;

/// A payment: so much of an asset, in stroops, to a destination.
#[derive(Clone, Copy, Debug, PartialEq, Eq)]
pub struct PaymentOperation {
    pub destination: AccountId,
    pub asset: Asset,
    pub amount: i64,
}

/// An Ed25519 signature with the hint that tells which key made it: the
/// last four bytes of the signer's public key.
#[derive(Clone, Copy, Debug, PartialEq, Eq)]
pub struct Signature {
    pub hint: [u8; 4],
    pub signature: [u8; 64],
}

/// A transaction with its signatures. It is signed once it holds at least
/// one signature; signatures are only ever appended.
#[derive(Clone, Debug, PartialEq, Eq)]
pub struct TransactionEnvelope {
    pub source_account: AccountId,
    pub fee: u32,
    pub sequence_number: i64,
    pub network_identity: String,
    pub operations: Vec<PaymentOperation>,
    pub signatures: Vec<Signature>,
}

/// What the network knows of an account when a transaction is built: the
/// account and the last sequence number that it has used.
#[derive(Clone, Debug, PartialEq, Eq)]
pub struct AccountState {
    pub account_id: String,
    pub sequence_number: i64,
}

/// The mathematical content of a [`TransactionEnvelope`].
pub struct EnvelopeView {
    pub source_account: AccountId,
    pub fee: u32,
    pub sequence_number: i64,
    pub network_identity: Seq<char>,
    pub operations: Seq<PaymentOperation>,
    pub signatures: Seq<Signature>,
}

impl PaymentOperation {
    /// The payment moves a positive amount of a well-formed asset.
    pub open spec fn wf(self) -> bool {
        self.asset.wf() && self.amount > 0
    }

    /// Whether the payment is well formed.
    pub fn is_well_formed(&self) -> (ok: bool)
        ensures
            ok == self.wf(),
    {
        self.asset.is_well_formed() && self.amount > 0
    }
}

/// Every payment of the sequence is well formed.
pub open spec fn operations_wf(operations: Seq<PaymentOperation>) -> bool {
    forall|i: int| 0 <= i < operations.len() ==> (#[trigger] operations[i]).wf()
}

impl EnvelopeView {
    /// The envelope has a wire form: one to a hundred well-formed payments
    /// and at most twenty signatures.
    pub open spec fn wf(self) -> bool {
        &&& 1 <= self.operations.len() <= MAX_OPERATIONS
        &&& operations_wf(self.operations)
        &&& self.signatures.len() <= MAX_SIGNATURES
    }

    /// The same envelope without its signatures.
    pub open spec fn unsigned(self) -> EnvelopeView {
        EnvelopeView { signatures: Seq::empty(), ..self }
    }

    /// The same envelope with one more signature at the end.
    pub open spec fn with_signature(self, signature: Signature) -> EnvelopeView {
        EnvelopeView { signatures: self.signatures.push(signature), ..self }
    }
}

impl View for TransactionEnvelope {
    type V = EnvelopeView;

    open spec fn view(&self) -> EnvelopeView {
        EnvelopeView {
            source_account: self.source_account,
            fee: self.fee,
            sequence_number: self.sequence_number,
            network_identity: self.network_identity@,
            operations: self.operations@,
            signatures: self.signatures@,
        }
    }
}

impl TransactionEnvelope {
    /// Whether the envelope has a wire form.
    pub fn is_well_formed(&self) -> (ok: bool)
        ensures
            ok == self@.wf(),
    {
        let n: usize = self.operations.len();
        if n < 1 || n > MAX_OPERATIONS || self.signatures.len() > MAX_SIGNATURES {
            return false;
        }
        let mut i: usize = 0;
        while i < n
            invariant
                i <= n == self.operations@.len(),
                forall|j: int| 0 <= j < i ==> (#[trigger] self.operations@[j]).wf(),
            decreases n - i,
        {
            if !self.operations[i].is_well_formed() {
                return false;
            }
            i = i + 1;
        }
        true
    }

    /// Whether the envelope holds at least one signature.
    pub fn is_signed(&self) -> (signed: bool)
        ensures
            signed == (self@.signatures.len() > 0),
    {
        self.signatures.len() > 0
    }
}

} // verus!
