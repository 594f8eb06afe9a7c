//! The ledger's canonical binary form of a transaction envelope: big-endian
//! integers, fixed-size keys, and unions led by a 32-bit discriminant.
use vstd::prelude::*;
use crate::asset::Asset;
use crate::strkey::AccountId;
use crate::transaction::{EnvelopeView, PaymentOperation, Signature, TransactionEnvelope};

verus! {

/// Discriminant of an Ed25519 key, in an account and in a muxed account.
pub const KEY_TYPE_ED25519: u32 = 0;

/// Discriminant of the native asset.
pub const ASSET_TYPE_NATIVE: u32 = 0;

/// Discriminant of an asset whose code has up to four bytes.
pub const ASSET_TYPE_CREDIT_ALPHANUM4: u32 = 1;

/// Discriminant of an asset whose code has five to twelve bytes.
pub const ASSET_TYPE_CREDIT_ALPHANUM12: u32 = 2;

/// Discriminant of a payment among the operations.
pub const OPERATION_PAYMENT: u32 = 1;

/// Discriminant of a transaction among the envelopes and signature payloads.
pub const ENVELOPE_TYPE_TX: u32 = 2;

/// Length of a signature, as written before its bytes.
pub const SIGNATURE_LEN: u32 = 64;

/// The four bytes of a 32-bit number, most significant first.
pub open spec fn be32(v: u32) -> Seq<u8> {
    seq![
        (v / 0x100_0000) as u8,
        ((v / 0x1_0000) % 0x100) as u8,
        ((v / 0x100) % 0x100) as u8,
        (v % 0x100) as u8,
    ]
}

/// The eight bytes of a 64-bit number, most significant first.
pub open spec fn be64(v: u64) -> Seq<u8> {
    be32((v / 0x1_0000_0000) as u32) + be32((v % 0x1_0000_0000) as u32)
}

/// The unsigned number with the same 64 bits as `v` in two's complement.
pub open spec fn twos_complement(v: i64) -> u64 {
    if v >= 0 {
        v as u64
    } else {
        (v + 0x1_0000_0000_0000_0000) as u64
    }
}

/// The eight bytes of a signed 64-bit number.
pub open spec fn be64_signed(v: i64) -> Seq<u8> {
    be64(twos_complement(v))
}

/// An account: the key type, then the key.
pub open spec fn xdr_account(account: AccountId) -> Seq<u8> {
    be32(KEY_TYPE_ED25519) + account.key@
}

/// An asset: its type and, for an issued asset, the code in four or twelve
/// bytes and the issuer.
pub open spec fn xdr_asset(asset: Asset) -> Seq<u8> {
    match asset {
        Asset::Native => be32(ASSET_TYPE_NATIVE),
        Asset::Credit { code, issuer } => if code.len <= 4 {
            be32(ASSET_TYPE_CREDIT_ALPHANUM4) + code.bytes@.subrange(0, 4) + xdr_account(issuer)
        } else {
            be32(ASSET_TYPE_CREDIT_ALPHANUM12) + code.bytes@ + xdr_account(issuer)
        },
    }
}

/// A payment operation: no source account of its own, the operation type,
/// the destination, the asset and the amount.
pub open spec fn xdr_operation(op: PaymentOperation) -> Seq<u8> {
    be32(0) + be32(OPERATION_PAYMENT) + xdr_account(op.destination) + xdr_asset(op.asset)
        + be64_signed(op.amount)
}

/// The operations one after another.
pub open spec fn xdr_operations(ops: Seq<PaymentOperation>) -> Seq<u8>
    decreases ops.len(),
{
    if ops.len() == 0 {
        Seq::empty()
    } else {
        xdr_operations(ops.drop_last()) + xdr_operation(ops.last())
    }
}

/// A decorated signature: the hint, then the signature with its length.
pub open spec fn xdr_signature(signature: Signature) -> Seq<u8> {
    signature.hint@ + be32(SIGNATURE_LEN) + signature.signature@
}

/// The signatures one after another.
pub open spec fn xdr_signatures(signatures: Seq<Signature>) -> Seq<u8>
    decreases signatures.len(),
{
    if signatures.len() == 0 {
        Seq::empty()
    } else {
        xdr_signatures(signatures.drop_last()) + xdr_signature(signatures.last())
    }
}

/// What precedes the operations of a transaction: source account, fee,
/// sequence number, no preconditions, no memo, and the number of operations.
pub open spec fn xdr_transaction_head(e: EnvelopeView) -> Seq<u8> {
    xdr_account(e.source_account) + be32(e.fee) + be64_signed(e.sequence_number) + be32(0) + be32(
        0,
    ) + be32(e.operations.len() as u32)
}

/// The transaction without its signatures. An empty extension ends it.
pub open spec fn xdr_transaction(e: EnvelopeView) -> Seq<u8> {
    xdr_transaction_head(e) + xdr_operations(e.operations) + be32(0)
}

/// The whole envelope: the envelope type, the transaction, the number of
/// signatures and the signatures.
pub open spec fn xdr_envelope(e: EnvelopeView) -> Seq<u8> {
    be32(ENVELOPE_TYPE_TX) + xdr_transaction(e) + be32(e.signatures.len() as u32) + xdr_signatures(
        e.signatures,
    )
}

/// What a signer hashes: the network's identifier, the envelope type and
/// the transaction.
pub open spec fn signature_payload(network_id: Seq<u8>, e: EnvelopeView) -> Seq<u8> {
    network_id + be32(ENVELOPE_TYPE_TX) + xdr_transaction(e)
}

/// Appends the four bytes of `v`.
pub fn put_u32(out: &mut Vec<u8>, v: u32)
    ensures
        final(out)@ == old(out)@ + be32(v),
{
    out.push((v / 0x100_0000) as u8);
    out.push(((v / 0x1_0000) % 0x100) as u8);
    out.push(((v / 0x100) % 0x100) as u8);
    out.push((v % 0x100) as u8);
    assert(out@ =~= old(out)@ + be32(v));
}

/// Appends the eight bytes of `v`.
pub fn put_u64(out: &mut Vec<u8>, v: u64)
    ensures
        final(out)@ == old(out)@ + be64(v),
{
    put_u32(out, (v / 0x1_0000_0000) as u32);
    put_u32(out, (v % 0x1_0000_0000) as u32);
    assert(out@ =~= old(out)@ + be64(v));
}

/// Appends the eight bytes of the signed number `v`.
pub fn put_i64(out: &mut Vec<u8>, v: i64)
    ensures
        final(out)@ == old(out)@ + be64_signed(v),
{
    let bits: u64 = if v >= 0 {
        v as u64
    } else {
        ((v - i64::MIN) as u64) + 0x8000_0000_0000_0000
    };
    put_u64(out, bits);
}

/// Appends an account.
pub fn put_account(out: &mut Vec<u8>, account: &AccountId)
    ensures
        final(out)@ == old(out)@ + xdr_account(*account),
{
    put_u32(out, KEY_TYPE_ED25519);
    out.extend_from_slice(account.key.as_slice());
    assert(out@ =~= old(out)@ + xdr_account(*account));
}

/// Appends an asset.
pub fn put_asset(out: &mut Vec<u8>, asset: &Asset)
    ensures
        final(out)@ == old(out)@ + xdr_asset(*asset),
{
    match asset {
        Asset::Native => {
            put_u32(out, ASSET_TYPE_NATIVE);
        },
        Asset::Credit { code, issuer } => {
            if code.len <= 4 {
                put_u32(out, ASSET_TYPE_CREDIT_ALPHANUM4);
                let ghost before = out@;
                let mut i: usize = 0;
                while i < 4
                    invariant
                        i <= 4,
                        out@ == before + code.bytes@.subrange(0, i as int),
                    decreases 4 - i,
                {
                    out.push(code.bytes[i]);
                    assert(out@ =~= before + code.bytes@.subrange(0, i + 1));
                    i = i + 1;
                }
            } else {
                put_u32(out, ASSET_TYPE_CREDIT_ALPHANUM12);
                out.extend_from_slice(code.bytes.as_slice());
            }
            put_account(out, issuer);
            assert(out@ =~= old(out)@ + xdr_asset(*asset));
        },
    }
}

/// Appends a payment operation.
pub fn put_operation(out: &mut Vec<u8>, op: &PaymentOperation)
    ensures
        final(out)@ == old(out)@ + xdr_operation(*op),
{
    put_u32(out, 0);
    put_u32(out, OPERATION_PAYMENT);
    put_account(out, &op.destination);
    put_asset(out, &op.asset);
    put_i64(out, op.amount);
    assert(out@ =~= old(out)@ + xdr_operation(*op));
}

/// Appends a decorated signature.
pub fn put_signature(out: &mut Vec<u8>, signature: &Signature)
    ensures
        final(out)@ == old(out)@ + xdr_signature(*signature),
{
    out.extend_from_slice(signature.hint.as_slice());
    put_u32(out, SIGNATURE_LEN);
    out.extend_from_slice(signature.signature.as_slice());
    assert(out@ =~= old(out)@ + xdr_signature(*signature));
}

/// Appends the transaction of an envelope, without the signatures.
pub fn put_transaction(out: &mut Vec<u8>, envelope: &TransactionEnvelope)
    requires
        envelope.operations@.len() <= u32::MAX,
    ensures
        final(out)@ == old(out)@ + xdr_transaction(envelope@),
{
    put_account(out, &envelope.source_account);
    put_u32(out, envelope.fee);
    put_i64(out, envelope.sequence_number);
    put_u32(out, 0);
    put_u32(out, 0);
    let n: usize = envelope.operations.len();
    put_u32(out, n as u32);
    assert(out@ =~= old(out)@ + xdr_transaction_head(envelope@));
    let ghost head = out@;
    let mut i: usize = 0;
    while i < n
        invariant
            i <= n == envelope.operations@.len(),
            out@ == head + xdr_operations(envelope.operations@.subrange(0, i as int)),
        decreases n - i,
    {
        let ghost done = envelope.operations@.subrange(0, i as int);
        let ghost next = envelope.operations@.subrange(0, i + 1);
        put_operation(out, &envelope.operations[i]);
        proof {
            assert(next.drop_last() =~= done);
            assert(next.last() == envelope.operations@[i as int]);
            assert(out@ =~= head + xdr_operations(next));
        }
        i = i + 1;
    }
    assert(envelope.operations@.subrange(0, n as int) =~= envelope.operations@);
    put_u32(out, 0);
    assert(out@ =~= old(out)@ + xdr_transaction(envelope@));
}

/// The canonical bytes of an envelope.
pub fn envelope_bytes(envelope: &TransactionEnvelope) -> (bytes: Vec<u8>)
    requires
        envelope.operations@.len() <= u32::MAX,
        envelope.signatures@.len() <= u32::MAX,
    ensures
        bytes@ == xdr_envelope(envelope@),
{
    let mut out: Vec<u8> = Vec::new();
    put_u32(&mut out, ENVELOPE_TYPE_TX);
    put_transaction(&mut out, envelope);
    let n: usize = envelope.signatures.len();
    put_u32(&mut out, n as u32);
    let ghost head = out@;
    assert(head =~= be32(ENVELOPE_TYPE_TX) + xdr_transaction(envelope@) + be32(n as u32));
    let mut i: usize = 0;
    while i < n
        invariant
            i <= n == envelope.signatures@.len(),
            out@ == head + xdr_signatures(envelope.signatures@.subrange(0, i as int)),
        decreases n - i,
    {
        let ghost done = envelope.signatures@.subrange(0, i as int);
        let ghost next = envelope.signatures@.subrange(0, i + 1);
        put_signature(&mut out, &envelope.signatures[i]);
        proof {
            assert(next.drop_last() =~= done);
            assert(next.last() == envelope.signatures@[i as int]);
            assert(out@ =~= head + xdr_signatures(next));
        }
        i = i + 1;
    }
    assert(envelope.signatures@.subrange(0, n as int) =~= envelope.signatures@);
    out
}

/// The bytes that a signer of the envelope hashes.
pub fn payload_bytes(network_id: &[u8; 32], envelope: &TransactionEnvelope) -> (bytes: Vec<u8>)
    requires
        envelope.operations@.len() <= u32::MAX,
    ensures
        bytes@ == signature_payload(network_id@, envelope@),
{
    let mut out: Vec<u8> = Vec::new();
    out.extend_from_slice(network_id.as_slice());
    put_u32(&mut out, ENVELOPE_TYPE_TX);
    put_transaction(&mut out, envelope);
    assert(out@ =~= signature_payload(network_id@, envelope@));
    out
}

} // verus!
