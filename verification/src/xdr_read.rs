//! Reading an envelope back from its canonical bytes.
//!
//! The fields are taken from the places where the canonical form puts
//! them; nothing is checked but sizes. [`lemma_extract_envelope`] shows that
//! this undoes [`xdr_envelope`] on every well-formed envelope.
use vstd::prelude::*;
use crate::asset::{padded_code, Asset, AssetCode};
use crate::bytes::{array_of, get_bytes, lemma_array_of};
use crate::strkey::AccountId;
use crate::transaction::{
    operations_wf, EnvelopeView, PaymentOperation, Signature, TransactionEnvelope, MAX_OPERATIONS,
    MAX_SIGNATURES,
};
use crate::xdr::{
    be32, be64_signed, twos_complement, xdr_account, xdr_asset, xdr_envelope, xdr_operation,
    xdr_operations, xdr_signature, xdr_signatures, xdr_transaction_head,
    ASSET_TYPE_CREDIT_ALPHANUM12, ASSET_TYPE_CREDIT_ALPHANUM4, ASSET_TYPE_NATIVE,
    ENVELOPE_TYPE_TX, SIGNATURE_LEN,
};

verus! {

/// Bytes of a decorated signature on the wire.
pub const SIGNATURE_SIZE: usize = 72;

/// Bytes of an envelope before its first operation.
pub const HEAD_SIZE: usize = 64;

/// The 32-bit number whose bytes stand at `at`.
pub open spec fn u32_at(b: Seq<u8>, at: int) -> u32 {
    (b[at] * 0x100_0000 + b[at + 1] * 0x1_0000 + b[at + 2] * 0x100 + b[at + 3]) as u32
}

/// The 64-bit number whose bytes stand at `at`.
pub open spec fn u64_at(b: Seq<u8>, at: int) -> u64 {
    (u32_at(b, at) * 0x1_0000_0000 + u32_at(b, at + 4)) as u64
}

/// The signed number with the same 64 bits as `u` in two's complement.
pub open spec fn from_twos_complement(u: u64) -> i64 {
    if u < 0x8000_0000_0000_0000 {
        u as i64
    } else {
        (u - 0x1_0000_0000_0000_0000) as i64
    }
}

/// The signed 64-bit number whose bytes stand at `at`.
pub open spec fn i64_at(b: Seq<u8>, at: int) -> i64 {
    from_twos_complement(u64_at(b, at))
}

/// The account whose key type and key stand at `at`.
pub open spec fn account_at(b: Seq<u8>, at: int) -> AccountId {
    AccountId { key: array_of::<32>(b.subrange(at + 4, at + 36)) }
}

/// Length of the longest prefix of `s` without a zero byte.
pub open spec fn nonzero_run(s: Seq<u8>) -> nat
    decreases s.len(),
{
    if s.len() == 0 || s[0] == 0 {
        0
    } else {
        1 + nonzero_run(s.skip(1))
    }
}

/// The asset code that stands in the four or twelve bytes `s`.
pub open spec fn code_of(s: Seq<u8>) -> AssetCode {
    AssetCode { len: nonzero_run(s) as u8, bytes: array_of::<12>(padded_code(s)) }
}

/// The asset that stands at `at`, and where it ends.
pub open spec fn extract_asset(b: Seq<u8>, at: int) -> Option<(Asset, int)> {
    if at < 0 || at + 4 > b.len() {
        None
    } else if u32_at(b, at) == ASSET_TYPE_NATIVE {
        Some((Asset::Native, at + 4))
    } else if u32_at(b, at) == ASSET_TYPE_CREDIT_ALPHANUM4 && at + 44 <= b.len() {
        Some(
            (
                Asset::Credit {
                    code: code_of(b.subrange(at + 4, at + 8)),
                    issuer: account_at(b, at + 8),
                },
                at + 44,
            ),
        )
    } else if u32_at(b, at) == ASSET_TYPE_CREDIT_ALPHANUM12 && at + 52 <= b.len() {
        Some(
            (
                Asset::Credit {
                    code: code_of(b.subrange(at + 4, at + 16)),
                    issuer: account_at(b, at + 16),
                },
                at + 52,
            ),
        )
    } else {
        None
    }
}

/// The payment that stands at `at`, and where it ends.
pub open spec fn extract_operation(b: Seq<u8>, at: int) -> Option<(PaymentOperation, int)> {
    match extract_asset(b, at + 44) {
        Some((asset, p)) => if at >= 0 && p + 8 <= b.len() {
            Some(
                (
                    PaymentOperation {
                        destination: account_at(b, at + 8),
                        asset,
                        amount: i64_at(b, p),
                    },
                    p + 8,
                ),
            )
        } else {
            None
        },
        None => None,
    }
}

/// The `count` payments that stand one after another from `at`, and where
/// they end.
pub open spec fn extract_operations(b: Seq<u8>, at: int, count: nat) -> Option<
    (Seq<PaymentOperation>, int),
>
    decreases count,
{
    if count == 0 {
        Some((Seq::empty(), at))
    } else {
        match extract_operations(b, at, (count - 1) as nat) {
            Some((ops, p)) => match extract_operation(b, p) {
                Some((op, q)) => Some((ops.push(op), q)),
                None => None,
            },
            None => None,
        }
    }
}

/// The decorated signature that stands at `at`.
pub open spec fn signature_at(b: Seq<u8>, at: int) -> Signature {
    Signature {
        hint: array_of::<4>(b.subrange(at, at + 4)),
        signature: array_of::<64>(b.subrange(at + 8, at + 72)),
    }
}

/// The `count` signatures that stand one after another from `at`.
pub open spec fn signatures_at(b: Seq<u8>, at: int, count: nat) -> Seq<Signature> {
    Seq::new(count, |i: int| signature_at(b, at + 72 * i))
}

/// The envelope whose fields stand in `b` where the canonical form puts
/// them. `None` where `b` is too short or too long for what its counts
/// announce, or announces more than the form allows.
pub open spec fn extract_envelope(b: Seq<u8>, network_identity: Seq<char>) -> Option<EnvelopeView> {
    if b.len() < HEAD_SIZE || u32_at(b, 60) > MAX_OPERATIONS {
        None
    } else {
        match extract_operations(b, 64, u32_at(b, 60) as nat) {
            Some((operations, p)) => if p + 8 <= b.len() && u32_at(b, p + 4) <= MAX_SIGNATURES
                && p + 8 + 72 * u32_at(b, p + 4) == b.len() {
                Some(
                    EnvelopeView {
                        source_account: account_at(b, 4),
                        fee: u32_at(b, 40),
                        sequence_number: i64_at(b, 44),
                        network_identity,
                        operations,
                        signatures: signatures_at(b, p + 8, u32_at(b, p + 4) as nat),
                    },
                )
            } else {
                None
            },
            None => None,
        }
    }
}

/// The bytes of a number give the number back.
pub proof fn lemma_u32_at(b: Seq<u8>, at: int, v: u32)
    requires
        0 <= at,
        at + 4 <= b.len(),
        b.subrange(at, at + 4) == be32(v),
    ensures
        u32_at(b, at) == v,
{
    let s = b.subrange(at, at + 4);
    assert(s[0] == b[at] && s[1] == b[at + 1] && s[2] == b[at + 2] && s[3] == b[at + 3]);
    let w = v as int;
    let q1 = w / 0x100;
    let q2 = w / 0x1_0000;
    let q3 = w / 0x100_0000;
    assert(q2 == q1 / 0x100);
    assert(q3 == q2 / 0x100);
}

/// Two's complement and back is the identity.
pub proof fn lemma_twos_complement(v: i64)
    ensures
        from_twos_complement(twos_complement(v)) == v,
{
}

/// The bytes of a signed number give the number back.
pub proof fn lemma_i64_at(b: Seq<u8>, at: int, v: i64)
    requires
        0 <= at,
        at + 8 <= b.len(),
        b.subrange(at, at + 8) == be64_signed(v),
    ensures
        i64_at(b, at) == v,
{
    let u = twos_complement(v);
    let hi = (u / 0x1_0000_0000) as u32;
    let lo = (u % 0x1_0000_0000) as u32;
    let s = b.subrange(at, at + 8);
    assert(s == be32(hi) + be32(lo));
    assert(b.subrange(at, at + 4) =~= s.subrange(0, 4));
    assert(s.subrange(0, 4) =~= be32(hi));
    assert(b.subrange(at + 4, at + 8) =~= s.subrange(4, 8));
    assert(s.subrange(4, 8) =~= be32(lo));
    lemma_u32_at(b, at, hi);
    lemma_u32_at(b, at + 4, lo);
    lemma_twos_complement(v);
}

/// The bytes of an account give the account back.
pub proof fn lemma_account_at(b: Seq<u8>, at: int, account: AccountId)
    requires
        0 <= at,
        at + 36 <= b.len(),
        b.subrange(at, at + 36) == xdr_account(account),
    ensures
        account_at(b, at) == account,
{
    let s = b.subrange(at, at + 36);
    assert(b.subrange(at + 4, at + 36) =~= s.subrange(4, 36));
    assert(s.subrange(4, 36) =~= account.key@);
    lemma_array_of::<32>(account.key);
}

/// Where the bytes without zero stop, the run stops.
pub proof fn lemma_nonzero_run_is(s: Seq<u8>, n: int)
    requires
        0 <= n <= s.len(),
        forall|i: int| 0 <= i < n ==> #[trigger] s[i] != 0,
        n < s.len() ==> s[n] == 0,
    ensures
        nonzero_run(s) == n,
    decreases n,
{
    if n > 0 {
        let t = s.skip(1);
        assert forall|i: int| 0 <= i < n - 1 implies #[trigger] t[i] != 0 by {
            assert(t[i] == s[i + 1]);
        }
        lemma_nonzero_run_is(t, n - 1);
    }
}

/// The number of bytes that an asset takes on the wire.
pub open spec fn asset_size(asset: Asset) -> int {
    match asset {
        Asset::Native => 4,
        Asset::Credit { code, issuer } => if code.len <= 4 {
            44
        } else {
            52
        },
    }
}

/// The canonical form of an asset has the size of the asset.
pub proof fn lemma_asset_size(asset: Asset)
    ensures
        xdr_asset(asset).len() == asset_size(asset),
{
}

/// The bytes of a well-formed asset give the asset back.
#[verifier::rlimit(50)]
pub proof fn lemma_extract_asset(b: Seq<u8>, at: int, asset: Asset)
    requires
        asset.wf(),
        0 <= at,
        at + asset_size(asset) <= b.len(),
        b.subrange(at, at + asset_size(asset)) == xdr_asset(asset),
    ensures
        extract_asset(b, at) == Some((asset, at + asset_size(asset))),
{
    let n = asset_size(asset);
    let s = b.subrange(at, at + n);
    match asset {
        Asset::Native => {
            assert(b.subrange(at, at + 4) =~= s);
            lemma_u32_at(b, at, ASSET_TYPE_NATIVE);
        },
        Asset::Credit { code, issuer } => {
            assert(b.subrange(at, at + 4) =~= s.subrange(0, 4));
            if code.len <= 4 {
                assert(s.subrange(0, 4) =~= be32(ASSET_TYPE_CREDIT_ALPHANUM4));
                lemma_u32_at(b, at, ASSET_TYPE_CREDIT_ALPHANUM4);
                let c = b.subrange(at + 4, at + 8);
                assert(c =~= s.subrange(4, 8));
                assert(s.subrange(4, 8) =~= code.bytes@.subrange(0, 4));
                assert forall|i: int| 0 <= i < code.len implies #[trigger] c[i] != 0 by {
                    assert(c[i] == code.bytes@[i]);
                }
                if code.len < 4 {
                    assert(c[code.len as int] == code.bytes@[code.len as int]);
                }
                lemma_nonzero_run_is(c, code.len as int);
                assert(padded_code(c) =~= code.bytes@);
                lemma_array_of::<12>(code.bytes);
                assert(b.subrange(at + 8, at + 44) =~= s.subrange(8, 44));
                assert(s.subrange(8, 44) =~= xdr_account(issuer));
                lemma_account_at(b, at + 8, issuer);
            } else {
                assert(s.subrange(0, 4) =~= be32(ASSET_TYPE_CREDIT_ALPHANUM12));
                lemma_u32_at(b, at, ASSET_TYPE_CREDIT_ALPHANUM12);
                let c = b.subrange(at + 4, at + 16);
                assert(c =~= s.subrange(4, 16));
                assert(s.subrange(4, 16) =~= code.bytes@);
                assert forall|i: int| 0 <= i < code.len implies #[trigger] c[i] != 0 by {
                    assert(c[i] == code.bytes@[i]);
                }
                if code.len < 12 {
                    assert(c[code.len as int] == code.bytes@[code.len as int]);
                }
                lemma_nonzero_run_is(c, code.len as int);
                assert(padded_code(c) =~= code.bytes@);
                lemma_array_of::<12>(code.bytes);
                assert(b.subrange(at + 16, at + 52) =~= s.subrange(16, 52));
                assert(s.subrange(16, 52) =~= xdr_account(issuer));
                lemma_account_at(b, at + 16, issuer);
            }
        },
    }
}

/// The number of bytes that a payment takes on the wire.
pub open spec fn operation_size(op: PaymentOperation) -> int {
    52 + asset_size(op.asset)
}

/// The bytes of a well-formed payment give the payment back.
#[verifier::rlimit(50)]
pub proof fn lemma_extract_operation(b: Seq<u8>, at: int, op: PaymentOperation)
    requires
        op.wf(),
        0 <= at,
        at + operation_size(op) <= b.len(),
        b.subrange(at, at + operation_size(op)) == xdr_operation(op),
    ensures
        xdr_operation(op).len() == operation_size(op),
        extract_operation(b, at) == Some((op, at + operation_size(op))),
{
    let n = operation_size(op);
    let a = asset_size(op.asset);
    lemma_asset_size(op.asset);
    let s = b.subrange(at, at + n);
    assert(b.subrange(at + 8, at + 44) =~= s.subrange(8, 44));
    assert(s.subrange(8, 44) =~= xdr_account(op.destination));
    lemma_account_at(b, at + 8, op.destination);
    assert(b.subrange(at + 44, at + 44 + a) =~= s.subrange(44, 44 + a));
    assert(s.subrange(44, 44 + a) =~= xdr_asset(op.asset));
    lemma_extract_asset(b, at + 44, op.asset);
    assert(b.subrange(at + 44 + a, at + 52 + a) =~= s.subrange(44 + a, 52 + a));
    assert(s.subrange(44 + a, 52 + a) =~= be64_signed(op.amount));
    lemma_i64_at(b, at + 44 + a, op.amount);
}

/// The canonical form of a payment has the size of the payment.
pub proof fn lemma_operation_size(op: PaymentOperation)
    ensures
        xdr_operation(op).len() == operation_size(op),
{
    lemma_asset_size(op.asset);
}

/// The bytes of well-formed payments give the payments back.
#[verifier::rlimit(50)]
pub proof fn lemma_extract_operations(b: Seq<u8>, at: int, ops: Seq<PaymentOperation>)
    requires
        operations_wf(ops),
        0 <= at,
        at + xdr_operations(ops).len() <= b.len(),
        b.subrange(at, at + xdr_operations(ops).len()) == xdr_operations(ops),
    ensures
        extract_operations(b, at, ops.len()) == Some((ops, at + xdr_operations(ops).len())),
    decreases ops.len(),
{
    if ops.len() > 0 {
        let front = ops.drop_last();
        let last = ops.last();
        let f = xdr_operations(front).len() as int;
        let n = xdr_operations(ops).len() as int;
        lemma_operation_size(last);
        let s = b.subrange(at, at + n);
        assert(s == xdr_operations(front) + xdr_operation(last));
        assert(b.subrange(at, at + f) =~= s.subrange(0, f));
        assert(s.subrange(0, f) =~= xdr_operations(front));
        assert forall|i: int| 0 <= i < front.len() implies (#[trigger] front[i]).wf() by {
            assert(front[i] == ops[i]);
        }
        lemma_extract_operations(b, at, front);
        assert(b.subrange(at + f, at + n) =~= s.subrange(f, n));
        assert(s.subrange(f, n) =~= xdr_operation(last));
        lemma_extract_operation(b, at + f, last);
        assert(front.push(last) =~= ops);
    } else {
        assert(ops =~= Seq::empty());
    }
}

/// Signatures take 72 bytes each on the wire.
pub proof fn lemma_signatures_size(signatures: Seq<Signature>)
    ensures
        xdr_signatures(signatures).len() == 72 * signatures.len(),
    decreases signatures.len(),
{
    if signatures.len() > 0 {
        lemma_signatures_size(signatures.drop_last());
    }
}

/// Each signature stands at its place in the canonical form of a sequence
/// of signatures.
pub proof fn lemma_signature_place(signatures: Seq<Signature>, i: int)
    requires
        0 <= i < signatures.len(),
    ensures
        xdr_signatures(signatures).len() == 72 * signatures.len(),
        xdr_signatures(signatures).subrange(72 * i, 72 * i + 72) == xdr_signature(signatures[i]),
    decreases signatures.len(),
{
    lemma_signatures_size(signatures);
    let front = signatures.drop_last();
    lemma_signatures_size(front);
    let whole = xdr_signatures(signatures);
    assert(whole == xdr_signatures(front) + xdr_signature(signatures.last()));
    if i == signatures.len() - 1 {
        assert(whole.subrange(72 * i, 72 * i + 72) =~= xdr_signature(signatures.last()));
    } else {
        lemma_signature_place(front, i);
        assert(whole.subrange(72 * i, 72 * i + 72) =~= xdr_signatures(front).subrange(
            72 * i,
            72 * i + 72,
        ));
        assert(front[i] == signatures[i]);
    }
}

/// The bytes of signatures give the signatures back.
#[verifier::rlimit(50)]
pub proof fn lemma_signatures_at(b: Seq<u8>, at: int, signatures: Seq<Signature>)
    requires
        0 <= at,
        at + 72 * signatures.len() <= b.len(),
        b.subrange(at, at + 72 * signatures.len()) == xdr_signatures(signatures),
    ensures
        signatures_at(b, at, signatures.len()) == signatures,
{
    let got = signatures_at(b, at, signatures.len());
    let s = b.subrange(at, at + 72 * signatures.len());
    assert forall|i: int| 0 <= i < signatures.len() implies got[i] == signatures[i] by {
        lemma_signature_place(signatures, i);
        let q = at + 72 * i;
        let one = s.subrange(72 * i, 72 * i + 72);
        assert(one == signatures[i].hint@ + be32(SIGNATURE_LEN) + signatures[i].signature@);
        assert(b.subrange(q, q + 4) =~= one.subrange(0, 4));
        assert(one.subrange(0, 4) =~= signatures[i].hint@);
        assert(b.subrange(q + 8, q + 72) =~= one.subrange(8, 72));
        assert(one.subrange(8, 72) =~= signatures[i].signature@);
        lemma_array_of::<4>(signatures[i].hint);
        lemma_array_of::<64>(signatures[i].signature);
    }
    assert(got =~= signatures);
}

/// Where the parts of an envelope stand in its canonical bytes.
#[verifier::rlimit(50)]
pub proof fn lemma_envelope_layout(e: EnvelopeView)
    ensures
        ({
            let b = xdr_envelope(e);
            let p = 64 + xdr_operations(e.operations).len() as int;
            let end = p + 8 + 72 * e.signatures.len() as int;
            &&& b.len() == end
            &&& b.subrange(4, 40) == xdr_account(e.source_account)
            &&& b.subrange(40, 44) == be32(e.fee)
            &&& b.subrange(44, 52) == be64_signed(e.sequence_number)
            &&& b.subrange(60, 64) == be32(e.operations.len() as u32)
            &&& b.subrange(64, p) == xdr_operations(e.operations)
            &&& b.subrange(p + 4, p + 8) == be32(e.signatures.len() as u32)
            &&& b.subrange(p + 8, end) == xdr_signatures(e.signatures)
        }),
{
    let b = xdr_envelope(e);
    let a = xdr_account(e.source_account);
    let ops = xdr_operations(e.operations);
    let sigs = xdr_signatures(e.signatures);
    let p = 64 + ops.len() as int;
    let end = p + 8 + 72 * e.signatures.len() as int;
    lemma_signatures_size(e.signatures);
    let head = xdr_transaction_head(e);
    assert(a.len() == 36);
    assert(head.len() == 60);
    let tx = head + ops + be32(0);
    assert(b == be32(ENVELOPE_TYPE_TX) + tx + be32(e.signatures.len() as u32) + sigs);
    assert(b.len() == end);
    assert(b.subrange(4, 64) =~= head);
    assert(b.subrange(4, 40) =~= head.subrange(0, 36));
    assert(head.subrange(0, 36) =~= a);
    assert(b.subrange(40, 44) =~= head.subrange(36, 40));
    assert(head.subrange(36, 40) =~= be32(e.fee));
    assert(b.subrange(44, 52) =~= head.subrange(40, 48));
    assert(head.subrange(40, 48) =~= be64_signed(e.sequence_number));
    assert(b.subrange(60, 64) =~= head.subrange(56, 60));
    assert(head.subrange(56, 60) =~= be32(e.operations.len() as u32));
    assert(b.subrange(64, p) =~= ops);
    assert(b.subrange(p + 4, p + 8) =~= be32(e.signatures.len() as u32));
    assert(b.subrange(p + 8, end) =~= sigs);
}

/// The canonical bytes of a well-formed envelope give the envelope back.
#[verifier::rlimit(50)]
pub proof fn lemma_extract_envelope(e: EnvelopeView)
    requires
        e.wf(),
    ensures
        extract_envelope(xdr_envelope(e), e.network_identity) == Some(e),
{
    let b = xdr_envelope(e);
    let n = e.operations.len() as u32;
    let m = e.signatures.len() as u32;
    let p = 64 + xdr_operations(e.operations).len() as int;
    lemma_envelope_layout(e);
    lemma_account_at(b, 4, e.source_account);
    lemma_u32_at(b, 40, e.fee);
    lemma_i64_at(b, 44, e.sequence_number);
    lemma_u32_at(b, 60, n);
    lemma_extract_operations(b, 64, e.operations);
    lemma_u32_at(b, p + 4, m);
    lemma_signatures_at(b, p + 8, e.signatures);
    assert(u32_at(b, 60) as nat == e.operations.len());
    assert(u32_at(b, p + 4) as nat == e.signatures.len());
    assert(extract_operations(b, 64, u32_at(b, 60) as nat) == Some((e.operations, p)));
    assert(signatures_at(b, p + 8, u32_at(b, p + 4) as nat) == e.signatures);
}

/// Reads the 32-bit number at `at`.
pub fn get_u32(b: &[u8], at: usize) -> (v: u32)
    requires
        at + 4 <= b@.len(),
    ensures
        v == u32_at(b@, at as int),
{
    (b[at] as u32) * 0x100_0000 + (b[at + 1] as u32) * 0x1_0000 + (b[at + 2] as u32) * 0x100 + (
    b[at + 3] as u32)
}

/// Reads the signed 64-bit number at `at`.
pub fn get_i64(b: &[u8], at: usize) -> (v: i64)
    requires
        at + 8 <= b@.len(),
    ensures
        v == i64_at(b@, at as int),
{
    let total: usize = b.len();
    let hi: u64 = get_u32(b, at) as u64;
    let lo: u64 = get_u32(b, at + 4) as u64;
    let u: u64 = hi * 0x1_0000_0000 + lo;
    if u < 0x8000_0000_0000_0000 {
        u as i64
    } else {
        ((u - 0x8000_0000_0000_0000) as i64) + i64::MIN
    }
}

/// Reads the account at `at`.
pub fn get_account(b: &[u8], at: usize) -> (account: AccountId)
    requires
        at + 36 <= b@.len(),
    ensures
        account == account_at(b@, at as int),
{
    let total: usize = b.len();
    AccountId { key: get_bytes::<32>(b, at + 4) }
}

/// Reads the asset code that stands in the `n` bytes at `at`.
pub fn get_code(b: &[u8], at: usize, n: usize) -> (code: AssetCode)
    requires
        n <= 12,
        at + n <= b@.len(),
    ensures
        code == code_of(b@.subrange(at as int, at + n)),
{
    let ghost s = b@.subrange(at as int, at + n);
    let total: usize = b.len();
    let mut bytes: [u8; 12] = [0u8; 12];
    let mut i: usize = 0;
    while i < n
        invariant
            i <= n <= 12,
            at + n <= b@.len() == total,
            forall|j: int| 0 <= j < i ==> bytes@[j] == b@[at + j],
            forall|j: int| i <= j < 12 ==> bytes@[j] == 0,
        decreases n - i,
    {
        bytes[i] = b[at + i];
        i = i + 1;
    }
    let mut len: usize = 0;
    while len < n && b[at + len] != 0
        invariant
            len <= n <= 12,
            at + n <= b@.len() == total,
            s == b@.subrange(at as int, at + n),
            forall|j: int| 0 <= j < len ==> #[trigger] s[j] != 0,
        decreases n - len,
    {
        len = len + 1;
    }
    proof {
        lemma_nonzero_run_is(s, len as int);
        assert(bytes@ =~= padded_code(s));
        lemma_array_of::<12>(bytes);
    }
    AssetCode { len: len as u8, bytes }
}

/// Reads the asset at `at`; see [`extract_asset`].
pub fn get_asset(b: &[u8], at: usize) -> (found: Option<(Asset, usize)>)
    ensures
        match extract_asset(b@, at as int) {
            Some((asset, p)) => found == Some((asset, p as usize)) && at <= p <= b@.len(),
            None => found is None,
        },
{
    let n: usize = b.len();
    if n < 4 || at > n - 4 {
        return None;
    }
    let kind: u32 = get_u32(b, at);
    if kind == ASSET_TYPE_NATIVE {
        Some((Asset::Native, at + 4))
    } else if kind == ASSET_TYPE_CREDIT_ALPHANUM4 && n - at >= 44 {
        Some((Asset::Credit { code: get_code(b, at + 4, 4), issuer: get_account(b, at + 8) }, at + 44))
    } else if kind == ASSET_TYPE_CREDIT_ALPHANUM12 && n - at >= 52 {
        Some(
            (Asset::Credit { code: get_code(b, at + 4, 12), issuer: get_account(b, at + 16) }, at + 52),
        )
    } else {
        None
    }
}

/// Reads the payment at `at`; see [`extract_operation`].
pub fn get_operation(b: &[u8], at: usize) -> (found: Option<(PaymentOperation, usize)>)
    ensures
        match extract_operation(b@, at as int) {
            Some((op, p)) => found == Some((op, p as usize)) && at <= p <= b@.len(),
            None => found is None,
        },
{
    let n: usize = b.len();
    if n < 44 || at > n - 44 {
        return None;
    }
    match get_asset(b, at + 44) {
        Some((asset, p)) => {
            if n - p < 8 {
                return None;
            }
            let op = PaymentOperation {
                destination: get_account(b, at + 8),
                asset,
                amount: get_i64(b, p),
            };
            Some((op, p + 8))
        },
        None => None,
    }
}

/// Once a payment cannot be read, no longer run of payments can.
pub proof fn lemma_extract_operations_stops(b: Seq<u8>, at: int, k: nat, count: nat)
    requires
        k <= count,
        extract_operations(b, at, k) is None,
    ensures
        extract_operations(b, at, count) is None,
    decreases count,
{
    if k < count {
        lemma_extract_operations_stops(b, at, k, (count - 1) as nat);
    }
}

/// Reads the envelope that stands in `b`; see [`extract_envelope`].
#[verifier::rlimit(50)]
pub fn get_envelope(b: &[u8], network_identity: &str) -> (found: Option<TransactionEnvelope>)
    ensures
        match extract_envelope(b@, network_identity@) {
            Some(e) => found matches Some(f) && f@ == e,
            None => found is None,
        },
{
    let n: usize = b.len();
    if n < HEAD_SIZE {
        return None;
    }
    let count: u32 = get_u32(b, 60);
    if count as usize > MAX_OPERATIONS {
        return None;
    }
    let mut operations: Vec<PaymentOperation> = Vec::new();
    let mut at: usize = 64;
    let mut i: usize = 0;
    while i < count as usize
        invariant
            i <= count <= MAX_OPERATIONS,
            count == u32_at(b@, 60),
            64 <= at <= n == b@.len(),
            extract_operations(b@, 64, i as nat) == Some((operations@, at as int)),
        decreases count - i,
    {
        let ghost read = operations@;
        let ghost from = at;
        assert(extract_operations(b@, 64, (i + 1) as nat) == match extract_operation(
            b@,
            from as int,
        ) {
            Some((op, q)) => Some((read.push(op), q)),
            None => None,
        });
        match get_operation(b, at) {
            Some((op, next)) => {
                operations.push(op);
                at = next;
            },
            None => {
                proof {
                    lemma_extract_operations_stops(b@, 64, (i + 1) as nat, count as nat);
                }
                return None;
            },
        }
        i = i + 1;
    }
    if n - at < 8 {
        return None;
    }
    let signed: u32 = get_u32(b, at + 4);
    if signed as usize > MAX_SIGNATURES {
        return None;
    }
    let start: usize = at + 8;
    if n - start != SIGNATURE_SIZE * (signed as usize) {
        return None;
    }
    let mut signatures: Vec<Signature> = Vec::new();
    let mut k: usize = 0;
    while k < signed as usize
        invariant
            k <= signed <= MAX_SIGNATURES,
            start + 72 * signed == n == b@.len(),
            signatures@ == signatures_at(b@, start as int, k as nat),
        decreases signed - k,
    {
        let q: usize = start + SIGNATURE_SIZE * k;
        let one = Signature { hint: get_bytes::<4>(b, q), signature: get_bytes::<64>(b, q + 8) };
        signatures.push(one);
        proof {
            assert(one == signature_at(b@, start + 72 * k));
            assert(signatures@ =~= signatures_at(b@, start as int, (k + 1) as nat));
        }
        k = k + 1;
    }
    let found = TransactionEnvelope {
        source_account: get_account(b, 4),
        fee: get_u32(b, 40),
        sequence_number: get_i64(b, 44),
        network_identity: network_identity.to_owned(),
        operations,
        signatures,
    };
    Some(found)
}

} // verus!
