//! The text form of an envelope: its canonical bytes in base64, and the way
//! back.
use vstd::prelude::*;
use vstd::string::StringSliceAdditionalSpecFns;
use crate::base64::{base64_decode, base64_encode, lemma_base64_is_ascii, lemma_base64_round_trip};
use crate::bytes::bytes_equal;
use crate::error::WalletError;
use crate::text::{ascii_text, string_from_ascii};
use crate::transaction::{EnvelopeView, TransactionEnvelope};
use crate::xdr::{envelope_bytes, xdr_envelope};
use crate::xdr_read::{extract_envelope, get_envelope, lemma_extract_envelope};

verus! {

/// The base64 text of an envelope, as ASCII bytes.
pub open spec fn encoded(e: EnvelopeView) -> Seq<u8> {
    base64_encode(xdr_envelope(e))
}

/// What [`decode_bytes`] owes for given bytes: an envelope is returned
/// exactly where the bytes are the canonical form of a well-formed
/// envelope, and it is that envelope.
pub open spec fn is_reading_of(
    out: Option<EnvelopeView>,
    bytes: Seq<u8>,
    network_identity: Seq<char>,
) -> bool {
    match out {
        Some(e) => e.wf() && e.network_identity == network_identity && xdr_envelope(e) == bytes,
        None => forall|v: EnvelopeView| v.wf() ==> xdr_envelope(v) != bytes,
    }
}

/// What [`decode`] owes for a given text: an envelope is returned exactly
/// where the text is the encoding of a well-formed envelope, and it is that
/// envelope.
pub open spec fn is_decoding_of(
    out: Option<EnvelopeView>,
    text: Seq<u8>,
    network_identity: Seq<char>,
) -> bool {
    match out {
        Some(e) => e.wf() && e.network_identity == network_identity && encoded(e) == text,
        None => forall|v: EnvelopeView| v.wf() ==> encoded(v) != text,
    }
}

/// The view of an optional envelope.
pub open spec fn option_view(out: Option<TransactionEnvelope>) -> Option<EnvelopeView> {
    match out {
        Some(e) => Some(e@),
        None => None,
    }
}

/// Two well-formed envelopes with the same canonical bytes and the same
/// network are the same envelope.
pub proof fn lemma_canonical_bytes_are_unique(a: EnvelopeView, b: EnvelopeView)
    requires
        a.wf(),
        b.wf(),
        xdr_envelope(a) == xdr_envelope(b),
        a.network_identity == b.network_identity,
    ensures
        a == b,
{
    lemma_extract_envelope(a);
    lemma_extract_envelope(b);
}

/// Two well-formed envelopes with the same text and the same network are
/// the same envelope.
pub proof fn lemma_encoding_is_unique(a: EnvelopeView, b: EnvelopeView)
    requires
        a.wf(),
        b.wf(),
        encoded(a) == encoded(b),
        a.network_identity == b.network_identity,
    ensures
        a == b,
{
    lemma_base64_round_trip(xdr_envelope(a));
    lemma_base64_round_trip(xdr_envelope(b));
    lemma_canonical_bytes_are_unique(a, b);
}

/// Decoding the text of a well-formed envelope gives back that envelope:
/// the source account, the sequence number, every payment with its
/// destination, asset and amount, and every signature.
pub proof fn lemma_decode_inverts_encode(e: EnvelopeView, out: Option<EnvelopeView>)
    requires
        e.wf(),
        is_decoding_of(out, encoded(e), e.network_identity),
    ensures
        out == Some(e),
{
    match out {
        Some(d) => {
            lemma_encoding_is_unique(d, e);
        },
        None => {
            assert(encoded(e) != encoded(e));
        },
    }
}

/// The text of an envelope is never empty.
pub proof fn lemma_encoded_is_not_empty(e: EnvelopeView)
    ensures
        encoded(e).len() > 0,
{
    let b = xdr_envelope(e);
    assert(b.len() >= 4);
    lemma_base64_round_trip(b);
    if encoded(e).len() == 0 {
        assert(base64_decode(encoded(e)) == Some(Seq::<u8>::empty()));
        assert(b =~= Seq::<u8>::empty());
    }
}

/// Encodes an envelope: its canonical bytes, in base64.
///
/// Fails with `EncodingError` exactly where the envelope is not well
/// formed. The text is ASCII and never empty.
pub fn encode(envelope: &TransactionEnvelope) -> (text: Result<String, WalletError>)
    ensures
        match text {
            Ok(t) => {
                &&& envelope@.wf()
                &&& t@ == ascii_text(encoded(envelope@))
                &&& vstd::utf8::encode_utf8(t@) == encoded(envelope@)
                &&& t@.len() > 0
            },
            Err(e) => e == WalletError::EncodingError && !envelope@.wf(),
        },
{
    if !envelope.is_well_formed() {
        return Err(WalletError::EncodingError);
    }
    let bytes: Vec<u8> = envelope_bytes(envelope);
    let symbols: Vec<u8> = crate::base64::encode(bytes.as_slice());
    proof {
        lemma_base64_is_ascii(bytes@);
        lemma_encoded_is_not_empty(envelope@);
    }
    Ok(string_from_ascii(symbols.as_slice()))
}

/// Reads an envelope back from its canonical bytes. The network's identity
/// is not part of the bytes: the envelope gets the one given here.
///
/// Returns the envelope exactly where the bytes are the canonical form of
/// a well-formed envelope.
#[verifier::rlimit(50)]
pub fn decode_bytes(bytes: &[u8], network_identity: &str) -> (out: Option<TransactionEnvelope>)
    ensures
        is_reading_of(option_view(out), bytes@, network_identity@),
{
    let found = get_envelope(bytes, network_identity);
    let ghost read = extract_envelope(bytes@, network_identity@);
    let envelope = match found {
        Some(envelope) => envelope,
        None => {
            proof {
                assert forall|v: EnvelopeView| v.wf() implies xdr_envelope(v) != bytes@ by {
                    lemma_extract_envelope(v);
                    if xdr_envelope(v) == bytes@ {
                        assert(extract_envelope(bytes@, v.network_identity) is Some);
                        assert(extract_envelope(bytes@, network_identity@) is Some);
                    }
                }
            }
            return None;
        },
    };
    let ok = envelope.is_well_formed();
    let same = ok && bytes_equal(envelope_bytes(&envelope).as_slice(), bytes);
    if same {
        Some(envelope)
    } else {
        proof {
            assert forall|v: EnvelopeView| v.wf() implies xdr_envelope(v) != bytes@ by {
                lemma_extract_envelope(v);
                if xdr_envelope(v) == bytes@ {
                    let w = extract_envelope(bytes@, v.network_identity);
                    assert(w == Some(v));
                    assert(v == EnvelopeView { network_identity: v.network_identity, ..envelope@ });
                    assert(v.wf() == envelope@.wf());
                    assert(xdr_envelope(v) == xdr_envelope(envelope@));
                }
            }
        }
        None
    }
}

/// Decodes the text of an envelope. The network's identity is not part of
/// the text: the envelope gets the one given here.
///
/// Returns the envelope exactly where the text is the encoding of a
/// well-formed envelope; by [`lemma_decode_inverts_encode`] this undoes
/// [`encode`].
#[verifier::rlimit(50)]
pub fn decode(text: &str, network_identity: &str) -> (out: Option<TransactionEnvelope>)
    ensures
        is_decoding_of(option_view(out), text.spec_bytes(), network_identity@),
{
    let symbols = text.as_bytes();
    let bytes: Vec<u8> = match crate::base64::decode(symbols) {
        Some(bytes) => bytes,
        None => {
            proof {
                assert forall|v: EnvelopeView| v.wf() implies encoded(v) != symbols@ by {
                    lemma_base64_round_trip(xdr_envelope(v));
                }
            }
            return None;
        },
    };
    let again: Vec<u8> = crate::base64::encode(bytes.as_slice());
    if !bytes_equal(again.as_slice(), symbols) {
        proof {
            assert forall|v: EnvelopeView| v.wf() implies encoded(v) != symbols@ by {
                lemma_base64_round_trip(xdr_envelope(v));
            }
        }
        return None;
    }
    match decode_bytes(bytes.as_slice(), network_identity) {
        Some(envelope) => Some(envelope),
        None => {
            proof {
                assert forall|v: EnvelopeView| v.wf() implies encoded(v) != symbols@ by {
                    lemma_base64_round_trip(xdr_envelope(v));
                }
            }
            None
        },
    }
}

} // verus!
