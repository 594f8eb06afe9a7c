//! Text as bytes: the pipeline's formats are ASCII, and its contracts speak
//! of the bytes of a string.
use vstd::prelude::*;

verus! {

/// Appending one character to a `String` appends it to its view.
pub assume_specification[ String::push ](s: &mut String, c: char)
    ensures
        final(s)@ == old(s)@.push(c),
;

/// Every byte is below 128.
pub open spec fn all_ascii(bytes: Seq<u8>) -> bool {
    forall|i: int| 0 <= i < bytes.len() ==> #[trigger] bytes[i] < 128
}

/// The text whose characters are the given ASCII bytes.
pub open spec fn ascii_text(bytes: Seq<u8>) -> Seq<char> {
    Seq::new(bytes.len(), |i: int| bytes[i] as char)
}

/// The text made of ASCII bytes has exactly those bytes.
pub proof fn lemma_ascii_text_bytes(bytes: Seq<u8>)
    requires
        all_ascii(bytes),
    ensures
        vstd::utf8::is_ascii_chars(ascii_text(bytes)),
        vstd::utf8::encode_utf8(ascii_text(bytes)) == bytes,
{
    let t = ascii_text(bytes);
    assert forall|i: int| 0 <= i < t.len() implies 0 <= #[trigger] (t[i] as u32) < 128 by {
        assert(bytes[i] < 128);
    }
    vstd::utf8::is_ascii_chars_encode_utf8(t);
    assert(vstd::utf8::encode_utf8(t) =~= bytes);
}

/// Builds the string whose characters are the given ASCII bytes.
pub fn string_from_ascii(bytes: &[u8]) -> (text: String)
    requires
        all_ascii(bytes@),
    ensures
        text@ == ascii_text(bytes@),
        vstd::utf8::encode_utf8(text@) == bytes@,
{
    let mut text = String::new();
    let mut i: usize = 0;
    while i < bytes.len()
        invariant
            i <= bytes@.len(),
            all_ascii(bytes@),
            text@ == ascii_text(bytes@.subrange(0, i as int)),
        decreases bytes@.len() - i,
    {
        let b: u8 = bytes[i];
        assert(b < 128);
        text.push(b as char);
        proof {
            assert(text@ =~= ascii_text(bytes@.subrange(0, i + 1)));
        }
        i = i + 1;
    }
    proof {
        assert(bytes@.subrange(0, i as int) =~= bytes@);
        lemma_ascii_text_bytes(bytes@);
    }
    text
}

} // verus!
