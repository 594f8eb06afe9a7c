//! Base64 with the standard alphabet and `=` padding, as a pair of functions
//! on bytes that undo each other.
//!
//! The text of an envelope is this library's one output, and that decoding
//! gives the envelope back is part of what it promises. So both directions
//! are defined here, in a few lines each, and the round trip is proved
//! rather than taken on trust.
use vstd::prelude::*;

verus! {

/// The padding symbol, `=`.
pub const PAD: u8 = 0x3d;

/// The symbol that stands for the six-bit value `v`.
pub open spec fn symbol(v: int) -> u8 {
    if v < 26 {
        (0x41 + v) as u8
    } else if v < 52 {
        (0x61 + (v - 26)) as u8
    } else if v < 62 {
        (0x30 + (v - 52)) as u8
    } else if v == 62 {
        0x2bu8
    } else {
        0x2fu8
    }
}

/// The byte is a symbol of the alphabet.
pub open spec fn is_symbol(c: u8) -> bool {
    (0x41 <= c <= 0x5a) || (0x61 <= c <= 0x7a) || (0x30 <= c <= 0x39) || c == 0x2b || c == 0x2f
}

/// The six-bit value that a symbol stands for.
pub open spec fn symbol_value(c: u8) -> int {
    if 0x41 <= c <= 0x5a {
        c - 0x41
    } else if 0x61 <= c <= 0x7a {
        c - 0x61 + 26
    } else if 0x30 <= c <= 0x39 {
        c - 0x30 + 52
    } else if c == 0x2b {
        62
    } else {
        63
    }
}

/// The 24-bit number that three bytes make.
pub open spec fn bytes_number(a: u8, b: u8, c: u8) -> int {
    a * 0x1_0000 + b * 0x100 + c
}

/// The 24-bit number that four six-bit values make.
pub open spec fn sixes_number(v0: int, v1: int, v2: int, v3: int) -> int {
    v0 * 0x4_0000 + v1 * 0x1000 + v2 * 0x40 + v3
}

/// The four symbols of three bytes.
#[verifier::opaque]
pub open spec fn group_symbols(a: u8, b: u8, c: u8) -> Seq<u8> {
    let n = bytes_number(a, b, c);
    seq![
        symbol(n / 0x4_0000),
        symbol((n / 0x1000) % 0x40),
        symbol((n / 0x40) % 0x40),
        symbol(n % 0x40),
    ]
}

/// The three bytes of four symbols.
#[verifier::opaque]
pub open spec fn group_bytes(c0: u8, c1: u8, c2: u8, c3: u8) -> Seq<u8> {
    let n = sixes_number(symbol_value(c0), symbol_value(c1), symbol_value(c2), symbol_value(c3));
    seq![(n / 0x1_0000) as u8, ((n / 0x100) % 0x100) as u8, (n % 0x100) as u8]
}

/// The symbols of whole groups of three bytes. The length of `bytes` is a
/// multiple of three.
pub open spec fn encode_groups(bytes: Seq<u8>) -> Seq<u8>
    decreases bytes.len(),
{
    if bytes.len() < 3 {
        Seq::empty()
    } else {
        let n = bytes.len() as int;
        encode_groups(bytes.subrange(0, n - 3)) + group_symbols(
            bytes[n - 3],
            bytes[n - 2],
            bytes[n - 1],
        )
    }
}

/// The last group of an encoding: nothing for no byte, else four symbols
/// of which the last one or two are padding.
pub open spec fn encode_rest(rest: Seq<u8>) -> Seq<u8> {
    if rest.len() == 1 {
        let s = group_symbols(rest[0], 0, 0);
        seq![s[0], s[1], PAD, PAD]
    } else if rest.len() == 2 {
        let s = group_symbols(rest[0], rest[1], 0);
        seq![s[0], s[1], s[2], PAD]
    } else {
        Seq::empty()
    }
}

/// The base64 text of `bytes`, as ASCII bytes.
pub open spec fn base64_encode(bytes: Seq<u8>) -> Seq<u8> {
    let whole = bytes.len() - bytes.len() % 3;
    encode_groups(bytes.subrange(0, whole)) + encode_rest(
        bytes.subrange(whole, bytes.len() as int),
    )
}

/// Every byte of `text` is a symbol.
pub open spec fn all_symbols(text: Seq<u8>) -> bool {
    forall|i: int| 0 <= i < text.len() ==> is_symbol(#[trigger] text[i])
}

/// The bytes of whole groups of four symbols. The length of `text` is a
/// multiple of four.
pub open spec fn decode_groups(text: Seq<u8>) -> Seq<u8>
    decreases text.len(),
{
    if text.len() < 4 {
        Seq::empty()
    } else {
        let n = text.len() as int;
        decode_groups(text.subrange(0, n - 4)) + group_bytes(
            text[n - 4],
            text[n - 3],
            text[n - 2],
            text[n - 1],
        )
    }
}

/// The last group of a text is canonical: four symbols; or three symbols
/// and one padding, the unused bits zero; or two symbols and two paddings,
/// the unused bits zero.
pub open spec fn last_group_ok(g: Seq<u8>) -> bool {
    &&& g.len() == 4
    &&& is_symbol(g[0])
    &&& is_symbol(g[1])
    &&& if g[3] != PAD {
        is_symbol(g[2]) && is_symbol(g[3])
    } else if g[2] != PAD {
        is_symbol(g[2]) && symbol_value(g[2]) % 4 == 0
    } else {
        symbol_value(g[1]) % 16 == 0
    }
}

/// The bytes that a canonical last group stands for. In place of a
/// padding stands the symbol of zero, `A`.
pub open spec fn decode_last(g: Seq<u8>) -> Seq<u8> {
    if g[3] != PAD {
        group_bytes(g[0], g[1], g[2], g[3])
    } else if g[2] != PAD {
        group_bytes(g[0], g[1], g[2], 0x41).subrange(0, 2)
    } else {
        group_bytes(g[0], g[1], 0x41, 0x41).subrange(0, 1)
    }
}

/// The bytes that `text` is the base64 form of, where it is one: its length
/// is a multiple of four, all groups but the last are symbols, and the last
/// is canonical.
pub open spec fn base64_decode(text: Seq<u8>) -> Option<Seq<u8>> {
    let n = text.len() as int;
    if n % 4 != 0 {
        None
    } else if n == 0 {
        Some(Seq::empty())
    } else if all_symbols(text.subrange(0, n - 4)) && last_group_ok(text.subrange(n - 4, n)) {
        Some(decode_groups(text.subrange(0, n - 4)) + decode_last(text.subrange(n - 4, n)))
    } else {
        None
    }
}

/// Symbols and their values undo each other.
pub proof fn lemma_symbol_value(v: int)
    requires
        0 <= v < 64,
    ensures
        is_symbol(symbol(v)),
        symbol_value(symbol(v)) == v,
        symbol(v) != PAD,
        symbol(v) < 128,
{
}

/// A 24-bit number splits into four six-bit values that make it again.
pub proof fn lemma_split_sixes(n: int)
    requires
        0 <= n < 0x100_0000,
    ensures
        0 <= n / 0x4_0000 < 64,
        0 <= (n / 0x1000) % 0x40 < 64,
        0 <= (n / 0x40) % 0x40 < 64,
        0 <= n % 0x40 < 64,
        sixes_number(n / 0x4_0000, (n / 0x1000) % 0x40, (n / 0x40) % 0x40, n % 0x40) == n,
{
    let q1 = n / 0x40;
    let q2 = n / 0x1000;
    let q3 = n / 0x4_0000;
    assert(q2 == q1 / 0x40);
    assert(q3 == q2 / 0x40);
}

/// The number of three bytes splits into those bytes.
pub proof fn lemma_split_bytes(a: u8, b: u8, c: u8)
    ensures
        0 <= bytes_number(a, b, c) < 0x100_0000,
        bytes_number(a, b, c) / 0x1_0000 == a,
        (bytes_number(a, b, c) / 0x100) % 0x100 == b,
        bytes_number(a, b, c) % 0x100 == c,
{
    let n = bytes_number(a, b, c);
    assert(n / 0x100 == a * 0x100 + b);
}

/// The four symbols of three bytes: symbols all, none of them padding, and
/// their values make the number of the bytes.
#[verifier::rlimit(50)]
pub proof fn lemma_group_symbols(a: u8, b: u8, c: u8)
    ensures
        ({
            let s = group_symbols(a, b, c);
            let n = bytes_number(a, b, c);
            &&& s.len() == 4
            &&& is_symbol(s[0]) && is_symbol(s[1]) && is_symbol(s[2]) && is_symbol(s[3])
            &&& s[0] < 128 && s[1] < 128 && s[2] < 128 && s[3] < 128
            &&& s[0] != PAD && s[1] != PAD && s[2] != PAD && s[3] != PAD
            &&& symbol_value(s[0]) == n / 0x4_0000
            &&& symbol_value(s[1]) == (n / 0x1000) % 0x40
            &&& symbol_value(s[2]) == (n / 0x40) % 0x40
            &&& symbol_value(s[3]) == n % 0x40
        }),
{
    reveal(group_symbols);
    let n = bytes_number(a, b, c);
    lemma_split_bytes(a, b, c);
    lemma_split_sixes(n);
    lemma_symbol_value(n / 0x4_0000);
    lemma_symbol_value((n / 0x1000) % 0x40);
    lemma_symbol_value((n / 0x40) % 0x40);
    lemma_symbol_value(n % 0x40);
}

/// Three bytes come back from their four symbols.
pub proof fn lemma_group_round_trip(a: u8, b: u8, c: u8)
    ensures
        ({
            let s = group_symbols(a, b, c);
            group_bytes(s[0], s[1], s[2], s[3]) == seq![a, b, c]
        }),
{
    lemma_group_symbols(a, b, c);
    let s = group_symbols(a, b, c);
    let n = bytes_number(a, b, c);
    lemma_split_bytes(a, b, c);
    lemma_split_sixes(n);
    reveal(group_bytes);
    assert(sixes_number(
        symbol_value(s[0]),
        symbol_value(s[1]),
        symbol_value(s[2]),
        symbol_value(s[3]),
    ) == n);
    assert(group_bytes(s[0], s[1], s[2], s[3]) =~= seq![a, b, c]);
}

/// One more group of three bytes adds its four symbols.
pub proof fn lemma_encode_groups_push(bytes: Seq<u8>, a: u8, b: u8, c: u8)
    ensures
        encode_groups(bytes + seq![a, b, c]) == encode_groups(bytes) + group_symbols(a, b, c),
{
    let more = bytes + seq![a, b, c];
    let n = more.len() as int;
    assert(more.subrange(0, n - 3) =~= bytes);
    assert(more[n - 3] == a && more[n - 2] == b && more[n - 1] == c);
}

/// One more group of four symbols adds its three bytes.
pub proof fn lemma_decode_groups_push(text: Seq<u8>, c0: u8, c1: u8, c2: u8, c3: u8)
    ensures
        decode_groups(text + seq![c0, c1, c2, c3]) == decode_groups(text) + group_bytes(
            c0,
            c1,
            c2,
            c3,
        ),
{
    let more = text + seq![c0, c1, c2, c3];
    let n = more.len() as int;
    assert(more.subrange(0, n - 4) =~= text);
    assert(more[n - 4] == c0 && more[n - 3] == c1 && more[n - 2] == c2 && more[n - 1] == c3);
}

/// Four more symbols keep a text of symbols a text of symbols.
pub proof fn lemma_all_symbols_push(text: Seq<u8>, g: Seq<u8>)
    requires
        all_symbols(text),
        all_symbols(g),
    ensures
        all_symbols(text + g),
{
    let more = text + g;
    assert forall|i: int| 0 <= i < more.len() implies is_symbol(#[trigger] more[i]) by {
        if i < text.len() {
            assert(more[i] == text[i]);
        } else {
            assert(more[i] == g[i - text.len()]);
        }
    }
}

/// The symbols of whole groups: four for three bytes, symbols all, and the
/// bytes come back from them.
#[verifier::rlimit(50)]
pub proof fn lemma_groups_round_trip(bytes: Seq<u8>)
    requires
        bytes.len() % 3 == 0,
    ensures
        encode_groups(bytes).len() * 3 == bytes.len() * 4,
        all_symbols(encode_groups(bytes)),
        decode_groups(encode_groups(bytes)) == bytes,
    decreases bytes.len(),
{
    if bytes.len() >= 3 {
        let n = bytes.len() as int;
        let front = bytes.subrange(0, n - 3);
        let a = bytes[n - 3];
        let b = bytes[n - 2];
        let c = bytes[n - 1];
        let s = group_symbols(a, b, c);
        lemma_groups_round_trip(front);
        lemma_group_symbols(a, b, c);
        lemma_group_round_trip(a, b, c);
        assert(s =~= seq![s[0], s[1], s[2], s[3]]);
        assert(all_symbols(s));
        lemma_all_symbols_push(encode_groups(front), s);
        lemma_decode_groups_push(encode_groups(front), s[0], s[1], s[2], s[3]);
        assert(front + seq![a, b, c] =~= bytes);
    } else {
        assert(bytes =~= Seq::empty());
    }
}

/// The last group of an encoding is canonical and decodes to the bytes
/// that it was made from.
#[verifier::rlimit(50)]
pub proof fn lemma_rest_round_trip(rest: Seq<u8>)
    requires
        1 <= rest.len() <= 2,
    ensures
        encode_rest(rest).len() == 4,
        last_group_ok(encode_rest(rest)),
        decode_last(encode_rest(rest)) == rest,
        forall|i: int| 0 <= i < 4 ==> #[trigger] encode_rest(rest)[i] < 128,
{
    assert(symbol_value(0x41) == 0);
    if rest.len() == 1 {
        let a = rest[0];
        lemma_group_symbols(a, 0, 0);
        lemma_split_bytes(a, 0, 0);
        let n = bytes_number(a, 0, 0);
        lemma_split_sixes(n);
        let s = group_symbols(a, 0, 0);
        let g = seq![s[0], s[1], PAD, PAD];
        assert(encode_rest(rest) == g);
        assert(n == a * 0x1_0000);
        assert(n / 0x1000 == a * 16);
        assert((n / 0x40) % 0x40 == 0 && n % 0x40 == 0);
        assert(symbol_value(g[1]) % 16 == 0);
        assert(sixes_number(symbol_value(g[0]), symbol_value(g[1]), 0, 0) == n);
        reveal(group_bytes);
        assert(decode_last(g) =~= seq![a]);
        assert(rest =~= seq![a]);
    } else {
        let a = rest[0];
        let b = rest[1];
        lemma_group_symbols(a, b, 0);
        lemma_split_bytes(a, b, 0);
        let n = bytes_number(a, b, 0);
        lemma_split_sixes(n);
        let s = group_symbols(a, b, 0);
        let g = seq![s[0], s[1], s[2], PAD];
        assert(encode_rest(rest) == g);
        assert(n == (a * 0x100 + b) * 0x100);
        assert(n / 0x40 == (a * 0x100 + b) * 4);
        assert(n % 0x40 == 0);
        assert(symbol_value(g[2]) % 4 == 0);
        assert(sixes_number(symbol_value(g[0]), symbol_value(g[1]), symbol_value(g[2]), 0) == n);
        reveal(group_bytes);
        assert(decode_last(g) =~= seq![a, b]);
        assert(rest =~= seq![a, b]);
    }
}

/// A text that ends in a whole group decodes to the bytes of its groups.
#[verifier::rlimit(50)]
pub proof fn lemma_decode_whole(bytes: Seq<u8>)
    requires
        bytes.len() % 3 == 0,
    ensures
        base64_decode(encode_groups(bytes)) == Some(bytes),
{
    lemma_groups_round_trip(bytes);
    if bytes.len() > 0 {
        let len = bytes.len() as int;
        let a = bytes[len - 3];
        let b = bytes[len - 2];
        let c = bytes[len - 1];
        let inner = bytes.subrange(0, len - 3);
        let last = group_symbols(a, b, c);
        let text = encode_groups(bytes);
        let n = text.len() as int;
        lemma_groups_round_trip(inner);
        lemma_group_symbols(a, b, c);
        lemma_group_round_trip(a, b, c);
        assert(text == encode_groups(inner) + last);
        assert(text.subrange(0, n - 4) =~= encode_groups(inner));
        assert(text.subrange(n - 4, n) =~= last);
        assert(last_group_ok(last));
        assert(decode_last(last) == seq![a, b, c]);
        assert(inner + seq![a, b, c] =~= bytes);
    } else {
        assert(bytes =~= Seq::empty());
    }
}

/// A text that ends in a padded group decodes to the bytes of its groups
/// and of the padded group.
pub proof fn lemma_decode_padded(front: Seq<u8>, rest: Seq<u8>)
    requires
        front.len() % 3 == 0,
        1 <= rest.len() <= 2,
    ensures
        base64_decode(encode_groups(front) + encode_rest(rest)) == Some(front + rest),
{
    lemma_groups_round_trip(front);
    lemma_rest_round_trip(rest);
    let body = encode_groups(front);
    let g = encode_rest(rest);
    let text = body + g;
    let n = text.len() as int;
    assert(text.subrange(0, n - 4) =~= body);
    assert(text.subrange(n - 4, n) =~= g);
}

/// Decoding the base64 text of any bytes gives the bytes back.
pub proof fn lemma_base64_round_trip(bytes: Seq<u8>)
    ensures
        base64_decode(base64_encode(bytes)) == Some(bytes),
{
    let len = bytes.len() as int;
    let whole = len - len % 3;
    let front = bytes.subrange(0, whole);
    let rest = bytes.subrange(whole, len);
    assert(front + rest =~= bytes);
    if len % 3 == 0 {
        assert(front =~= bytes);
        assert(encode_rest(rest) =~= Seq::<u8>::empty());
        assert(base64_encode(bytes) =~= encode_groups(bytes));
        lemma_decode_whole(bytes);
    } else {
        lemma_decode_padded(front, rest);
    }
}

/// Base64 text is ASCII.
pub proof fn lemma_base64_is_ascii(bytes: Seq<u8>)
    ensures
        forall|i: int| 0 <= i < base64_encode(bytes).len() ==> #[trigger] base64_encode(bytes)[i] < 128,
{
    let len = bytes.len() as int;
    let whole = len - len % 3;
    let front = bytes.subrange(0, whole);
    let rest = bytes.subrange(whole, len);
    let text = base64_encode(bytes);
    let body = encode_groups(front);
    lemma_groups_round_trip(front);
    if len % 3 != 0 {
        lemma_rest_round_trip(rest);
    }
    assert forall|i: int| 0 <= i < text.len() implies #[trigger] text[i] < 128 by {
        if i < body.len() {
            assert(text[i] == body[i]);
            assert(is_symbol(body[i]));
        } else {
            assert(text[i] == encode_rest(rest)[i - body.len()]);
        }
    }
}

/// Which low bits of a group's number are zero depends on its last values
/// alone.
pub proof fn lemma_low_bits(v0: int, v1: int, v2: int)
    requires
        0 <= v0 < 64,
        0 <= v1 < 64,
        0 <= v2 < 64,
    ensures
        sixes_number(v0, v1, v2, 0) % 0x100 == 0 <==> v2 % 4 == 0,
        sixes_number(v0, v1, 0, 0) % 0x1_0000 == 0 <==> v1 % 16 == 0,
{
    let n = sixes_number(v0, v1, v2, 0);
    assert(n == (v0 * 0x400 + v1 * 0x10 + v2 / 4) * 0x100 + (v2 % 4) * 0x40);
    let m = sixes_number(v0, v1, 0, 0);
    assert(m == (v0 * 4 + v1 / 16) * 0x1_0000 + (v1 % 16) * 0x1000);
}

/// The symbol for a six-bit value.
fn symbol_for(v: u32) -> (c: u8)
    requires
        v < 64,
    ensures
        c == symbol(v as int),
{
    if v < 26 {
        (0x41 + v) as u8
    } else if v < 52 {
        (0x61 + (v - 26)) as u8
    } else if v < 62 {
        (0x30 + (v - 52)) as u8
    } else if v == 62 {
        0x2b
    } else {
        0x2f
    }
}

/// Appends the first `count` symbols of three bytes.
fn push_group(out: &mut Vec<u8>, a: u8, b: u8, c: u8, count: usize)
    requires
        2 <= count <= 4,
    ensures
        final(out)@ == old(out)@ + group_symbols(a, b, c).subrange(0, count as int),
{
    let n: u32 = (a as u32) * 0x1_0000 + (b as u32) * 0x100 + (c as u32);
    proof {
        reveal(group_symbols);
        lemma_split_sixes(n as int);
    }
    out.push(symbol_for(n / 0x4_0000));
    out.push(symbol_for((n / 0x1000) % 0x40));
    if count >= 3 {
        out.push(symbol_for((n / 0x40) % 0x40));
    }
    if count >= 4 {
        out.push(symbol_for(n % 0x40));
    }
    assert(out@ =~= old(out)@ + group_symbols(a, b, c).subrange(0, count as int));
}

/// Encodes `bytes` as base64, in ASCII bytes.
#[verifier::rlimit(50)]
pub fn encode(bytes: &[u8]) -> (text: Vec<u8>)
    ensures
        text@ == base64_encode(bytes@),
{
    let len: usize = bytes.len();
    let whole: usize = len - len % 3;
    let mut out: Vec<u8> = Vec::new();
    let mut i: usize = 0;
    while i < whole
        invariant
            i <= whole <= len == bytes@.len(),
            whole == len - len % 3,
            i % 3 == 0,
            out@ == encode_groups(bytes@.subrange(0, i as int)),
        decreases whole - i,
    {
        let a: u8 = bytes[i];
        let b: u8 = bytes[i + 1];
        let c: u8 = bytes[i + 2];
        push_group(&mut out, a, b, c, 4);
        proof {
            lemma_group_symbols(a, b, c);
            assert(group_symbols(a, b, c).subrange(0, 4) =~= group_symbols(a, b, c));
            lemma_encode_groups_push(bytes@.subrange(0, i as int), a, b, c);
            assert(bytes@.subrange(0, i + 3) =~= bytes@.subrange(0, i as int) + seq![a, b, c]);
        }
        i = i + 3;
    }
    let ghost rest = bytes@.subrange(whole as int, len as int);
    let ghost body = out@;
    if len - whole == 1 {
        let a: u8 = bytes[whole];
        push_group(&mut out, a, 0, 0, 2);
        out.push(PAD);
        out.push(PAD);
        proof {
            lemma_group_symbols(a, 0, 0);
            assert(out@ =~= body + encode_rest(rest));
        }
    } else if len - whole == 2 {
        let a: u8 = bytes[whole];
        let b: u8 = bytes[whole + 1];
        push_group(&mut out, a, b, 0, 3);
        out.push(PAD);
        proof {
            lemma_group_symbols(a, b, 0);
            assert(out@ =~= body + encode_rest(rest));
        }
    } else {
        assert(out@ =~= body + encode_rest(rest));
    }
    out
}

/// The six-bit value of a symbol, or `None` for any other byte.
fn value_of(c: u8) -> (v: Option<u32>)
    ensures
        v is Some <==> is_symbol(c),
        v matches Some(n) ==> n == symbol_value(c) && n < 64,
{
    if 0x41 <= c && c <= 0x5a {
        Some((c - 0x41) as u32)
    } else if 0x61 <= c && c <= 0x7a {
        Some((c - 0x61 + 26) as u32)
    } else if 0x30 <= c && c <= 0x39 {
        Some((c - 0x30 + 52) as u32)
    } else if c == 0x2b {
        Some(62)
    } else if c == 0x2f {
        Some(63)
    } else {
        None
    }
}

/// The 24-bit number of four symbols, or `None` if one of them is no symbol.
fn group_number(c0: u8, c1: u8, c2: u8, c3: u8) -> (n: Option<u32>)
    ensures
        n is Some <==> is_symbol(c0) && is_symbol(c1) && is_symbol(c2) && is_symbol(c3),
        n matches Some(v) ==> v < 0x100_0000 && v == sixes_number(
            symbol_value(c0),
            symbol_value(c1),
            symbol_value(c2),
            symbol_value(c3),
        ),
{
    let v0: u32 = match value_of(c0) {
        Some(v) => v,
        None => {
            return None;
        },
    };
    let v1: u32 = match value_of(c1) {
        Some(v) => v,
        None => {
            return None;
        },
    };
    let v2: u32 = match value_of(c2) {
        Some(v) => v,
        None => {
            return None;
        },
    };
    let v3: u32 = match value_of(c3) {
        Some(v) => v,
        None => {
            return None;
        },
    };
    Some(v0 * 0x4_0000 + v1 * 0x1000 + v2 * 0x40 + v3)
}

/// Appends the first `count` bytes of the group of four symbols whose
/// number is `v`.
fn push_bytes(
    out: &mut Vec<u8>,
    v: u32,
    count: usize,
    Ghost(c0): Ghost<u8>,
    Ghost(c1): Ghost<u8>,
    Ghost(c2): Ghost<u8>,
    Ghost(c3): Ghost<u8>,
)
    requires
        v < 0x100_0000,
        v == sixes_number(symbol_value(c0), symbol_value(c1), symbol_value(c2), symbol_value(c3)),
        1 <= count <= 3,
    ensures
        final(out)@ == old(out)@ + group_bytes(c0, c1, c2, c3).subrange(0, count as int),
{
    proof {
        reveal(group_bytes);
    }
    out.push((v / 0x1_0000) as u8);
    if count >= 2 {
        out.push(((v / 0x100) % 0x100) as u8);
    }
    if count >= 3 {
        out.push((v % 0x100) as u8);
    }
    assert(out@ =~= old(out)@ + group_bytes(c0, c1, c2, c3).subrange(0, count as int));
}

/// A group of three bytes has three bytes.
pub proof fn lemma_group_bytes_len(c0: u8, c1: u8, c2: u8, c3: u8)
    ensures
        group_bytes(c0, c1, c2, c3).len() == 3,
        group_bytes(c0, c1, c2, c3).subrange(0, 3) == group_bytes(c0, c1, c2, c3),
{
    reveal(group_bytes);
    assert(group_bytes(c0, c1, c2, c3).subrange(0, 3) =~= group_bytes(c0, c1, c2, c3));
}

/// Decodes the groups before the last one of a text.
#[verifier::rlimit(50)]
fn decode_body(text: &[u8], body: usize) -> (bytes: Option<Vec<u8>>)
    requires
        body <= text@.len(),
        body % 4 == 0,
    ensures
        bytes is Some <==> all_symbols(text@.subrange(0, body as int)),
        bytes matches Some(b) ==> b@ == decode_groups(text@.subrange(0, body as int)),
{
    let mut out: Vec<u8> = Vec::new();
    let mut i: usize = 0;
    while i < body
        invariant
            i <= body <= text@.len(),
            i % 4 == 0,
            body % 4 == 0,
            all_symbols(text@.subrange(0, i as int)),
            out@ == decode_groups(text@.subrange(0, i as int)),
        decreases body - i,
    {
        let c0: u8 = text[i];
        let c1: u8 = text[i + 1];
        let c2: u8 = text[i + 2];
        let c3: u8 = text[i + 3];
        let ghost done = text@.subrange(0, i as int);
        let ghost g = seq![c0, c1, c2, c3];
        proof {
            assert(text@.subrange(0, i + 4) =~= done + g);
        }
        match group_number(c0, c1, c2, c3) {
            Some(v) => {
                push_bytes(&mut out, v, 3, Ghost(c0), Ghost(c1), Ghost(c2), Ghost(c3));
                proof {
                    lemma_group_bytes_len(c0, c1, c2, c3);
                    lemma_decode_groups_push(done, c0, c1, c2, c3);
                    assert(all_symbols(g));
                    lemma_all_symbols_push(done, g);
                }
            },
            None => {
                proof {
                    let whole = text@.subrange(0, body as int);
                    assert(whole[i as int] == c0);
                    assert(whole[i + 1] == c1);
                    assert(whole[i + 2] == c2);
                    assert(whole[i + 3] == c3);
                }
                return None;
            },
        }
        i = i + 4;
    }
    Some(out)
}

/// Decodes the last group of a text and appends its bytes.
#[verifier::rlimit(50)]
fn decode_tail(out: &mut Vec<u8>, c0: u8, c1: u8, c2: u8, c3: u8) -> (ok: bool)
    ensures
        ok == last_group_ok(seq![c0, c1, c2, c3]),
        ok ==> final(out)@ == old(out)@ + decode_last(seq![c0, c1, c2, c3]),
{
    let ghost g = seq![c0, c1, c2, c3];
    assert(g[0] == c0 && g[1] == c1 && g[2] == c2 && g[3] == c3 && g.len() == 4);
    assert(symbol_value(0x41) == 0);
    if c3 != PAD {
        match group_number(c0, c1, c2, c3) {
            Some(v) => {
                push_bytes(out, v, 3, Ghost(c0), Ghost(c1), Ghost(c2), Ghost(c3));
                proof {
                    lemma_group_bytes_len(c0, c1, c2, c3);
                }
                true
            },
            None => false,
        }
    } else if c2 != PAD {
        match group_number(c0, c1, c2, 0x41) {
            Some(v) => {
                proof {
                    lemma_low_bits(symbol_value(c0), symbol_value(c1), symbol_value(c2));
                }
                if v % 0x100 != 0 {
                    return false;
                }
                push_bytes(out, v, 2, Ghost(c0), Ghost(c1), Ghost(c2), Ghost(0x41u8));
                true
            },
            None => false,
        }
    } else {
        match group_number(c0, c1, 0x41, 0x41) {
            Some(v) => {
                proof {
                    lemma_low_bits(symbol_value(c0), symbol_value(c1), 0);
                }
                if v % 0x1_0000 != 0 {
                    return false;
                }
                push_bytes(out, v, 1, Ghost(c0), Ghost(c1), Ghost(0x41u8), Ghost(0x41u8));
                true
            },
            None => false,
        }
    }
}

/// Decodes base64 text, given as ASCII bytes.
///
/// Returns the bytes exactly where [`base64_decode`] is defined: text that
/// is not canonical is refused.
pub fn decode(text: &[u8]) -> (bytes: Option<Vec<u8>>)
    ensures
        match base64_decode(text@) {
            Some(b) => bytes matches Some(v) && v@ == b,
            None => bytes is None,
        },
{
    let n: usize = text.len();
    if n % 4 != 0 {
        return None;
    }
    if n == 0 {
        return Some(Vec::new());
    }
    let body: usize = n - 4;
    let mut out: Vec<u8> = match decode_body(text, body) {
        Some(out) => out,
        None => {
            return None;
        },
    };
    let c0: u8 = text[body];
    let c1: u8 = text[body + 1];
    let c2: u8 = text[body + 2];
    let c3: u8 = text[body + 3];
    proof {
        assert(text@.subrange(body as int, n as int) =~= seq![c0, c1, c2, c3]);
    }
    if decode_tail(&mut out, c0, c1, c2, c3) {
        Some(out)
    } else {
        None
    }
}

} // verus!
