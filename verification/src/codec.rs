//! Text encodings and the KangarooTwelve hash that the library relies on.
use base64::engine::general_purpose::STANDARD as BASE64_STANDARD;
use base64::Engine as _;
use tiny_keccak::{Hasher, IntoXof, KangarooTwelve, Xof};
use vstd::prelude::*;

verus! {

/// The character of the standard base64 alphabet (RFC 4648) for a 6-bit value.
pub open spec fn base64_char(i: nat) -> char {
    if i < 26 {
        (65 + i) as char
    } else if i < 52 {
        (97 + (i - 26)) as char
    } else if i < 62 {
        (48 + (i - 52)) as char
    } else if i == 62 {
        '+'
    } else {
        '/'
    }
}

/// Standard base64 (RFC 4648, standard alphabet, `=` padding) of `s`.
#[verifier::opaque]
pub open spec fn base64_encode(s: Seq<u8>) -> Seq<char>
    decreases s.len(),
{
    if s.len() == 0 {
        Seq::empty()
    } else if s.len() == 1 {
        let n = s[0] as nat * 65536;
        seq![base64_char(n / 262144), base64_char((n / 4096) % 64), '=', '=']
    } else if s.len() == 2 {
        let n = s[0] as nat * 65536 + s[1] as nat * 256;
        seq![base64_char(n / 262144), base64_char((n / 4096) % 64), base64_char((n / 64) % 64), '=']
    } else {
        let n = s[0] as nat * 65536 + s[1] as nat * 256 + s[2] as nat;
        seq![
            base64_char(n / 262144),
            base64_char((n / 4096) % 64),
            base64_char((n / 64) % 64),
            base64_char(n % 64),
        ] + base64_encode(s.subrange(3, s.len() as int))
    }
}

/// Distinct 6-bit values have distinct characters, none of them the padding `=`.
proof fn lemma_base64_char_injective(i: nat, j: nat)
    requires
        i < 64,
        j < 64,
    ensures
        base64_char(i) != '=',
        base64_char(i) == base64_char(j) ==> i == j,
{
}

/// The 24-bit number of a group of three bytes.
spec fn pack3(a0: u32, a1: u32, a2: u32) -> u32 {
    ((a0 * 65536) as u32 + (a1 * 256) as u32 + a2) as u32
}

proof fn lemma_group3(a0: u32, a1: u32, a2: u32, b0: u32, b1: u32, b2: u32)
    by (bit_vector)
    requires
        a0 < 256 && a1 < 256 && a2 < 256 && b0 < 256 && b1 < 256 && b2 < 256,
        pack3(a0, a1, a2) / 262144u32 == pack3(b0, b1, b2) / 262144u32,
        (pack3(a0, a1, a2) / 4096u32) % 64u32 == (pack3(b0, b1, b2) / 4096u32) % 64u32,
        (pack3(a0, a1, a2) / 64u32) % 64u32 == (pack3(b0, b1, b2) / 64u32) % 64u32,
        pack3(a0, a1, a2) % 64u32 == pack3(b0, b1, b2) % 64u32,
    ensures
        a0 == b0 && a1 == b1 && a2 == b2,
{
}

proof fn lemma_group2(a0: u32, a1: u32, b0: u32, b1: u32)
    by (bit_vector)
    requires
        a0 < 256 && a1 < 256 && b0 < 256 && b1 < 256,
        pack3(a0, a1, 0) / 262144u32 == pack3(b0, b1, 0) / 262144u32,
        (pack3(a0, a1, 0) / 4096u32) % 64u32 == (pack3(b0, b1, 0) / 4096u32) % 64u32,
        (pack3(a0, a1, 0) / 64u32) % 64u32 == (pack3(b0, b1, 0) / 64u32) % 64u32,
    ensures
        a0 == b0 && a1 == b1,
{
}

proof fn lemma_group1(a0: u32, b0: u32)
    by (bit_vector)
    requires
        a0 < 256 && b0 < 256,
        pack3(a0, 0, 0) / 262144u32 == pack3(b0, 0, 0) / 262144u32,
        (pack3(a0, 0, 0) / 4096u32) % 64u32 == (pack3(b0, 0, 0) / 4096u32) % 64u32,
    ensures
        a0 == b0,
{
}

proof fn lemma_pack3(a0: u32, a1: u32, a2: u32)
    by (bit_vector)
    requires
        a0 < 256 && a1 < 256 && a2 < 256,
    ensures
        pack3(a0, a1, a2) == a0 * 65536 + a1 * 256 + a2,
        pack3(a0, a1, a2) / 262144u32 < 64,
{
}

/// Equal encodings start with the same group: the same number of bytes in it (up to three)
/// and the same bytes.
proof fn lemma_first_group(v: Seq<u8>, w: Seq<u8>)
    requires
        v.len() > 0,
        w.len() > 0,
        base64_encode(v) == base64_encode(w),
    ensures
        (v.len() >= 3) == (w.len() >= 3),
        v.len() < 3 ==> v.len() == w.len(),
        v[0] == w[0],
        v.len() >= 2 ==> v[1] == w[1],
        v.len() >= 3 ==> v[2] == w[2],
{
    reveal(base64_encode);
    let ev = base64_encode(v);
    let x0 = v[0] as u32;
    let y0 = w[0] as u32;
    let x1: u32 = if v.len() >= 2 { v[1] as u32 } else { 0 };
    let y1: u32 = if w.len() >= 2 { w[1] as u32 } else { 0 };
    let x2: u32 = if v.len() >= 3 { v[2] as u32 } else { 0 };
    let y2: u32 = if w.len() >= 3 { w[2] as u32 } else { 0 };
    lemma_pack3(x0, x1, x2);
    lemma_pack3(y0, y1, y2);
    let nv = pack3(x0, x1, x2) as nat;
    let nw = pack3(y0, y1, y2) as nat;
    lemma_base64_char_injective(nv / 262144, nw / 262144);
    lemma_base64_char_injective((nv / 4096) % 64, (nw / 4096) % 64);
    lemma_base64_char_injective((nv / 64) % 64, (nw / 64) % 64);
    lemma_base64_char_injective(nv % 64, nw % 64);
    assert(ev[0] == base64_char(nv / 262144));
    assert(ev[0] == base64_char(nw / 262144));
    assert(ev[1] == base64_char((nv / 4096) % 64));
    assert(ev[1] == base64_char((nw / 4096) % 64));
    assert((ev[3] == '=') == (v.len() < 3));
    assert((ev[3] == '=') == (w.len() < 3));
    if v.len() >= 3 {
        assert(ev[2] == base64_char((nv / 64) % 64));
        assert(ev[2] == base64_char((nw / 64) % 64));
        assert(ev[3] == base64_char(nv % 64));
        assert(ev[3] == base64_char(nw % 64));
        lemma_group3(x0, x1, x2, y0, y1, y2);
    } else {
        assert((ev[2] == '=') == (v.len() == 1));
        assert((ev[2] == '=') == (w.len() == 1));
        if v.len() == 2 {
            assert(ev[2] == base64_char((nv / 64) % 64));
            assert(ev[2] == base64_char((nw / 64) % 64));
            lemma_group2(x0, x1, y0, y1);
        } else {
            lemma_group1(x0, y0);
        }
    }
}

/// The length of standard base64: four characters per started group of three bytes.
proof fn lemma_base64_len(v: Seq<u8>)
    ensures
        v.len() == 0 ==> base64_encode(v).len() == 0,
        v.len() > 0 ==> base64_encode(v).len() >= 4,
    decreases v.len(),
{
    reveal(base64_encode);
    if v.len() >= 3 {
        lemma_base64_len(v.subrange(3, v.len() as int));
    }
}

/// Standard base64 decodes back: the text of `v` is base64 text, and any bytes with the same
/// text are `v` itself.
/// After a full first group, the encoding goes on with the encoding of the rest.
proof fn lemma_base64_tail(v: Seq<u8>)
    requires
        v.len() >= 3,
    ensures
        base64_encode(v).len() == 4 + base64_encode(v.subrange(3, v.len() as int)).len(),
        base64_encode(v).subrange(4, base64_encode(v).len() as int) == base64_encode(
            v.subrange(3, v.len() as int),
        ),
{
    reveal(base64_encode);
    let ev = base64_encode(v);
    assert(ev.subrange(4, ev.len() as int) =~= base64_encode(v.subrange(3, v.len() as int)));
}

/// Bytes with the same standard base64 are the same bytes.
proof fn lemma_base64_injective(v: Seq<u8>, w: Seq<u8>)
    requires
        base64_encode(w) == base64_encode(v),
    ensures
        w == v,
    decreases v.len(),
{
    lemma_base64_len(v);
    lemma_base64_len(w);
    if v.len() == 0 || w.len() == 0 {
        assert(v =~= w);
    } else {
        lemma_first_group(v, w);
        if v.len() < 3 {
            assert(v =~= w);
        } else {
            let tv = v.subrange(3, v.len() as int);
            let tw = w.subrange(3, w.len() as int);
            lemma_base64_tail(v);
            lemma_base64_tail(w);
            lemma_base64_injective(tv, tw);
            assert(w.len() >= 3);
            assert(tv.len() == v.len() - 3);
            assert(tw.len() == w.len() - 3);
            assert(tw == tv);
            assert(v.len() == w.len());
            assert forall|i: int| 0 <= i < v.len() implies v[i] == w[i] by {
                if i >= 3 {
                    assert(v[i] == tv[i - 3]);
                    assert(w[i] == tw[i - 3]);
                }
            }
            assert(v =~= w);
        }
    }
}

/// Standard base64 decodes back: the text of `v` is base64 text, and any bytes with the same
/// text are `v` itself.
pub proof fn lemma_base64_round_trip(v: Seq<u8>, w: Seq<u8>)
    ensures
        is_base64_text(base64_encode(v)),
        base64_encode(w) == base64_encode(v) ==> w == v,
{
    assert(base64_encode(v) == base64_encode(v));
    if base64_encode(w) == base64_encode(v) {
        lemma_base64_injective(v, w);
    }
}

/// The lowercase hexadecimal digit for a value below 16.
pub open spec fn hex_digit(d: nat) -> char {
    if d < 10 {
        (48 + d) as char
    } else {
        (87 + d) as char
    }
}

/// Lowercase hexadecimal of `s`, two digits per byte, high nibble first.
pub open spec fn hex_encode(s: Seq<u8>) -> Seq<char>
    decreases s.len(),
{
    if s.len() == 0 {
        Seq::empty()
    } else {
        seq![hex_digit(s[0] as nat / 16), hex_digit(s[0] as nat % 16)] + hex_encode(s.drop_first())
    }
}

/// The first `output_len` bytes that the KangarooTwelve extendable-output function, with an
/// empty customization string, squeezes out after absorbing `input`.
pub uninterp spec fn k12(input: Seq<u8>, output_len: nat) -> Seq<u8>;

/// Lowercase hexadecimal has two digits per byte: byte `i` gives digits `2i` (its high nibble)
/// and `2i + 1` (its low nibble).
pub proof fn lemma_hex_encode_index(b: Seq<u8>)
    ensures
        hex_encode(b).len() == 2 * b.len(),
        forall|n: int|
            0 <= n < 2 * b.len() ==> #[trigger] hex_encode(b)[n] == (if n % 2 == 0 {
                hex_digit(b[n / 2] as nat / 16)
            } else {
                hex_digit(b[n / 2] as nat % 16)
            }),
    decreases b.len(),
{
    if b.len() > 0 {
        let t = b.drop_first();
        lemma_hex_encode_index(t);
        let h = hex_encode(b);
        assert(h =~= seq![hex_digit(b[0] as nat / 16), hex_digit(b[0] as nat % 16)] + hex_encode(t));
        assert forall|n: int| 0 <= n < 2 * b.len() implies #[trigger] h[n] == (if n % 2 == 0 {
            hex_digit(b[n / 2] as nat / 16)
        } else {
            hex_digit(b[n / 2] as nat % 16)
        }) by {
            if n >= 2 {
                assert(h[n] == hex_encode(t)[n - 2]);
                assert((n - 2) / 2 == n / 2 - 1);
                assert((n - 2) % 2 == n % 2);
                assert(t[(n - 2) / 2] == b[n / 2]);
            }
        }
    }
}

/// Calls `base64::engine::general_purpose::STANDARD.encode` (base64 0.22). Its documentation
/// and source give standard-alphabet base64 with `=` padding, which is what the contract states.
/// The call panics when the encoded length overflows `usize`; `requires` leaves that out.
#[verifier::external_body]
pub(crate) fn base64_standard(bytes: &[u8]) -> (r: String)
    requires
        (bytes@.len() / 3) * 4 + 4 <= usize::MAX,
    ensures
        r@ == base64_encode(bytes@),
{
    BASE64_STANDARD.encode(bytes)
}

/// Text that is the standard base64 of some bytes.
pub open spec fn is_base64_text(t: Seq<char>) -> bool {
    exists|v: Seq<u8>| base64_encode(v) == t
}

/// Calls `base64::engine::general_purpose::STANDARD.decode` (base64 0.22). The engine's
/// configuration (`PAD`: padding required in canonical form, trailing bits refused) makes it
/// accept exactly the canonical padded encodings, and it gives back the bytes that were encoded.
/// On failure the error's text is handed back; what that text says is not stated.
#[verifier::external_body]
pub(crate) fn base64_standard_decode(text: &str) -> (r: Result<Vec<u8>, String>)
    ensures
        r is Ok <==> is_base64_text(text@),
        r matches Ok(v) ==> base64_encode(v@) == text@,
{
    BASE64_STANDARD.decode(text.as_bytes()).map_err(|e| e.to_string())
}

/// Calls `hex::encode` (hex 0.4), which writes each byte as two lowercase hexadecimal digits,
/// high nibble first (table `HEX_CHARS_LOWER` in its source).
#[verifier::external_body]
pub(crate) fn hex_lower(bytes: &[u8]) -> (r: String)
    ensures
        r@ == hex_encode(bytes@),
{
    hex::encode(bytes)
}

/// Runs `tiny_keccak::KangarooTwelve` (tiny-keccak 2.0, feature `k12`) with the empty
/// customization string: `new(b"")`, `update(input)`, `into_xof()`, then `squeeze` into a buffer
/// of `output_len` bytes. The result is named `k12`; nothing else is claimed of the hash.
#[verifier::external_body]
pub(crate) fn k12_hash(input: &[u8], output_len: usize) -> (r: Vec<u8>)
    ensures
        r@ == k12(input@, output_len as nat),
        r@.len() == output_len,
{
    let mut out = vec![0u8; output_len];
    let mut hasher = KangarooTwelve::new(b"");
    hasher.update(input);
    hasher.into_xof().squeeze(&mut out);
    out
}

/// Calls `String::push`, which appends one character.
#[verifier::external_body]
pub(crate) fn push_char(s: &mut String, c: char)
    ensures
        final(s)@ == old(s)@.push(c),
{
    s.push(c)
}

} // verus!
