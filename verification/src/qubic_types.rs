//! Qubic identities: 32-byte public keys and their 60-letter text form, and the subseed and
//! private key of a seed.
//!
//! Deriving the public key from a private key, and making and checking SchnorrQ signatures,
//! are not part of this library: they rest on arithmetic on the FourQ curve, for which the
//! library has no implementation. Wallets from seeds, signed transactions and signature checks
//! are missing for that reason.
use crate::bytes::{
    le_bytes, le_bytes_vec, le_value, lemma_le_bytes_len, lemma_le_bytes_of_le_value,
    lemma_le_value_of_le_bytes,
    lemma_le_value_bound, pow256, read_uint, Endianness,
};
use crate::codec::{k12, k12_hash, push_char};
use vstd::prelude::*;

verus! {

/// Errors in the text forms of identities and seeds.
#[derive(Debug, Clone, Copy, PartialEq, Eq)]
pub enum QubicError {
    /// The text holds a character outside the allowed letters.
    InvalidIdFormatError { ident: &'static str },
    /// The text has the wrong number of letters.
    InvalidIdLengthError { ident: &'static str, expected: usize, found: usize },
}

/// A 64-byte SchnorrQ signature.
#[derive(Debug, Clone, Copy, PartialEq, Eq, Hash)]
pub struct Signature(pub [u8; 64]);

/// A Qubic identity: a 32-byte public key.
#[derive(Clone, Copy, Debug, Default, PartialEq, Eq, Hash)]
pub struct QubicId(pub [u8; 32]);

/// `c` is one of `A` to `Z`.
pub open spec fn is_upper_letter(c: char) -> bool {
    'A' <= c && c <= 'Z'
}

/// `c` is one of `a` to `z`.
pub open spec fn is_lower_letter(c: char) -> bool {
    'a' <= c && c <= 'z'
}

/// Every character of `s` is one of `A` to `Z`.
pub open spec fn all_upper(s: Seq<char>) -> bool {
    forall|i: int| 0 <= i < s.len() ==> is_upper_letter(#[trigger] s[i])
}

/// Every character of `s` is one of `a` to `z`.
pub open spec fn all_lower(s: Seq<char>) -> bool {
    forall|i: int| 0 <= i < s.len() ==> is_lower_letter(#[trigger] s[i])
}

/// The letter `A` plus `d`.
pub open spec fn letter(d: nat) -> char {
    (65 + d) as char
}

/// The base-26 digits of `v`, `k` of them, least significant first, as letters `A`..`Z`.
pub open spec fn base26_letters(v: nat, k: nat) -> Seq<char>
    decreases k,
{
    if k == 0 {
        Seq::empty()
    } else {
        seq![letter(v % 26)] + base26_letters(v / 26, (k - 1) as nat)
    }
}

/// The number that the letters `s` spell in base 26, least significant letter first,
/// `A` standing for 0.
pub open spec fn base26_value(s: Seq<char>) -> nat
    decreases s.len(),
{
    if s.len() == 0 {
        0
    } else {
        (s[0] as int - 65) as nat + 26 * base26_value(s.drop_first())
    }
}

/// The `i`-th group of 14 letters of an identity.
pub open spec fn id_group(s: Seq<char>, i: int) -> Seq<char> {
    s.subrange(14 * i, 14 * i + 14)
}

/// The `i`-th eight bytes of a key, read as a little-endian number.
pub open spec fn key_word(key: Seq<u8>, i: int) -> nat {
    le_value(key.subrange(8 * i, 8 * i + 8))
}

/// The checksum of a key: the first three bytes of its KangarooTwelve hash, little endian,
/// reduced to 18 bits.
pub open spec fn key_checksum(key: Seq<u8>) -> nat {
    le_value(k12(key, 3)) % 262144
}

/// The 60-letter identity of a 32-byte key: 14 base-26 letters for each 64-bit word, least
/// significant letter first, then 4 letters of the checksum.
pub open spec fn identity_text(key: Seq<u8>) -> Seq<char> {
    base26_letters(key_word(key, 0), 14) + base26_letters(key_word(key, 1), 14) + base26_letters(
        key_word(key, 2),
        14,
    ) + base26_letters(key_word(key, 3), 14) + base26_letters(key_checksum(key), 4)
}

/// Each of the four letter groups of `s` spells a number that fits in 64 bits.
pub open spec fn id_groups_fit(s: Seq<char>) -> bool {
    forall|i: int| 0 <= i < 4 ==> base26_value(#[trigger] id_group(s, i)) < pow256(8)
}

/// The key that the first 56 letters of an identity spell; the checksum letters are not read.
pub open spec fn id_key(s: Seq<char>) -> Seq<u8> {
    le_bytes(base26_value(id_group(s, 0)), 8) + le_bytes(base26_value(id_group(s, 1)), 8)
        + le_bytes(base26_value(id_group(s, 2)), 8) + le_bytes(base26_value(id_group(s, 3)), 8)
}

/// The outcome of parsing the text `s` as an identity.
pub open spec fn parse_identity(s: Seq<char>) -> Result<Seq<u8>, QubicError> {
    if !all_upper(s) {
        Err(QubicError::InvalidIdFormatError { ident: "ID" })
    } else if s.len() != 60 {
        Err(QubicError::InvalidIdLengthError { ident: "ID", expected: 60, found: s.len() as usize })
    } else {
        Ok(id_key(s))
    }
}

/// `r` is the outcome that `expected` describes, with the error names compared by text.
pub open spec fn same_outcome<T>(r: Result<T, QubicError>, expected: Result<T, QubicError>) -> bool {
    match (r, expected) {
        (Ok(a), Ok(b)) => a == b,
        (
            Err(QubicError::InvalidIdFormatError { ident: a }),
            Err(QubicError::InvalidIdFormatError { ident: b }),
        ) => a@ == b@,
        (
            Err(QubicError::InvalidIdLengthError { ident: a, expected: x, found: f }),
            Err(QubicError::InvalidIdLengthError { ident: b, expected: y, found: g }),
        ) => a@ == b@ && x == y && f == g,
        _ => false,
    }
}

/// The bytes of a key given as four little-endian 64-bit words.
pub open spec fn words_key(w: [u64; 4]) -> Seq<u8> {
    le_bytes(w[0] as nat, 8) + le_bytes(w[1] as nat, 8) + le_bytes(w[2] as nat, 8) + le_bytes(
        w[3] as nat,
        8,
    )
}

/// Copies a 32-byte sequence held in a vector into an array.
fn to_array32(v: &Vec<u8>) -> (r: [u8; 32])
    requires
        v@.len() == 32,
    ensures
        r@ == v@,
{
    let mut out = [0u8; 32];
    let mut i: usize = 0;
    while i < 32
        invariant
            i <= 32,
            v@.len() == 32,
            forall|j: int| 0 <= j < i ==> out@[j] == v@[j],
        decreases 32 - i,
    {
        out[i] = v[i];
        i = i + 1;
    }
    assert(out@ =~= v@);
    out
}

/// Appends the `k` base-26 letters of `v`, least significant first.
fn push_base26(s: &mut String, v: u64, k: usize)
    ensures
        final(s)@ == old(s)@ + base26_letters(v as nat, k as nat),
{
    let ghost start = old(s)@;
    let mut cur = v;
    let mut j: usize = 0;
    assert(s@ + base26_letters(cur as nat, (k - j) as nat) =~= start + base26_letters(
        v as nat,
        k as nat,
    ));
    while j < k
        invariant
            j <= k,
            s@ + base26_letters(cur as nat, (k - j) as nat) == start + base26_letters(
                v as nat,
                k as nat,
            ),
        decreases k - j,
    {
        let ghost before = s@;
        let ghost c = cur as nat;
        let ghost rest = (k - j) as nat;
        assert(base26_letters(c, rest) == seq![letter(c % 26)] + base26_letters(
            c / 26,
            (rest - 1) as nat,
        ));
        let d = (cur % 26) as u8 + 65;
        push_char(s, d as char);
        assert(d as char == letter(c % 26));
        cur = cur / 26;
        j = j + 1;
        assert(s@ + base26_letters(cur as nat, (k - j) as nat) =~= before + base26_letters(
            c,
            rest,
        ));
    }
}

impl QubicId {
    /// The key whose bytes are the four words in little-endian order.
    pub fn from_le_u64(le_u64: [u64; 4]) -> (r: Self)
        ensures
            r.0@ == words_key(le_u64),
    {
        let mut v: Vec<u8> = Vec::new();
        let mut i: usize = 0;
        while i < 4
            invariant
                i <= 4,
                v@ == (if i == 0 {
                    Seq::<u8>::empty()
                } else if i == 1 {
                    le_bytes(le_u64[0] as nat, 8)
                } else if i == 2 {
                    le_bytes(le_u64[0] as nat, 8) + le_bytes(le_u64[1] as nat, 8)
                } else if i == 3 {
                    le_bytes(le_u64[0] as nat, 8) + le_bytes(le_u64[1] as nat, 8) + le_bytes(
                        le_u64[2] as nat,
                        8,
                    )
                } else {
                    words_key(le_u64)
                }),
            decreases 4 - i,
        {
            let w = le_bytes_vec(le_u64[i], 8);
            let mut j: usize = 0;
            let ghost before = v@;
            proof {
                lemma_le_bytes_len(le_u64[i as int] as nat, 8);
            }
            while j < 8
                invariant
                    j <= 8,
                    w@.len() == 8,
                    v@ == before + w@.subrange(0, j as int),
                decreases 8 - j,
            {
                v.push(w[j]);
                j = j + 1;
                assert(v@ =~= before + w@.subrange(0, j as int));
            }
            assert(w@.subrange(0, 8) =~= w@);
            i = i + 1;
        }
        proof {
            lemma_le_bytes_len(le_u64[0] as nat, 8);
            lemma_le_bytes_len(le_u64[1] as nat, 8);
            lemma_le_bytes_len(le_u64[2] as nat, 8);
            lemma_le_bytes_len(le_u64[3] as nat, 8);
        }
        QubicId(to_array32(&v))
    }

    /// The identity of a smart contract: its index as the least significant word.
    pub fn from_contract_id(contract_id: u32) -> (r: QubicId)
        ensures
            r.0@ == words_key([contract_id as u64, 0, 0, 0]),
    {
        QubicId::from_le_u64([contract_id as u64, 0, 0, 0])
    }

    /// The 60-letter identity of this key.
    pub fn get_identity(&self) -> (r: String)
        ensures
            r@ == identity_text(self.0@),
    {
        let mut identity = String::new();
        let mut i: usize = 0;
        while i < 4
            invariant
                i <= 4,
                identity@ == (if i == 0 {
                    Seq::<char>::empty()
                } else if i == 1 {
                    base26_letters(key_word(self.0@, 0), 14)
                } else if i == 2 {
                    base26_letters(key_word(self.0@, 0), 14) + base26_letters(
                        key_word(self.0@, 1),
                        14,
                    )
                } else if i == 3 {
                    base26_letters(key_word(self.0@, 0), 14) + base26_letters(
                        key_word(self.0@, 1),
                        14,
                    ) + base26_letters(key_word(self.0@, 2), 14)
                } else {
                    base26_letters(key_word(self.0@, 0), 14) + base26_letters(
                        key_word(self.0@, 1),
                        14,
                    ) + base26_letters(key_word(self.0@, 2), 14) + base26_letters(
                        key_word(self.0@, 3),
                        14,
                    )
                }),
            decreases 4 - i,
        {
            let chunk = &self.0[8 * i..8 * i + 8];
            let word = read_uint(chunk, Endianness::Little);
            assert(chunk@ == self.0@.subrange(8 * i as int, 8 * i as int + 8));
            push_base26(&mut identity, word, 14);
            i = i + 1;
        }
        let h = k12_hash(self.0.as_slice(), 3);
        let checksum = ((h[0] as u64) + (h[1] as u64) * 256 + (h[2] as u64) * 65536) % 262144;
        proof {
            lemma_le_value_3(h@);
        }
        push_base26(&mut identity, checksum, 4);
        identity
    }

    /// Parses a 60-letter identity; the last four (checksum) letters are not checked.
    pub fn from_str(id: &str) -> (r: Result<Self, QubicError>)
        requires
            all_upper(id@) && id@.len() == 60 ==> id_groups_fit(id@),
        ensures
            same_outcome(
                match r {
                    Ok(q) => Ok(q.0@),
                    Err(e) => Err(e),
                },
                parse_identity(id@),
            ),
    {
        broadcast use vstd::string::group_string_axioms;

        if !id.is_ascii() {
            proof {
                let i = choose|i: int| 0 <= i < id@.len() && !('\0' <= #[trigger] id@[i] <= '\u{7f}');
                assert(!is_upper_letter(id@[i]));
            }
            return Err(QubicError::InvalidIdFormatError { ident: "ID" });
        }
        let b = id.as_bytes();
        proof {
            vstd::utf8::is_ascii_chars_encode_utf8(id@);
        }
        let mut i: usize = 0;
        while i < b.len()
            invariant
                i <= b@.len(),
                b@.len() == id@.len(),
                forall|j: int| 0 <= j < id@.len() ==> id@[j] as u8 == #[trigger] b@[j],
                forall|j: int| 0 <= j < i ==> is_upper_letter(#[trigger] id@[j]),
                vstd::string::is_ascii(id),
            decreases b@.len() - i,
        {
            let ghost c = id@[i as int];
            assert('\0' <= c <= '\u{7f}');
            assert(c as u8 == b@[i as int]);
            assert(c as int == b@[i as int] as int);
            if b[i] < 65 || b[i] > 90 {
                assert(!is_upper_letter(id@[i as int]));
                return Err(QubicError::InvalidIdFormatError { ident: "ID" });
            }
            i = i + 1;
        }
        if b.len() != 60 {
            return Err(QubicError::InvalidIdLengthError { ident: "ID", expected: 60, found: b.len() });
        }
        let mut key: Vec<u8> = Vec::new();
        let mut g: usize = 0;
        while g < 4
            invariant
                g <= 4,
                b@.len() == 60,
                id@.len() == 60,
                id_groups_fit(id@),
                forall|j: int| 0 <= j < id@.len() ==> id@[j] as u8 == #[trigger] b@[j],
                all_upper(id@),
                key@ == id_key_prefix(id@, g as int),
            decreases 4 - g,
        {
            let word = group_value(b, id, g);
            let w = le_bytes_vec(word, 8);
            let ghost before = key@;
            let mut j: usize = 0;
            proof {
                lemma_le_bytes_len(word as nat, 8);
            }
            while j < 8
                invariant
                    j <= 8,
                    w@.len() == 8,
                    key@ == before + w@.subrange(0, j as int),
                decreases 8 - j,
            {
                key.push(w[j]);
                j = j + 1;
                assert(key@ =~= before + w@.subrange(0, j as int));
            }
            assert(w@.subrange(0, 8) =~= w@);
            g = g + 1;
        }
        proof {
            lemma_le_bytes_len(base26_value(id_group(id@, 0)), 8);
            lemma_le_bytes_len(base26_value(id_group(id@, 1)), 8);
            lemma_le_bytes_len(base26_value(id_group(id@, 2)), 8);
            lemma_le_bytes_len(base26_value(id_group(id@, 3)), 8);
        }
        Ok(QubicId(to_array32(&key)))
    }
}

/// The bytes of the first `g` groups of an identity.
pub open spec fn id_key_prefix(s: Seq<char>, g: int) -> Seq<u8> {
    if g <= 0 {
        Seq::empty()
    } else if g == 1 {
        le_bytes(base26_value(id_group(s, 0)), 8)
    } else if g == 2 {
        le_bytes(base26_value(id_group(s, 0)), 8) + le_bytes(base26_value(id_group(s, 1)), 8)
    } else if g == 3 {
        le_bytes(base26_value(id_group(s, 0)), 8) + le_bytes(base26_value(id_group(s, 1)), 8)
            + le_bytes(base26_value(id_group(s, 2)), 8)
    } else {
        id_key(s)
    }
}

/// Whether group `g` of an identity spells a number that fits in 64 bits.
fn group_fits(b: &[u8], id: &str, g: usize) -> (r: bool)
    requires
        g < 4,
        b@.len() == 60,
        id@.len() == 60,
        all_upper(id@),
        forall|j: int| 0 <= j < id@.len() ==> id@[j] as u8 == #[trigger] b@[j],
    ensures
        r == (base26_value(id_group(id@, g as int)) < pow256(8)),
{
    let ghost grp = id_group(id@, g as int);
    assert(pow256(8) == 0x1_0000_0000_0000_0000) by {
        reveal_with_fuel(pow256, 9);
    }
    let mut acc: u64 = 0;
    let mut j: usize = 14;
    assert(grp.subrange(14, 14) =~= Seq::<char>::empty());
    while j > 0
        invariant
            j <= 14,
            g < 4,
            b@.len() == 60,
            id@.len() == 60,
            all_upper(id@),
            grp == id_group(id@, g as int),
            pow256(8) == 0x1_0000_0000_0000_0000,
            forall|t: int| 0 <= t < id@.len() ==> id@[t] as u8 == #[trigger] b@[t],
            acc as nat == base26_value(grp.subrange(j as int, 14)),
        decreases j,
    {
        j = j - 1;
        let c = b[14 * g + j];
        assert(grp[j as int] == id@[14 * g + j]);
        assert(is_upper_letter(id@[14 * g + j]));
        assert(grp.subrange(j as int, 14).drop_first() =~= grp.subrange(j as int + 1, 14));
        let d: u64 = (c - 65) as u64;
        assert(base26_value(grp.subrange(j as int, 14)) == d as nat + 26 * acc as nat);
        if acc > (u64::MAX - d) / 26 {
            assert(d as nat + 26 * acc as nat > u64::MAX) by (nonlinear_arith)
                requires
                    acc > (u64::MAX - d) / 26,
                    d <= 25,
            ;
            proof {
                assert(all_upper(grp)) by {
                    assert forall|i: int| 0 <= i < grp.len() implies is_upper_letter(#[trigger] grp[i]) by {
                        assert(grp[i] == id@[14 * g + i]);
                    }
                }
                lemma_base26_suffix_le(grp, j as int);
                assert(grp.len() == 14);
            }
            return false;
        }
        assert(d as nat + 26 * acc as nat <= u64::MAX) by (nonlinear_arith)
            requires
                acc <= (u64::MAX - d) / 26,
                d <= 25,
        ;
        acc = acc * 26 + d;
    }
    assert(grp.subrange(0, 14) =~= grp);
    true
}

/// Whether `id` can be handed to `QubicId::from_str`: text that is not 60 uppercase letters
/// always can, and 60 uppercase letters can when each group of 14 spells a number that fits
/// in 64 bits.
pub fn identity_groups_fit(id: &str) -> (r: bool)
    ensures
        r == (all_upper(id@) && id@.len() == 60 ==> id_groups_fit(id@)),
{
    broadcast use vstd::string::group_string_axioms;

    if !id.is_ascii() {
        proof {
            let i = choose|i: int| 0 <= i < id@.len() && !('\0' <= #[trigger] id@[i] <= '\u{7f}');
            assert(!is_upper_letter(id@[i]));
        }
        return true;
    }
    let b = id.as_bytes();
    proof {
        vstd::utf8::is_ascii_chars_encode_utf8(id@);
    }
    let mut i: usize = 0;
    while i < b.len()
        invariant
            i <= b@.len(),
            b@.len() == id@.len(),
            forall|j: int| 0 <= j < id@.len() ==> id@[j] as u8 == #[trigger] b@[j],
            forall|j: int| 0 <= j < i ==> is_upper_letter(#[trigger] id@[j]),
            vstd::string::is_ascii(id),
        decreases b@.len() - i,
    {
        let ghost c = id@[i as int];
        assert('\0' <= c <= '\u{7f}');
        assert(c as u8 == b@[i as int]);
        assert(c as int == b@[i as int] as int);
        if b[i] < 65 || b[i] > 90 {
            assert(!is_upper_letter(id@[i as int]));
            return true;
        }
        i = i + 1;
    }
    if b.len() != 60 {
        return true;
    }
    let mut g: usize = 0;
    while g < 4
        invariant
            g <= 4,
            b@.len() == 60,
            id@.len() == 60,
            all_upper(id@),
            forall|j: int| 0 <= j < id@.len() ==> id@[j] as u8 == #[trigger] b@[j],
            forall|k: int| 0 <= k < g ==> base26_value(#[trigger] id_group(id@, k)) < pow256(8),
        decreases 4 - g,
    {
        if !group_fits(b, id, g) {
            return false;
        }
        g = g + 1;
    }
    true
}

/// The number that group `g` of the identity spells, computed from the most significant letter.
fn group_value(b: &[u8], id: &str, g: usize) -> (r: u64)
    requires
        g < 4,
        b@.len() == 60,
        id@.len() == 60,
        all_upper(id@),
        id_groups_fit(id@),
        forall|j: int| 0 <= j < id@.len() ==> id@[j] as u8 == #[trigger] b@[j],
    ensures
        r as nat == base26_value(id_group(id@, g as int)),
{
    let ghost grp = id_group(id@, g as int);
    assert(base26_value(grp) < pow256(8));
    let mut acc: u64 = 0;
    let mut j: usize = 14;
    assert(grp.subrange(14, 14) =~= Seq::<char>::empty());
    while j > 0
        invariant
            j <= 14,
            g < 4,
            b@.len() == 60,
            id@.len() == 60,
            all_upper(id@),
            grp == id_group(id@, g as int),
            base26_value(grp) < pow256(8),
            forall|t: int| 0 <= t < id@.len() ==> id@[t] as u8 == #[trigger] b@[t],
            acc as nat == base26_value(grp.subrange(j as int, 14)),
        decreases j,
    {
        j = j - 1;
        let c = b[14 * g + j];
        assert(grp[j as int] == id@[14 * g + j]);
        assert(is_upper_letter(id@[14 * g + j]));
        assert(grp.subrange(j as int, 14).drop_first() =~= grp.subrange(j as int + 1, 14));
        proof {
            lemma_base26_suffix_le(grp, j as int);
            reveal_with_fuel(pow256, 9);
        }
        acc = acc * 26 + (c - 65) as u64;
    }
    assert(grp.subrange(0, 14) =~= grp);
    acc
}

/// A suffix of a base-26 number is at most the whole number.
proof fn lemma_base26_suffix_le(s: Seq<char>, k: int)
    requires
        0 <= k <= s.len(),
        all_upper(s),
    ensures
        base26_value(s.subrange(k, s.len() as int)) <= base26_value(s),
    decreases k,
{
    if k > 0 {
        let t = s.drop_first();
        assert(all_upper(t)) by {
            assert forall|i: int| 0 <= i < t.len() implies is_upper_letter(#[trigger] t[i]) by {
                assert(t[i] == s[i + 1]);
            }
        }
        lemma_base26_suffix_le(t, k - 1);
        assert(t.subrange(k - 1, t.len() as int) =~= s.subrange(k, s.len() as int));
        assert(is_upper_letter(s[0]));
    } else {
        assert(s.subrange(0, s.len() as int) =~= s);
    }
}

/// Three bytes read little endian.
proof fn lemma_le_value_3(h: Seq<u8>)
    requires
        h.len() == 3,
    ensures
        le_value(h) == h[0] as nat + h[1] as nat * 256 + h[2] as nat * 65536,
{
    let t1 = h.drop_first();
    let t2 = t1.drop_first();
    let t3 = t2.drop_first();
    assert(t3.len() == 0);
    assert(le_value(t3) == 0);
    assert(le_value(t2) == t2[0] as nat + 256 * le_value(t3));
    assert(le_value(t1) == t1[0] as nat + 256 * le_value(t2));
    assert(le_value(h) == h[0] as nat + 256 * le_value(t1));
    assert(t1[0] == h[1] && t2[0] == h[2]);
}

/// `26^n`.
pub open spec fn pow26(n: nat) -> nat
    decreases n,
{
    if n == 0 {
        1
    } else {
        26 * pow26((n - 1) as nat)
    }
}

proof fn lemma_base26_letters_facts(v: nat, k: nat)
    ensures
        base26_letters(v, k).len() == k,
        all_upper(base26_letters(v, k)),
        v < pow26(k) ==> base26_value(base26_letters(v, k)) == v,
    decreases k,
{
    if k > 0 {
        lemma_base26_letters_facts(v / 26, (k - 1) as nat);
        let s = base26_letters(v, k);
        let t = base26_letters(v / 26, (k - 1) as nat);
        assert(s.drop_first() =~= t);
        assert(letter(v % 26) as int == 65 + v % 26);
        assert forall|i: int| 0 <= i < s.len() implies is_upper_letter(#[trigger] s[i]) by {
            if i > 0 {
                assert(s[i] == t[i - 1]);
            }
        }
        if v < pow26(k) {
            assert(v / 26 < pow26((k - 1) as nat)) by (nonlinear_arith)
                requires
                    v < 26 * pow26((k - 1) as nat),
            ;
            assert(v % 26 + 26 * (v / 26) == v) by (nonlinear_arith);
        }
    }
}

/// 64-bit words have 14 base-26 letters.
proof fn lemma_pow256_8_below_pow26_14()
    ensures
        pow256(8) < pow26(14),
{
    reveal_with_fuel(pow256, 9);
    reveal_with_fuel(pow26, 15);
}

/// Letter `j` of the `k` base-26 letters of `v` is digit `j` of `v`, counting from the least
/// significant.
proof fn lemma_base26_letters_index(v: nat, k: nat, j: nat)
    requires
        j < k,
    ensures
        base26_letters(v, k)[j as int] == letter((v / pow26(j)) % 26),
    decreases j,
{
    lemma_base26_letters_facts(v, k);
    if j == 0 {
        assert(v / 1 == v);
    } else {
        lemma_base26_letters_index(v / 26, (k - 1) as nat, (j - 1) as nat);
        assert(base26_letters(v, k)[j as int] == base26_letters(v / 26, (k - 1) as nat)[j - 1]);
        lemma_pow26_positive((j - 1) as nat);
        vstd::arithmetic::div_mod::lemma_div_denominator(v as int, 26, pow26((j - 1) as nat) as int);
    }
}

proof fn lemma_pow26_positive(n: nat)
    ensures
        pow26(n) >= 1,
    decreases n,
{
    if n > 0 {
        lemma_pow26_positive((n - 1) as nat);
    }
}

/// How an identity is laid out: for each of the key's four 8-byte words, in key order, 14
/// letters that are its base-26 digits, least significant first, word `w` taken little endian
/// from bytes `8w..8w+8`; then 4 letters, the base-26 digits of the checksum, the first three
/// bytes of the key's KangarooTwelve hash, little endian, reduced to 18 bits.
pub proof fn lemma_identity_letters(key: Seq<u8>)
    requires
        key.len() == 32,
    ensures
        identity_text(key).len() == 60,
        forall|n: int|
            0 <= n < 56 ==> #[trigger] identity_text(key)[n] == letter(
                (le_value(key.subrange(8 * (n / 14), 8 * (n / 14) + 8)) / pow26((n % 14) as nat))
                    % 26,
            ),
        forall|n: int|
            56 <= n < 60 ==> #[trigger] identity_text(key)[n] == letter(
                ((le_value(k12(key, 3)) % 262144) / pow26((n - 56) as nat)) % 26,
            ),
{
    let s = identity_text(key);
    let l0 = base26_letters(key_word(key, 0), 14);
    let l1 = base26_letters(key_word(key, 1), 14);
    let l2 = base26_letters(key_word(key, 2), 14);
    let l3 = base26_letters(key_word(key, 3), 14);
    let l4 = base26_letters(key_checksum(key), 4);
    lemma_base26_letters_facts(key_word(key, 0), 14);
    lemma_base26_letters_facts(key_word(key, 1), 14);
    lemma_base26_letters_facts(key_word(key, 2), 14);
    lemma_base26_letters_facts(key_word(key, 3), 14);
    lemma_base26_letters_facts(key_checksum(key), 4);
    assert(s == l0 + l1 + l2 + l3 + l4);
    assert forall|n: int| 0 <= n < 56 implies #[trigger] s[n] == letter(
        (le_value(key.subrange(8 * (n / 14), 8 * (n / 14) + 8)) / pow26((n % 14) as nat)) % 26,
    ) by {
        let w = n / 14;
        let j = n % 14;
        assert(n == 14 * w + j);
        lemma_base26_letters_index(key_word(key, w), 14, j as nat);
        if w == 0 {
            assert(s[n] == l0[j]);
        } else if w == 1 {
            assert(s[n] == l1[j]);
        } else if w == 2 {
            assert(s[n] == l2[j]);
        } else {
            assert(s[n] == l3[j]);
        }
    }
    assert forall|n: int| 56 <= n < 60 implies #[trigger] s[n] == letter(
        ((le_value(k12(key, 3)) % 262144) / pow26((n - 56) as nat)) % 26,
    ) by {
        lemma_base26_letters_index(key_checksum(key), 4, (n - 56) as nat);
        assert(s[n] == l4[n - 56]);
    }
}

/// How an identity is read: the four groups of 14 letters, in text order, give the key's four
/// 8-byte words in key order, each the number its letters spell in base 26, least significant
/// letter first, stored little endian; the last 4 letters are not read.
pub proof fn lemma_identity_parse_words(s: Seq<char>)
    requires
        s.len() == 60,
        all_upper(s),
        id_groups_fit(s),
    ensures
        parse_identity(s) is Ok,
        parse_identity(s)->Ok_0.len() == 32,
        le_value(parse_identity(s)->Ok_0.subrange(0, 8)) == base26_value(s.subrange(0, 14)),
        le_value(parse_identity(s)->Ok_0.subrange(8, 16)) == base26_value(s.subrange(14, 28)),
        le_value(parse_identity(s)->Ok_0.subrange(16, 24)) == base26_value(s.subrange(28, 42)),
        le_value(parse_identity(s)->Ok_0.subrange(24, 32)) == base26_value(s.subrange(42, 56)),
{
    let k = id_key(s);
    let v0 = base26_value(id_group(s, 0));
    let v1 = base26_value(id_group(s, 1));
    let v2 = base26_value(id_group(s, 2));
    let v3 = base26_value(id_group(s, 3));
    lemma_le_bytes_len(v0, 8);
    lemma_le_bytes_len(v1, 8);
    lemma_le_bytes_len(v2, 8);
    lemma_le_bytes_len(v3, 8);
    lemma_le_value_of_le_bytes(v0, 8);
    lemma_le_value_of_le_bytes(v1, 8);
    lemma_le_value_of_le_bytes(v2, 8);
    lemma_le_value_of_le_bytes(v3, 8);
    assert(k.subrange(0, 8) =~= le_bytes(v0, 8));
    assert(k.subrange(8, 16) =~= le_bytes(v1, 8));
    assert(k.subrange(16, 24) =~= le_bytes(v2, 8));
    assert(k.subrange(24, 32) =~= le_bytes(v3, 8));
}

/// The subseed of a valid seed is the 32-byte KangarooTwelve hash of the seed's letter values,
/// `a` as 0 to `z` as 25, in the seed's own order: any byte string `d` whose byte `i` is the
/// value of letter `i` is what gets hashed.
pub proof fn lemma_seed_letter_order(s: Seq<char>, d: Seq<u8>)
    requires
        s.len() == 55,
        all_lower(s),
        d.len() == 55,
        forall|i: int| 0 <= i < 55 ==> #[trigger] d[i] as int == s[i] as int - 97,
    ensures
        parse_seed(s) == Ok::<Seq<u8>, QubicError>(k12(d, 32)),
{
    assert(seed_digits(s) =~= d) by {
        assert forall|i: int| 0 <= i < 55 implies seed_digits(s)[i] == d[i] by {
            assert(d[i] as int == s[i] as int - 97);
            assert(is_lower_letter(s[i]));
        }
    }
}

/// Parsing the identity of a key gives back the key: the 60 letters pass the format and length
/// checks, every letter group fits in 64 bits, and the groups spell the key's bytes.
pub proof fn lemma_identity_round_trip(key: Seq<u8>)
    requires
        key.len() == 32,
    ensures
        identity_text(key).len() == 60,
        all_upper(identity_text(key)),
        id_groups_fit(identity_text(key)),
        parse_identity(identity_text(key)) == Ok::<Seq<u8>, QubicError>(key),
{
    let s = identity_text(key);
    lemma_pow256_8_below_pow26_14();
    let ws = Seq::new(4, |i: int| key_word(key, i));
    assert forall|i: int| 0 <= i < 4 implies #[trigger] ws[i] < pow256(8) && le_bytes(ws[i], 8)
        == key.subrange(8 * i, 8 * i + 8) by {
        lemma_le_value_bound(key.subrange(8 * i, 8 * i + 8));
        lemma_le_bytes_of_le_value(key.subrange(8 * i, 8 * i + 8));
    }
    let l0 = base26_letters(key_word(key, 0), 14);
    let l1 = base26_letters(key_word(key, 1), 14);
    let l2 = base26_letters(key_word(key, 2), 14);
    let l3 = base26_letters(key_word(key, 3), 14);
    let l4 = base26_letters(key_checksum(key), 4);
    lemma_base26_letters_facts(key_word(key, 0), 14);
    lemma_base26_letters_facts(key_word(key, 1), 14);
    lemma_base26_letters_facts(key_word(key, 2), 14);
    lemma_base26_letters_facts(key_word(key, 3), 14);
    lemma_base26_letters_facts(key_checksum(key), 4);
    assert(ws[0] < pow256(8) && ws[1] < pow256(8) && ws[2] < pow256(8) && ws[3] < pow256(8));
    assert(id_group(s, 0) =~= l0);
    assert(id_group(s, 1) =~= l1);
    assert(id_group(s, 2) =~= l2);
    assert(id_group(s, 3) =~= l3);
    assert forall|i: int| 0 <= i < s.len() implies is_upper_letter(#[trigger] s[i]) by {
        if i < 14 {
            assert(s[i] == l0[i]);
        } else if i < 28 {
            assert(s[i] == l1[i - 14]);
        } else if i < 42 {
            assert(s[i] == l2[i - 28]);
        } else if i < 56 {
            assert(s[i] == l3[i - 42]);
        } else {
            assert(s[i] == l4[i - 56]);
        }
    }
    assert(id_groups_fit(s)) by {
        assert forall|i: int| 0 <= i < 4 implies base26_value(#[trigger] id_group(s, i)) < pow256(
            8,
        ) by {
            if i == 0 {
            } else if i == 1 {
            } else if i == 2 {
            } else {
            }
        }
    }
    assert(ws[0] == key_word(key, 0) && ws[1] == key_word(key, 1) && ws[2] == key_word(key, 2)
        && ws[3] == key_word(key, 3));
    assert(le_bytes(ws[0], 8) == key.subrange(0, 8));
    assert(le_bytes(ws[1], 8) == key.subrange(8, 16));
    assert(le_bytes(ws[2], 8) == key.subrange(16, 24));
    assert(le_bytes(ws[3], 8) == key.subrange(24, 32));
    assert(id_key(s) =~= key);
}

/// A Qubic wallet: private key, subseed and public key.
#[derive(Debug, Clone, Copy, Default)]
pub struct QubicWallet {
    private_key: [u8; 32],
    subseed: [u8; 32],
    pub public_key: QubicId,
}

/// The values 0 to 25 of the letters of a seed.
pub open spec fn seed_digits(s: Seq<char>) -> Seq<u8> {
    Seq::new(s.len(), |i: int| (s[i] as int - 97) as u8)
}

/// The outcome of turning the text `s` into a subseed: 55 lowercase letters, hashed as their
/// values 0 to 25 with KangarooTwelve into 32 bytes.
pub open spec fn parse_seed(s: Seq<char>) -> Result<Seq<u8>, QubicError> {
    if !all_lower(s) {
        Err(QubicError::InvalidIdFormatError { ident: "SEED" })
    } else if s.len() != 55 {
        Err(QubicError::InvalidIdLengthError { ident: "SEED", expected: 55, found: s.len() as usize })
    } else {
        Ok(k12(seed_digits(s), 32))
    }
}

impl QubicWallet {
    /// The wallet's public key.
    pub closed spec fn spec_public_key(&self) -> QubicId {
        self.public_key
    }

    /// The subseed of a 55-letter lowercase seed.
    pub fn get_subseed(seed: &str) -> (r: Result<[u8; 32], QubicError>)
        ensures
            same_outcome(
                match r {
                    Ok(a) => Ok(a@),
                    Err(e) => Err(e),
                },
                parse_seed(seed@),
            ),
    {
        broadcast use vstd::string::group_string_axioms;

        if !seed.is_ascii() {
            proof {
                let i = choose|i: int|
                    0 <= i < seed@.len() && !('\0' <= #[trigger] seed@[i] <= '\u{7f}');
                assert(!is_lower_letter(seed@[i]));
            }
            return Err(QubicError::InvalidIdFormatError { ident: "SEED" });
        }
        let b = seed.as_bytes();
        proof {
            vstd::utf8::is_ascii_chars_encode_utf8(seed@);
        }
        let mut i: usize = 0;
        while i < b.len()
            invariant
                i <= b@.len(),
                b@.len() == seed@.len(),
                forall|j: int| 0 <= j < seed@.len() ==> seed@[j] as u8 == #[trigger] b@[j],
                forall|j: int| 0 <= j < i ==> is_lower_letter(#[trigger] seed@[j]),
                vstd::string::is_ascii(seed),
            decreases b@.len() - i,
        {
            let ghost c = seed@[i as int];
            assert('\0' <= c <= '\u{7f}');
            assert(c as u8 == b@[i as int]);
            assert(c as int == b@[i as int] as int);
            if b[i] < 97 || b[i] > 122 {
                assert(!is_lower_letter(seed@[i as int]));
                return Err(QubicError::InvalidIdFormatError { ident: "SEED" });
            }
            i = i + 1;
        }
        if b.len() != 55 {
            return Err(
                QubicError::InvalidIdLengthError { ident: "SEED", expected: 55, found: b.len() },
            );
        }
        let mut digits: Vec<u8> = Vec::new();
        let mut k: usize = 0;
        while k < 55
            invariant
                k <= 55,
                b@.len() == 55,
                seed@.len() == 55,
                all_lower(seed@),
                forall|j: int| 0 <= j < seed@.len() ==> seed@[j] as u8 == #[trigger] b@[j],
                vstd::string::is_ascii(seed),
                digits@ =~= seed_digits(seed@).subrange(0, k as int),
            decreases 55 - k,
        {
            let ghost c = seed@[k as int];
            assert('\0' <= c <= '\u{7f}');
            assert(c as int == b@[k as int] as int);
            assert(is_lower_letter(c));
            digits.push(b[k] - 97);
            k = k + 1;
        }
        let h = k12_hash(digits.as_slice(), 32);
        assert(digits@ =~= seed_digits(seed@));
        Ok(to_array32(&h))
    }

    /// The private key of a subseed: its 32-byte KangarooTwelve hash.
    pub fn get_private_key(subseed: &[u8; 32]) -> (r: [u8; 32])
        ensures
            r@ == k12(subseed@, 32),
    {
        let h = k12_hash(subseed.as_slice(), 32);
        to_array32(&h)
    }

    /// The 60-letter identity of the wallet's public key.
    pub fn get_identity(&self) -> (r: String)
        ensures
            r@ == identity_text(self.spec_public_key().0@),
    {
        self.public_key.get_identity()
    }
}

impl Default for Signature {
    fn default() -> (r: Self)
        ensures
            r.0@ == Seq::new(64, |i: int| 0u8),
    {
        let r = Signature([0u8; 64]);
        assert(r.0@ =~= Seq::new(64, |i: int| 0u8));
        r
    }
}

} // verus!
