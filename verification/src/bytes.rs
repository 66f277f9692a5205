//! Fixed-width integer encodings used by contract payloads and responses.
use vstd::prelude::*;

verus! {

/// Byte order used when multi-byte integers are written or read.
#[derive(Debug, Clone, Copy, PartialEq, Eq, Structural, Default)]
pub enum Endianness {
    #[default]
    Little,
    Big,
}

/// `256^n`.
pub open spec fn pow256(n: nat) -> nat
    decreases n,
{
    if n == 0 {
        1
    } else {
        256 * pow256((n - 1) as nat)
    }
}

/// The `n` least significant bytes of `v`, least significant byte first.
pub open spec fn le_bytes(v: nat, n: nat) -> Seq<u8>
    decreases n,
{
    if n == 0 {
        Seq::empty()
    } else {
        seq![(v % 256) as u8] + le_bytes(v / 256, (n - 1) as nat)
    }
}

/// The number whose little-endian encoding is `s`.
pub open spec fn le_value(s: Seq<u8>) -> nat
    decreases s.len(),
{
    if s.len() == 0 {
        0
    } else {
        s[0] as nat + 256 * le_value(s.drop_first())
    }
}

/// The `n`-byte encoding of `v` in byte order `e`.
pub open spec fn encode_uint(v: nat, n: nat, e: Endianness) -> Seq<u8> {
    match e {
        Endianness::Little => le_bytes(v, n),
        Endianness::Big => le_bytes(v, n).reverse(),
    }
}

/// The number that the bytes `s` encode in byte order `e`.
pub open spec fn decode_uint(s: Seq<u8>, e: Endianness) -> nat {
    match e {
        Endianness::Little => le_value(s),
        Endianness::Big => le_value(s.reverse()),
    }
}

pub proof fn lemma_le_bytes_len(v: nat, n: nat)
    ensures
        le_bytes(v, n).len() == n,
    decreases n,
{
    if n > 0 {
        lemma_le_bytes_len(v / 256, (n - 1) as nat);
    }
}

pub proof fn lemma_pow256_positive(n: nat)
    ensures
        pow256(n) >= 1,
    decreases n,
{
    if n > 0 {
        lemma_pow256_positive((n - 1) as nat);
    }
}

/// A value read back from `n` bytes is below `256^n`.
pub proof fn lemma_le_value_bound(s: Seq<u8>)
    ensures
        le_value(s) < pow256(s.len()),
    decreases s.len(),
{
    if s.len() > 0 {
        lemma_le_value_bound(s.drop_first());
        assert(le_value(s.drop_first()) + 1 <= pow256((s.len() - 1) as nat));
        assert(256 * (le_value(s.drop_first()) + 1) <= 256 * pow256((s.len() - 1) as nat))
            by (nonlinear_arith)
            requires
                le_value(s.drop_first()) + 1 <= pow256((s.len() - 1) as nat),
        ;
    }
}

/// Byte `k` of the `n`-byte little-endian encoding of `v` is digit `k` of `v` in base 256.
pub proof fn lemma_le_bytes_index(v: nat, n: nat, k: nat)
    requires
        k < n,
    ensures
        le_bytes(v, n).len() == n,
        le_bytes(v, n)[k as int] as nat == (v / pow256(k)) % 256,
    decreases k,
{
    lemma_le_bytes_len(v, n);
    if k == 0 {
        assert(v / 1 == v);
    } else {
        lemma_le_bytes_index(v / 256, (n - 1) as nat, (k - 1) as nat);
        lemma_le_bytes_len(v / 256, (n - 1) as nat);
        assert(le_bytes(v, n)[k as int] == le_bytes(v / 256, (n - 1) as nat)[k - 1]);
        lemma_pow256_positive((k - 1) as nat);
        vstd::arithmetic::div_mod::lemma_div_denominator(v as int, 256, pow256((k - 1) as nat) as int);
    }
}

/// Decoding an encoding gives back the value, when it fits in `n` bytes.
pub proof fn lemma_le_value_of_le_bytes(v: nat, n: nat)
    requires
        v < pow256(n),
    ensures
        le_value(le_bytes(v, n)) == v,
    decreases n,
{
    lemma_le_bytes_len(v, n);
    if n == 0 {
    } else {
        let rest = le_bytes(v / 256, (n - 1) as nat);
        assert(le_bytes(v, n).drop_first() =~= rest);
        assert(v / 256 < pow256((n - 1) as nat)) by (nonlinear_arith)
            requires
                v < 256 * pow256((n - 1) as nat),
        ;
        lemma_le_value_of_le_bytes(v / 256, (n - 1) as nat);
        assert((v % 256) as u8 as nat == v % 256);
        assert(v % 256 + 256 * (v / 256) == v) by (nonlinear_arith);
    }
}

/// Encoding the value that bytes decode to gives back the bytes.
pub proof fn lemma_le_bytes_of_le_value(s: Seq<u8>)
    ensures
        le_bytes(le_value(s), s.len()) == s,
    decreases s.len(),
{
    if s.len() > 0 {
        let t = s.drop_first();
        let v = le_value(s);
        lemma_le_bytes_of_le_value(t);
        assert(v % 256 == s[0] as nat && v / 256 == le_value(t)) by (nonlinear_arith)
            requires
                v == s[0] as nat + 256 * le_value(t),
                s[0] < 256,
        ;
        assert(le_bytes(v, s.len()) =~= s);
    }
}

pub proof fn lemma_encode_uint_len(v: nat, n: nat, e: Endianness)
    ensures
        encode_uint(v, n, e).len() == n,
{
    lemma_le_bytes_len(v, n);
}

/// The little-endian bytes of `a + 256^n * b` are those of `a` in `n` bytes followed by those
/// of `b`, when `a` fits in `n` bytes.
pub proof fn lemma_le_bytes_split(a: nat, b: nat, n: nat, m: nat)
    requires
        a < pow256(n),
    ensures
        le_bytes(a + pow256(n) * b, n + m) == le_bytes(a, n) + le_bytes(b, m),
    decreases n,
{
    if n == 0 {
        assert(le_bytes(a, 0) =~= Seq::<u8>::empty());
        assert(a + pow256(n) * b == b);
        assert(le_bytes(b, m) =~= Seq::<u8>::empty() + le_bytes(b, m));
    } else {
        let p = pow256((n - 1) as nat);
        let v = a + pow256(n) * b;
        assert(v == a + 256 * (p * b)) by (nonlinear_arith)
            requires
                v == a + pow256(n) * b,
                pow256(n) == 256 * p,
        ;
        assert(v % 256 == a % 256 && v / 256 == a / 256 + p * b) by (nonlinear_arith)
            requires
                v == a + 256 * (p * b),
                a >= 0,
                p * b >= 0,
        ;
        assert(a / 256 < p) by (nonlinear_arith)
            requires
                a < 256 * p,
        ;
        lemma_le_bytes_split(a / 256, b, (n - 1) as nat, m);
        assert((n + m - 1) as nat == ((n - 1) as nat + m) as nat);
        assert(le_bytes(v, n + m) =~= seq![(a % 256) as u8] + le_bytes(a / 256 + p * b, (n - 1 + m) as nat));
        assert(le_bytes(a, n) =~= seq![(a % 256) as u8] + le_bytes(a / 256, (n - 1) as nat));
        assert(le_bytes(v, n + m) =~= le_bytes(a, n) + le_bytes(b, m));
    }
}

/// Reading back what was written in the same byte order gives the value.
pub proof fn lemma_decode_encode(v: nat, n: nat, e: Endianness)
    requires
        v < pow256(n),
    ensures
        decode_uint(encode_uint(v, n, e), e) == v,
{
    lemma_le_value_of_le_bytes(v, n);
    assert(le_bytes(v, n).reverse().reverse() =~= le_bytes(v, n));
}

/// Writing the value that bytes decode to gives back the bytes.
pub proof fn lemma_encode_decode(s: Seq<u8>, e: Endianness)
    ensures
        encode_uint(decode_uint(s, e), s.len(), e) == s,
{
    lemma_le_bytes_of_le_value(s);
    lemma_le_bytes_of_le_value(s.reverse());
    assert(s.reverse().reverse() =~= s);
}

/// The little-endian bytes of `v`, computed one byte at a time.
pub fn le_bytes_vec(v: u64, n: usize) -> (r: Vec<u8>)
    requires
        n <= 8,
    ensures
        r@ == le_bytes(v as nat, n as nat),
{
    let mut out: Vec<u8> = Vec::new();
    let mut cur: u64 = v;
    let mut i: usize = 0;
    assert(out@ + le_bytes(cur as nat, (n - i) as nat) =~= le_bytes(v as nat, n as nat));
    while i < n
        invariant
            i <= n,
            out@ + le_bytes(cur as nat, (n - i) as nat) == le_bytes(v as nat, n as nat),
        decreases n - i,
    {
        let ghost old_out = out@;
        let ghost old_cur = cur as nat;
        let ghost k = (n - i) as nat;
        assert(le_bytes(old_cur, k) == seq![(old_cur % 256) as u8] + le_bytes(
            old_cur / 256,
            (k - 1) as nat,
        ));
        out.push((cur % 256) as u8);
        cur = cur / 256;
        i = i + 1;
        assert(out@ + le_bytes(cur as nat, (n - i) as nat) =~= old_out + le_bytes(old_cur, k));
    }
    out
}

/// Appends the `n`-byte encoding of `v` in byte order `e` to `buf`.
pub fn push_uint(buf: &mut Vec<u8>, v: u64, n: usize, e: Endianness)
    requires
        n <= 8,
    ensures
        final(buf)@ == old(buf)@ + encode_uint(v as nat, n as nat, e),
{
    let le = le_bytes_vec(v, n);
    proof {
        lemma_le_bytes_len(v as nat, n as nat);
    }
    let ghost start = buf@;
    match e {
        Endianness::Little => {
            let mut i: usize = 0;
            while i < n
                invariant
                    i <= n,
                    le@.len() == n,
                    buf@ == start + le@.subrange(0, i as int),
                decreases n - i,
            {
                buf.push(le[i]);
                i = i + 1;
                assert(buf@ =~= start + le@.subrange(0, i as int));
            }
            assert(le@.subrange(0, n as int) =~= le@);
        },
        Endianness::Big => {
            let mut i: usize = n;
            while i > 0
                invariant
                    i <= n,
                    le@.len() == n,
                    buf@ == start + le@.reverse().subrange(0, (n - i) as int),
                decreases i,
            {
                i = i - 1;
                buf.push(le[i]);
                assert(buf@ =~= start + le@.reverse().subrange(0, (n - i) as int));
            }
            assert(le@.reverse().subrange(0, n as int) =~= le@.reverse());
        },
    }
}

/// Reads the number that `bytes` encode in byte order `e`.
pub fn read_uint(bytes: &[u8], e: Endianness) -> (r: u64)
    requires
        bytes@.len() <= 8,
    ensures
        r as nat == decode_uint(bytes@, e),
{
    let n = bytes.len();
    let ghost s = bytes@;
    let mut acc: u64 = 0;
    match e {
        Endianness::Little => {
            let mut i: usize = n;
            proof {
                assert(s.subrange(n as int, n as int) =~= Seq::<u8>::empty());
            }
            while i > 0
                invariant
                    i <= n,
                    n == s.len(),
                    n <= 8,
                    s == bytes@,
                    acc as nat == le_value(s.subrange(i as int, n as int)),
                decreases i,
            {
                let ghost tail = s.subrange(i as int, n as int);
                proof {
                    lemma_le_value_bound(tail);
                    lemma_pow256_le_7(tail.len());
                }
                i = i - 1;
                let b = bytes[i];
                assert(s.subrange(i as int, n as int).drop_first() =~= tail);
                assert(acc * 256 + b <= u64::MAX) by (nonlinear_arith)
                    requires
                        acc < 72057594037927936nat,
                        b < 256,
                ;
                acc = acc * 256 + b as u64;
            }
            assert(s.subrange(0, n as int) =~= s);
        },
        Endianness::Big => {
            let mut i: usize = 0;
            proof {
                assert(s.subrange(0, 0).reverse() =~= Seq::<u8>::empty());
            }
            while i < n
                invariant
                    i <= n,
                    n == s.len(),
                    n <= 8,
                    s == bytes@,
                    acc as nat == le_value(s.subrange(0, i as int).reverse()),
                decreases n - i,
            {
                let ghost head = s.subrange(0, i as int).reverse();
                proof {
                    lemma_le_value_bound(head);
                    lemma_pow256_le_7(head.len());
                }
                let b = bytes[i];
                assert(s.subrange(0, i + 1).reverse().drop_first() =~= head);
                assert(acc * 256 + b <= u64::MAX) by (nonlinear_arith)
                    requires
                        acc < 72057594037927936nat,
                        b < 256,
                ;
                acc = acc * 256 + b as u64;
                i = i + 1;
            }
            assert(s.subrange(0, n as int) =~= s);
        },
    }
    acc
}

/// Seven bytes or fewer hold values below `2^56`.
proof fn lemma_pow256_le_7(n: nat)
    requires
        n <= 7,
    ensures
        pow256(n) <= 72057594037927936,
    decreases n,
{
    reveal_with_fuel(pow256, 8);
}

} // verus!
