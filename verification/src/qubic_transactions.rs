//! Qubic transactions and their 80-byte header, payload and signature wire format.
use crate::bytes::{
    le_bytes, le_bytes_vec, le_value, lemma_le_bytes_index, lemma_le_bytes_len, lemma_le_bytes_of_le_value,
    lemma_le_value_bound, lemma_le_value_of_le_bytes, pow256, read_uint, Endianness,
};
use crate::codec::{k12, k12_hash};
use crate::qubic_types::{QubicId, Signature};
use crate::sc_api::append_bytes;
use vstd::prelude::*;

verus! {

/// The fixed 80-byte header of a transaction.
#[derive(Debug, Clone, Copy, Default, PartialEq, Eq, Hash)]
pub struct RawTransaction {
    pub from: QubicId,
    pub to: QubicId,
    pub amount: u64,
    pub tick: u32,
    pub input_type: u16,
    pub input_size: u16,
}

/// The payload of a transaction.
#[derive(Debug, Clone, PartialEq, Eq, Hash, Default)]
pub enum TransactionData {
    #[default]
    Empty,
    Unknown(Vec<u8>),
}

/// A transaction: header, payload and signature.
#[derive(Debug, Clone, PartialEq, Eq, Hash, Default)]
pub struct TransactionWithData {
    pub raw_transaction: RawTransaction,
    pub data: TransactionData,
    pub signature: Signature,
}

/// Errors in decoding transactions from bytes.
#[derive(Debug, Clone, Copy, PartialEq, Eq, Structural)]
pub enum ByteEncodingError {
    /// Fewer bytes than a header and a signature need.
    InvalidMinimumDataLength { expected_min: usize, found: usize },
}

/// The content of a transaction header.
pub struct RawTxView {
    pub from: Seq<u8>,
    pub to: Seq<u8>,
    pub amount: u64,
    pub tick: u32,
    pub input_type: u16,
    pub input_size: u16,
}

/// The content of a transaction: header, payload (`None` when there is none) and signature.
pub struct TxView {
    pub raw: RawTxView,
    pub data: Option<Seq<u8>>,
    pub signature: Seq<u8>,
}

impl View for RawTransaction {
    type V = RawTxView;

    open spec fn view(&self) -> RawTxView {
        RawTxView {
            from: self.from.0@,
            to: self.to.0@,
            amount: self.amount,
            tick: self.tick,
            input_type: self.input_type,
            input_size: self.input_size,
        }
    }
}

impl View for TransactionData {
    type V = Option<Seq<u8>>;

    open spec fn view(&self) -> Option<Seq<u8>> {
        match self {
            TransactionData::Empty => None,
            TransactionData::Unknown(v) => Some(v@),
        }
    }
}

impl View for TransactionWithData {
    type V = TxView;

    open spec fn view(&self) -> TxView {
        TxView { raw: self.raw_transaction@, data: self.data@, signature: self.signature.0@ }
    }
}

/// Header size in bytes.
pub const RAW_TRANSACTION_SIZE: usize = 80;

/// Signature size in bytes.
pub const SIGNATURE_SIZE: usize = 64;

/// The 80 bytes of a header: source key, destination key, then amount, tick, input type and
/// input size, each little endian.
pub open spec fn raw_tx_bytes(r: RawTxView) -> Seq<u8> {
    r.from + r.to + le_bytes(r.amount as nat, 8) + le_bytes(r.tick as nat, 4) + le_bytes(
        r.input_type as nat,
        2,
    ) + le_bytes(r.input_size as nat, 2)
}

/// The payload bytes; none for an absent payload.
pub open spec fn data_bytes(d: Option<Seq<u8>>) -> Seq<u8> {
    match d {
        None => Seq::empty(),
        Some(b) => b,
    }
}

/// The wire form of a transaction: header, payload, signature.
pub open spec fn encode_tx(t: TxView) -> Seq<u8> {
    raw_tx_bytes(t.raw) + data_bytes(t.data) + t.signature
}

/// The header that the first 80 bytes of `s` encode.
pub open spec fn decode_raw_tx(s: Seq<u8>) -> RawTxView {
    RawTxView {
        from: s.subrange(0, 32),
        to: s.subrange(32, 64),
        amount: le_value(s.subrange(64, 72)) as u64,
        tick: le_value(s.subrange(72, 76)) as u32,
        input_type: le_value(s.subrange(76, 78)) as u16,
        input_size: le_value(s.subrange(78, 80)) as u16,
    }
}

/// The transaction that `s` encodes: none when `s` is shorter than a header and a signature;
/// the bytes between them are the payload, absent when there are none.
pub open spec fn decode_tx(s: Seq<u8>) -> Option<TxView> {
    if s.len() < 144 {
        None
    } else {
        Some(
            TxView {
                raw: decode_raw_tx(s),
                data: if s.len() == 144 {
                    None
                } else {
                    Some(s.subrange(80, s.len() - 64))
                },
                signature: s.subrange(s.len() - 64, s.len() as int),
            },
        )
    }
}

/// A transaction content that the wire form can carry: 32-byte keys, a 64-byte signature and
/// a payload that is absent or not empty.
pub open spec fn tx_view_wf(t: TxView) -> bool {
    &&& t.raw.from.len() == 32
    &&& t.raw.to.len() == 32
    &&& t.signature.len() == 64
    &&& match t.data {
        None => true,
        Some(b) => b.len() > 0,
    }
}

impl QubicId {
    /// The 32 key bytes.
    pub fn to_bytes(&self) -> (r: Vec<u8>)
        ensures
            r@ == self.0@,
    {
        let mut v: Vec<u8> = Vec::new();
        append_bytes(&mut v, self.0.as_slice());
        v
    }
}

impl Signature {
    /// The 64 signature bytes.
    pub fn to_bytes(&self) -> (r: Vec<u8>)
        ensures
            r@ == self.0@,
    {
        let mut v: Vec<u8> = Vec::new();
        append_bytes(&mut v, self.0.as_slice());
        v
    }
}

/// Appends the `n`-byte little-endian encoding of `v`.
fn push_le(buf: &mut Vec<u8>, v: u64, n: usize)
    requires
        n <= 8,
    ensures
        final(buf)@ == old(buf)@ + le_bytes(v as nat, n as nat),
{
    let b = le_bytes_vec(v, n);
    append_bytes(buf, b.as_slice());
}

impl RawTransaction {
    /// The 80-byte wire form of the header.
    pub fn to_bytes(&self) -> (r: Vec<u8>)
        ensures
            r@ == raw_tx_bytes(self@),
    {
        let mut v: Vec<u8> = Vec::new();
        append_bytes(&mut v, self.from.0.as_slice());
        append_bytes(&mut v, self.to.0.as_slice());
        push_le(&mut v, self.amount, 8);
        push_le(&mut v, self.tick as u64, 4);
        push_le(&mut v, self.input_type as u64, 2);
        push_le(&mut v, self.input_size as u64, 2);
        assert(v@ =~= raw_tx_bytes(self@));
        v
    }
}

impl TransactionData {
    /// The payload bytes; none for an absent payload.
    pub fn to_bytes(&self) -> (r: Vec<u8>)
        ensures
            r@ == data_bytes(self@),
    {
        match self {
            TransactionData::Unknown(d) => {
                let mut v: Vec<u8> = Vec::new();
                append_bytes(&mut v, d.as_slice());
                v
            },
            TransactionData::Empty => Vec::new(),
        }
    }
}

/// Copies bytes into a fresh vector.
pub(crate) fn copy_bytes(s: &[u8]) -> (r: Vec<u8>)
    ensures
        r@ == s@,
{
    let mut v: Vec<u8> = Vec::new();
    append_bytes(&mut v, s);
    v
}

/// Copies 32 bytes into an array.
pub(crate) fn array32(s: &[u8]) -> (r: [u8; 32])
    requires
        s@.len() == 32,
    ensures
        r@ == s@,
{
    let mut out = [0u8; 32];
    let mut i: usize = 0;
    while i < 32
        invariant
            i <= 32,
            s@.len() == 32,
            forall|j: int| 0 <= j < i ==> out@[j] == s@[j],
        decreases 32 - i,
    {
        out[i] = s[i];
        i = i + 1;
    }
    assert(out@ =~= s@);
    out
}

/// Copies 64 bytes into an array.
fn array64(s: &[u8]) -> (r: [u8; 64])
    requires
        s@.len() == 64,
    ensures
        r@ == s@,
{
    let mut out = [0u8; 64];
    let mut i: usize = 0;
    while i < 64
        invariant
            i <= 64,
            s@.len() == 64,
            forall|j: int| 0 <= j < i ==> out@[j] == s@[j],
        decreases 64 - i,
    {
        out[i] = s[i];
        i = i + 1;
    }
    assert(out@ =~= s@);
    out
}

proof fn lemma_small_le(s: Seq<u8>)
    requires
        s.len() <= 8,
    ensures
        le_value(s) < pow256(s.len()),
        pow256(s.len()) <= pow256(8),
{
    lemma_le_value_bound(s);
    reveal_with_fuel(pow256, 9);
    if s.len() < 8 {
        assert(pow256(s.len()) <= pow256(8)) by {
            reveal_with_fuel(pow256, 9);
        }
    }
}

impl TransactionWithData {
    /// The wire form: header, payload, signature.
    pub fn to_bytes(&self) -> (r: Vec<u8>)
        ensures
            r@ == encode_tx(self@),
    {
        let mut data = self.raw_transaction.to_bytes();
        let payload = self.data.to_bytes();
        append_bytes(&mut data, payload.as_slice());
        append_bytes(&mut data, self.signature.0.as_slice());
        data
    }

    /// Decodes the wire form; the bytes between header and signature become the payload.
    pub fn from_bytes(data: &[u8]) -> (r: Result<Self, ByteEncodingError>)
        ensures
            match r {
                Ok(tx) => decode_tx(data@) == Some(tx@),
                Err(e) => decode_tx(data@) is None && e == (
                ByteEncodingError::InvalidMinimumDataLength {
                    expected_min: 144,
                    found: data@.len() as usize,
                }),
            },
    {
        let min = RAW_TRANSACTION_SIZE + SIGNATURE_SIZE;
        if data.len() < min {
            return Err(
                ByteEncodingError::InvalidMinimumDataLength { expected_min: min, found: data.len() },
            );
        }
        let ghost s = data@;
        let n = data.len();
        let from = QubicId(array32(&data[0..32]));
        let to = QubicId(array32(&data[32..64]));
        let amount = read_uint(&data[64..72], Endianness::Little);
        let tick = read_uint(&data[72..76], Endianness::Little);
        let input_type = read_uint(&data[76..78], Endianness::Little);
        let input_size = read_uint(&data[78..80], Endianness::Little);
        proof {
            lemma_small_le(s.subrange(72, 76));
            lemma_small_le(s.subrange(76, 78));
            lemma_small_le(s.subrange(78, 80));
            reveal_with_fuel(pow256, 5);
        }
        let raw_tx = RawTransaction {
            from,
            to,
            amount,
            tick: tick as u32,
            input_type: input_type as u16,
            input_size: input_size as u16,
        };
        let signature = Signature(array64(&data[n - 64..n]));
        let payload = copy_bytes(&data[80..n - 64]);
        let tx_data = if payload.len() == 0 {
            TransactionData::Empty
        } else {
            TransactionData::Unknown(payload)
        };
        let tx = TransactionWithData { raw_transaction: raw_tx, data: tx_data, signature };
        assert(tx@.raw == decode_raw_tx(s));
        Ok(tx)
    }

    /// The source of the transaction, which signs it.
    pub fn get_signer(&self) -> (r: &QubicId)
        ensures
            *r == self.raw_transaction.from,
    {
        &self.raw_transaction.from
    }
}

impl From<TransactionWithData> for [u8; 32] {
    /// The transaction hash: the 32-byte KangarooTwelve hash of the wire form.
    fn from(val: TransactionWithData) -> (r: [u8; 32])
        ensures
            r@ == k12(encode_tx(val@), 32),
    {
        let bytes = val.to_bytes();
        let h = k12_hash(bytes.as_slice(), 32);
        array32(h.as_slice())
    }
}

impl vstd::std_specs::convert::FromSpecImpl<TransactionWithData> for [u8; 32] {
    open spec fn obeys_from_spec() -> bool {
        false
    }

    open spec fn from_spec(val: TransactionWithData) -> [u8; 32] {
        arbitrary()
    }
}

/// The header's fixed layout: the source key in bytes 0..32, the destination key in bytes
/// 32..64, the amount in bytes 64..72 and the tick in bytes 72..76, then the input type in
/// bytes 76..78 and the input size in bytes 78..80, least significant byte first; the payload
/// follows from byte 80.
pub proof fn lemma_tx_header_layout(t: TxView)
    requires
        t.raw.from.len() == 32,
        t.raw.to.len() == 32,
    ensures
        encode_tx(t).subrange(0, 32) == t.raw.from,
        encode_tx(t).subrange(32, 64) == t.raw.to,
        forall|k: int| 0 <= k < 8 ==> #[trigger] encode_tx(t)[64 + k] as nat == (t.raw.amount as nat
            / pow256(k as nat)) % 256,
        forall|k: int| 0 <= k < 4 ==> #[trigger] encode_tx(t)[72 + k] as nat == (t.raw.tick as nat
            / pow256(k as nat)) % 256,
        encode_tx(t)[76] as nat == t.raw.input_type as nat % 256,
        encode_tx(t)[77] as nat == t.raw.input_type as nat / 256,
        encode_tx(t)[78] as nat == t.raw.input_size as nat % 256,
        encode_tx(t)[79] as nat == t.raw.input_size as nat / 256,
        forall|k: int| 0 <= k < data_bytes(t.data).len() ==> #[trigger] encode_tx(t)[80 + k]
            == data_bytes(t.data)[k],
{
    let s = encode_tx(t);
    lemma_le_bytes_len(t.raw.amount as nat, 8);
    lemma_le_bytes_len(t.raw.tick as nat, 4);
    lemma_le_bytes_len(t.raw.input_type as nat, 2);
    lemma_le_bytes_len(t.raw.input_size as nat, 2);
    assert(s.subrange(0, 32) =~= t.raw.from);
    assert(s.subrange(32, 64) =~= t.raw.to);
    assert forall|k: int| 0 <= k < 8 implies #[trigger] s[64 + k] as nat == (t.raw.amount as nat
        / pow256(k as nat)) % 256 by {
        assert(s[64 + k] == le_bytes(t.raw.amount as nat, 8)[k]);
        lemma_le_bytes_index(t.raw.amount as nat, 8, k as nat);
    }
    assert forall|k: int| 0 <= k < 4 implies #[trigger] s[72 + k] as nat == (t.raw.tick as nat
        / pow256(k as nat)) % 256 by {
        assert(s[72 + k] == le_bytes(t.raw.tick as nat, 4)[k]);
        lemma_le_bytes_index(t.raw.tick as nat, 4, k as nat);
    }
    assert(s[76] == le_bytes(t.raw.input_type as nat, 2)[0]);
    assert(s[77] == le_bytes(t.raw.input_type as nat, 2)[1]);
    assert(s[78] == le_bytes(t.raw.input_size as nat, 2)[0]);
    assert(s[79] == le_bytes(t.raw.input_size as nat, 2)[1]);
    lemma_le_bytes_index(t.raw.input_type as nat, 2, 0);
    lemma_le_bytes_index(t.raw.input_type as nat, 2, 1);
    lemma_le_bytes_index(t.raw.input_size as nat, 2, 0);
    lemma_le_bytes_index(t.raw.input_size as nat, 2, 1);
    reveal_with_fuel(pow256, 2);
    assert(t.raw.input_type as nat / 256 < 256);
    assert(t.raw.input_size as nat / 256 < 256);
    assert forall|k: int| 0 <= k < data_bytes(t.data).len() implies #[trigger] s[80 + k]
        == data_bytes(t.data)[k] by {
        assert(raw_tx_bytes(t.raw).len() == 80);
    }
}

/// Decoding reads the header by the same layout: the input type from bytes 76 and 77 and the
/// input size from bytes 78 and 79, least significant byte first.
pub proof fn lemma_tx_header_fields(s: Seq<u8>)
    requires
        s.len() >= 80,
    ensures
        decode_raw_tx(s).from == s.subrange(0, 32),
        decode_raw_tx(s).to == s.subrange(32, 64),
        decode_raw_tx(s).input_type as nat == s[76] as nat + 256 * s[77] as nat,
        decode_raw_tx(s).input_size as nat == s[78] as nat + 256 * s[79] as nat,
        decode_raw_tx(s).tick as nat == s[72] as nat + 256 * s[73] as nat + 65536 * s[74] as nat
            + 16777216 * s[75] as nat,
{
    reveal_with_fuel(le_value, 5);
    let a = s.subrange(76, 78);
    let b = s.subrange(78, 80);
    let c = s.subrange(72, 76);
    assert(a.drop_first().drop_first().len() == 0);
    assert(b.drop_first().drop_first().len() == 0);
    assert(c.drop_first().drop_first().drop_first().drop_first().len() == 0);
    assert(le_value(a) == s[76] as nat + 256 * s[77] as nat);
    assert(le_value(b) == s[78] as nat + 256 * s[79] as nat);
    assert(le_value(c) == s[72] as nat + 256 * s[73] as nat + 65536 * s[74] as nat + 16777216
        * s[75] as nat);
}

/// Decoding the wire form of a transaction gives back the transaction.
pub proof fn lemma_decode_encode_tx(t: TxView)
    requires
        tx_view_wf(t),
    ensures
        decode_tx(encode_tx(t)) == Some(t),
{
    let s = encode_tx(t);
    let r = t.raw;
    lemma_le_bytes_len(r.amount as nat, 8);
    lemma_le_bytes_len(r.tick as nat, 4);
    lemma_le_bytes_len(r.input_type as nat, 2);
    lemma_le_bytes_len(r.input_size as nat, 2);
    reveal_with_fuel(pow256, 9);
    assert(r.amount < pow256(8));
    lemma_le_value_of_le_bytes(r.amount as nat, 8);
    lemma_le_value_of_le_bytes(r.tick as nat, 4);
    lemma_le_value_of_le_bytes(r.input_type as nat, 2);
    lemma_le_value_of_le_bytes(r.input_size as nat, 2);
    let d = data_bytes(t.data);
    assert(s.len() == 144 + d.len());
    assert(s.subrange(0, 32) =~= r.from);
    assert(s.subrange(32, 64) =~= r.to);
    assert(s.subrange(64, 72) =~= le_bytes(r.amount as nat, 8));
    assert(s.subrange(72, 76) =~= le_bytes(r.tick as nat, 4));
    assert(s.subrange(76, 78) =~= le_bytes(r.input_type as nat, 2));
    assert(s.subrange(78, 80) =~= le_bytes(r.input_size as nat, 2));
    assert(s.subrange(80, s.len() - 64) =~= d);
    assert(s.subrange(s.len() - 64, s.len() as int) =~= t.signature);
    let u = decode_tx(s).unwrap();
    assert(u.raw == r);
    assert(u.data == t.data);
}

/// Encoding the transaction that bytes decode to gives back the bytes.
pub proof fn lemma_encode_decode_tx(s: Seq<u8>)
    requires
        s.len() >= 144,
    ensures
        decode_tx(s) is Some,
        tx_view_wf(decode_tx(s).unwrap()),
        encode_tx(decode_tx(s).unwrap()) == s,
{
    let t = decode_tx(s).unwrap();
    lemma_small_le(s.subrange(64, 72));
    lemma_small_le(s.subrange(72, 76));
    lemma_small_le(s.subrange(76, 78));
    lemma_small_le(s.subrange(78, 80));
    reveal_with_fuel(pow256, 9);
    lemma_le_bytes_of_le_value(s.subrange(64, 72));
    lemma_le_bytes_of_le_value(s.subrange(72, 76));
    lemma_le_bytes_of_le_value(s.subrange(76, 78));
    lemma_le_bytes_of_le_value(s.subrange(78, 80));
    assert(encode_tx(t) =~= s);
}

/// Builds transactions field by field.
#[derive(Debug, Clone, Default)]
pub struct TransactionBuilder {
    raw_tx: RawTransaction,
    data: TransactionData,
}

impl TransactionBuilder {
    /// The header built so far.
    pub closed spec fn spec_raw(&self) -> RawTransaction {
        self.raw_tx
    }

    /// The payload set so far.
    pub closed spec fn spec_data(&self) -> TransactionData {
        self.data
    }

    /// A builder with an all-zero header and no payload.
    pub fn new() -> (r: Self)
        ensures
            r.spec_raw()@ == (RawTxView {
                from: Seq::new(32, |i: int| 0u8),
                to: Seq::new(32, |i: int| 0u8),
                amount: 0,
                tick: 0,
                input_type: 0,
                input_size: 0,
            }),
            r.spec_data() == TransactionData::Empty,
    {
        let zero = QubicId([0u8; 32]);
        assert(zero.0@ =~= Seq::new(32, |i: int| 0u8));
        TransactionBuilder {
            raw_tx: RawTransaction {
                from: zero,
                to: zero,
                amount: 0,
                tick: 0,
                input_type: 0,
                input_size: 0,
            },
            data: TransactionData::Empty,
        }
    }

    pub fn with_from_id(self, from: QubicId) -> (r: Self)
        ensures
            r.spec_raw() == (RawTransaction { from, ..self.spec_raw() }),
            r.spec_data() == self.spec_data(),
    {
        let mut s = self;
        s.raw_tx.from = from;
        s
    }

    pub fn with_to_id(self, to: QubicId) -> (r: Self)
        ensures
            r.spec_raw() == (RawTransaction { to, ..self.spec_raw() }),
            r.spec_data() == self.spec_data(),
    {
        let mut s = self;
        s.raw_tx.to = to;
        s
    }

    pub fn with_amount(self, amount: u64) -> (r: Self)
        ensures
            r.spec_raw() == (RawTransaction { amount, ..self.spec_raw() }),
            r.spec_data() == self.spec_data(),
    {
        let mut s = self;
        s.raw_tx.amount = amount;
        s
    }

    pub fn with_tx_data(self, data: TransactionData) -> (r: Self)
        ensures
            r.spec_raw() == self.spec_raw(),
            r.spec_data() == data,
    {
        let mut s = self;
        s.data = data;
        s
    }

    pub fn with_tick(self, tick: u32) -> (r: Self)
        ensures
            r.spec_raw() == (RawTransaction { tick, ..self.spec_raw() }),
            r.spec_data() == self.spec_data(),
    {
        let mut s = self;
        s.raw_tx.tick = tick;
        s
    }

    pub fn with_input_type_and_size(self, input_type: u16, input_size: u16) -> (r: Self)
        ensures
            r.spec_raw() == (RawTransaction { input_type, input_size, ..self.spec_raw() }),
            r.spec_data() == self.spec_data(),
    {
        let mut s = self;
        s.raw_tx.input_type = input_type;
        s.raw_tx.input_size = input_size;
        s
    }

    /// The unsigned transaction: the header and payload, with an all-zero signature.
    pub fn build(self) -> (r: TransactionWithData)
        ensures
            r.raw_transaction == self.spec_raw(),
            r.data == self.spec_data(),
            r.signature.0@ == Seq::new(64, |i: int| 0u8),
    {
        TransactionWithData {
            raw_transaction: self.raw_tx,
            data: self.data,
            signature: Signature::default(),
        }
    }
}

} // verus!
