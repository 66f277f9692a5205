//! Builders for the binary input of smart-contract queries.
use crate::bytes::{encode_uint, le_bytes, lemma_le_bytes_split, pow256, push_uint, Endianness};
use crate::codec::{base64_encode, base64_standard};
use vstd::prelude::*;

verus! {

/// Appends every byte of `src` to `buf`.
pub fn append_bytes(buf: &mut Vec<u8>, src: &[u8])
    ensures
        final(buf)@ == old(buf)@ + src@,
{
    let ghost start = buf@;
    let mut i: usize = 0;
    while i < src.len()
        invariant
            i <= src@.len(),
            buf@ == start + src@.subrange(0, i as int),
        decreases src@.len() - i,
    {
        buf.push(src[i]);
        i = i + 1;
        assert(buf@ =~= start + src@.subrange(0, i as int));
    }
    assert(src@.subrange(0, src@.len() as int) =~= src@);
}

/// The 32 bytes of the 256-bit number with 64-bit words `w0` (least significant) to `w3`
/// (most significant), in byte order `e`: little endian puts the least significant word first,
/// big endian the most significant word first, each word in the same byte order.
pub open spec fn m256i_words_encoding(w0: u64, w1: u64, w2: u64, w3: u64, e: Endianness) -> Seq<u8> {
    match e {
        Endianness::Little => encode_uint(w0 as nat, 8, e) + encode_uint(w1 as nat, 8, e)
            + encode_uint(w2 as nat, 8, e) + encode_uint(w3 as nat, 8, e),
        Endianness::Big => encode_uint(w3 as nat, 8, e) + encode_uint(w2 as nat, 8, e)
            + encode_uint(w1 as nat, 8, e) + encode_uint(w0 as nat, 8, e),
    }
}

/// The 256-bit number whose 64-bit words are `w0` (least significant) to `w3`.
pub open spec fn m256i_value(w0: u64, w1: u64, w2: u64, w3: u64) -> nat {
    w0 as nat + 0x1_0000_0000_0000_0000 * w1 as nat
        + 0x1_0000_0000_0000_0000_0000_0000_0000_0000 * w2 as nat
        + 0x1_0000_0000_0000_0000_0000_0000_0000_0000_0000_0000_0000_0000 * w3 as nat
}

/// The four words are written as one 256-bit integer: in either byte order, the bytes that
/// `add_m256i_from_u64x4` appends are the 32-byte encoding of `w0 + 2^64 w1 + 2^128 w2 + 2^192 w3`.
pub proof fn lemma_m256i_words_form_one_integer(w0: u64, w1: u64, w2: u64, w3: u64, e: Endianness)
    ensures
        m256i_words_encoding(w0, w1, w2, w3, e) == encode_uint(m256i_value(w0, w1, w2, w3), 32, e),
{
    let p = pow256(8);
    assert(p == 0x1_0000_0000_0000_0000) by {
        reveal_with_fuel(pow256, 9);
    }
    let hi2 = w2 as nat + p * w3 as nat;
    let hi1 = w1 as nat + p * hi2;
    let v = w0 as nat + p * hi1;
    assert(v == m256i_value(w0, w1, w2, w3)) by (nonlinear_arith)
        requires
            p == 0x1_0000_0000_0000_0000,
            hi2 == w2 as nat + p * w3 as nat,
            hi1 == w1 as nat + p * hi2,
            v == w0 as nat + p * hi1,
    ;
    lemma_le_bytes_split(w2 as nat, w3 as nat, 8, 8);
    lemma_le_bytes_split(w1 as nat, hi2, 8, 16);
    lemma_le_bytes_split(w0 as nat, hi1, 8, 24);
    let l0 = le_bytes(w0 as nat, 8);
    let l1 = le_bytes(w1 as nat, 8);
    let l2 = le_bytes(w2 as nat, 8);
    let l3 = le_bytes(w3 as nat, 8);
    assert(le_bytes(v, 32) =~= l0 + l1 + l2 + l3);
    match e {
        Endianness::Little => {},
        Endianness::Big => {
            crate::bytes::lemma_le_bytes_len(w0 as nat, 8);
            crate::bytes::lemma_le_bytes_len(w1 as nat, 8);
            crate::bytes::lemma_le_bytes_len(w2 as nat, 8);
            crate::bytes::lemma_le_bytes_len(w3 as nat, 8);
            assert((l0 + l1 + l2 + l3).reverse() =~= l3.reverse() + l2.reverse() + l1.reverse() + l0.reverse());
        },
    }
}

/// One call of a payload or request builder that appends bytes, with its argument.
pub enum BuildCall {
    Bytes(Seq<u8>),
    Bool(bool),
    Int8(i8),
    UInt8(u8),
    Int16(i16),
    UInt16(u16),
    Int32(i32),
    UInt32(u32),
    Int64(i64),
    UInt64(u64),
    Char(u8),
    M256iBytes([u8; 32]),
    M256iWords(u64, u64, u64, u64),
}

/// The bytes that a call appends in byte order `e`.
pub open spec fn call_bytes(c: BuildCall, e: Endianness) -> Seq<u8> {
    match c {
        BuildCall::Bytes(s) => s,
        BuildCall::Bool(b) => seq![bool_byte(b)],
        BuildCall::Int8(v) => seq![v as u8],
        BuildCall::UInt8(v) => seq![v],
        BuildCall::Int16(v) => encode_uint(v as u16 as nat, 2, e),
        BuildCall::UInt16(v) => encode_uint(v as nat, 2, e),
        BuildCall::Int32(v) => encode_uint(v as u32 as nat, 4, e),
        BuildCall::UInt32(v) => encode_uint(v as nat, 4, e),
        BuildCall::Int64(v) => encode_uint(v as u64 as nat, 8, e),
        BuildCall::UInt64(v) => encode_uint(v as nat, 8, e),
        BuildCall::Char(v) => seq![v],
        BuildCall::M256iBytes(a) => a@,
        BuildCall::M256iWords(w0, w1, w2, w3) => m256i_words_encoding(w0, w1, w2, w3, e),
    }
}

/// The bytes that a run of calls appends in byte order `e`, in call order.
pub open spec fn calls_bytes(calls: Seq<BuildCall>, e: Endianness) -> Seq<u8>
    decreases calls.len(),
{
    if calls.len() == 0 {
        Seq::empty()
    } else {
        calls_bytes(calls.drop_last(), e) + call_bytes(calls.last(), e)
    }
}

/// The encoding of a boolean: one byte, 1 for true and 0 for false.
pub open spec fn bool_byte(value: bool) -> u8 {
    if value {
        1
    } else {
        0
    }
}

/// Accumulates the bytes of a smart-contract input.
#[derive(Debug, Default, Clone)]
pub struct PayloadBuilder {
    buffer: Vec<u8>,
    endianness: Endianness,
}

impl PayloadBuilder {
    /// The bytes written so far.
    pub closed spec fn bytes(&self) -> Seq<u8> {
        self.buffer@
    }

    /// The byte order used for multi-byte values.
    pub closed spec fn order(&self) -> Endianness {
        self.endianness
    }

    pub fn new() -> (r: Self)
        ensures
            r.bytes() == Seq::<u8>::empty(),
            r.order() == Endianness::Little,
    {
        PayloadBuilder { buffer: Vec::new(), endianness: Endianness::Little }
    }

    pub fn with_endianness(self, endianness: Endianness) -> (r: Self)
        ensures
            r.bytes() == self.bytes(),
            r.order() == endianness,
    {
        PayloadBuilder { buffer: self.buffer, endianness }
    }

    pub fn add_bytes(self, bytes: &[u8]) -> (r: Self)
        ensures
            r.bytes() == self.bytes() + call_bytes(BuildCall::Bytes(bytes@), self.order()),
            r.bytes() == self.bytes() + bytes@,
            r.order() == self.order(),
    {
        let mut s = self;
        append_bytes(&mut s.buffer, bytes);
        s
    }

    pub fn add_bool(self, value: bool) -> (r: Self)
        ensures
            r.bytes() == self.bytes() + call_bytes(BuildCall::Bool(value), self.order()),
            r.bytes() == self.bytes().push(bool_byte(value)),
            r.order() == self.order(),
    {
        let mut s = self;
        s.buffer.push(if value {
            1
        } else {
            0
        });
        s
    }

    pub fn add_int8(self, value: i8) -> (r: Self)
        ensures
            r.bytes() == self.bytes() + call_bytes(BuildCall::Int8(value), self.order()),
            r.bytes() == self.bytes().push(value as u8),
            r.order() == self.order(),
    {
        let mut s = self;
        s.buffer.push(value as u8);
        s
    }

    pub fn add_uint8(self, value: u8) -> (r: Self)
        ensures
            r.bytes() == self.bytes() + call_bytes(BuildCall::UInt8(value), self.order()),
            r.bytes() == self.bytes().push(value),
            r.order() == self.order(),
    {
        let mut s = self;
        s.buffer.push(value);
        s
    }

    /// Appends the two's complement of `value` in two bytes.
    pub fn add_int16(self, value: i16) -> (r: Self)
        ensures
            r.bytes() == self.bytes() + call_bytes(BuildCall::Int16(value), self.order()),
            r.bytes() == self.bytes() + encode_uint(value as u16 as nat, 2, self.order()),
            r.order() == self.order(),
    {
        let mut s = self;
        push_uint(&mut s.buffer, value as u16 as u64, 2, s.endianness);
        s
    }

    pub fn add_uint16(self, value: u16) -> (r: Self)
        ensures
            r.bytes() == self.bytes() + call_bytes(BuildCall::UInt16(value), self.order()),
            r.bytes() == self.bytes() + encode_uint(value as nat, 2, self.order()),
            r.order() == self.order(),
    {
        let mut s = self;
        push_uint(&mut s.buffer, value as u64, 2, s.endianness);
        s
    }

    /// Appends the two's complement of `value` in four bytes.
    pub fn add_int32(self, value: i32) -> (r: Self)
        ensures
            r.bytes() == self.bytes() + call_bytes(BuildCall::Int32(value), self.order()),
            r.bytes() == self.bytes() + encode_uint(value as u32 as nat, 4, self.order()),
            r.order() == self.order(),
    {
        let mut s = self;
        push_uint(&mut s.buffer, value as u32 as u64, 4, s.endianness);
        s
    }

    pub fn add_uint32(self, value: u32) -> (r: Self)
        ensures
            r.bytes() == self.bytes() + call_bytes(BuildCall::UInt32(value), self.order()),
            r.bytes() == self.bytes() + encode_uint(value as nat, 4, self.order()),
            r.order() == self.order(),
    {
        let mut s = self;
        push_uint(&mut s.buffer, value as u64, 4, s.endianness);
        s
    }

    /// Appends the two's complement of `value` in eight bytes.
    pub fn add_int64(self, value: i64) -> (r: Self)
        ensures
            r.bytes() == self.bytes() + call_bytes(BuildCall::Int64(value), self.order()),
            r.bytes() == self.bytes() + encode_uint(value as u64 as nat, 8, self.order()),
            r.order() == self.order(),
    {
        let mut s = self;
        push_uint(&mut s.buffer, value as u64, 8, s.endianness);
        s
    }

    pub fn add_uint64(self, value: u64) -> (r: Self)
        ensures
            r.bytes() == self.bytes() + call_bytes(BuildCall::UInt64(value), self.order()),
            r.bytes() == self.bytes() + encode_uint(value as nat, 8, self.order()),
            r.order() == self.order(),
    {
        let mut s = self;
        push_uint(&mut s.buffer, value, 8, s.endianness);
        s
    }

    /// Appends a C `char`, one byte.
    pub fn add_char(self, value: u8) -> (r: Self)
        ensures
            r.bytes() == self.bytes() + call_bytes(BuildCall::Char(value), self.order()),
            r.bytes() == self.bytes().push(value),
            r.order() == self.order(),
    {
        let mut s = self;
        s.buffer.push(value);
        s
    }

    /// Appends 32 raw bytes as they are.
    pub fn add_m256i_bytes(self, bytes32: [u8; 32]) -> (r: Self)
        ensures
            r.bytes() == self.bytes() + call_bytes(BuildCall::M256iBytes(bytes32), self.order()),
            r.bytes() == self.bytes() + bytes32@,
            r.order() == self.order(),
    {
        let mut s = self;
        append_bytes(&mut s.buffer, bytes32.as_slice());
        s
    }

    /// Appends a 256-bit integer given as four 64-bit words, `w0` least significant.
    pub fn add_m256i_from_u64x4(self, w0: u64, w1: u64, w2: u64, w3: u64) -> (r: Self)
        ensures
            r.bytes() == self.bytes() + call_bytes(BuildCall::M256iWords(w0, w1, w2, w3), self.order()),
            r.bytes() == self.bytes() + m256i_words_encoding(w0, w1, w2, w3, self.order()),
            r.order() == self.order(),
    {
        let mut s = self;
        let e = s.endianness;
        let ghost start = s.buffer@;
        match e {
            Endianness::Little => {
                push_uint(&mut s.buffer, w0, 8, e);
                push_uint(&mut s.buffer, w1, 8, e);
                push_uint(&mut s.buffer, w2, 8, e);
                push_uint(&mut s.buffer, w3, 8, e);
            },
            Endianness::Big => {
                push_uint(&mut s.buffer, w3, 8, e);
                push_uint(&mut s.buffer, w2, 8, e);
                push_uint(&mut s.buffer, w1, 8, e);
                push_uint(&mut s.buffer, w0, 8, e);
            },
        }
        assert(s.buffer@ =~= start + m256i_words_encoding(w0, w1, w2, w3, e));
        s
    }

    pub fn to_bytes(self) -> (r: Vec<u8>)
        ensures
            r@ == self.bytes(),
    {
        self.buffer
    }

    /// The bytes in standard base64 with padding.
    pub fn to_base64(&self) -> (r: String)
        requires
            (self.bytes().len() / 3) * 4 + 4 <= usize::MAX,
        ensures
            r@ == base64_encode(self.bytes()),
    {
        base64_standard(self.buffer.as_slice())
    }
}

/// A smart-contract query: the contract, the function (input type) and its input bytes.
#[derive(Debug, Default, Clone)]
pub struct RequestDataBuilder {
    payload: PayloadBuilder,
    endianness: Endianness,
    contract_index: u32,
    input_type: u32,
}

impl RequestDataBuilder {
    /// The input bytes written so far.
    pub closed spec fn bytes(&self) -> Seq<u8> {
        self.payload.bytes()
    }

    /// The byte order used for multi-byte values.
    pub closed spec fn order(&self) -> Endianness {
        self.endianness
    }

    pub closed spec fn spec_contract_index(&self) -> u32 {
        self.contract_index
    }

    pub closed spec fn spec_input_type(&self) -> u32 {
        self.input_type
    }

    /// The query with the same target and byte order whose input bytes are `bytes`.
    pub open spec fn same_but_bytes(&self, r: &Self, bytes: Seq<u8>) -> bool {
        &&& r.bytes() == bytes
        &&& r.order() == self.order()
        &&& r.spec_contract_index() == self.spec_contract_index()
        &&& r.spec_input_type() == self.spec_input_type()
    }

    /// An empty query for contract 0, input type 1, little endian.
    pub fn new() -> (r: Self)
        ensures
            r.bytes() == Seq::<u8>::empty(),
            r.order() == Endianness::Little,
            r.spec_contract_index() == 0,
            r.spec_input_type() == 1,
    {
        RequestDataBuilder {
            payload: PayloadBuilder::new(),
            endianness: Endianness::Little,
            contract_index: 0,
            input_type: 1,
        }
    }

    pub fn with_endianness(self, endianness: Endianness) -> (r: Self)
        ensures
            r.bytes() == self.bytes(),
            r.order() == endianness,
            r.spec_contract_index() == self.spec_contract_index(),
            r.spec_input_type() == self.spec_input_type(),
    {
        RequestDataBuilder { endianness, ..self }
    }

    pub fn add_bytes(self, bytes: &[u8]) -> (r: Self)
        ensures
            r.bytes() == self.bytes() + call_bytes(BuildCall::Bytes(bytes@), self.order()),
            self.same_but_bytes(&r, self.bytes() + bytes@),
    {
        let mut s = self;
        s.payload = s.payload.add_bytes(bytes);
        s
    }

    pub fn set_contract_index(self, index: u32) -> (r: Self)
        ensures
            r.bytes() == self.bytes(),
            r.order() == self.order(),
            r.spec_contract_index() == index,
            r.spec_input_type() == self.spec_input_type(),
    {
        RequestDataBuilder { contract_index: index, ..self }
    }

    pub fn set_input_type(self, input_type: u32) -> (r: Self)
        ensures
            r.bytes() == self.bytes(),
            r.order() == self.order(),
            r.spec_contract_index() == self.spec_contract_index(),
            r.spec_input_type() == input_type,
    {
        RequestDataBuilder { input_type, ..self }
    }

    /// The contract the query targets.
    pub fn contract_index(&self) -> (r: u32)
        ensures
            r == self.spec_contract_index(),
    {
        self.contract_index
    }

    /// The contract function the query calls.
    pub fn input_type(&self) -> (r: u32)
        ensures
            r == self.spec_input_type(),
    {
        self.input_type
    }

    pub fn add_bool(self, value: bool) -> (r: Self)
        ensures
            r.bytes() == self.bytes() + call_bytes(BuildCall::Bool(value), self.order()),
            self.same_but_bytes(&r, self.bytes().push(bool_byte(value))),
    {
        let mut s = self;
        s.payload = s.payload.add_bool(value);
        s
    }

    pub fn add_int8(self, value: i8) -> (r: Self)
        ensures
            r.bytes() == self.bytes() + call_bytes(BuildCall::Int8(value), self.order()),
            self.same_but_bytes(&r, self.bytes().push(value as u8)),
    {
        let mut s = self;
        s.payload = s.payload.add_int8(value);
        s
    }

    pub fn add_uint8(self, value: u8) -> (r: Self)
        ensures
            r.bytes() == self.bytes() + call_bytes(BuildCall::UInt8(value), self.order()),
            self.same_but_bytes(&r, self.bytes().push(value)),
    {
        let mut s = self;
        s.payload = s.payload.add_uint8(value);
        s
    }

    /// Appends the two's complement of `value` in two bytes.
    pub fn add_int16(self, value: i16) -> (r: Self)
        ensures
            r.bytes() == self.bytes() + call_bytes(BuildCall::Int16(value), self.order()),
            self.same_but_bytes(
                &r,
                self.bytes() + encode_uint(value as u16 as nat, 2, self.order()),
            ),
    {
        self.push_number(value as u16 as u64, 2)
    }

    pub fn add_uint16(self, value: u16) -> (r: Self)
        ensures
            r.bytes() == self.bytes() + call_bytes(BuildCall::UInt16(value), self.order()),
            self.same_but_bytes(&r, self.bytes() + encode_uint(value as nat, 2, self.order())),
    {
        self.push_number(value as u64, 2)
    }

    /// Appends the two's complement of `value` in four bytes.
    pub fn add_int32(self, value: i32) -> (r: Self)
        ensures
            r.bytes() == self.bytes() + call_bytes(BuildCall::Int32(value), self.order()),
            self.same_but_bytes(
                &r,
                self.bytes() + encode_uint(value as u32 as nat, 4, self.order()),
            ),
    {
        self.push_number(value as u32 as u64, 4)
    }

    /// Same as `add_uint32`.
    pub fn add_uint32_legacy(self, value: u32) -> (r: Self)
        ensures
            r.bytes() == self.bytes() + call_bytes(BuildCall::UInt32(value), self.order()),
            self.same_but_bytes(&r, self.bytes() + encode_uint(value as nat, 4, self.order())),
    {
        self.add_uint32(value)
    }

    pub fn add_uint32(self, value: u32) -> (r: Self)
        ensures
            r.bytes() == self.bytes() + call_bytes(BuildCall::UInt32(value), self.order()),
            self.same_but_bytes(&r, self.bytes() + encode_uint(value as nat, 4, self.order())),
    {
        self.push_number(value as u64, 4)
    }

    /// Appends the two's complement of `value` in eight bytes.
    pub fn add_int64(self, value: i64) -> (r: Self)
        ensures
            r.bytes() == self.bytes() + call_bytes(BuildCall::Int64(value), self.order()),
            self.same_but_bytes(
                &r,
                self.bytes() + encode_uint(value as u64 as nat, 8, self.order()),
            ),
    {
        self.push_number(value as u64, 8)
    }

    pub fn add_uint64(self, value: u64) -> (r: Self)
        ensures
            r.bytes() == self.bytes() + call_bytes(BuildCall::UInt64(value), self.order()),
            self.same_but_bytes(&r, self.bytes() + encode_uint(value as nat, 8, self.order())),
    {
        self.push_number(value, 8)
    }

    /// Appends a C `char`, one byte.
    pub fn add_char(self, value: u8) -> (r: Self)
        ensures
            r.bytes() == self.bytes() + call_bytes(BuildCall::Char(value), self.order()),
            self.same_but_bytes(&r, self.bytes().push(value)),
    {
        let mut s = self;
        s.payload = s.payload.add_char(value);
        s
    }

    /// Appends 32 raw bytes as they are.
    pub fn add_m256i_bytes(self, bytes32: [u8; 32]) -> (r: Self)
        ensures
            r.bytes() == self.bytes() + call_bytes(BuildCall::M256iBytes(bytes32), self.order()),
            self.same_but_bytes(&r, self.bytes() + bytes32@),
    {
        let mut s = self;
        s.payload = s.payload.add_m256i_bytes(bytes32);
        s
    }

    /// Appends a 256-bit integer given as four 64-bit words, `w0` least significant.
    pub fn add_m256i_from_u64x4(self, w0: u64, w1: u64, w2: u64, w3: u64) -> (r: Self)
        ensures
            r.bytes() == self.bytes() + call_bytes(BuildCall::M256iWords(w0, w1, w2, w3), self.order()),
            self.same_but_bytes(
                &r,
                self.bytes() + m256i_words_encoding(w0, w1, w2, w3, self.order()),
            ),
    {
        let e = self.endianness;
        let s = match e {
            Endianness::Little => self.push_number(w0, 8).push_number(w1, 8).push_number(
                w2,
                8,
            ).push_number(w3, 8),
            Endianness::Big => self.push_number(w3, 8).push_number(w2, 8).push_number(
                w1,
                8,
            ).push_number(w0, 8),
        };
        assert(s.bytes() =~= self.bytes() + m256i_words_encoding(w0, w1, w2, w3, e));
        s
    }

    pub fn to_bytes(self) -> (r: Vec<u8>)
        ensures
            r@ == self.bytes(),
    {
        self.payload.to_bytes()
    }

    /// The input bytes in standard base64 with padding.
    pub fn to_base64(&self) -> (r: String)
        requires
            (self.bytes().len() / 3) * 4 + 4 <= usize::MAX,
        ensures
            r@ == base64_encode(self.bytes()),
    {
        self.payload.to_base64()
    }

    /// Appends the `n`-byte encoding of `value` in this query's byte order.
    fn push_number(self, value: u64, n: usize) -> (r: Self)
        requires
            n <= 8,
        ensures
            self.same_but_bytes(&r, self.bytes() + encode_uint(value as nat, n as nat, self.order())),
    {
        let mut s = self;
        let mut buf: Vec<u8> = Vec::new();
        push_uint(&mut buf, value, n, s.endianness);
        assert(buf@ =~= encode_uint(value as nat, n as nat, s.endianness));
        s.payload = s.payload.add_bytes(buf.as_slice());
        s
    }
}

/// The two builders agree: a run of the same calls on a payload builder and on a request
/// builder, both in byte order `e` and from the same bytes, leaves both with the same bytes,
/// those they started with followed by what each call appends, in call order. `ps` and `qs`
/// are the builders before and after each call, as the calls' contracts relate them.
pub proof fn lemma_builders_agree(
    calls: Seq<BuildCall>,
    e: Endianness,
    ps: Seq<PayloadBuilder>,
    qs: Seq<RequestDataBuilder>,
)
    requires
        ps.len() == calls.len() + 1,
        qs.len() == calls.len() + 1,
        ps[0].bytes() == qs[0].bytes(),
        forall|i: int| 0 <= i <= calls.len() ==> (#[trigger] ps[i]).order() == e,
        forall|i: int| 0 <= i <= calls.len() ==> (#[trigger] qs[i]).order() == e,
        forall|i: int|
            0 <= i < calls.len() ==> #[trigger] ps[i + 1].bytes() == ps[i].bytes() + call_bytes(
                calls[i],
                ps[i].order(),
            ),
        forall|i: int|
            0 <= i < calls.len() ==> #[trigger] qs[i + 1].bytes() == qs[i].bytes() + call_bytes(
                calls[i],
                qs[i].order(),
            ),
    ensures
        ps.last().bytes() == ps[0].bytes() + calls_bytes(calls, e),
        qs.last().bytes() == ps.last().bytes(),
    decreases calls.len(),
{
    if calls.len() == 0 {
        assert(ps[0].bytes() + calls_bytes(calls, e) =~= ps[0].bytes());
    } else {
        let n = calls.len() - 1;
        let c2 = calls.drop_last();
        let ps2 = ps.drop_last();
        let qs2 = qs.drop_last();
        assert forall|i: int| 0 <= i < c2.len() implies #[trigger] ps2[i + 1].bytes() == ps2[i].bytes()
            + call_bytes(c2[i], ps2[i].order()) by {
            assert(ps[i + 1].bytes() == ps[i].bytes() + call_bytes(calls[i], ps[i].order()));
        }
        assert forall|i: int| 0 <= i < c2.len() implies #[trigger] qs2[i + 1].bytes() == qs2[i].bytes()
            + call_bytes(c2[i], qs2[i].order()) by {
            assert(qs[i + 1].bytes() == qs[i].bytes() + call_bytes(calls[i], qs[i].order()));
        }
        assert forall|i: int| 0 <= i <= c2.len() implies (#[trigger] ps2[i]).order() == e by {
            assert(ps[i].order() == e);
        }
        assert forall|i: int| 0 <= i <= c2.len() implies (#[trigger] qs2[i]).order() == e by {
            assert(qs[i].order() == e);
        }
        lemma_builders_agree(c2, e, ps2, qs2);
        assert(ps[n + 1].bytes() == ps[n].bytes() + call_bytes(calls[n], ps[n].order()));
        assert(qs[n + 1].bytes() == qs[n].bytes() + call_bytes(calls[n], qs[n].order()));
        assert(ps[n].order() == e);
        assert(qs[n].order() == e);
        assert(ps.last().bytes() =~= ps[0].bytes() + calls_bytes(calls, e));
    }
}

} // verus!
