//! Declarative decoding of smart-contract responses into named fields.
use crate::bytes::{decode_uint, lemma_le_value_bound, pow256, Endianness};
use crate::codec::{hex_digit, hex_encode, hex_lower, lemma_hex_encode_index};
use crate::reader::{BinaryReader, DecodeError};
use vstd::prelude::*;

verus! {

/// A decoded response field.
///
/// Floating-point fields are kept as their IEEE 754 bit patterns; byte strings are kept as
/// `0x`-prefixed lowercase hexadecimal text.
#[derive(Debug)]
pub enum DecodedValue {
    UInt(u64),
    Int(i64),
    Float32Bits(u32),
    Float64Bits(u64),
    Hex(String),
    List(Vec<DecodedValue>),
    /// Named fields in the order they were decoded, repeats included. Where a name repeats,
    /// the field's value is that of its last entry (`field_value`).
    Object(Vec<(String, DecodedValue)>),
}

/// The fixed-width kinds of value a response field can hold.
#[derive(Debug, Clone, Copy, PartialEq, Eq, Structural)]
pub enum ScalarKind {
    U8,
    I8,
    U16,
    I16,
    U32,
    I32,
    U64,
    I64,
    F32,
    F64,
    M256i,
}

/// How many bytes a value of kind `k` occupies.
pub open spec fn kind_size(k: ScalarKind) -> nat {
    match k {
        ScalarKind::U8 | ScalarKind::I8 => 1,
        ScalarKind::U16 | ScalarKind::I16 => 2,
        ScalarKind::U32 | ScalarKind::I32 | ScalarKind::F32 => 4,
        ScalarKind::U64 | ScalarKind::I64 | ScalarKind::F64 => 8,
        ScalarKind::M256i => 32,
    }
}

/// `0x` followed by the lowercase hexadecimal of `b`.
pub open spec fn hex_literal(b: Seq<u8>) -> Seq<char> {
    seq!['0', 'x'] + hex_encode(b)
}

/// `v` is the value of kind `k` that the bytes `b` encode in byte order `e`.
pub open spec fn scalar_matches(k: ScalarKind, b: Seq<u8>, e: Endianness, v: DecodedValue) -> bool {
    let n = decode_uint(b, e);
    match k {
        ScalarKind::U8 => v == DecodedValue::UInt(b[0] as u64),
        ScalarKind::I8 => v == DecodedValue::Int(b[0] as i8 as i64),
        ScalarKind::U16 | ScalarKind::U32 | ScalarKind::U64 => v == DecodedValue::UInt(n as u64),
        ScalarKind::I16 => v == DecodedValue::Int(n as u16 as i16 as i64),
        ScalarKind::I32 => v == DecodedValue::Int(n as u32 as i32 as i64),
        ScalarKind::I64 => v == DecodedValue::Int(n as u64 as i64),
        ScalarKind::F32 => v == DecodedValue::Float32Bits(n as u32),
        ScalarKind::F64 => v == DecodedValue::Float64Bits(n as u64),
        ScalarKind::M256i => v matches DecodedValue::Hex(s) && s@ == hex_literal(b),
    }
}

/// A decoded m256i value is the text `0x` followed by two lowercase hexadecimal digits for
/// each of the 32 bytes read, in order, high nibble first: 66 characters in all.
pub proof fn lemma_m256i_text(b: Seq<u8>, e: Endianness, v: DecodedValue)
    requires
        b.len() == kind_size(ScalarKind::M256i),
        scalar_matches(ScalarKind::M256i, b, e, v),
    ensures
        v is Hex,
        v->Hex_0@.len() == 66,
        v->Hex_0@[0] == '0',
        v->Hex_0@[1] == 'x',
        forall|n: int|
            2 <= n < 66 ==> #[trigger] v->Hex_0@[n] == (if n % 2 == 0 {
                hex_digit(b[(n - 2) / 2] as nat / 16)
            } else {
                hex_digit(b[(n - 2) / 2] as nat % 16)
            }),
{
    lemma_hex_encode_index(b);
    let t = v->Hex_0@;
    assert forall|n: int| 2 <= n < 66 implies #[trigger] t[n] == (if n % 2 == 0 {
        hex_digit(b[(n - 2) / 2] as nat / 16)
    } else {
        hex_digit(b[(n - 2) / 2] as nat % 16)
    }) by {
        assert(t[n] == hex_encode(b)[n - 2]);
        assert((n - 2) % 2 == n % 2);
    }
}

/// The bytes of the `i`-th element of an array of `size`-byte elements starting at `start`.
pub open spec fn element_bytes(data: Seq<u8>, start: nat, size: nat, i: int) -> Seq<u8> {
    data.subrange(start + i * size, start + (i + 1) * size)
}

/// The error of reading `size`-byte elements from `r` until too few bytes remain.
pub open spec fn element_short_read(r: BinaryReader, size: nat) -> DecodeError {
    let rem = (r.data().len() - r.pos()) as nat;
    DecodeError::NotEnoughBytes {
        needed: size as usize,
        available: (rem % size) as usize,
        position: (r.pos() + (rem / size) * size) as usize,
    }
}

/// Reads one value of kind `k`.
pub fn read_scalar(reader: &mut BinaryReader, k: ScalarKind) -> (r: Result<DecodedValue, DecodeError>)
    ensures
        old(reader).after_read(final(reader), kind_size(k)),
        match r {
            Ok(v) => old(reader).has(kind_size(k)) && scalar_matches(
                k,
                old(reader).next_bytes(kind_size(k)),
                old(reader).order(),
                v,
            ),
            Err(e) => !old(reader).has(kind_size(k)) && e == old(reader).short_read(kind_size(k)),
        },
{
    let ghost before = *reader;
    match k {
        ScalarKind::U8 => match reader.read_u8() {
            Ok(v) => Ok(DecodedValue::UInt(v as u64)),
            Err(e) => Err(e),
        },
        ScalarKind::I8 => match reader.read_i8() {
            Ok(v) => Ok(DecodedValue::Int(v as i64)),
            Err(e) => Err(e),
        },
        ScalarKind::U16 => match reader.read_u16() {
            Ok(v) => Ok(DecodedValue::UInt(v as u64)),
            Err(e) => Err(e),
        },
        ScalarKind::I16 => match reader.read_i16() {
            Ok(v) => Ok(DecodedValue::Int(v as i64)),
            Err(e) => Err(e),
        },
        ScalarKind::U32 => match reader.read_u32() {
            Ok(v) => Ok(DecodedValue::UInt(v as u64)),
            Err(e) => Err(e),
        },
        ScalarKind::I32 => match reader.read_i32() {
            Ok(v) => Ok(DecodedValue::Int(v as i64)),
            Err(e) => Err(e),
        },
        ScalarKind::U64 => match reader.read_u64() {
            Ok(v) => Ok(DecodedValue::UInt(v)),
            Err(e) => Err(e),
        },
        ScalarKind::I64 => match reader.read_i64() {
            Ok(v) => Ok(DecodedValue::Int(v)),
            Err(e) => Err(e),
        },
        ScalarKind::F32 => match reader.read_u32() {
            Ok(v) => Ok(DecodedValue::Float32Bits(v)),
            Err(e) => Err(e),
        },
        ScalarKind::F64 => match reader.read_u64() {
            Ok(v) => Ok(DecodedValue::Float64Bits(v)),
            Err(e) => Err(e),
        },
        ScalarKind::M256i => match reader.read_m256i_bytes() {
            Ok(a) => Ok(DecodedValue::Hex(hex_text(a.as_slice()))),
            Err(e) => Err(e),
        },
    }
}

/// `0x` followed by the lowercase hexadecimal of `b`.
pub fn hex_text(b: &[u8]) -> (r: String)
    ensures
        r@ == hex_literal(b@),
{
    let mut s = String::from_str("0x");
    proof {
        reveal_strlit("0x");
    }
    let h = hex_lower(b);
    s.append(h.as_str());
    s
}

/// Reads `count` consecutive values of kind `k`.
pub fn read_list(reader: &mut BinaryReader, k: ScalarKind, count: usize) -> (r: Result<
    Vec<DecodedValue>,
    DecodeError,
>)
    ensures
        r is Ok ==> old(reader).advanced(final(reader), count as nat * kind_size(k)),
        match r {
            Ok(v) => old(reader).has(count as nat * kind_size(k)) && v@.len() == count && forall|i: int|
                0 <= i < count ==> scalar_matches(
                    k,
                    #[trigger] element_bytes(old(reader).data(), old(reader).pos(), kind_size(k), i),
                    old(reader).order(),
                    v@[i],
                ),
            Err(e) => !old(reader).has(count as nat * kind_size(k)) && e == element_short_read(
                *old(reader),
                kind_size(k),
            ),
        },
{
    proof {
        use_type_invariant(&*reader);
    }
    let ghost start = *reader;
    let ghost size = kind_size(k);
    let mut out: Vec<DecodedValue> = Vec::new();
    let mut i: usize = 0;
    while i < count
        invariant
            i <= count,
            size == kind_size(k),
            size >= 1,
            start == *old(reader),
            start.has(i as nat * size),
            reader.data() == start.data(),
            reader.order() == start.order(),
            reader.pos() == start.pos() + i as nat * size,
            out@.len() == i,
            forall|j: int|
                0 <= j < i ==> scalar_matches(
                    k,
                    #[trigger] element_bytes(start.data(), start.pos(), size, j),
                    start.order(),
                    out@[j],
                ),
        decreases count - i,
    {
        let ghost at = *reader;
        assert((i as nat + 1) * size == i as nat * size + size) by (nonlinear_arith);
        assert(at.next_bytes(size) =~= element_bytes(start.data(), start.pos(), size, i as int));
        match read_scalar(reader, k) {
            Ok(v) => {
                out.push(v);
                assert(start.pos() + i as nat * size + size == start.pos() + (i as nat + 1) * size)
                    by (nonlinear_arith);
                i = i + 1;
            },
            Err(e) => {
                proof {
                    lemma_short_element(start, at, size, i as nat, count as nat);
                }
                return Err(e);
            },
        }
    }
    Ok(out)
}

/// When the `i`-th element is the first that does not fit, the read fails as
/// `element_short_read` says and not all `count` elements fit.
proof fn lemma_short_element(start: BinaryReader, at: BinaryReader, size: nat, i: nat, count: nat)
    requires
        size >= 1,
        i < count,
        at.data() == start.data(),
        at.pos() == start.pos() + i * size,
        start.has(i * size),
        !at.has(size),
    ensures
        !start.has(count * size),
        at.short_read(size) == element_short_read(start, size),
{
    let rem = (start.data().len() - start.pos()) as nat;
    assert(i * size + size <= count * size) by (nonlinear_arith)
        requires
            i < count,
    ;
    lemma_div_unique(rem, size, i);
}

/// `rem / size == i` when `i * size <= rem < (i + 1) * size`.
proof fn lemma_div_unique(rem: nat, size: nat, i: nat)
    requires
        size >= 1,
        i * size <= rem,
        rem < i * size + size,
    ensures
        rem / size == i,
        rem % size == rem - i * size,
{
    vstd::arithmetic::div_mod::lemma_fundamental_div_mod_converse(
        rem as int,
        size as int,
        i as int,
        (rem - i * size) as int,
    );
}

/// `v` is the list of the `count` values of kind `k` that follow the position of `r`.
pub open spec fn list_matches(k: ScalarKind, r: BinaryReader, count: nat, v: DecodedValue) -> bool {
    &&& v matches DecodedValue::List(items)
    &&& items@.len() == count
    &&& forall|i: int|
        0 <= i < count ==> scalar_matches(
            k,
            #[trigger] element_bytes(r.data(), r.pos(), kind_size(k), i),
            r.order(),
            items@[i],
        )
}

/// `v` is the list of the bytes of `b`, each as an unsigned number.
pub open spec fn row_matches(b: Seq<u8>, v: DecodedValue) -> bool {
    &&& v matches DecodedValue::List(inner)
    &&& inner@.len() == b.len()
    &&& forall|j: int| 0 <= j < b.len() ==> inner@[j] == DecodedValue::UInt(b[j] as u64)
}

/// The bytes of `b` as a list of unsigned numbers.
fn byte_row(b: &[u8]) -> (r: DecodedValue)
    ensures
        row_matches(b@, r),
{
    let mut out: Vec<DecodedValue> = Vec::new();
    let mut j: usize = 0;
    while j < b.len()
        invariant
            j <= b@.len(),
            out@.len() == j,
            forall|t: int| 0 <= t < j ==> out@[t] == DecodedValue::UInt(b@[t] as u64),
        decreases b@.len() - j,
    {
        out.push(DecodedValue::UInt(b[j] as u64));
        j = j + 1;
    }
    DecodedValue::List(out)
}

/// Reads `count` consecutive `size`-byte rows.
fn read_rows(reader: &mut BinaryReader, count: usize, size: usize) -> (r: Result<
    Vec<DecodedValue>,
    DecodeError,
>)
    ensures
        r is Ok ==> old(reader).advanced(final(reader), count as nat * size as nat),
        match r {
            Ok(v) => old(reader).has(count as nat * size as nat) && v@.len() == count && forall|
                i: int,
            |
                0 <= i < count ==> row_matches(
                    #[trigger] element_bytes(old(reader).data(), old(reader).pos(), size as nat, i),
                    v@[i],
                ),
            Err(e) => !old(reader).has(count as nat * size as nat) && e == element_short_read(
                *old(reader),
                size as nat,
            ),
        },
{
    proof {
        use_type_invariant(&*reader);
    }
    let ghost start = *reader;
    let mut out: Vec<DecodedValue> = Vec::new();
    let mut i: usize = 0;
    while i < count
        invariant
            i <= count,
            start == *old(reader),
            start.has(i as nat * size as nat),
            reader.data() == start.data(),
            reader.order() == start.order(),
            reader.pos() == start.pos() + i as nat * size as nat,
            out@.len() == i,
            forall|j: int|
                0 <= j < i ==> row_matches(
                    #[trigger] element_bytes(start.data(), start.pos(), size as nat, j),
                    out@[j],
                ),
        decreases count - i,
    {
        let ghost at = *reader;
        assert((i as nat + 1) * size as nat == i as nat * size as nat + size as nat)
            by (nonlinear_arith);
        assert(at.next_bytes(size as nat) =~= element_bytes(
            start.data(),
            start.pos(),
            size as nat,
            i as int,
        ));
        match reader.read_bytes(size) {
            Ok(b) => {
                out.push(byte_row(b));
                i = i + 1;
            },
            Err(e) => {
                proof {
                    lemma_short_element(start, at, size as nat, i as nat, count as nat);
                }
                return Err(e);
            },
        }
    }
    Ok(out)
}

/// `sub` is a fresh decoder over `bytes` in byte order `e`.
pub open spec fn fresh_decoder(sub: ResponseDecoder, bytes: Seq<u8>, e: Endianness) -> bool {
    &&& sub.reader().data() == bytes
    &&& sub.reader().pos() == 0
    &&& sub.reader().order() == e
    &&& sub.entries() == Seq::<(String, DecodedValue)>::empty()
}

/// `f`, given a fresh decoder over `bytes` in byte order `e`, may return `res`.
pub open spec fn decoded_by<'a, F: Fn(ResponseDecoder<'a>) -> Result<DecodedValue, DecodeError>>(
    f: F,
    bytes: Seq<u8>,
    e: Endianness,
    res: Result<DecodedValue, DecodeError>,
) -> bool {
    exists|sub: ResponseDecoder<'a>| fresh_decoder(sub, bytes, e) && f.ensures((sub,), res)
}

/// Some value is what `f` may decode the structure `bytes` to.
pub open spec fn decodes_ok<'a, F: Fn(ResponseDecoder<'a>) -> Result<DecodedValue, DecodeError>>(
    f: F,
    bytes: Seq<u8>,
    e: Endianness,
) -> bool {
    exists|v: DecodedValue| decoded_by(f, bytes, e, Ok(v))
}

/// Reading `size`-byte structures from `r` and decoding each with `f` first fails at structure
/// `k`, with `err`: the structures before it fit and decode, and structure `k` is either cut
/// short (the short read at its start) or is one that `f` fails on with `err`.
pub open spec fn struct_failure<'a, F: Fn(ResponseDecoder<'a>) -> Result<DecodedValue, DecodeError>>(
    f: F,
    r: BinaryReader,
    size: nat,
    k: int,
    err: DecodeError,
) -> bool {
    &&& r.has(k as nat * size)
    &&& forall|j: int|
        0 <= j < k ==> decodes_ok(f, #[trigger] element_bytes(r.data(), r.pos(), size, j), r.order())
    &&& if r.has((k + 1) as nat * size) {
        decoded_by(f, element_bytes(r.data(), r.pos(), size, k), r.order(), Err(err))
    } else {
        err == (DecodeError::NotEnoughBytes {
            needed: size as usize,
            available: (r.data().len() - (r.pos() + k * size)) as usize,
            position: (r.pos() + k * size) as usize,
        })
    }
}

/// The value of the field named `name` among `entries`: that of its last entry, so that a
/// later field with the same name replaces an earlier one.
pub open spec fn field_value(entries: Seq<(String, DecodedValue)>, name: Seq<char>) -> Option<DecodedValue>
    decreases entries.len(),
{
    if entries.len() == 0 {
        None
    } else if entries.last().0@ == name {
        Some(entries.last().1)
    } else {
        field_value(entries.drop_last(), name)
    }
}

/// Decodes a response field by field into named values.
#[derive(Debug)]
pub struct ResponseDecoder<'a> {
    reader: BinaryReader<'a>,
    obj: Vec<(String, DecodedValue)>,
}

impl<'a> ResponseDecoder<'a> {
    /// The reader over the response bytes.
    pub closed spec fn reader(&self) -> BinaryReader<'a> {
        self.reader
    }

    /// The fields decoded so far, in order.
    pub closed spec fn entries(&self) -> Seq<(String, DecodedValue)> {
        self.obj@
    }

    /// `r` is this decoder with `n` more bytes read and one more field, named `field`.
    pub open spec fn appended(&self, r: &Self, field: Seq<char>, n: nat) -> bool {
        &&& self.reader().advanced(&r.reader(), n)
        &&& r.entries().len() == self.entries().len() + 1
        &&& r.entries().drop_last() == self.entries()
        &&& r.entries().last().0@ == field
    }

    /// The value of the field added last.
    pub open spec fn last_value(&self) -> DecodedValue {
        self.entries().last().1
    }

    /// A later field replaces an earlier one: after a field named `field` is added, that name
    /// has the new value, and every other name keeps the value it had.
    pub proof fn lemma_last_field_wins(&self, r: &Self, field: Seq<char>, n: nat, other: Seq<char>)
        requires
            self.appended(r, field, n),
        ensures
            field_value(r.entries(), field) == Some(r.last_value()),
            other != field ==> field_value(r.entries(), other) == field_value(self.entries(), other),
    {
    }

    /// A decoder at the start of `bytes`, little endian, with no fields.
    pub fn new(bytes: &'a [u8]) -> (r: Self)
        ensures
            r.reader().data() == bytes@,
            r.reader().pos() == 0,
            r.reader().order() == Endianness::Little,
            r.entries() == Seq::<(String, DecodedValue)>::empty(),
    {
        ResponseDecoder { reader: BinaryReader::new(bytes), obj: Vec::new() }
    }

    pub fn with_endianness(self, endianness: Endianness) -> (r: Self)
        ensures
            r.reader().data() == self.reader().data(),
            r.reader().pos() == self.reader().pos(),
            r.reader().order() == endianness,
            r.entries() == self.entries(),
    {
        ResponseDecoder { reader: self.reader.with_endianness(endianness), obj: self.obj }
    }

    /// Reads one value of kind `k` into the field `field`.
    fn scalar_field(self, field: &str, k: ScalarKind) -> (r: Result<Self, DecodeError>)
        ensures
            match r {
                Ok(d) => self.reader().has(kind_size(k)) && self.appended(&d, field@, kind_size(k))
                    && scalar_matches(
                    k,
                    self.reader().next_bytes(kind_size(k)),
                    self.reader().order(),
                    d.last_value(),
                ),
                Err(e) => !self.reader().has(kind_size(k)) && e == self.reader().short_read(
                    kind_size(k),
                ),
            },
    {
        let mut d = self;
        match read_scalar(&mut d.reader, k) {
            Ok(v) => {
                let name = field.to_owned();
                assert(name@ == field@);
                d.obj.push((name, v));
                assert(d.obj@.drop_last() =~= self.obj@);
                Ok(d)
            },
            Err(e) => Err(e),
        }
    }

    /// Reads `count` values of kind `k` into the list field `field`.
    fn list_field(self, field: &str, k: ScalarKind, count: usize) -> (r: Result<Self, DecodeError>)
        ensures
            match r {
                Ok(d) => self.reader().has(count as nat * kind_size(k)) && self.appended(
                    &d,
                    field@,
                    count as nat * kind_size(k),
                ) && list_matches(k, self.reader(), count as nat, d.last_value()),
                Err(e) => !self.reader().has(count as nat * kind_size(k)) && e
                    == element_short_read(self.reader(), kind_size(k)),
            },
    {
        let mut d = self;
        match read_list(&mut d.reader, k, count) {
            Ok(v) => {
                let name = field.to_owned();
                assert(name@ == field@);
                d.obj.push((name, DecodedValue::List(v)));
                assert(d.obj@.drop_last() =~= self.obj@);
                Ok(d)
            },
            Err(e) => Err(e),
        }
    }

    pub fn u8(self, field: &str) -> (r: Result<Self, DecodeError>)
        ensures
            match r {
                Ok(d) => self.reader().has(kind_size(ScalarKind::U8)) && self.appended(
                    &d,
                    field@,
                    kind_size(ScalarKind::U8),
                ) && scalar_matches(
                    ScalarKind::U8,
                    self.reader().next_bytes(kind_size(ScalarKind::U8)),
                    self.reader().order(),
                    d.last_value(),
                ),
                Err(e) => !self.reader().has(kind_size(ScalarKind::U8)) && e
                    == self.reader().short_read(kind_size(ScalarKind::U8)),
            },
    {
        self.scalar_field(field, ScalarKind::U8)
    }

    pub fn array_u8(self, field: &str, count: usize) -> (r: Result<Self, DecodeError>)
        ensures
            match r {
                Ok(d) => self.reader().has(count as nat * kind_size(ScalarKind::U8))
                    && self.appended(&d, field@, count as nat * kind_size(ScalarKind::U8))
                    && list_matches(ScalarKind::U8, self.reader(), count as nat, d.last_value()),
                Err(e) => !self.reader().has(count as nat * kind_size(ScalarKind::U8)) && e
                    == element_short_read(self.reader(), kind_size(ScalarKind::U8)),
            },
    {
        self.list_field(field, ScalarKind::U8, count)
    }

    pub fn i8(self, field: &str) -> (r: Result<Self, DecodeError>)
        ensures
            match r {
                Ok(d) => self.reader().has(kind_size(ScalarKind::I8)) && self.appended(
                    &d,
                    field@,
                    kind_size(ScalarKind::I8),
                ) && scalar_matches(
                    ScalarKind::I8,
                    self.reader().next_bytes(kind_size(ScalarKind::I8)),
                    self.reader().order(),
                    d.last_value(),
                ),
                Err(e) => !self.reader().has(kind_size(ScalarKind::I8)) && e
                    == self.reader().short_read(kind_size(ScalarKind::I8)),
            },
    {
        self.scalar_field(field, ScalarKind::I8)
    }

    pub fn array_i8(self, field: &str, count: usize) -> (r: Result<Self, DecodeError>)
        ensures
            match r {
                Ok(d) => self.reader().has(count as nat * kind_size(ScalarKind::I8))
                    && self.appended(&d, field@, count as nat * kind_size(ScalarKind::I8))
                    && list_matches(ScalarKind::I8, self.reader(), count as nat, d.last_value()),
                Err(e) => !self.reader().has(count as nat * kind_size(ScalarKind::I8)) && e
                    == element_short_read(self.reader(), kind_size(ScalarKind::I8)),
            },
    {
        self.list_field(field, ScalarKind::I8, count)
    }

    pub fn u16(self, field: &str) -> (r: Result<Self, DecodeError>)
        ensures
            match r {
                Ok(d) => self.reader().has(kind_size(ScalarKind::U16)) && self.appended(
                    &d,
                    field@,
                    kind_size(ScalarKind::U16),
                ) && scalar_matches(
                    ScalarKind::U16,
                    self.reader().next_bytes(kind_size(ScalarKind::U16)),
                    self.reader().order(),
                    d.last_value(),
                ),
                Err(e) => !self.reader().has(kind_size(ScalarKind::U16)) && e
                    == self.reader().short_read(kind_size(ScalarKind::U16)),
            },
    {
        self.scalar_field(field, ScalarKind::U16)
    }

    pub fn array_u16(self, field: &str, count: usize) -> (r: Result<Self, DecodeError>)
        ensures
            match r {
                Ok(d) => self.reader().has(count as nat * kind_size(ScalarKind::U16))
                    && self.appended(&d, field@, count as nat * kind_size(ScalarKind::U16))
                    && list_matches(ScalarKind::U16, self.reader(), count as nat, d.last_value()),
                Err(e) => !self.reader().has(count as nat * kind_size(ScalarKind::U16)) && e
                    == element_short_read(self.reader(), kind_size(ScalarKind::U16)),
            },
    {
        self.list_field(field, ScalarKind::U16, count)
    }

    pub fn i16(self, field: &str) -> (r: Result<Self, DecodeError>)
        ensures
            match r {
                Ok(d) => self.reader().has(kind_size(ScalarKind::I16)) && self.appended(
                    &d,
                    field@,
                    kind_size(ScalarKind::I16),
                ) && scalar_matches(
                    ScalarKind::I16,
                    self.reader().next_bytes(kind_size(ScalarKind::I16)),
                    self.reader().order(),
                    d.last_value(),
                ),
                Err(e) => !self.reader().has(kind_size(ScalarKind::I16)) && e
                    == self.reader().short_read(kind_size(ScalarKind::I16)),
            },
    {
        self.scalar_field(field, ScalarKind::I16)
    }

    pub fn array_i16(self, field: &str, count: usize) -> (r: Result<Self, DecodeError>)
        ensures
            match r {
                Ok(d) => self.reader().has(count as nat * kind_size(ScalarKind::I16))
                    && self.appended(&d, field@, count as nat * kind_size(ScalarKind::I16))
                    && list_matches(ScalarKind::I16, self.reader(), count as nat, d.last_value()),
                Err(e) => !self.reader().has(count as nat * kind_size(ScalarKind::I16)) && e
                    == element_short_read(self.reader(), kind_size(ScalarKind::I16)),
            },
    {
        self.list_field(field, ScalarKind::I16, count)
    }

    pub fn u32(self, field: &str) -> (r: Result<Self, DecodeError>)
        ensures
            match r {
                Ok(d) => self.reader().has(kind_size(ScalarKind::U32)) && self.appended(
                    &d,
                    field@,
                    kind_size(ScalarKind::U32),
                ) && scalar_matches(
                    ScalarKind::U32,
                    self.reader().next_bytes(kind_size(ScalarKind::U32)),
                    self.reader().order(),
                    d.last_value(),
                ),
                Err(e) => !self.reader().has(kind_size(ScalarKind::U32)) && e
                    == self.reader().short_read(kind_size(ScalarKind::U32)),
            },
    {
        self.scalar_field(field, ScalarKind::U32)
    }

    pub fn array_u32(self, field: &str, count: usize) -> (r: Result<Self, DecodeError>)
        ensures
            match r {
                Ok(d) => self.reader().has(count as nat * kind_size(ScalarKind::U32))
                    && self.appended(&d, field@, count as nat * kind_size(ScalarKind::U32))
                    && list_matches(ScalarKind::U32, self.reader(), count as nat, d.last_value()),
                Err(e) => !self.reader().has(count as nat * kind_size(ScalarKind::U32)) && e
                    == element_short_read(self.reader(), kind_size(ScalarKind::U32)),
            },
    {
        self.list_field(field, ScalarKind::U32, count)
    }

    pub fn i32(self, field: &str) -> (r: Result<Self, DecodeError>)
        ensures
            match r {
                Ok(d) => self.reader().has(kind_size(ScalarKind::I32)) && self.appended(
                    &d,
                    field@,
                    kind_size(ScalarKind::I32),
                ) && scalar_matches(
                    ScalarKind::I32,
                    self.reader().next_bytes(kind_size(ScalarKind::I32)),
                    self.reader().order(),
                    d.last_value(),
                ),
                Err(e) => !self.reader().has(kind_size(ScalarKind::I32)) && e
                    == self.reader().short_read(kind_size(ScalarKind::I32)),
            },
    {
        self.scalar_field(field, ScalarKind::I32)
    }

    pub fn array_i32(self, field: &str, count: usize) -> (r: Result<Self, DecodeError>)
        ensures
            match r {
                Ok(d) => self.reader().has(count as nat * kind_size(ScalarKind::I32))
                    && self.appended(&d, field@, count as nat * kind_size(ScalarKind::I32))
                    && list_matches(ScalarKind::I32, self.reader(), count as nat, d.last_value()),
                Err(e) => !self.reader().has(count as nat * kind_size(ScalarKind::I32)) && e
                    == element_short_read(self.reader(), kind_size(ScalarKind::I32)),
            },
    {
        self.list_field(field, ScalarKind::I32, count)
    }

    pub fn u64(self, field: &str) -> (r: Result<Self, DecodeError>)
        ensures
            match r {
                Ok(d) => self.reader().has(kind_size(ScalarKind::U64)) && self.appended(
                    &d,
                    field@,
                    kind_size(ScalarKind::U64),
                ) && scalar_matches(
                    ScalarKind::U64,
                    self.reader().next_bytes(kind_size(ScalarKind::U64)),
                    self.reader().order(),
                    d.last_value(),
                ),
                Err(e) => !self.reader().has(kind_size(ScalarKind::U64)) && e
                    == self.reader().short_read(kind_size(ScalarKind::U64)),
            },
    {
        self.scalar_field(field, ScalarKind::U64)
    }

    pub fn array_u64(self, field: &str, count: usize) -> (r: Result<Self, DecodeError>)
        ensures
            match r {
                Ok(d) => self.reader().has(count as nat * kind_size(ScalarKind::U64))
                    && self.appended(&d, field@, count as nat * kind_size(ScalarKind::U64))
                    && list_matches(ScalarKind::U64, self.reader(), count as nat, d.last_value()),
                Err(e) => !self.reader().has(count as nat * kind_size(ScalarKind::U64)) && e
                    == element_short_read(self.reader(), kind_size(ScalarKind::U64)),
            },
    {
        self.list_field(field, ScalarKind::U64, count)
    }

    pub fn i64(self, field: &str) -> (r: Result<Self, DecodeError>)
        ensures
            match r {
                Ok(d) => self.reader().has(kind_size(ScalarKind::I64)) && self.appended(
                    &d,
                    field@,
                    kind_size(ScalarKind::I64),
                ) && scalar_matches(
                    ScalarKind::I64,
                    self.reader().next_bytes(kind_size(ScalarKind::I64)),
                    self.reader().order(),
                    d.last_value(),
                ),
                Err(e) => !self.reader().has(kind_size(ScalarKind::I64)) && e
                    == self.reader().short_read(kind_size(ScalarKind::I64)),
            },
    {
        self.scalar_field(field, ScalarKind::I64)
    }

    pub fn array_i64(self, field: &str, count: usize) -> (r: Result<Self, DecodeError>)
        ensures
            match r {
                Ok(d) => self.reader().has(count as nat * kind_size(ScalarKind::I64))
                    && self.appended(&d, field@, count as nat * kind_size(ScalarKind::I64))
                    && list_matches(ScalarKind::I64, self.reader(), count as nat, d.last_value()),
                Err(e) => !self.reader().has(count as nat * kind_size(ScalarKind::I64)) && e
                    == element_short_read(self.reader(), kind_size(ScalarKind::I64)),
            },
    {
        self.list_field(field, ScalarKind::I64, count)
    }

    /// Reads a floating-point field as its IEEE 754 bit pattern.
    pub fn float32_bits(self, field: &str) -> (r: Result<Self, DecodeError>)
        ensures
            match r {
                Ok(d) => self.reader().has(kind_size(ScalarKind::F32)) && self.appended(
                    &d,
                    field@,
                    kind_size(ScalarKind::F32),
                ) && scalar_matches(
                    ScalarKind::F32,
                    self.reader().next_bytes(kind_size(ScalarKind::F32)),
                    self.reader().order(),
                    d.last_value(),
                ),
                Err(e) => !self.reader().has(kind_size(ScalarKind::F32)) && e
                    == self.reader().short_read(kind_size(ScalarKind::F32)),
            },
    {
        self.scalar_field(field, ScalarKind::F32)
    }

    /// Reads a floating-point field as its IEEE 754 bit pattern.
    pub fn float64_bits(self, field: &str) -> (r: Result<Self, DecodeError>)
        ensures
            match r {
                Ok(d) => self.reader().has(kind_size(ScalarKind::F64)) && self.appended(
                    &d,
                    field@,
                    kind_size(ScalarKind::F64),
                ) && scalar_matches(
                    ScalarKind::F64,
                    self.reader().next_bytes(kind_size(ScalarKind::F64)),
                    self.reader().order(),
                    d.last_value(),
                ),
                Err(e) => !self.reader().has(kind_size(ScalarKind::F64)) && e
                    == self.reader().short_read(kind_size(ScalarKind::F64)),
            },
    {
        self.scalar_field(field, ScalarKind::F64)
    }

    /// Reads `count` floating-point values as their IEEE 754 bit patterns.
    pub fn array_float32_bits(self, field: &str, count: usize) -> (r: Result<Self, DecodeError>)
        ensures
            match r {
                Ok(d) => self.reader().has(count as nat * kind_size(ScalarKind::F32))
                    && self.appended(&d, field@, count as nat * kind_size(ScalarKind::F32))
                    && list_matches(ScalarKind::F32, self.reader(), count as nat, d.last_value()),
                Err(e) => !self.reader().has(count as nat * kind_size(ScalarKind::F32)) && e
                    == element_short_read(self.reader(), kind_size(ScalarKind::F32)),
            },
    {
        self.list_field(field, ScalarKind::F32, count)
    }

    /// Reads `count` floating-point values as their IEEE 754 bit patterns.
    pub fn array_float64_bits(self, field: &str, count: usize) -> (r: Result<Self, DecodeError>)
        ensures
            match r {
                Ok(d) => self.reader().has(count as nat * kind_size(ScalarKind::F64))
                    && self.appended(&d, field@, count as nat * kind_size(ScalarKind::F64))
                    && list_matches(ScalarKind::F64, self.reader(), count as nat, d.last_value()),
                Err(e) => !self.reader().has(count as nat * kind_size(ScalarKind::F64)) && e
                    == element_short_read(self.reader(), kind_size(ScalarKind::F64)),
            },
    {
        self.list_field(field, ScalarKind::F64, count)
    }

    /// Reads `len` bytes into a field holding their `0x`-prefixed hexadecimal.
    pub fn bytes(self, field: &str, len: usize) -> (r: Result<Self, DecodeError>)
        ensures
            match r {
                Ok(d) => self.reader().has(len as nat) && self.appended(&d, field@, len as nat)
                    && d.last_value() is Hex && d.last_value()->Hex_0@ == hex_literal(
                    self.reader().next_bytes(len as nat),
                ),
                Err(e) => !self.reader().has(len as nat) && e == self.reader().short_read(
                    len as nat,
                ),
            },
    {
        let mut d = self;
        match d.reader.read_bytes(len) {
            Ok(b) => {
                let name = field.to_owned();
                let v = DecodedValue::Hex(hex_text(b));
                d.obj.push((name, v));
                assert(d.obj@.drop_last() =~= self.obj@);
                Ok(d)
            },
            Err(e) => Err(e),
        }
    }

    /// Reads a 256-bit value into a field holding its `0x`-prefixed hexadecimal (32 bytes).
    pub fn m256i(self, field: &str) -> (r: Result<Self, DecodeError>)
        ensures
            match r {
                Ok(d) => self.reader().has(32) && self.appended(&d, field@, 32) && scalar_matches(
                    ScalarKind::M256i,
                    self.reader().next_bytes(32),
                    self.reader().order(),
                    d.last_value(),
                ),
                Err(e) => !self.reader().has(32) && e == self.reader().short_read(32),
            },
    {
        self.scalar_field(field, ScalarKind::M256i)
    }

    /// Reads `count` 256-bit values, 32 bytes each, as hexadecimal.
    pub fn array_m256i(self, field: &str, count: usize) -> (r: Result<Self, DecodeError>)
        ensures
            match r {
                Ok(d) => self.reader().has(count as nat * 32) && self.appended(
                    &d,
                    field@,
                    count as nat * 32,
                ) && list_matches(ScalarKind::M256i, self.reader(), count as nat, d.last_value()),
                Err(e) => !self.reader().has(count as nat * 32) && e == element_short_read(
                    self.reader(),
                    32,
                ),
            },
    {
        self.list_field(field, ScalarKind::M256i, count)
    }

    /// Reads every remaining byte into a field holding their hexadecimal.
    pub fn remaining_bytes(self, field: &str) -> (r: Result<Self, DecodeError>)
        ensures
            r matches Ok(d) && {
                let n = (self.reader().data().len() - self.reader().pos()) as nat;
                &&& self.appended(&d, field@, n)
                &&& d.last_value() is Hex
                &&& d.last_value()->Hex_0@ == hex_literal(self.reader().next_bytes(n))
            },
    {
        let n = self.reader.remaining();
        self.bytes(field, n)
    }

    /// Moves past `len` bytes without recording them.
    pub fn skip_bytes(self, len: usize) -> (r: Result<Self, DecodeError>)
        ensures
            match r {
                Ok(d) => self.reader().has(len as nat) && self.reader().advanced(
                    &d.reader(),
                    len as nat,
                ) && d.entries() == self.entries(),
                Err(e) => !self.reader().has(len as nat) && e == self.reader().short_read(
                    len as nat,
                ),
            },
    {
        let mut d = self;
        match d.reader.read_bytes(len) {
            Ok(_) => Ok(d),
            Err(e) => Err(e),
        }
    }

    /// Reads `count` structures of `struct_size` bytes, each as the list of its bytes.
    pub fn array_struct_bytes(self, field: &str, count: usize, struct_size: usize) -> (r: Result<
        Self,
        DecodeError,
    >)
        ensures
            match r {
                Ok(d) => self.reader().has(count as nat * struct_size as nat) && self.appended(
                    &d,
                    field@,
                    count as nat * struct_size as nat,
                ) && d.last_value() is List && d.last_value()->List_0@.len() == count && forall|
                    i: int,
                |
                    0 <= i < count ==> row_matches(
                        #[trigger] element_bytes(
                            self.reader().data(),
                            self.reader().pos(),
                            struct_size as nat,
                            i,
                        ),
                        d.last_value()->List_0@[i],
                    ),
                Err(e) => !self.reader().has(count as nat * struct_size as nat) && e
                    == element_short_read(self.reader(), struct_size as nat),
            },
    {
        let mut d = self;
        match read_rows(&mut d.reader, count, struct_size) {
            Ok(v) => {
                let name = field.to_owned();
                d.obj.push((name, DecodedValue::List(v)));
                assert(d.obj@.drop_last() =~= self.obj@);
                Ok(d)
            },
            Err(e) => Err(e),
        }
    }

    /// The decoded fields as one object value.
    pub fn to_value(self) -> (r: DecodedValue)
        ensures
            r is Object && r->Object_0@ == self.entries(),
    {
        DecodedValue::Object(self.obj)
    }

    /// Reads `count` structures of `struct_size` bytes and decodes each with `decode_fn`,
    /// which gets a fresh decoder over the structure's bytes in this decoder's byte order.
    pub fn array_struct<F>(self, field: &str, count: usize, struct_size: usize, decode_fn: F) -> (r:
        Result<Self, DecodeError>) where
        F: Fn(ResponseDecoder<'a>) -> Result<DecodedValue, DecodeError>,

        requires
            forall|sub: ResponseDecoder<'a>| decode_fn.requires((sub,)),
        ensures
            match r {
                Ok(d) => self.reader().has(count as nat * struct_size as nat) && self.appended(
                    &d,
                    field@,
                    count as nat * struct_size as nat,
                ) && d.last_value() is List && d.last_value()->List_0@.len() == count && forall|
                    i: int,
                |
                    0 <= i < count ==> decoded_by(
                        decode_fn,
                        #[trigger] element_bytes(
                            self.reader().data(),
                            self.reader().pos(),
                            struct_size as nat,
                            i,
                        ),
                        self.reader().order(),
                        Ok(d.last_value()->List_0@[i]),
                    ),
                Err(_) => true,
            },
            r is Err ==> exists|k: int|
                0 <= k < count && #[trigger] struct_failure(
                    decode_fn,
                    self.reader(),
                    struct_size as nat,
                    k,
                    r->Err_0,
                ),
    {
        let mut d = self;
        proof {
            use_type_invariant(&d.reader);
        }
        let ghost start = d.reader;
        let e = d.reader.endianness();
        let mut out: Vec<DecodedValue> = Vec::new();
        let mut i: usize = 0;
        while i < count
            invariant
                i <= count,
                start == self.reader(),
                e == start.order(),
                d.obj@ == self.obj@,
                forall|sub: ResponseDecoder<'a>| decode_fn.requires((sub,)),
                start.has(i as nat * struct_size as nat),
                d.reader.data() == start.data(),
                d.reader.order() == start.order(),
                d.reader.pos() == start.pos() + i as nat * struct_size as nat,
                out@.len() == i,
                forall|j: int|
                    0 <= j < i ==> decoded_by(
                        decode_fn,
                        #[trigger] element_bytes(start.data(), start.pos(), struct_size as nat, j),
                        start.order(),
                        Ok(out@[j]),
                    ),
            decreases count - i,
        {
            let ghost at = d.reader;
            assert((i as nat + 1) * struct_size as nat == i as nat * struct_size as nat
                + struct_size as nat) by (nonlinear_arith);
            assert(at.next_bytes(struct_size as nat) =~= element_bytes(
                start.data(),
                start.pos(),
                struct_size as nat,
                i as int,
            ));
            match d.reader.read_bytes(struct_size) {
                Ok(chunk) => {
                    let sub = ResponseDecoder::new(chunk).with_endianness(e);
                    let ghost g = sub;
                    match decode_fn(sub) {
                        Ok(v) => {
                            let ghost prev = out@;
                            assert(fresh_decoder(
                                g,
                                element_bytes(start.data(), start.pos(), struct_size as nat, i as int),
                                start.order(),
                            ));
                            assert(decode_fn.ensures((g,), Ok::<DecodedValue, DecodeError>(v)));
                            out.push(v);
                            assert(decoded_by(
                                decode_fn,
                                element_bytes(start.data(), start.pos(), struct_size as nat, i as int),
                                start.order(),
                                Ok(v),
                            ));
                            assert forall|j: int| 0 <= j < i + 1 implies decoded_by(
                                decode_fn,
                                #[trigger] element_bytes(
                                    start.data(),
                                    start.pos(),
                                    struct_size as nat,
                                    j,
                                ),
                                start.order(),
                                Ok(out@[j]),
                            ) by {
                                if j < i {
                                    assert(out@[j] == prev[j]);
                                }
                            }
                            i = i + 1;
                        },
                        Err(err) => {
                            assert(fresh_decoder(
                                g,
                                element_bytes(
                                    start.data(),
                                    start.pos(),
                                    struct_size as nat,
                                    i as int,
                                ),
                                start.order(),
                            ));
                            assert(decoded_by(
                                decode_fn,
                                element_bytes(start.data(), start.pos(), struct_size as nat, i as int),
                                start.order(),
                                Err(err),
                            ));
                            assert(struct_failure(decode_fn, start, struct_size as nat, i as int, err)) by {
                                assert forall|j: int| 0 <= j < i implies decodes_ok(
                                    decode_fn,
                                    #[trigger] element_bytes(start.data(), start.pos(), struct_size as nat, j),
                                    start.order(),
                                ) by {
                                    assert(decoded_by(
                                        decode_fn,
                                        element_bytes(start.data(), start.pos(), struct_size as nat, j),
                                        start.order(),
                                        Ok(out@[j]),
                                    ));
                                }
                            }
                            assert(struct_failure(decode_fn, self.reader(), struct_size as nat, i as int, err));
                            let r: Result<Self, DecodeError> = Err(err);
                            assert(struct_failure(decode_fn, self.reader(), struct_size as nat, i as int, r->Err_0));
                            return r;
                        },
                    }
                },
                Err(err) => {
                    assert(struct_failure(decode_fn, start, struct_size as nat, i as int, err)) by {
                        assert forall|j: int| 0 <= j < i implies decodes_ok(
                            decode_fn,
                            #[trigger] element_bytes(start.data(), start.pos(), struct_size as nat, j),
                            start.order(),
                        ) by {
                            assert(decoded_by(
                                decode_fn,
                                element_bytes(start.data(), start.pos(), struct_size as nat, j),
                                start.order(),
                                Ok(out@[j]),
                            ));
                        }
                    }
                    let r: Result<Self, DecodeError> = Err(err);
                    assert(struct_failure(decode_fn, self.reader(), struct_size as nat, i as int, r->Err_0));
                    return r;
                },
            }
        }
        let name = field.to_owned();
        d.obj.push((name, DecodedValue::List(out)));
        assert(d.obj@.drop_last() =~= self.obj@);
        Ok(d)
    }

}

} // verus!
