//! Sequential reading of fixed-width values from a smart-contract response.
use crate::bytes::{
    decode_uint, encode_uint, lemma_decode_encode, lemma_encode_uint_len, lemma_le_value_bound, pow256,
    read_uint, Endianness,
};
use crate::sc_api::PayloadBuilder;
use vstd::prelude::*;

verus! {

/// A read asked for more bytes than are left.
#[derive(Debug, Clone, Copy, PartialEq, Eq, Structural)]
pub enum DecodeError {
    /// `needed` bytes were asked for at `position`, but only `available` remain.
    NotEnoughBytes { needed: usize, available: usize, position: usize },
}

/// A cursor over a byte buffer that reads fixed-width values in a chosen byte order.
#[derive(Debug)]
pub struct BinaryReader<'a> {
    buffer: &'a [u8],
    position: usize,
    endianness: Endianness,
}

impl<'a> Clone for BinaryReader<'a> {
    fn clone(&self) -> (r: Self)
        ensures
            r == *self,
    {
        proof {
            use_type_invariant(self);
        }
        BinaryReader { buffer: self.buffer, position: self.position, endianness: self.endianness }
    }
}

impl<'a> BinaryReader<'a> {
    #[verifier::type_invariant]
    pub(crate) open spec fn inv(self) -> bool {
        self.pos() <= self.data().len()
    }

    /// The bytes being read.
    pub closed spec fn data(&self) -> Seq<u8> {
        self.buffer@
    }

    /// How many bytes have been consumed.
    pub closed spec fn pos(&self) -> nat {
        self.position as nat
    }

    /// The byte order used for multi-byte values.
    pub closed spec fn order(&self) -> Endianness {
        self.endianness
    }

    /// The error that a read of `needed` bytes gives when too few remain.
    pub open spec fn short_read(&self, needed: nat) -> DecodeError {
        DecodeError::NotEnoughBytes {
            needed: needed as usize,
            available: (self.data().len() - self.pos()) as usize,
            position: self.pos() as usize,
        }
    }

    /// Whether `needed` more bytes remain after the current position.
    pub open spec fn has(&self, needed: nat) -> bool {
        self.pos() + needed <= self.data().len()
    }

    /// The `n` bytes at the current position.
    pub open spec fn next_bytes(&self, n: nat) -> Seq<u8> {
        self.data().subrange(self.pos() as int, (self.pos() + n) as int)
    }

    /// `r` is this reader advanced by `n` bytes.
    pub open spec fn advanced(&self, r: &Self, n: nat) -> bool {
        &&& r.data() == self.data()
        &&& r.order() == self.order()
        &&& r.pos() == self.pos() + n
    }

    /// The outcome of reading `n` bytes as an unsigned number: the number, or the short read
    /// error when fewer than `n` bytes remain.
    pub open spec fn number_read(&self, n: nat) -> Result<nat, DecodeError> {
        if self.has(n) {
            Ok(decode_uint(self.next_bytes(n), self.order()))
        } else {
            Err(self.short_read(n))
        }
    }

    /// `r` is what a read of `n` bytes leaves: advanced on success, unchanged on failure.
    pub open spec fn after_read(&self, r: &Self, n: nat) -> bool {
        if self.has(n) {
            self.advanced(r, n)
        } else {
            *r == *self
        }
    }

    /// A reader at the start of `buffer`, little endian.
    pub fn new(buffer: &'a [u8]) -> (r: Self)
        ensures
            r.data() == buffer@,
            r.pos() == 0,
            r.order() == Endianness::Little,
    {
        BinaryReader { buffer, position: 0, endianness: Endianness::Little }
    }

    pub fn with_endianness(self, endianness: Endianness) -> (r: Self)
        ensures
            r.data() == self.data(),
            r.pos() == self.pos(),
            r.order() == endianness,
    {
        proof {
            use_type_invariant(&self);
        }
        BinaryReader { endianness, ..self }
    }

    /// Changes the byte order used for the following reads.
    pub fn set_endianness(&mut self, endianness: Endianness)
        ensures
            final(self).data() == old(self).data(),
            final(self).pos() == old(self).pos(),
            final(self).order() == endianness,
    {
        proof {
            use_type_invariant(&*self);
        }
        self.endianness = endianness;
    }

    /// How many bytes have been consumed.
    pub fn position(&self) -> (r: usize)
        ensures
            r == self.pos(),
    {
        self.position
    }

    /// The byte order used for multi-byte values.
    pub fn endianness(&self) -> (r: Endianness)
        ensures
            r == self.order(),
    {
        self.endianness
    }

    /// Succeeds exactly when `needed` more bytes remain.
    pub fn ensure_available(&self, needed: usize) -> (r: Result<(), DecodeError>)
        ensures
            r == (if self.has(needed as nat) {
                Ok(())
            } else {
                Err(self.short_read(needed as nat))
            }),
    {
        proof {
            use_type_invariant(self);
        }
        let available = self.buffer.len() - self.position;
        if needed > available {
            Err(DecodeError::NotEnoughBytes { needed, available, position: self.position })
        } else {
            Ok(())
        }
    }

    /// How many bytes remain.
    pub fn remaining(&self) -> (r: usize)
        ensures
            r == self.data().len() - self.pos(),
    {
        proof {
            use_type_invariant(self);
        }
        self.buffer.len() - self.position
    }

    /// Reads `len` bytes.
    pub fn read_bytes(&mut self, len: usize) -> (r: Result<&'a [u8], DecodeError>)
        ensures
            old(self).after_read(final(self), len as nat),
            match r {
                Ok(s) => old(self).has(len as nat) && s@ == old(self).next_bytes(len as nat),
                Err(e) => !old(self).has(len as nat) && e == old(self).short_read(len as nat),
            },
    {
        proof {
            use_type_invariant(&*self);
        }
        match self.ensure_available(len) {
            Err(e) => Err(e),
            Ok(()) => {
                let start = self.position;
                assert(self.buffer@.len() == self.buffer.len());
                let s = &self.buffer[start..start + len];
                self.position = start + len;
                Ok(s)
            },
        }
    }

    /// Reads `n` bytes as an unsigned number in the reader's byte order.
    fn read_number(&mut self, n: usize) -> (r: Result<u64, DecodeError>)
        requires
            n <= 8,
        ensures
            old(self).after_read(final(self), n as nat),
            match r {
                Ok(v) => old(self).number_read(n as nat) == Ok::<nat, DecodeError>(v as nat),
                Err(e) => old(self).number_read(n as nat) == Err::<nat, DecodeError>(e),
            },
    {
        let e = self.endianness;
        match self.read_bytes(n) {
            Err(err) => Err(err),
            Ok(s) => Ok(read_uint(s, e)),
        }
    }

    pub fn read_u8(&mut self) -> (r: Result<u8, DecodeError>)
        ensures
            old(self).after_read(final(self), 1),
            match r {
                Ok(v) => old(self).has(1) && v == old(self).data()[old(self).pos() as int],
                Err(e) => !old(self).has(1) && e == old(self).short_read(1),
            },
    {
        match self.read_bytes(1) {
            Err(e) => Err(e),
            Ok(s) => Ok(s[0]),
        }
    }

    /// Reads one byte as a two's complement number.
    pub fn read_i8(&mut self) -> (r: Result<i8, DecodeError>)
        ensures
            old(self).after_read(final(self), 1),
            match r {
                Ok(v) => old(self).has(1) && v == old(self).data()[old(self).pos() as int] as i8,
                Err(e) => !old(self).has(1) && e == old(self).short_read(1),
            },
    {
        match self.read_u8() {
            Err(e) => Err(e),
            Ok(v) => Ok(v as i8),
        }
    }

    pub fn read_u16(&mut self) -> (r: Result<u16, DecodeError>)
        ensures
            old(self).after_read(final(self), 2),
            match r {
                Ok(v) => old(self).number_read(2) == Ok::<nat, DecodeError>(v as nat),
                Err(e) => old(self).number_read(2) == Err::<nat, DecodeError>(e),
            },
    {
        let ghost before = *self;
        match self.read_number(2) {
            Err(e) => Err(e),
            Ok(v) => {
                proof {
                    lemma_le_bound_2(before.next_bytes(2), before.order());
                }
                Ok(v as u16)
            },
        }
    }

    /// Reads two bytes as a two's complement number.
    pub fn read_i16(&mut self) -> (r: Result<i16, DecodeError>)
        ensures
            old(self).after_read(final(self), 2),
            match r {
                Ok(v) => old(self).has(2) && v == decode_uint(old(self).next_bytes(2), old(self).order()) as u16 as i16,
                Err(e) => old(self).number_read(2) == Err::<nat, DecodeError>(e),
            },
    {
        match self.read_u16() {
            Err(e) => Err(e),
            Ok(u) => Ok(u as i16),
        }
    }

    pub fn read_u32(&mut self) -> (r: Result<u32, DecodeError>)
        ensures
            old(self).after_read(final(self), 4),
            match r {
                Ok(v) => old(self).number_read(4) == Ok::<nat, DecodeError>(v as nat),
                Err(e) => old(self).number_read(4) == Err::<nat, DecodeError>(e),
            },
    {
        let ghost before = *self;
        match self.read_number(4) {
            Err(e) => Err(e),
            Ok(v) => {
                proof {
                    lemma_le_bound_4(before.next_bytes(4), before.order());
                }
                Ok(v as u32)
            },
        }
    }

    /// Reads four bytes as a two's complement number.
    pub fn read_i32(&mut self) -> (r: Result<i32, DecodeError>)
        ensures
            old(self).after_read(final(self), 4),
            match r {
                Ok(v) => old(self).has(4) && v == decode_uint(old(self).next_bytes(4), old(self).order()) as u32 as i32,
                Err(e) => old(self).number_read(4) == Err::<nat, DecodeError>(e),
            },
    {
        match self.read_u32() {
            Err(e) => Err(e),
            Ok(u) => Ok(u as i32),
        }
    }

    pub fn read_u64(&mut self) -> (r: Result<u64, DecodeError>)
        ensures
            old(self).after_read(final(self), 8),
            match r {
                Ok(v) => old(self).number_read(8) == Ok::<nat, DecodeError>(v as nat),
                Err(e) => old(self).number_read(8) == Err::<nat, DecodeError>(e),
            },
    {
        self.read_number(8)
    }

    /// Reads eight bytes as a two's complement number.
    pub fn read_i64(&mut self) -> (r: Result<i64, DecodeError>)
        ensures
            old(self).after_read(final(self), 8),
            match r {
                Ok(v) => old(self).has(8) && v == decode_uint(old(self).next_bytes(8), old(self).order()) as u64 as i64,
                Err(e) => old(self).number_read(8) == Err::<nat, DecodeError>(e),
            },
    {
        match self.read_u64() {
            Err(e) => Err(e),
            Ok(u) => Ok(u as i64),
        }
    }

    /// Reads 32 raw bytes.
    pub fn read_m256i_bytes(&mut self) -> (r: Result<[u8; 32], DecodeError>)
        ensures
            old(self).after_read(final(self), 32),
            match r {
                Ok(a) => old(self).has(32) && a@ == old(self).next_bytes(32),
                Err(e) => !old(self).has(32) && e == old(self).short_read(32),
            },
    {
        match self.read_bytes(32) {
            Err(e) => Err(e),
            Ok(s) => {
                let mut out = [0u8; 32];
                let mut i: usize = 0;
                while i < 32
                    invariant
                        i <= 32,
                        s@.len() == 32,
                        forall|j: int| 0 <= j < i ==> out@[j] == s@[j],
                    decreases 32 - i,
                {
                    out[i] = s[i];
                    i = i + 1;
                }
                assert(out@ =~= s@);
                Ok(out)
            },
        }
    }
}

/// What a payload builder appends as an `n`-byte number, a reader in the same byte order
/// reads back from the place where it was appended.
pub proof fn lemma_written_number_reads_back(
    before: PayloadBuilder,
    after: PayloadBuilder,
    reader: BinaryReader,
    v: nat,
    n: nat,
)
    requires
        v < pow256(n),
        after.bytes() == before.bytes() + encode_uint(v, n, before.order()),
        reader.data() == after.bytes(),
        reader.pos() == before.bytes().len(),
        reader.order() == before.order(),
    ensures
        reader.number_read(n) == Ok::<nat, DecodeError>(v),
{
    lemma_encode_uint_len(v, n, before.order());
    assert(reader.next_bytes(n) =~= encode_uint(v, n, before.order()));
    lemma_decode_encode(v, n, before.order());
}

proof fn lemma_le_bound_2(s: Seq<u8>, e: Endianness)
    requires
        s.len() == 2,
    ensures
        decode_uint(s, e) < 65536,
{
    lemma_le_value_bound(s);
    lemma_le_value_bound(s.reverse());
    reveal_with_fuel(pow256, 3);
}

proof fn lemma_le_bound_4(s: Seq<u8>, e: Endianness)
    requires
        s.len() == 4,
    ensures
        decode_uint(s, e) < 4294967296,
{
    lemma_le_value_bound(s);
    lemma_le_value_bound(s.reverse());
    reveal_with_fuel(pow256, 5);
}

/// A fee report of a lottery contract: five percentages and a return code, one byte each.
#[derive(Debug, Clone, Copy)]
pub struct GetFeesOutput {
    pub team_fee_percent: u8,
    pub distribution_fee_percent: u8,
    pub winner_fee_percent: u8,
    pub burn_percent: u8,
    pub return_code: u8,
}

impl GetFeesOutput {
    /// Reads the five fields in order, one byte each.
    pub fn decode(reader: BinaryReader<'_>) -> (r: Result<Self, DecodeError>)
        ensures
            match r {
                Ok(o) => reader.has(5) && o.team_fee_percent == reader.next_bytes(5)[0]
                    && o.distribution_fee_percent == reader.next_bytes(5)[1]
                    && o.winner_fee_percent == reader.next_bytes(5)[2] && o.burn_percent
                    == reader.next_bytes(5)[3] && o.return_code == reader.next_bytes(5)[4],
                Err(e) => !reader.has(5) && e == (DecodeError::NotEnoughBytes {
                    needed: 1,
                    available: 0,
                    position: reader.data().len() as usize,
                }),
            },
    {
        proof {
            use_type_invariant(&reader);
        }
        let mut reader = reader;
        let team_fee_percent = match reader.read_u8() {
            Ok(v) => v,
            Err(e) => return Err(e),
        };
        let distribution_fee_percent = match reader.read_u8() {
            Ok(v) => v,
            Err(e) => return Err(e),
        };
        let winner_fee_percent = match reader.read_u8() {
            Ok(v) => v,
            Err(e) => return Err(e),
        };
        let burn_percent = match reader.read_u8() {
            Ok(v) => v,
            Err(e) => return Err(e),
        };
        let return_code = match reader.read_u8() {
            Ok(v) => v,
            Err(e) => return Err(e),
        };
        Ok(GetFeesOutput {
            team_fee_percent,
            distribution_fee_percent,
            winner_fee_percent,
            burn_percent,
            return_code,
        })
    }
}

} // verus!
