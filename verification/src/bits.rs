//! Big-endian bit fields of a byte buffer.
//!
//! A [`BitCursor`] walks a buffer bit by bit. What a read returns is stated over
//! [`bits_value`], the big-endian number formed by a run of bits.

use vstd::prelude::*;
use vstd::arithmetic::power2::pow2;
use vstd::arithmetic::power2::lemma_pow2_unfold;
use vstd::arithmetic::power2::lemma2_to64;
use crate::error::Error;

verus! {

/// The largest buffer, in bytes, that bit-level reads accept: bit positions inside it, and
/// the end of any read that starts inside it, fit 64 bits.
pub const MAX_BIT_BUFFER: u64 = 0x0fff_ffff_ffff_ffff;

/// Bit `i` of `data`, counting from the most significant bit of the first byte.
pub open spec fn bit_at(data: Seq<u8>, i: int) -> int
    recommends
        0 <= i < 8 * data.len(),
{
    ((data[i / 8] >> ((7 - i % 8) as u8)) & 1) as int
}

/// Whether bit `i` of `data` is set.
pub open spec fn flag_at(data: Seq<u8>, i: int) -> bool {
    bit_at(data, i) == 1
}

/// The big-endian value of the `n` bits of `data` that start at bit `pos`.
pub open spec fn bits_value(data: Seq<u8>, pos: int, n: int) -> int
    decreases n,
{
    if n <= 0 {
        0
    } else {
        2 * bits_value(data, pos, n - 1) + bit_at(data, pos + n - 1)
    }
}

/// Whether the first `end` bits of `data` exist.
pub open spec fn bits_fit(data: Seq<u8>, end: int) -> bool {
    end <= 8 * data.len()
}

/// A bit is 0 or 1.
pub proof fn lemma_bit_at_range(data: Seq<u8>, i: int)
    ensures
        bit_at(data, i) == 0 || bit_at(data, i) == 1,
{
    let b = data[i / 8];
    let s = (7 - i % 8) as u8;
    assert(((b >> s) & 1) == 0 || ((b >> s) & 1) == 1) by (bit_vector);
}

/// A run of `n` bits is a number below `2^n`.
pub proof fn lemma_bits_value_bound(data: Seq<u8>, pos: int, n: int)
    requires
        0 <= n,
    ensures
        0 <= bits_value(data, pos, n) < pow2(n as nat),
    decreases n,
{
    if n == 0 {
        lemma2_to64();
    } else {
        lemma_bits_value_bound(data, pos, n - 1);
        lemma_bit_at_range(data, pos + n - 1);
        lemma_pow2_unfold(n as nat);
    }
}

/// Concrete bounds on short runs of bits.
pub proof fn lemma_bits_value_small(data: Seq<u8>, pos: int, n: int)
    requires
        0 <= n,
    ensures
        0 <= bits_value(data, pos, n),
        n <= 1 ==> bits_value(data, pos, n) <= 1,
        n <= 2 ==> bits_value(data, pos, n) <= 3,
        n <= 3 ==> bits_value(data, pos, n) <= 7,
        n <= 4 ==> bits_value(data, pos, n) <= 15,
        n <= 5 ==> bits_value(data, pos, n) <= 31,
        n <= 8 ==> bits_value(data, pos, n) <= 255,
        n <= 12 ==> bits_value(data, pos, n) <= 4095,
        n <= 16 ==> bits_value(data, pos, n) <= 65535,
{
    lemma_bits_value_bound(data, pos, n);
    lemma2_to64();
    if n < 1 {
        vstd::arithmetic::power2::lemma_pow2_strictly_increases(n as nat, 1);
    }
    if n < 2 {
        vstd::arithmetic::power2::lemma_pow2_strictly_increases(n as nat, 2);
    }
    if n < 3 {
        vstd::arithmetic::power2::lemma_pow2_strictly_increases(n as nat, 3);
    }
    if n < 4 {
        vstd::arithmetic::power2::lemma_pow2_strictly_increases(n as nat, 4);
    }
    if n < 5 {
        vstd::arithmetic::power2::lemma_pow2_strictly_increases(n as nat, 5);
    }
    if n < 8 {
        vstd::arithmetic::power2::lemma_pow2_strictly_increases(n as nat, 8);
    }
    if n < 12 {
        vstd::arithmetic::power2::lemma_pow2_strictly_increases(n as nat, 12);
    }
    if n < 16 {
        vstd::arithmetic::power2::lemma_pow2_strictly_increases(n as nat, 16);
    }
}

/// A single bit read as a number is that bit.
pub proof fn lemma_bits_value_one(data: Seq<u8>, pos: int)
    ensures
        bits_value(data, pos, 1) == bit_at(data, pos),
{
    assert(bits_value(data, pos, 0) == 0);
}

/// Calls `BitReader::new`, `BitReader::skip` and `BitReader::read_u64` of the `bitreader`
/// crate: a fresh reader over `data` is moved to bit `pos` and asked for `n` bits. The read
/// succeeds exactly when `n` is at most 64 and the bits lie inside the buffer, and then yields
/// their big-endian value.
#[verifier::external_body]
fn read_bits_at(data: &[u8], pos: u64, n: u8) -> (r: Result<u64, bitreader::BitReaderError>)
    requires
        data@.len() <= MAX_BIT_BUFFER,
        pos + n <= u64::MAX,
    ensures
        match r {
            Ok(v) => n <= 64 && pos + n <= 8 * data@.len() && v == bits_value(
                data@,
                pos as int,
                n as int,
            ),
            Err(_) => n > 64 || pos + n > 8 * data@.len(),
        },
{
    let mut reader = bitreader::BitReader::new(data);
    reader.skip(pos)?;
    reader.read_u64(n)
}

/// A read position, counted in bits, inside a byte buffer.
pub struct BitCursor<'a> {
    data: &'a [u8],
    pos: u64,
}

impl<'a> BitCursor<'a> {
    /// The bytes under the cursor.
    pub closed spec fn bytes(&self) -> Seq<u8> {
        self.data@
    }

    /// The number of bits already read.
    pub closed spec fn position(&self) -> int {
        self.pos as int
    }

    /// The position lies inside the buffer, and the buffer's bit length fits 64 bits.
    pub open spec fn wf(&self) -> bool {
        &&& self.bytes().len() <= MAX_BIT_BUFFER
        &&& 0 <= self.position() <= 8 * self.bytes().len()
    }

    /// What a read of `n` bits into a type of `width` bits does: it succeeds exactly when
    /// `n <= width` and the bits exist, yields their big-endian value and moves on by `n`;
    /// otherwise it reports truncated bits and stays.
    pub open spec fn reads(
        before: BitCursor<'a>,
        after: BitCursor<'a>,
        n: int,
        width: int,
        r: Result<int, Error>,
    ) -> bool {
        &&& after.bytes() == before.bytes()
        &&& after.wf()
        &&& match r {
            Ok(v) => {
                &&& n <= width
                &&& bits_fit(before.bytes(), before.position() + n)
                &&& v == bits_value(before.bytes(), before.position(), n)
                &&& after.position() == before.position() + n
            },
            Err(e) => {
                &&& n > width || !bits_fit(before.bytes(), before.position() + n)
                &&& e == Error::truncated_bits()
                &&& after.position() == before.position()
            },
        }
    }

    /// Starts at the first bit of `data`. Buffers too long for 64-bit bit positions are
    /// refused.
    pub fn new(data: &'a [u8]) -> (r: Result<BitCursor<'a>, Error>)
        ensures
            match r {
                Ok(c) => data@.len() <= MAX_BIT_BUFFER && c.wf() && c.bytes() == data@
                    && c.position() == 0,
                Err(e) => data@.len() > MAX_BIT_BUFFER && e == Error::oversized_buffer(),
            },
    {
        if data.len() as u64 > MAX_BIT_BUFFER {
            Err(Error::Unsupported("buffer too large for bit-level reading"))
        } else {
            Ok(BitCursor { data, pos: 0 })
        }
    }

    /// The number of bits not yet read.
    pub fn remaining(&self) -> (n: u64)
        requires
            self.wf(),
        ensures
            n == 8 * self.bytes().len() - self.position(),
    {
        (self.data.len() as u64) * 8 - self.pos
    }

    fn read_value(&mut self, n: u8, width: u8) -> (r: Result<u64, Error>)
        requires
            old(self).wf(),
            width <= 64,
        ensures
            Self::reads(
                *old(self),
                *final(self),
                n as int,
                width as int,
                match r {
                    Ok(v) => Ok(v as int),
                    Err(e) => Err(e),
                },
            ),
            r is Ok ==> r->Ok_0 < pow2(n as nat),
    {
        if n > width {
            return Err(Error::InvalidData("truncated bits"));
        }
        match read_bits_at(self.data, self.pos, n) {
            Ok(v) => {
                proof {
                    lemma_bits_value_bound(self.data@, self.pos as int, n as int);
                }
                self.pos = self.pos + n as u64;
                Ok(v)
            },
            Err(e) => Err(Error::from_bit_reader(e)),
        }
    }

    /// Reads at most 64 bits.
    pub fn read_u64(&mut self, n: u8) -> (r: Result<u64, Error>)
        requires
            old(self).wf(),
        ensures
            Self::reads(
                *old(self),
                *final(self),
                n as int,
                64,
                match r {
                    Ok(v) => Ok(v as int),
                    Err(e) => Err(e),
                },
            ),
    {
        self.read_value(n, 64)
    }

    /// Reads at most 32 bits.
    pub fn read_u32(&mut self, n: u8) -> (r: Result<u32, Error>)
        requires
            old(self).wf(),
        ensures
            Self::reads(
                *old(self),
                *final(self),
                n as int,
                32,
                match r {
                    Ok(v) => Ok(v as int),
                    Err(e) => Err(e),
                },
            ),
    {
        let v = self.read_value(n, 32)?;
        proof {
            lemma2_to64();
            if n < 32 {
                vstd::arithmetic::power2::lemma_pow2_strictly_increases(n as nat, 32);
            }
        }
        Ok(v as u32)
    }

    /// Reads at most 16 bits.
    pub fn read_u16(&mut self, n: u8) -> (r: Result<u16, Error>)
        requires
            old(self).wf(),
        ensures
            Self::reads(
                *old(self),
                *final(self),
                n as int,
                16,
                match r {
                    Ok(v) => Ok(v as int),
                    Err(e) => Err(e),
                },
            ),
    {
        let v = self.read_value(n, 16)?;
        proof {
            lemma2_to64();
            if n < 16 {
                vstd::arithmetic::power2::lemma_pow2_strictly_increases(n as nat, 16);
            }
        }
        Ok(v as u16)
    }

    /// Reads at most 8 bits.
    pub fn read_u8(&mut self, n: u8) -> (r: Result<u8, Error>)
        requires
            old(self).wf(),
        ensures
            Self::reads(
                *old(self),
                *final(self),
                n as int,
                8,
                match r {
                    Ok(v) => Ok(v as int),
                    Err(e) => Err(e),
                },
            ),
    {
        let v = self.read_value(n, 8)?;
        proof {
            lemma2_to64();
            if n < 8 {
                vstd::arithmetic::power2::lemma_pow2_strictly_increases(n as nat, 8);
            }
        }
        Ok(v as u8)
    }

    /// Reads one bit as a flag.
    pub fn read_bool(&mut self) -> (r: Result<bool, Error>)
        requires
            old(self).wf(),
        ensures
            final(self).bytes() == old(self).bytes(),
            final(self).wf(),
            match r {
                Ok(flag) => {
                    &&& bits_fit(old(self).bytes(), old(self).position() + 1)
                    &&& flag == flag_at(old(self).bytes(), old(self).position())
                    &&& final(self).position() == old(self).position() + 1
                },
                Err(e) => {
                    &&& !bits_fit(old(self).bytes(), old(self).position() + 1)
                    &&& e == Error::truncated_bits()
                    &&& final(self).position() == old(self).position()
                },
            },
    {
        let v = self.read_value(1, 1)?;
        proof {
            lemma_bits_value_one(old(self).bytes(), old(self).position());
            lemma_bit_at_range(old(self).bytes(), old(self).position());
        }
        Ok(v != 0)
    }
}

} // verus!
