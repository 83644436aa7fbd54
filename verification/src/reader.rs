//! The bounded box reader.
//!
//! An [`OffsetReader`] is a position in the input together with a window that it may not
//! leave and a budget of bytes that its box has declared. A [`BMFFBox`] is the header of a
//! box and a reader for its payload. Reading never looks past the window, so a box's declared
//! size bounds the work done inside it whatever the rest of the input holds.

use vstd::prelude::*;
use vstd::slice::slice_subrange;
use byteorder::ByteOrder;
use crate::boxes::BoxType;
use crate::error::Error;
use crate::fallible::try_extend_from_slice;

verus! {

/// The number that two bytes at index `i` of `s` form, most significant first.
pub open spec fn be_u16_at(s: Seq<u8>, i: int) -> u16 {
    (s[i] * 0x100 + s[i + 1]) as u16
}

/// The number that four bytes at index `i` of `s` form, most significant first.
pub open spec fn be_u32_at(s: Seq<u8>, i: int) -> u32 {
    (be_u16_at(s, i) * 0x1_0000 + be_u16_at(s, i + 2)) as u32
}

/// The number that eight bytes at index `i` of `s` form, most significant first.
pub open spec fn be_u64_at(s: Seq<u8>, i: int) -> u64 {
    (be_u32_at(s, i) * 0x1_0000_0000 + be_u32_at(s, i + 4)) as u64
}

/// Calls `ByteOrder::read_u16` of `byteorder` for `BigEndian`: the number formed by the
/// first two bytes, most significant first.
#[verifier::external_body]
fn big_endian_u16(buf: &[u8]) -> (v: u16)
    requires
        buf@.len() >= 2,
    ensures
        v == be_u16_at(buf@, 0),
{
    byteorder::BigEndian::read_u16(buf)
}

/// Calls `ByteOrder::read_u32` of `byteorder` for `BigEndian`: the number formed by the
/// first four bytes, most significant first.
#[verifier::external_body]
fn big_endian_u32(buf: &[u8]) -> (v: u32)
    requires
        buf@.len() >= 4,
    ensures
        v == be_u32_at(buf@, 0),
{
    byteorder::BigEndian::read_u32(buf)
}

/// Calls `ByteOrder::read_u64` of `byteorder` for `BigEndian`: the number formed by the
/// first eight bytes, most significant first.
#[verifier::external_body]
fn big_endian_u64(buf: &[u8]) -> (v: u64)
    requires
        buf@.len() >= 8,
    ensures
        v == be_u64_at(buf@, 0),
{
    byteorder::BigEndian::read_u64(buf)
}

/// Calls `Vec::try_reserve_exact` of std: room for `additional` more bytes is reserved, or
/// the reservation fails; the bytes held stay as they are either way. A capacity of more
/// than `isize::MAX` bytes is never had.
#[verifier::external_body]
fn try_reserve_exact(v: &mut Vec<u8>, additional: usize) -> (r: Result<
    (),
    std::collections::TryReserveError,
>)
    ensures
        final(v)@ == old(v)@,
        old(v)@.len() + additional > isize::MAX ==> r is Err,
{
    v.try_reserve_exact(additional)
}

/// A position in the input, the window it may read, and the bytes its box has yet to give.
#[derive(Debug, Clone, Copy)]
pub struct OffsetReader<'a> {
    /// The whole input.
    pub reader: &'a [u8],
    /// The number of bytes of the input that lie before the position.
    pub offset: usize,
    /// The end of the window: the innermost end among the enclosing boxes and the input.
    pub end: usize,
    /// The number of bytes that the box declared and that were not read yet.
    pub limit: u64,
}

impl<'a> OffsetReader<'a> {
    /// The position lies in the window, the window in the input, and the window holds no
    /// more than the box declared.
    pub open spec fn wf(&self) -> bool {
        &&& self.offset <= self.end <= self.reader@.len()
        &&& self.end - self.offset <= self.limit
    }

    /// The number of bytes that can still be read.
    pub open spec fn avail(&self) -> int {
        self.end - self.offset
    }

    /// The reader after `n` more bytes.
    pub open spec fn after(self, n: int) -> OffsetReader<'a> {
        OffsetReader {
            reader: self.reader,
            offset: (self.offset + n) as usize,
            end: self.end,
            limit: (self.limit - n) as u64,
        }
    }

    /// The `n` bytes at the position.
    pub open spec fn bytes(&self, n: int) -> Seq<u8> {
        self.reader@.subrange(self.offset as int, self.offset + n)
    }

    /// The byte `i` places after the position.
    pub open spec fn u8_at(&self, i: int) -> u8 {
        self.reader@[self.offset + i]
    }

    /// The big-endian 16-bit number `i` places after the position.
    pub open spec fn u16_at(&self, i: int) -> u16 {
        be_u16_at(self.reader@, self.offset + i)
    }

    /// The big-endian 32-bit number `i` places after the position.
    pub open spec fn u32_at(&self, i: int) -> u32 {
        be_u32_at(self.reader@, self.offset + i)
    }

    /// The big-endian 64-bit number `i` places after the position.
    pub open spec fn u64_at(&self, i: int) -> u64 {
        be_u64_at(self.reader@, self.offset + i)
    }

    /// What taking `n` bytes gives: the bytes and the reader after them, or an unexpected
    /// end where the window holds fewer.
    pub open spec fn take_exact(self, n: int) -> Result<(Seq<u8>, OffsetReader<'a>), Error> {
        if n <= self.avail() {
            Ok((self.bytes(n), self.after(n)))
        } else {
            Err(Error::UnexpectedEOF)
        }
    }

    /// A reader at the start of `reader` whose window is all of it.
    pub fn new(reader: &'a [u8]) -> (r: OffsetReader<'a>)
        ensures
            r.wf(),
            r.reader == reader,
            r.offset == 0,
            r.end == reader@.len(),
            r.limit == reader@.len(),
    {
        OffsetReader { reader, offset: 0, end: reader.len(), limit: reader.len() as u64 }
    }

    /// The same position with a budget of `limit` bytes, like a box that declares them: the
    /// window shrinks to the budget where it was wider.
    pub fn take(self, limit: u64) -> (r: OffsetReader<'a>)
        requires
            self.wf(),
        ensures
            r.wf(),
            r.reader == self.reader,
            r.offset == self.offset,
            r.limit == limit,
            r.end == if limit < self.avail() {
                self.offset + limit
            } else {
                self.end as int
            },
    {
        let avail = self.end - self.offset;
        let end = if limit < avail as u64 {
            self.offset + limit as usize
        } else {
            self.end
        };
        OffsetReader { reader: self.reader, offset: self.offset, end, limit }
    }

    /// The number of bytes of the input that lie before the position.
    pub fn offset(&self) -> (n: u64)
        ensures
            n == self.offset,
    {
        self.offset as u64
    }

    /// The number of bytes that the box declared and that were not read yet.
    pub fn bytes_left(&self) -> (n: u64)
        ensures
            n == self.limit,
    {
        self.limit
    }

    /// Takes exactly `n` bytes, or nothing where the window holds fewer.
    pub fn read_exact(&mut self, n: usize) -> (r: Result<&'a [u8], Error>)
        requires
            old(self).wf(),
        ensures
            final(self).wf(),
            match old(self).take_exact(n as int) {
                Ok((bytes, next)) => r is Ok && r->Ok_0@ == bytes && *final(self) == next,
                Err(e) => r == Err::<&[u8], Error>(e) && *final(self) == *old(self),
            },
    {
        if n > self.end - self.offset {
            return Err(Error::UnexpectedEOF);
        }
        let bytes = slice_subrange(self.reader, self.offset, self.offset + n);
        self.offset = self.offset + n;
        self.limit = self.limit - n as u64;
        Ok(bytes)
    }

    /// Takes up to `n` bytes: as many as the window holds.
    pub fn read(&mut self, n: usize) -> (r: &'a [u8])
        requires
            old(self).wf(),
        ensures
            final(self).wf(),
            r@.len() == if n <= old(self).avail() {
                n as int
            } else {
                old(self).avail()
            },
            r@ == old(self).bytes(r@.len() as int),
            *final(self) == old(self).after(r@.len() as int),
    {
        let avail = self.end - self.offset;
        let count = if n <= avail {
            n
        } else {
            avail
        };
        let bytes = slice_subrange(self.reader, self.offset, self.offset + count);
        self.offset = self.offset + count;
        self.limit = self.limit - count as u64;
        bytes
    }

    /// Takes one byte.
    pub fn read_u8(&mut self) -> (r: Result<u8, Error>)
        requires
            old(self).wf(),
        ensures
            final(self).wf(),
            match r {
                Ok(v) => old(self).avail() >= 1 && v == old(self).u8_at(0) && *final(self) == old(
                    self,
                ).after(1),
                Err(e) => old(self).avail() < 1 && e == Error::UnexpectedEOF && *final(self)
                    == *old(self),
            },
    {
        let bytes = self.read_exact(1)?;
        Ok(bytes[0])
    }

    /// Copies all that the window still holds into a new buffer, reserving the box's whole
    /// budget first, so that a budget that cannot be had fails before anything is read. A
    /// budget of more than `isize::MAX` bytes can never be had.
    pub fn read_into_try_vec(&mut self) -> (r: Result<Vec<u8>, Error>)
        requires
            old(self).wf(),
        ensures
            final(self).wf(),
            match r {
                Ok(v) => v@ == old(self).bytes(old(self).avail()) && *final(self) == old(
                    self,
                ).after(old(self).avail()),
                Err(e) => e == Error::OutOfMemory && *final(self) == *old(self),
            },
            old(self).limit > isize::MAX ==> r is Err,
    {
        let mut vec: Vec<u8> = Vec::new();
        if self.limit > usize::MAX as u64 {
            return Err(Error::OutOfMemory);
        }
        match try_reserve_exact(&mut vec, self.limit as usize) {
            Ok(_) => {},
            Err(_) => {
                return Err(Error::OutOfMemory);
            },
        }
        let bytes = slice_subrange(self.reader, self.offset, self.end);
        match try_extend_from_slice(&mut vec, bytes) {
            Ok(_) => {},
            Err(e) => {
                return Err(Error::from_try_reserve(e));
            },
        }
        assert(vec@ =~= bytes@);
        let _ = self.read(self.end - self.offset);
        Ok(vec)
    }
}

/// Reads a big-endian 16-bit number.
pub fn be_u16(src: &mut OffsetReader) -> (r: Result<u16, Error>)
    requires
        old(src).wf(),
    ensures
        final(src).wf(),
        match r {
            Ok(v) => old(src).avail() >= 2 && v == old(src).u16_at(0) && *final(src) == old(
                src,
            ).after(2),
            Err(e) => old(src).avail() < 2 && e == Error::UnexpectedEOF && *final(src) == *old(
                src,
            ),
        },
{
    let bytes = src.read_exact(2)?;
    Ok(big_endian_u16(bytes))
}

/// Reads a big-endian 32-bit number.
pub fn be_u32(src: &mut OffsetReader) -> (r: Result<u32, Error>)
    requires
        old(src).wf(),
    ensures
        final(src).wf(),
        match r {
            Ok(v) => old(src).avail() >= 4 && v == old(src).u32_at(0) && *final(src) == old(
                src,
            ).after(4),
            Err(e) => old(src).avail() < 4 && e == Error::UnexpectedEOF && *final(src) == *old(
                src,
            ),
        },
{
    let bytes = src.read_exact(4)?;
    Ok(big_endian_u32(bytes))
}

/// Reads a big-endian 64-bit number.
pub fn be_u64(src: &mut OffsetReader) -> (r: Result<u64, Error>)
    requires
        old(src).wf(),
    ensures
        final(src).wf(),
        match r {
            Ok(v) => old(src).avail() >= 8 && v == old(src).u64_at(0) && *final(src) == old(
                src,
            ).after(8),
            Err(e) => old(src).avail() < 8 && e == Error::UnexpectedEOF && *final(src) == *old(
                src,
            ),
        },
{
    let bytes = src.read_exact(8)?;
    Ok(big_endian_u64(bytes))
}

/// Passes over up to `bytes` bytes: as many of them as the window holds.
pub fn skip(src: &mut OffsetReader, bytes: u64) -> (r: Result<(), Error>)
    requires
        old(src).wf(),
    ensures
        final(src).wf(),
        r is Ok,
        *final(src) == old(src).after(
            if bytes <= old(src).avail() {
                bytes as int
            } else {
                old(src).avail()
            },
        ),
{
    let avail = src.end - src.offset;
    let count = if bytes <= avail as u64 {
        bytes as usize
    } else {
        avail
    };
    src.offset = src.offset + count;
    src.limit = src.limit - count as u64;
    Ok(())
}

/// Whether a function that reads from a reader did what `expected` says: it returned the
/// value and left the reader as given, or it returned the error.
pub open spec fn agrees<'a, T>(
    r: Result<T, Error>,
    left: OffsetReader<'a>,
    expected: Result<(T, OffsetReader<'a>), Error>,
) -> bool {
    match expected {
        Ok((v, next)) => r == Ok::<T, Error>(v) && left == next,
        Err(e) => r == Err::<T, Error>(e),
    }
}

/// The header of a box: its kind, its whole size, and the size of the header itself.
#[derive(Debug, Clone, Copy)]
pub struct BoxHeader {
    /// Box type.
    pub name: BoxType,
    /// Size of the box in bytes.
    pub size: u64,
    /// Offset to the start of the contained data (or header size).
    pub offset: u64,
    /// The extended type of a `uuid` box, as a big-endian number.
    pub uuid: Option<u128>,
}

/// The size of a header with a 32-bit box size.
pub const MIN_SIZE: u64 = 8;

/// The size of a header with a 64-bit box size.
pub const MIN_LARGE_SIZE: u64 = 16;

impl BoxHeader {
    /// The header is no longer than its box.
    pub open spec fn wf(&self) -> bool {
        MIN_SIZE <= self.offset <= self.size
    }
}

/// What reading the size and type of a box gives: the type, the size of the box and the
/// size of what was read. The box starts with a 32-bit size and a 32-bit type. Size 1
/// announces a 64-bit size after the type; size 0 (a box that runs to the end of the file) is
/// not supported; a size smaller than what was read is malformed.
pub open spec fn spec_read_box_size<'a>(r: OffsetReader<'a>) -> Result<
    ((BoxType, u64, u64), OffsetReader<'a>),
    Error,
> {
    let size32 = r.u32_at(0);
    let name = BoxType::of_code(r.u32_at(4));
    if r.avail() < 8 {
        Err(Error::UnexpectedEOF)
    } else if size32 == 0 {
        Err(Error::Unsupported("unknown sized box"))
    } else if size32 == 1 {
        if r.avail() < 16 {
            Err(Error::UnexpectedEOF)
        } else if r.u64_at(8) < MIN_LARGE_SIZE {
            Err(Error::InvalidData("malformed wide size"))
        } else {
            Ok(((name, r.u64_at(8), MIN_LARGE_SIZE), r.after(16)))
        }
    } else if size32 < MIN_SIZE {
        Err(Error::InvalidData("malformed size"))
    } else {
        Ok(((name, size32 as u64, MIN_SIZE), r.after(8)))
    }
}

/// The number of bytes of extended type that follow the size and type of a box: 16 for a
/// `uuid` box that declares room for them, fewer where the window ends before, none for any
/// other box.
pub open spec fn extended_type_length(r: OffsetReader, name: BoxType, size: u64, base: u64) -> int {
    if name == BoxType::UuidBox && size >= base + 16 {
        if r.avail() < 16 {
            r.avail()
        } else {
            16
        }
    } else {
        0
    }
}

/// What reading a box header gives: the size and type, then the extended type of a `uuid`
/// box, which is dropped where fewer than 16 bytes of it are there.
pub open spec fn spec_read_box_header<'a>(r: OffsetReader<'a>) -> Result<
    (BoxHeader, OffsetReader<'a>),
    Error,
> {
    match spec_read_box_size(r) {
        Err(e) => Err(e),
        Ok(((name, size, base), body)) => {
            let extended = extended_type_length(body, name, size, base);
            Ok(
                (
                    BoxHeader {
                        name,
                        size,
                        offset: (base + extended) as u64,
                        uuid: if extended == 16 {
                            Some(
                                (body.u64_at(0) * 0x1_0000_0000_0000_0000 + body.u64_at(
                                    8,
                                )) as u128,
                            )
                        } else {
                            None
                        },
                    },
                    body.after(extended),
                ),
            )
        },
    }
}

/// Reads the size and type of a box.
fn read_box_size<'a>(src: &mut OffsetReader<'a>) -> (r: Result<(BoxType, u64, u64), Error>)
    requires
        old(src).wf(),
    ensures
        final(src).wf(),
        agrees(r, *final(src), spec_read_box_size(*old(src))),
        match r {
            Ok((_, size, base)) => MIN_SIZE <= base <= size && base <= MIN_LARGE_SIZE,
            Err(_) => true,
        },
{
    let size32 = be_u32(src)?;
    let name = BoxType::from_code(be_u32(src)?);
    match size32 {
        // valid only for top-level box and indicates it's the last box in the file.
        0 => Err(Error::Unsupported("unknown sized box")),
        1 => {
            let size64 = be_u64(src)?;
            if size64 < MIN_LARGE_SIZE {
                return Err(Error::InvalidData("malformed wide size"));
            }
            Ok((name, size64, MIN_LARGE_SIZE))
        },
        _ => {
            if (size32 as u64) < MIN_SIZE {
                return Err(Error::InvalidData("malformed size"));
            }
            Ok((name, size32 as u64, MIN_SIZE))
        },
    }
}

/// Read and parse a box header.
pub fn read_box_header<'a>(src: &mut OffsetReader<'a>) -> (r: Result<BoxHeader, Error>)
    requires
        old(src).wf(),
    ensures
        final(src).wf(),
        agrees(r, *final(src), spec_read_box_header(*old(src))),
        r is Ok ==> r->Ok_0.wf(),
{
    let (name, size, base) = read_box_size(src)?;
    let mut offset = base;
    let uuid = if name == BoxType::UuidBox {
        if size >= offset + 16 {
            let ghost body = *src;
            let buffer = src.read(16);
            offset = offset + buffer.len() as u64;
            if buffer.len() == 16 {
                let high = big_endian_u64(buffer);
                let low = big_endian_u64(slice_subrange(buffer, 8, 16));
                assert(high == body.u64_at(0));
                assert(low == body.u64_at(8));
                Some(high as u128 * 0x1_0000_0000_0000_0000 + low as u128)
            } else {
                None
            }
        } else {
            None
        }
    } else {
        None
    };
    Ok(BoxHeader { name, size, offset, uuid })
}

/// A box: its header and a reader for its payload.
#[derive(Debug, Clone, Copy)]
pub struct BMFFBox<'a> {
    pub head: BoxHeader,
    pub content: OffsetReader<'a>,
}

impl<'a> BMFFBox<'a> {
    /// The payload reader is well formed.
    pub open spec fn wf(&self) -> bool {
        self.content.wf()
    }

    /// The header is well formed and nothing of the payload was read yet.
    pub open spec fn untouched(&self) -> bool {
        self.head.wf() && self.content.limit == self.head.size - self.head.offset
    }

    /// The number of bytes of the payload that were not read yet.
    pub fn bytes_left(&self) -> (n: u64)
        ensures
            n == self.content.limit,
    {
        self.content.bytes_left()
    }

    /// The header of the box.
    pub fn get_header(&self) -> (h: &BoxHeader)
        ensures
            *h == self.head,
    {
        &self.head
    }

    /// The number of bytes of the input that lie before the position.
    pub fn offset(&self) -> (n: u64)
        ensures
            n == self.content.offset,
    {
        self.content.offset()
    }

    /// Copies the rest of the payload into a new buffer. A budget of more than
    /// `isize::MAX` bytes can never be had.
    pub fn read_into_try_vec(&mut self) -> (r: Result<Vec<u8>, Error>)
        requires
            old(self).wf(),
        ensures
            final(self).wf(),
            final(self).head == old(self).head,
            match r {
                Ok(v) => v@ == old(self).content.bytes(old(self).content.avail())
                    && final(self).content == old(self).content.after(
                    old(self).content.avail(),
                ),
                Err(e) => e == Error::OutOfMemory && *final(self) == *old(self),
            },
            old(self).content.limit > isize::MAX ==> r is Err,
    {
        self.content.read_into_try_vec()
    }
}

/// The payload reader of a box whose header was just read, leaving `body` at the payload:
/// its budget is what the box declares beyond its header, and its window ends with the
/// budget or with the enclosing window, whichever comes first.
pub open spec fn payload_reader<'a>(head: BoxHeader, body: OffsetReader<'a>) -> OffsetReader<'a> {
    let declared = head.size - head.offset;
    OffsetReader {
        reader: body.reader,
        offset: body.offset,
        end: if declared < body.avail() {
            (body.offset + declared) as usize
        } else {
            body.end
        },
        limit: declared as u64,
    }
}

/// What asking for the next box gives: nothing where the window is used up; otherwise the
/// box whose header starts at the position, and the reader moved past that box (past as much
/// of it as the window holds).
pub open spec fn spec_next_box<'a>(r: OffsetReader<'a>) -> Result<
    (Option<BMFFBox<'a>>, OffsetReader<'a>),
    Error,
> {
    if r.avail() == 0 {
        Ok((None, r))
    } else {
        match spec_read_box_header(r) {
            Err(e) => Err(e),
            Ok((head, body)) => {
                let content = payload_reader(head, body);
                Ok((Some(BMFFBox { head, content }), body.after(content.avail())))
            },
        }
    }
}

/// A box that was found leaves a well-formed, shorter reader behind and is itself well
/// formed and untouched.
pub proof fn lemma_next_box_shrinks(r: OffsetReader)
    requires
        r.wf(),
    ensures
        match spec_next_box(r) {
            Ok((Some(b), next)) => {
                &&& next.wf()
                &&& next.avail() < r.avail()
                &&& next.reader == r.reader
                &&& b.wf()
                &&& b.untouched()
                &&& b.content.reader == r.reader
            },
            Ok((None, next)) => next == r,
            Err(_) => true,
        },
{
}

/// Reads the header of the next box in `src` and moves `src` past the box. Gives `None`
/// where `src` has no bytes left.
pub fn next_box<'a>(src: &mut OffsetReader<'a>) -> (r: Result<Option<BMFFBox<'a>>, Error>)
    requires
        old(src).wf(),
    ensures
        final(src).wf(),
        agrees(r, *final(src), spec_next_box(*old(src))),
        match r {
            Ok(Some(b)) => b.wf() && b.untouched() && final(src).avail() < old(src).avail()
                && b.content.reader == old(src).reader,
            _ => true,
        },
        r is Ok ==> final(src).reader == old(src).reader,
{
    if src.end == src.offset {
        return Ok(None);
    }
    let head = read_box_header(src)?;
    let content = src.take(head.size - head.offset);
    let _ = skip(src, content.limit);
    Ok(Some(BMFFBox { head, content }))
}

/// Whether a box was read to its declared end.
pub open spec fn spec_check_parser_state(left: OffsetReader) -> Result<(), Error> {
    if left.limit == 0 {
        Ok(())
    } else {
        Err(Error::InvalidData("unread box content or bad parser sync"))
    }
}

/// Checks that a box was read to its declared end.
pub fn check_parser_state(left: &OffsetReader) -> (r: Result<(), Error>)
    ensures
        r == spec_check_parser_state(*left),
{
    let limit = left.bytes_left();
    if limit == 0 {
        Ok(())
    } else {
        Err(Error::InvalidData("unread box content or bad parser sync"))
    }
}

/// Skip over the entire contents of a box.
pub fn skip_box_content(src: &mut BMFFBox) -> (r: Result<(), Error>)
    requires
        old(src).wf(),
        old(src).untouched(),
    ensures
        final(src).wf(),
        r is Ok,
        final(src).head == old(src).head,
        final(src).content == old(src).content.after(old(src).content.avail()),
{
    let to_skip = src.head.size - src.head.offset;
    skip(&mut src.content, to_skip)
}

/// Skip over the remain data of a box.
pub fn skip_box_remain(src: &mut BMFFBox) -> (r: Result<(), Error>)
    requires
        old(src).wf(),
    ensures
        final(src).wf(),
        r is Ok,
        final(src).head == old(src).head,
        final(src).content == old(src).content.after(old(src).content.avail()),
{
    let remain = src.bytes_left();
    skip(&mut src.content, remain)
}

/// What reading the version and flags of a full box gives: one byte, then a 24-bit number.
pub open spec fn spec_read_fullbox_extra<'a>(r: OffsetReader<'a>) -> Result<
    ((u8, u32), OffsetReader<'a>),
    Error,
> {
    if r.avail() < 4 {
        Err(Error::UnexpectedEOF)
    } else {
        Ok(
            (
                (
                    r.u8_at(0),
                    (r.u8_at(1) * 0x1_0000 + r.u8_at(2) * 0x100 + r.u8_at(3)) as u32,
                ),
                r.after(4),
            ),
        )
    }
}

/// Parse the extra header fields for a full box.
pub fn read_fullbox_extra(src: &mut OffsetReader) -> (r: Result<(u8, u32), Error>)
    requires
        old(src).wf(),
    ensures
        final(src).wf(),
        agrees(r, *final(src), spec_read_fullbox_extra(*old(src))),
{
    let version = src.read_u8()?;
    let flags_a = src.read_u8()?;
    let flags_b = src.read_u8()?;
    let flags_c = src.read_u8()?;
    assert((flags_a as u32) << 16 | (flags_b as u32) << 8 | (flags_c as u32) == flags_a
        * 0x1_0000 + flags_b * 0x100 + flags_c) by (bit_vector);
    Ok((version, (flags_a as u32) << 16 | (flags_b as u32) << 8 | (flags_c as u32)))
}

/// What reading the version of a full box whose flags must be zero gives.
pub open spec fn spec_read_fullbox_version_no_flags<'a>(r: OffsetReader<'a>) -> Result<
    (u8, OffsetReader<'a>),
    Error,
> {
    match spec_read_fullbox_extra(r) {
        Err(e) => Err(e),
        Ok(((version, flags), next)) => if flags != 0 {
            Err(Error::Unsupported("expected flags to be 0"))
        } else {
            Ok((version, next))
        },
    }
}

/// Parse the extra fields for a full box whose flag fields must be zero.
pub fn read_fullbox_version_no_flags(src: &mut OffsetReader) -> (r: Result<u8, Error>)
    requires
        old(src).wf(),
    ensures
        final(src).wf(),
        agrees(r, *final(src), spec_read_fullbox_version_no_flags(*old(src))),
{
    let (version, flags) = read_fullbox_extra(src)?;

    if flags != 0 {
        return Err(Error::Unsupported("expected flags to be 0"));
    }
    Ok(version)
}

} // verus!
