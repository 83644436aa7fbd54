//! Media data boxes and the extents that are read out of them.

use vstd::prelude::*;
use vstd::slice::slice_subrange;
use crate::error::Error;
use crate::fallible::try_append;
use crate::fallible::try_extend_from_slice;
use crate::iloc::ExtentRange;
use crate::iloc::ItemLocationBoxExtent;

verus! {

/// A Media Data Box
#[derive(Debug)]
pub struct MediaDataBox {
    /// Offset of `data` from the beginning of the file. See `ConstructionMethod::File`
    pub offset: u64,
    pub data: Vec<u8>,
}

/// A media data box, as a mathematical value.
pub struct MediaData {
    pub offset: u64,
    pub data: Seq<u8>,
}

impl View for MediaDataBox {
    type V = MediaData;

    open spec fn view(&self) -> MediaData {
        MediaData { offset: self.offset, data: self.data@ }
    }
}

/// The media data that a vector of boxes holds.
pub open spec fn media(mdats: Seq<MediaDataBox>) -> Seq<MediaData> {
    Seq::new(mdats.len(), |i: int| mdats[i]@)
}

impl MediaData {
    /// Whether the beginning of `extent` lies in the box.
    pub open spec fn contains_extent(self, extent: ExtentRange) -> bool {
        self.offset <= extent.first() && extent.first() - self.offset < self.data.len()
    }

    /// Whether `extent` covers the box exactly: it starts where the box starts and either
    /// ends where the box ends or runs to the end.
    pub open spec fn matches_extent(self, extent: ExtentRange) -> bool {
        self.offset == extent.first() && match extent {
            ExtentRange::WithLength { end, .. } => self.offset + self.data.len() == end,
            ExtentRange::ToEnd { .. } => true,
        }
    }

    /// The bytes of `extent`, which must lie in the box.
    pub open spec fn read_extent(self, extent: ExtentRange) -> Result<Seq<u8>, Error> {
        if extent.first() < self.offset {
            Err(Error::InvalidData("mdat does not contain extent"))
        } else {
            match extent {
                ExtentRange::WithLength { start, end } => if end < start {
                    Err(Error::InvalidData("range start > end"))
                } else if end - self.offset > self.data.len() {
                    Err(Error::InvalidData("extent crosses box boundary"))
                } else {
                    Ok(self.data.subrange(start - self.offset, end - self.offset))
                },
                ExtentRange::ToEnd { start } => if start - self.offset > self.data.len() {
                    Err(Error::InvalidData("extent crosses box boundary"))
                } else {
                    Ok(self.data.subrange(start - self.offset, self.data.len() as int))
                },
            }
        }
    }
}

impl MediaDataBox {
    /// Check whether the beginning of `extent` is within the bounds of the `MediaDataBox`.
    /// We assume extents to not cross box boundaries. If so, this will cause an error
    /// in `read_extent`.
    pub fn contains_extent(&self, extent: &ExtentRange) -> (r: bool)
        ensures
            r == self@.contains_extent(*extent),
    {
        if self.offset <= extent.start() {
            let start_offset = extent.start() - self.offset;
            start_offset < self.data.len() as u64
        } else {
            false
        }
    }

    /// Check whether `extent` covers the `MediaDataBox` exactly.
    pub fn matches_extent(&self, extent: &ExtentRange) -> (r: bool)
        ensures
            r == self@.matches_extent(*extent),
    {
        if self.offset == extent.start() {
            match extent {
                ExtentRange::WithLength { end: range_end, .. } => {
                    if let Some(end) = self.offset.checked_add(self.data.len() as u64) {
                        end == *range_end
                    } else {
                        false
                    }
                },
                ExtentRange::ToEnd { .. } => true,
            }
        } else {
            false
        }
    }

    /// Copy the range specified by `extent` to the end of `buf` or return an error if the range
    /// is not fully contained within `MediaDataBox`. A range outside the box is reported as
    /// it is; memory can run out only where the range lies in the box. A failure leaves `buf`
    /// as it was.
    pub fn read_extent(&self, extent: &ExtentRange, buf: &mut Vec<u8>) -> (r: Result<(), Error>)
        ensures
            match self@.read_extent(*extent) {
                Err(e) => r == Err::<(), Error>(e),
                Ok(bytes) => match r {
                    Ok(_) => final(buf)@ == old(buf)@ + bytes,
                    Err(e) => e == Error::OutOfMemory,
                },
            },
            r is Err ==> final(buf)@ == old(buf)@,
    {
        let start_offset = match extent.start().checked_sub(self.offset) {
            Some(start_offset) => start_offset,
            None => {
                return Err(Error::InvalidData("mdat does not contain extent"));
            },
        };
        let len = self.data.len();
        let slice = match extent {
            ExtentRange::WithLength { start: range_start, end: range_end } => {
                let range_len = match range_end.checked_sub(*range_start) {
                    Some(range_len) => range_len,
                    None => {
                        return Err(Error::InvalidData("range start > end"));
                    },
                };
                let end = match start_offset.checked_add(range_len) {
                    Some(end) => end,
                    None => {
                        return Err(Error::InvalidData("extent end overflow"));
                    },
                };
                if end > len as u64 {
                    return Err(Error::InvalidData("extent crosses box boundary"));
                }
                slice_subrange(self.data.as_slice(), start_offset as usize, end as usize)
            },
            ExtentRange::ToEnd { .. } => {
                if start_offset > len as u64 {
                    return Err(Error::InvalidData("extent crosses box boundary"));
                }
                slice_subrange(self.data.as_slice(), start_offset as usize, len)
            },
        };
        match try_extend_from_slice(buf, slice) {
            Ok(_) => Ok(()),
            Err(e) => Err(Error::from_try_reserve(e)),
        }
    }
}

/// The index of the first box from `from` on that `extent` covers exactly or starts in.
pub open spec fn find_source(mdats: Seq<MediaData>, extent: ExtentRange, from: int) -> Option<int>
    decreases mdats.len() - from,
{
    if from < 0 || from >= mdats.len() {
        None
    } else if mdats[from].matches_extent(extent) || mdats[from].contains_extent(extent) {
        Some(from)
    } else {
        find_source(mdats, extent, from + 1)
    }
}

/// What loading one extent gives: the buffer with the extent's bytes appended, and the
/// boxes afterwards. The bytes come from the first box that the extent covers exactly or
/// starts in. A box that is covered exactly gives all its data away and is empty afterwards;
/// otherwise the bytes are copied out of the box. An extent that no box backs is an error.
pub open spec fn spec_load_extent(mdats: Seq<MediaData>, extent: ExtentRange, buf: Seq<u8>) -> Result<
    (Seq<u8>, Seq<MediaData>),
    Error,
> {
    match find_source(mdats, extent, 0) {
        None => Err(Error::InvalidData("iloc contains an extent that is not in mdat")),
        Some(i) => if mdats[i].matches_extent(extent) {
            Ok(
                (
                    buf + mdats[i].data,
                    mdats.update(i, MediaData { offset: mdats[i].offset, data: Seq::empty() }),
                ),
            )
        } else {
            match mdats[i].read_extent(extent) {
                Err(e) => Err(e),
                Ok(bytes) => Ok((buf + bytes, mdats)),
            }
        },
    }
}

/// What loading the first `count` of `extents` gives, in their order.
pub open spec fn spec_load_extents(
    mdats: Seq<MediaData>,
    extents: Seq<ItemLocationBoxExtent>,
    count: int,
    buf: Seq<u8>,
) -> Result<(Seq<u8>, Seq<MediaData>), Error>
    decreases count,
{
    if count <= 0 {
        Ok((buf, mdats))
    } else {
        match spec_load_extents(mdats, extents, count - 1, buf) {
            Err(e) => Err(e),
            Ok((loaded, left)) => spec_load_extent(left, extents[count - 1].extent_range, loaded),
        }
    }
}

/// Loads one extent into `buf`. An extent that cannot be loaded is reported as it is;
/// memory can run out only where the extent can be loaded. A failure leaves the buffer and
/// the boxes as they were.
pub fn load_extent(mdats: &mut Vec<MediaDataBox>, extent: &ExtentRange, buf: &mut Vec<u8>) -> (r:
    Result<(), Error>)
    ensures
        final(mdats)@.len() == old(mdats)@.len(),
        match spec_load_extent(media(old(mdats)@), *extent, old(buf)@) {
            Err(e) => r == Err::<(), Error>(e),
            Ok((loaded, left)) => match r {
                Ok(_) => final(buf)@ == loaded && media(final(mdats)@) == left,
                Err(e) => e == Error::OutOfMemory,
            },
        },
        r is Err ==> final(buf)@ == old(buf)@ && media(final(mdats)@) == media(old(mdats)@),
{
    // try to find an overlapping mdat
    let mut i: usize = 0;
    while i < mdats.len()
        invariant
            i <= mdats@.len(),
            mdats@ == old(mdats)@,
            buf@ == old(buf)@,
            find_source(media(mdats@), *extent, 0) == find_source(media(mdats@), *extent, i as int),
        decreases mdats@.len() - i,
    {
        if mdats[i].matches_extent(extent) {
            let ghost before = media(mdats@);
            match try_append(buf, &mut mdats[i].data) {
                Ok(_) => {},
                Err(e) => {
                    assert(media(mdats@) =~= before);
                    return Err(Error::from_try_reserve(e));
                },
            }
            assert(media(mdats@) =~= before.update(
                i as int,
                MediaData { offset: before[i as int].offset, data: Seq::empty() },
            ));
            return Ok(());
        } else if mdats[i].contains_extent(extent) {
            return mdats[i].read_extent(extent, buf);
        }
        i = i + 1;
    }
    Err(Error::InvalidData("iloc contains an extent that is not in mdat"))
}

} // verus!
