//! The item location box: where the bytes of each item lie.
//!
//! The box is a bit-packed table. Its meaning is stated by [`spec_iloc_table`] over the
//! bytes of the table, field by field; [`read_iloc`] reads a box to that statement.

use vstd::prelude::*;
use crate::bits::BitCursor;
use crate::bits::bits_fit;
use crate::bits::bits_value;
use crate::bits::MAX_BIT_BUFFER;
use crate::error::Error;
use crate::fallible::try_push;
use crate::fallible::try_with_capacity;
use crate::reader::BMFFBox;
use crate::reader::OffsetReader;
use crate::reader::read_fullbox_version_no_flags;
use crate::reader::spec_read_fullbox_version_no_flags;

verus! {

/// Potential sizes (in bytes) of variable-sized fields of the 'iloc' box
#[derive(Debug, Clone, Copy, PartialEq, Eq, Structural)]
pub enum IlocFieldSize {
    Zero,
    Four,
    Eight,
}

impl IlocFieldSize {
    /// The width of the field in bits.
    pub open spec fn bits(self) -> int {
        match self {
            IlocFieldSize::Zero => 0,
            IlocFieldSize::Four => 32,
            IlocFieldSize::Eight => 64,
        }
    }

    /// The size that a 4-bit selector names, which must be 0, 4 or 8.
    pub open spec fn of(value: int) -> Result<IlocFieldSize, Error> {
        if value == 0 {
            Ok(IlocFieldSize::Zero)
        } else if value == 4 {
            Ok(IlocFieldSize::Four)
        } else if value == 8 {
            Ok(IlocFieldSize::Eight)
        } else {
            Err(Error::InvalidData("value must be in the set {0, 4, 8}"))
        }
    }

    /// The width of the field in bits.
    pub fn to_bits(&self) -> (n: u8)
        ensures
            n == self.bits(),
    {
        match self {
            IlocFieldSize::Zero => 0,
            IlocFieldSize::Four => 32,
            IlocFieldSize::Eight => 64,
        }
    }

    /// Tells the size that a selector names.
    pub fn try_from(value: u8) -> (r: Result<IlocFieldSize, Error>)
        ensures
            r == IlocFieldSize::of(value as int),
    {
        match value {
            0 => Ok(IlocFieldSize::Zero),
            4 => Ok(IlocFieldSize::Four),
            8 => Ok(IlocFieldSize::Eight),
            _ => Err(Error::InvalidData("value must be in the set {0, 4, 8}")),
        }
    }
}

/// The versions of the item location box.
#[derive(Debug, Clone, Copy, PartialEq, Eq, Structural)]
pub enum IlocVersion {
    Zero,
    One,
    Two,
}

impl IlocVersion {
    /// The version that a version byte names, which must be 0, 1 or 2.
    pub open spec fn of(value: u8) -> Result<IlocVersion, Error> {
        if value == 0 {
            Ok(IlocVersion::Zero)
        } else if value == 1 {
            Ok(IlocVersion::One)
        } else if value == 2 {
            Ok(IlocVersion::Two)
        } else {
            Err(Error::Unsupported("unsupported version in 'iloc' box"))
        }
    }

    /// The width in bits of an item count and of an item id.
    pub open spec fn id_bits(self) -> int {
        if self == IlocVersion::Two {
            32
        } else {
            16
        }
    }

    /// Tells the version that a version byte names.
    pub fn try_from(value: u8) -> (r: Result<IlocVersion, Error>)
        ensures
            r == IlocVersion::of(value),
    {
        match value {
            0 => Ok(IlocVersion::Zero),
            1 => Ok(IlocVersion::One),
            2 => Ok(IlocVersion::Two),
            _ => Err(Error::Unsupported("unsupported version in 'iloc' box")),
        }
    }
}

/// How the bytes of an item are to be found.
#[derive(Debug, Clone, Copy, PartialEq, Eq, Structural)]
pub enum ConstructionMethod {
    /// At offsets of this file.
    File,
    /// In the item data box.
    Idat,
    /// Inside another item; never produced, since the parser refuses it.
    Item,
}

/// A range of bytes of the file.
#[derive(Debug, Clone, Copy, PartialEq, Eq, Structural)]
pub enum ExtentRange {
    /// The bytes from `start` up to, not including, `end`.
    WithLength { start: u64, end: u64 },
    /// The bytes from `start` to the end of the source.
    ToEnd { start: u64 },
}

impl ExtentRange {
    /// The first byte of the range.
    pub open spec fn first(self) -> u64 {
        match self {
            ExtentRange::WithLength { start, .. } => start,
            ExtentRange::ToEnd { start } => start,
        }
    }

    /// The first byte of the range.
    pub fn start(&self) -> (n: u64)
        ensures
            n == self.first(),
    {
        match self {
            ExtentRange::WithLength { start, .. } => *start,
            ExtentRange::ToEnd { start } => *start,
        }
    }
}

/// One extent of an item.
#[derive(Debug, Clone, Copy, PartialEq, Eq, Structural)]
pub struct ItemLocationBoxExtent {
    pub extent_range: ExtentRange,
}

/// The location of one item: its extents in the order in which they make up the item.
#[derive(Debug)]
pub struct ItemLocationBoxItem {
    pub item_id: u32,
    pub construction_method: ConstructionMethod,
    /// Unused for `ConstructionMethod::Idat`
    pub extents: Vec<ItemLocationBoxExtent>,
}

/// The location of one item, as a mathematical value.
pub struct ItemLocation {
    pub item_id: u32,
    pub construction_method: ConstructionMethod,
    pub extents: Seq<ItemLocationBoxExtent>,
}

impl View for ItemLocationBoxItem {
    type V = ItemLocation;

    open spec fn view(&self) -> ItemLocation {
        ItemLocation {
            item_id: self.item_id,
            construction_method: self.construction_method,
            extents: self.extents@,
        }
    }
}

/// The locations that a vector of items holds.
pub open spec fn locations(items: Seq<ItemLocationBoxItem>) -> Seq<ItemLocation> {
    Seq::new(items.len(), |i: int| items[i]@)
}

/// The field widths of a table: those of the extent index (0 where the version has none),
/// of the extent offset, of the extent length and of the base offset, in bits.
pub struct IlocWidths {
    pub index: int,
    pub offset: int,
    pub length: int,
    pub base_offset: int,
}

/// The extent that starts at bit `pos` and the position after it. An offset of width zero
/// is 0; a length of zero, or of width zero, means "to the end of the source". The start is
/// the base offset plus the offset and the end is the start plus the length; neither may
/// overflow 64 bits.
#[verifier::opaque]
pub open spec fn spec_iloc_extent(data: Seq<u8>, pos: int, widths: IlocWidths, base_offset: u64) -> Result<
    (ItemLocationBoxExtent, int),
    Error,
> {
    let p_offset = pos + widths.index;
    let p_length = p_offset + widths.offset;
    let end = p_length + widths.length;
    let start = base_offset + bits_value(data, p_offset, widths.offset);
    let length = bits_value(data, p_length, widths.length);
    if !bits_fit(data, end) {
        Err(Error::truncated_bits())
    } else if start > u64::MAX {
        Err(Error::InvalidData("offset calculation overflow"))
    } else if length == 0 {
        Ok((ItemLocationBoxExtent { extent_range: ExtentRange::ToEnd { start: start as u64 } }, end))
    } else if start + length > u64::MAX {
        Err(Error::InvalidData("end calculation overflow"))
    } else {
        Ok(
            (
                ItemLocationBoxExtent {
                    extent_range: ExtentRange::WithLength {
                        start: start as u64,
                        end: (start + length) as u64,
                    },
                },
                end,
            ),
        )
    }
}

/// The first `count` extents from bit `pos` on, and the position after them.
pub open spec fn spec_iloc_extents(
    data: Seq<u8>,
    pos: int,
    count: int,
    widths: IlocWidths,
    base_offset: u64,
) -> Result<(Seq<ItemLocationBoxExtent>, int), Error>
    decreases count,
{
    if count <= 0 {
        Ok((Seq::empty(), pos))
    } else {
        match spec_iloc_extents(data, pos, count - 1, widths, base_offset) {
            Err(e) => Err(e),
            Ok((extents, p)) => match spec_iloc_extent(data, p, widths, base_offset) {
                Err(e) => Err(e),
                Ok((extent, next)) => Ok((extents.push(extent), next)),
            },
        }
    }
}

/// The construction method that a 4-bit field names: 0 is the file, 1 the item data box;
/// 2 (inside another item) is not supported and anything else is malformed.
pub open spec fn spec_construction_method(value: int) -> Result<ConstructionMethod, Error> {
    if value == 0 {
        Ok(ConstructionMethod::File)
    } else if value == 1 {
        Ok(ConstructionMethod::Idat)
    } else if value == 2 {
        Err(Error::Unsupported("construction_method 'item_offset' is not supported"))
    } else {
        Err(
            Error::InvalidData(
                "construction_method is taken from the set 0, 1 or 2 per ISO 14496-12:2015 § 8.11.3.3",
            ),
        )
    }
}

/// The item that starts at bit `pos` and the position after it: an id; for versions 1 and 2
/// twelve reserved bits and a 4-bit construction method (version 0 means the file); a 16-bit
/// data reference index, which must be 0 (this file); a base offset; a 16-bit extent count,
/// which must not be 0; and the extents.
#[verifier::opaque]
pub open spec fn spec_iloc_item(data: Seq<u8>, pos: int, version: IlocVersion, widths: IlocWidths) -> Result<
    (ItemLocation, int),
    Error,
> {
    let p_method = pos + version.id_bits();
    let p_reference = if version == IlocVersion::Zero {
        p_method
    } else {
        p_method + 16
    };
    let p_base = p_reference + 16;
    let p_count = p_base + widths.base_offset;
    let p_extents = p_count + 16;
    let method = if version == IlocVersion::Zero {
        Ok(ConstructionMethod::File)
    } else {
        spec_construction_method(bits_value(data, p_method + 12, 4))
    };
    if !bits_fit(data, p_reference) {
        Err(Error::truncated_bits())
    } else if method is Err {
        Err(method->Err_0)
    } else if !bits_fit(data, p_base) {
        Err(Error::truncated_bits())
    } else if bits_value(data, p_reference, 16) != 0 {
        Err(
            Error::Unsupported(
                "external file references (iloc.data_reference_index != 0) are not supported",
            ),
        )
    } else if !bits_fit(data, p_extents) {
        Err(Error::truncated_bits())
    } else if bits_value(data, p_count, 16) < 1 {
        Err(
            Error::InvalidData(
                "extent_count must have a value 1 or greater per ISO 14496-12:2015 § 8.11.3.3",
            ),
        )
    } else {
        match spec_iloc_extents(
            data,
            p_extents,
            bits_value(data, p_count, 16),
            widths,
            bits_value(data, p_base, widths.base_offset) as u64,
        ) {
            Err(e) => Err(e),
            Ok((extents, next)) => Ok(
                (
                    ItemLocation {
                        item_id: bits_value(data, pos, version.id_bits()) as u32,
                        construction_method: method->Ok_0,
                        extents,
                    },
                    next,
                ),
            ),
        }
    }
}

/// The first `count` items from bit `pos` on, and the position after them.
pub open spec fn spec_iloc_items(
    data: Seq<u8>,
    pos: int,
    count: int,
    version: IlocVersion,
    widths: IlocWidths,
) -> Result<(Seq<ItemLocation>, int), Error>
    decreases count,
{
    if count <= 0 {
        Ok((Seq::empty(), pos))
    } else {
        match spec_iloc_items(data, pos, count - 1, version, widths) {
            Err(e) => Err(e),
            Ok((items, p)) => match spec_iloc_item(data, p, version, widths) {
                Err(e) => Err(e),
                Ok((item, next)) => Ok((items.push(item), next)),
            },
        }
    }
}

/// The field widths that the first 16 bits of a table select: four 4-bit selectors for the
/// offset, the length, the base offset and (versions 1 and 2; reserved in version 0) the
/// extent index. Each selector is checked as soon as it is read.
pub open spec fn spec_iloc_widths(data: Seq<u8>, version: IlocVersion) -> Result<IlocWidths, Error> {
    let offset = IlocFieldSize::of(bits_value(data, 0, 4));
    let length = IlocFieldSize::of(bits_value(data, 4, 4));
    let base_offset = IlocFieldSize::of(bits_value(data, 8, 4));
    let index = if version == IlocVersion::Zero {
        Ok(IlocFieldSize::Zero)
    } else {
        IlocFieldSize::of(bits_value(data, 12, 4))
    };
    if !bits_fit(data, 4) {
        Err(Error::truncated_bits())
    } else if offset is Err {
        Err(offset->Err_0)
    } else if !bits_fit(data, 8) {
        Err(Error::truncated_bits())
    } else if length is Err {
        Err(length->Err_0)
    } else if !bits_fit(data, 12) {
        Err(Error::truncated_bits())
    } else if base_offset is Err {
        Err(base_offset->Err_0)
    } else if !bits_fit(data, 16) {
        Err(Error::truncated_bits())
    } else if index is Err {
        Err(index->Err_0)
    } else {
        Ok(
            IlocWidths {
                index: index->Ok_0.bits(),
                offset: offset->Ok_0.bits(),
                length: length->Ok_0.bits(),
                base_offset: base_offset->Ok_0.bits(),
            },
        )
    }
}

/// The items that a table holds: the field widths, an item count, that many items, and
/// nothing after them.
pub open spec fn spec_iloc_table(data: Seq<u8>, version: IlocVersion) -> Result<
    Seq<ItemLocation>,
    Error,
> {
    let p_items = 16 + version.id_bits();
    if data.len() > MAX_BIT_BUFFER {
        Err(Error::oversized_buffer())
    } else {
        match spec_iloc_widths(data, version) {
            Err(e) => Err(e),
            Ok(widths) => if !bits_fit(data, p_items) {
                Err(Error::truncated_bits())
            } else {
                match spec_iloc_items(
                    data,
                    p_items,
                    bits_value(data, 16, version.id_bits()),
                    version,
                    widths,
                ) {
                    Err(e) => Err(e),
                    Ok((items, end)) => if end == 8 * data.len() {
                        Ok(items)
                    } else {
                        Err(Error::InvalidData("invalid iloc size"))
                    },
                }
            },
        }
    }
}

/// What reading an item location box gives: the version, which must be 0, 1 or 2 with flags
/// of zero, then the rest of the box as a table.
pub open spec fn spec_read_iloc<'a>(r: OffsetReader<'a>) -> Result<
    (Seq<ItemLocation>, OffsetReader<'a>),
    Error,
> {
    match spec_read_fullbox_version_no_flags(r) {
        Err(e) => Err(e),
        Ok((v, body)) => match IlocVersion::of(v) {
            Err(e) => Err(e),
            Ok(version) => match spec_iloc_table(body.bytes(body.avail()), version) {
                Err(e) => Err(e),
                Ok(items) => Ok((items, body.after(body.avail()))),
            },
        },
    }
}

/// The field sizes that a table selects.
#[derive(Debug, Clone, Copy)]
pub struct IlocSizes {
    pub offset_size: IlocFieldSize,
    pub length_size: IlocFieldSize,
    pub base_offset_size: IlocFieldSize,
    /// Absent in version 0.
    pub index_size: Option<IlocFieldSize>,
}

impl IlocSizes {
    /// The field widths in bits.
    pub open spec fn widths(self) -> IlocWidths {
        IlocWidths {
            index: match self.index_size {
                None => 0,
                Some(size) => size.bits(),
            },
            offset: self.offset_size.bits(),
            length: self.length_size.bits(),
            base_offset: self.base_offset_size.bits(),
        }
    }
}

/// Once reading extents has failed, it has failed for every larger count.
pub proof fn lemma_iloc_extents_error(
    data: Seq<u8>,
    pos: int,
    few: int,
    many: int,
    widths: IlocWidths,
    base_offset: u64,
)
    requires
        few <= many,
        spec_iloc_extents(data, pos, few, widths, base_offset) is Err,
    ensures
        spec_iloc_extents(data, pos, many, widths, base_offset) == spec_iloc_extents(
            data,
            pos,
            few,
            widths,
            base_offset,
        ),
    decreases many - few,
{
    if few < many {
        lemma_iloc_extents_error(data, pos, few, many - 1, widths, base_offset);
    }
}

/// Once reading items has failed, it has failed for every larger count.
pub proof fn lemma_iloc_items_error(
    data: Seq<u8>,
    pos: int,
    few: int,
    many: int,
    version: IlocVersion,
    widths: IlocWidths,
)
    requires
        few <= many,
        spec_iloc_items(data, pos, few, version, widths) is Err,
    ensures
        spec_iloc_items(data, pos, many, version, widths) == spec_iloc_items(
            data,
            pos,
            few,
            version,
            widths,
        ),
    decreases many - few,
{
    if few < many {
        lemma_iloc_items_error(data, pos, few, many - 1, version, widths);
    }
}

/// Reads one extent.
fn read_iloc_extent(iloc: &mut BitCursor, sizes: &IlocSizes, base_offset: u64) -> (r: Result<
    ItemLocationBoxExtent,
    Error,
>)
    requires
        old(iloc).wf(),
    ensures
        final(iloc).wf(),
        final(iloc).bytes() == old(iloc).bytes(),
        match spec_iloc_extent(old(iloc).bytes(), old(iloc).position(), sizes.widths(), base_offset) {
            Ok((extent, next)) => r == Ok::<ItemLocationBoxExtent, Error>(extent)
                && final(iloc).position() == next,
            Err(e) => r == Err::<ItemLocationBoxExtent, Error>(e),
        },
{
    proof {
        reveal(spec_iloc_extent);
    }
    // Parsed but currently ignored, see `ItemLocationBoxExtent`
    let _extent_index = match &sizes.index_size {
        None => None,
        Some(IlocFieldSize::Zero) => None,
        Some(index_size) => Some(iloc.read_u64(index_size.to_bits())?),
    };

    // "If the offset is not identified (the field has a length of zero), then the
    //  beginning of the source (offset 0) is implied"
    let extent_offset = iloc.read_u64(sizes.offset_size.to_bits())?;
    let extent_length = iloc.read_u64(sizes.length_size.to_bits())?;

    // "If the length is not specified, or specified as zero, then the entire length of
    //  the source is implied"
    let start = match base_offset.checked_add(extent_offset) {
        Some(start) => start,
        None => {
            return Err(Error::InvalidData("offset calculation overflow"));
        },
    };
    let extent_range = if extent_length == 0 {
        ExtentRange::ToEnd { start }
    } else {
        let end = match start.checked_add(extent_length) {
            Some(end) => end,
            None => {
                return Err(Error::InvalidData("end calculation overflow"));
            },
        };
        ExtentRange::WithLength { start, end }
    };
    Ok(ItemLocationBoxExtent { extent_range })
}

/// Reads the construction method of an item.
fn read_construction_method(iloc: &mut BitCursor, version: IlocVersion) -> (r: Result<
    ConstructionMethod,
    Error,
>)
    requires
        old(iloc).wf(),
    ensures
        final(iloc).wf(),
        final(iloc).bytes() == old(iloc).bytes(),
        ({
            let data = old(iloc).bytes();
            let pos = old(iloc).position();
            if version == IlocVersion::Zero {
                r == Ok::<ConstructionMethod, Error>(ConstructionMethod::File)
                    && final(iloc).position() == pos
            } else if !bits_fit(data, pos + 16) {
                r == Err::<ConstructionMethod, Error>(Error::truncated_bits())
            } else {
                &&& r == spec_construction_method(bits_value(data, pos + 12, 4))
                &&& r is Ok ==> final(iloc).position() == pos + 16
            }
        }),
{
    match version {
        IlocVersion::Zero => Ok(ConstructionMethod::File),
        IlocVersion::One | IlocVersion::Two => {
            let _reserved = iloc.read_u16(12)?;
            match iloc.read_u16(4)? {
                0 => Ok(ConstructionMethod::File),
                1 => Ok(ConstructionMethod::Idat),
                2 => Err(
                    Error::Unsupported("construction_method 'item_offset' is not supported"),
                ),
                _ => Err(
                    Error::InvalidData(
                        "construction_method is taken from the set 0, 1 or 2 per ISO 14496-12:2015 § 8.11.3.3",
                    ),
                ),
            }
        },
    }
}

/// Reads one item with its extents.
#[verifier::loop_isolation(false)]
fn read_iloc_item(iloc: &mut BitCursor, version: IlocVersion, sizes: &IlocSizes) -> (r: Result<
    ItemLocationBoxItem,
    Error,
>)
    requires
        old(iloc).wf(),
    ensures
        final(iloc).wf(),
        final(iloc).bytes() == old(iloc).bytes(),
        match r {
            Ok(item) => spec_iloc_item(
                old(iloc).bytes(),
                old(iloc).position(),
                version,
                sizes.widths(),
            ) == Ok::<(ItemLocation, int), Error>((item@, final(iloc).position())),
            Err(e) => e == Error::OutOfMemory || spec_iloc_item(
                old(iloc).bytes(),
                old(iloc).position(),
                version,
                sizes.widths(),
            ) == Err::<(ItemLocation, int), Error>(e),
        },
{
    let ghost data = iloc.bytes();
    let ghost pos = iloc.position();
    let ghost widths = sizes.widths();
    proof {
        reveal(spec_iloc_item);
    }
    let item_id = match version {
        IlocVersion::Zero | IlocVersion::One => iloc.read_u32(16)?,
        IlocVersion::Two => iloc.read_u32(32)?,
    };

    // The standard isn't entirely clear how an `iloc` should be interpreted for version 0,
    // which has no `construction_method` field. It does say:
    // "For maximum compatibility, version 0 of this box should be used in preference to
    //  version 1 with `construction_method==0`, or version 2 when possible."
    // We take this to imply version 0 can be interpreted as using file offsets.
    let construction_method = read_construction_method(iloc, version)?;

    let data_reference_index = iloc.read_u16(16)?;

    if data_reference_index != 0 {
        return Err(
            Error::Unsupported(
                "external file references (iloc.data_reference_index != 0) are not supported",
            ),
        );
    }
    let base_offset = iloc.read_u64(sizes.base_offset_size.to_bits())?;
    let extent_count = iloc.read_u16(16)?;

    if extent_count < 1 {
        return Err(
            Error::InvalidData(
                "extent_count must have a value 1 or greater per ISO 14496-12:2015 § 8.11.3.3",
            ),
        );
    }
    let mut extents: Vec<ItemLocationBoxExtent> = match try_with_capacity(extent_count as usize) {
        Ok(extents) => extents,
        Err(e) => {
            return Err(Error::from_try_reserve(e));
        },
    };
    let ghost p_extents = iloc.position();

    let mut i: u16 = 0;
    while i < extent_count
        invariant
            i <= extent_count,
            iloc.wf(),
            iloc.bytes() == data,
            spec_iloc_extents(data, p_extents, i as int, widths, base_offset) == Ok::<
                (Seq<ItemLocationBoxExtent>, int),
                Error,
            >((extents@, iloc.position())),
        decreases extent_count - i,
    {
        let extent = match read_iloc_extent(iloc, sizes, base_offset) {
            Ok(extent) => extent,
            Err(e) => {
                proof {
                    lemma_iloc_extents_error(
                        data,
                        p_extents,
                        i + 1,
                        extent_count as int,
                        widths,
                        base_offset,
                    );
                }
                return Err(e);
            },
        };
        match try_push(&mut extents, extent) {
            Ok(_) => {},
            Err(e) => {
                return Err(Error::from_try_reserve(e));
            },
        }
        i = i + 1;
    }
    Ok(ItemLocationBoxItem { item_id, construction_method, extents })
}

/// Reads the four field size selectors.
fn read_iloc_sizes(iloc: &mut BitCursor, version: IlocVersion) -> (r: Result<IlocSizes, Error>)
    requires
        old(iloc).wf(),
        old(iloc).position() == 0,
    ensures
        final(iloc).wf(),
        final(iloc).bytes() == old(iloc).bytes(),
        match spec_iloc_widths(old(iloc).bytes(), version) {
            Ok(widths) => r is Ok && r->Ok_0.widths() == widths && final(iloc).position() == 16,
            Err(e) => r == Err::<IlocSizes, Error>(e),
        },
{
    let offset_size = IlocFieldSize::try_from(iloc.read_u8(4)?)?;
    let length_size = IlocFieldSize::try_from(iloc.read_u8(4)?)?;
    let base_offset_size = IlocFieldSize::try_from(iloc.read_u8(4)?)?;

    let index_size: Option<IlocFieldSize> = match version {
        IlocVersion::One | IlocVersion::Two => Some(IlocFieldSize::try_from(iloc.read_u8(4)?)?),
        IlocVersion::Zero => {
            let _reserved = iloc.read_u8(4)?;
            None
        },
    };
    Ok(IlocSizes { offset_size, length_size, base_offset_size, index_size })
}

/// Reads `item_count` items.
fn read_iloc_items(
    iloc: &mut BitCursor,
    item_count: u32,
    version: IlocVersion,
    sizes: &IlocSizes,
) -> (r: Result<Vec<ItemLocationBoxItem>, Error>)
    requires
        old(iloc).wf(),
    ensures
        final(iloc).wf(),
        final(iloc).bytes() == old(iloc).bytes(),
        match r {
            Ok(items) => spec_iloc_items(
                old(iloc).bytes(),
                old(iloc).position(),
                item_count as int,
                version,
                sizes.widths(),
            ) == Ok::<(Seq<ItemLocation>, int), Error>(
                (locations(items@), final(iloc).position()),
            ),
            Err(e) => e == Error::OutOfMemory || spec_iloc_items(
                old(iloc).bytes(),
                old(iloc).position(),
                item_count as int,
                version,
                sizes.widths(),
            ) == Err::<(Seq<ItemLocation>, int), Error>(e),
        },
{
    let ghost data = iloc.bytes();
    let ghost p_items = iloc.position();
    let ghost widths = sizes.widths();
    if item_count as u64 > usize::MAX as u64 {
        return Err(Error::OutOfMemory);
    }
    let mut items: Vec<ItemLocationBoxItem> = match try_with_capacity(item_count as usize) {
        Ok(items) => items,
        Err(e) => {
            return Err(Error::from_try_reserve(e));
        },
    };
    assert(locations(items@) =~= Seq::<ItemLocation>::empty());

    let mut i: u32 = 0;
    while i < item_count
        invariant
            i <= item_count,
            iloc.wf(),
            iloc.bytes() == data,
            data == old(iloc).bytes(),
            p_items == old(iloc).position(),
            widths == sizes.widths(),
            spec_iloc_items(data, p_items, i as int, version, widths) == Ok::<
                (Seq<ItemLocation>, int),
                Error,
            >((locations(items@), iloc.position())),
        decreases item_count - i,
    {
        let item = match read_iloc_item(iloc, version, sizes) {
            Ok(item) => item,
            Err(e) => {
                proof {
                    if e != Error::OutOfMemory {
                        lemma_iloc_items_error(
                            data,
                            p_items,
                            i + 1,
                            item_count as int,
                            version,
                            widths,
                        );
                    }
                }
                return Err(e);
            },
        };
        let ghost before = items@;
        let ghost added = item@;
        match try_push(&mut items, item) {
            Ok(_) => {},
            Err(e) => {
                return Err(Error::from_try_reserve(e));
            },
        }
        assert(locations(items@) =~= locations(before).push(added));
        i = i + 1;
    }
    Ok(items)
}

/// Whether reading a table asks for memory: its field sizes and its item count can be
/// read. Room for the items is reserved right after, whatever the count.
pub open spec fn iloc_table_reserves(data: Seq<u8>, version: IlocVersion) -> bool {
    &&& data.len() <= MAX_BIT_BUFFER
    &&& spec_iloc_widths(data, version) is Ok
    &&& bits_fit(data, 16 + version.id_bits())
}

/// Reads the table of an item location box of the given version. Memory can run out only
/// where reading the table asks for memory; everywhere else the result is what the table
/// holds.
pub fn read_iloc_table(table: &[u8], version: IlocVersion) -> (r: Result<
    Vec<ItemLocationBoxItem>,
    Error,
>)
    ensures
        match r {
            Ok(items) => spec_iloc_table(table@, version) == Ok::<Seq<ItemLocation>, Error>(
                locations(items@),
            ),
            Err(e) => (e == Error::OutOfMemory && iloc_table_reserves(table@, version))
                || spec_iloc_table(table@, version) == Err::<Seq<ItemLocation>, Error>(e),
        },
{
    let mut iloc = BitCursor::new(table)?;
    let sizes = read_iloc_sizes(&mut iloc, version)?;
    let item_count = match version {
        IlocVersion::Zero | IlocVersion::One => iloc.read_u32(16)?,
        IlocVersion::Two => iloc.read_u32(32)?,
    };
    let items = read_iloc_items(&mut iloc, item_count, version, &sizes)?;
    if iloc.remaining() == 0 {
        Ok(items)
    } else {
        Err(Error::InvalidData("invalid iloc size"))
    }
}

/// Whether reading an item location box asks for memory: its version and flags are
/// accepted. The rest of the box is copied into a buffer right after.
pub open spec fn iloc_reserves(r: OffsetReader) -> bool {
    match spec_read_fullbox_version_no_flags(r) {
        Ok((v, _)) => IlocVersion::of(v) is Ok,
        Err(_) => false,
    }
}

/// Parse an item location box inside a meta box. Memory can run out only where reading
/// the box asks for memory; everywhere else the result is what the box holds.
pub fn read_iloc(src: &mut BMFFBox) -> (r: Result<Vec<ItemLocationBoxItem>, Error>)
    requires
        old(src).wf(),
    ensures
        final(src).wf(),
        final(src).head == old(src).head,
        match r {
            Ok(items) => spec_read_iloc(old(src).content) == Ok::<
                (Seq<ItemLocation>, OffsetReader),
                Error,
            >((locations(items@), final(src).content)),
            Err(e) => (e == Error::OutOfMemory && iloc_reserves(old(src).content))
                || spec_read_iloc(old(src).content) == Err::<
                (Seq<ItemLocation>, OffsetReader),
                Error,
            >(e),
        },
{
    let version = IlocVersion::try_from(read_fullbox_version_no_flags(&mut src.content)?)?;
    let iloc = src.read_into_try_vec()?;
    read_iloc_table(iloc.as_slice(), version)
}

} // verus!
