//! Item properties: the property container, the association table, and how the two are
//! joined into a list of properties per item.

use vstd::prelude::*;
use vstd::slice::slice_subrange;
use crate::bits::bits_value;
use crate::bits::flag_at;
use crate::bits::lemma_bits_value_small;
use crate::bits::BitCursor;
use crate::boxes::BoxType;
use crate::error::Error;
use crate::fallible::try_clone_bytes;
use crate::fallible::try_push;
use crate::reader::agrees;
use crate::reader::be_u16;
use crate::reader::be_u32;
use crate::reader::check_parser_state;
use crate::reader::lemma_next_box_shrinks;
use crate::reader::next_box;
use crate::reader::read_fullbox_extra;
use crate::reader::read_fullbox_version_no_flags;
use crate::reader::skip_box_remain;
use crate::reader::spec_check_parser_state;
use crate::reader::spec_next_box;
use crate::reader::spec_read_fullbox_extra;
use crate::reader::spec_read_fullbox_version_no_flags;
use crate::reader::BMFFBox;
use crate::reader::OffsetReader;

verus! {

/// The bounded vector of the `arrayvec` crate, which holds the channel depths of an image.
#[verifier::external_type_specification]
#[verifier::external_body]
#[verifier::reject_recursive_types(T)]
pub struct ExArrayVec<T, const CAP: usize>(arrayvec::ArrayVec<T, CAP>);

/// The bytes that a channel list holds, in order.
pub uninterp spec fn channel_values(channels: arrayvec::ArrayVec<u8, 16>) -> Seq<u8>;

/// Calls `ArrayVec::try_from` of `arrayvec` on a slice: a list that holds the bytes of the
/// slice, or nothing where the slice is longer than the list's capacity of 16.
#[verifier::external_body]
fn channels_from_slice(bytes: &[u8]) -> (r: Option<arrayvec::ArrayVec<u8, 16>>)
    ensures
        match r {
            Some(channels) => bytes@.len() <= 16 && channel_values(channels) == bytes@,
            None => bytes@.len() > 16,
        },
{
    arrayvec::ArrayVec::try_from(bytes).ok()
}

/// Calls `ArrayVec::clone` of `arrayvec`: a list that holds the same bytes.
#[verifier::external_body]
fn channels_clone(channels: &arrayvec::ArrayVec<u8, 16>) -> (r: arrayvec::ArrayVec<u8, 16>)
    ensures
        channel_values(r) == channel_values(*channels),
{
    channels.clone()
}

/// The auxiliary type of an image item: a type string, a NUL byte and a subtype.
#[derive(Debug)]
pub struct AuxiliaryTypeProperty {
    aux_data: Vec<u8>,
}

impl View for AuxiliaryTypeProperty {
    type V = Seq<u8>;

    closed spec fn view(&self) -> Seq<u8> {
        self.aux_data@
    }
}

/// The auxiliary type of an alpha plane: `urn:mpeg:mpegB:cicp:systems:auxiliary:alpha`.
pub const ALPHA_URN: [u8; 43] = [
    0x75, 0x72, 0x6e, 0x3a, 0x6d, 0x70, 0x65, 0x67, 0x3a, 0x6d, 0x70, 0x65, 0x67, 0x42, 0x3a,
    0x63, 0x69, 0x63, 0x70, 0x3a, 0x73, 0x79, 0x73, 0x74, 0x65, 0x6d, 0x73, 0x3a, 0x61, 0x75,
    0x78, 0x69, 0x6c, 0x69, 0x61, 0x72, 0x79, 0x3a, 0x61, 0x6c, 0x70, 0x68, 0x61,
];

/// The index of the first NUL byte of `bytes` from `from` on, or the length of `bytes`
/// where there is none.
pub open spec fn first_nul(bytes: Seq<u8>, from: int) -> int
    decreases bytes.len() - from,
{
    if from < 0 || from >= bytes.len() {
        bytes.len() as int
    } else if bytes[from] == 0 {
        from
    } else {
        first_nul(bytes, from + 1)
    }
}

/// The type that auxiliary data names: what comes before its first NUL byte.
pub open spec fn aux_type(bytes: Seq<u8>) -> Seq<u8> {
    bytes.subrange(0, first_nul(bytes, 0))
}

/// The subtype that auxiliary data names: what comes after its first NUL byte.
pub open spec fn aux_subtype(bytes: Seq<u8>) -> Seq<u8> {
    if first_nul(bytes, 0) < bytes.len() {
        bytes.subrange(first_nul(bytes, 0) + 1, bytes.len() as int)
    } else {
        Seq::empty()
    }
}

impl AuxiliaryTypeProperty {
    /// Auxiliary data as it stands in the file.
    pub fn new(aux_data: Vec<u8>) -> (r: AuxiliaryTypeProperty)
        ensures
            r@ == aux_data@,
    {
        AuxiliaryTypeProperty { aux_data }
    }

    /// The type, which is what comes before the first NUL byte, and the subtype, which is
    /// what comes after it. Without a NUL byte everything is the type.
    pub fn type_subtype(&self) -> (r: (&[u8], &[u8]))
        ensures
            r.0@ == aux_type(self@),
            r.1@ == aux_subtype(self@),
    {
        let data = self.aux_data.as_slice();
        let mut pos: usize = 0;
        while pos < data.len() && data[pos] != 0
            invariant
                pos <= data@.len(),
                first_nul(data@, 0) == first_nul(data@, pos as int),
            decreases data@.len() - pos,
        {
            pos = pos + 1;
        }
        if pos < data.len() {
            (slice_subrange(data, 0, pos), slice_subrange(data, pos + 1, data.len()))
        } else {
            assert(data@.subrange(0, pos as int) =~= data@);
            (data, slice_subrange(data, 0, 0))
        }
    }
}

/// The brightest pixel and the brightest frame average of the content, in candelas per
/// square metre.
#[derive(Debug, Clone, Copy, PartialEq, Eq, Structural)]
pub struct ContentLightLevel {
    pub max_content_light_level: u16,
    pub max_pic_average_light_level: u16,
}

/// The colour volume of the display on which the content was mastered: the chromaticity
/// of its three primaries and of its white point as (x, y) pairs in units of 0.00002, and its
/// maximum and minimum luminance in units of 0.0001 candelas per square metre.
#[derive(Debug, Clone, Copy)]
pub struct MasteringDisplayColourVolume {
    pub primaries: ((u16, u16), (u16, u16), (u16, u16)),
    pub white_point: (u16, u16),
    pub max_luminance: u32,
    pub min_luminance: u32,
}

/// A property that an item can have.
#[derive(Debug)]
pub enum ItemProperty {
    Channels(arrayvec::ArrayVec<u8, 16>),
    AuxiliaryType(AuxiliaryTypeProperty),
    ContentLightLevel(ContentLightLevel),
    MasteringDisplay(MasteringDisplayColourVolume),
    Unsupported,
}

/// A property that an item can have, as a mathematical value.
pub enum Property {
    /// The bit depth of each channel.
    Channels(Seq<u8>),
    /// The bytes of an auxiliary type.
    AuxiliaryType(Seq<u8>),
    ContentLightLevel(ContentLightLevel),
    MasteringDisplay(MasteringDisplayColourVolume),
    /// A property of a kind that the parser passes over.
    Unsupported,
}

impl View for ItemProperty {
    type V = Property;

    open spec fn view(&self) -> Property {
        match self {
            ItemProperty::Channels(channels) => Property::Channels(channel_values(*channels)),
            ItemProperty::AuxiliaryType(aux) => Property::AuxiliaryType(aux@),
            ItemProperty::ContentLightLevel(level) => Property::ContentLightLevel(*level),
            ItemProperty::MasteringDisplay(volume) => Property::MasteringDisplay(*volume),
            ItemProperty::Unsupported => Property::Unsupported,
        }
    }
}

/// The properties that a vector holds.
pub open spec fn properties(items: Seq<ItemProperty>) -> Seq<Property> {
    Seq::new(items.len(), |i: int| items[i]@)
}

impl ItemProperty {
    /// A copy of the property. Only the copy of an auxiliary type, which has a buffer, can
    /// fail, and only because memory runs out.
    pub fn try_clone(&self) -> (r: Result<ItemProperty, Error>)
        ensures
            match r {
                Ok(copy) => copy@ == self@,
                Err(e) => e == Error::OutOfMemory && self@ is AuxiliaryType,
            },
    {
        Ok(
            match self {
                ItemProperty::Channels(val) => ItemProperty::Channels(channels_clone(val)),
                ItemProperty::AuxiliaryType(val) => ItemProperty::AuxiliaryType(val.try_clone()?),
                ItemProperty::ContentLightLevel(val) => ItemProperty::ContentLightLevel(*val),
                ItemProperty::MasteringDisplay(val) => ItemProperty::MasteringDisplay(*val),
                ItemProperty::Unsupported => ItemProperty::Unsupported,
            },
        )
    }

    /// Whether the property is of a kind that the parser passes over.
    pub fn is_unsupported(&self) -> (r: bool)
        ensures
            r == (self@ == Property::Unsupported),
    {
        match self {
            ItemProperty::Unsupported => true,
            _ => false,
        }
    }
}

impl AuxiliaryTypeProperty {
    /// A copy of the property, unless memory runs out.
    pub fn try_clone(&self) -> (r: Result<AuxiliaryTypeProperty, Error>)
        ensures
            match r {
                Ok(copy) => copy@ == self@,
                Err(e) => e == Error::OutOfMemory,
            },
    {
        match try_clone_bytes(&self.aux_data) {
            Ok(aux_data) => Ok(AuxiliaryTypeProperty { aux_data }),
            Err(e) => Err(Error::from_try_reserve(e)),
        }
    }
}

/// One row of the association table: item `item_id` has the property at the 1-based place
/// `property_index` of the container, or none where that is 0.
#[derive(Debug, Clone, Copy, PartialEq, Eq, Structural)]
pub struct Association {
    pub item_id: u32,
    pub essential: bool,
    pub property_index: u16,
}

/// A property together with the item that has it.
#[derive(Debug)]
pub struct AssociatedProperty {
    pub item_id: u32,
    pub property: ItemProperty,
}

/// A property together with the item that has it, as a mathematical value.
pub struct Associated {
    pub item_id: u32,
    pub property: Property,
}

impl View for AssociatedProperty {
    type V = Associated;

    open spec fn view(&self) -> Associated {
        Associated { item_id: self.item_id, property: self.property@ }
    }
}

/// The associated properties that a vector holds.
pub open spec fn associated(items: Seq<AssociatedProperty>) -> Seq<Associated> {
    Seq::new(items.len(), |i: int| items[i]@)
}

// ---------------------------------------------------------------------------------------
// The association table
// ---------------------------------------------------------------------------------------
/// The number of bytes of one association: two where bit 0 of the box's flags is set.
pub open spec fn association_size(wide: bool) -> int {
    if wide {
        2
    } else {
        1
    }
}

/// The association that starts at the position of `r`: the top bit of its first byte is
/// the essential marker, the 7 or 15 bits after it are the property index.
pub open spec fn spec_association(r: OffsetReader, item_id: u32, wide: bool) -> Association {
    let bytes = r.bytes(association_size(wide));
    Association {
        item_id,
        essential: flag_at(bytes, 0),
        property_index: bits_value(bytes, 1, 8 * association_size(wide) - 1) as u16,
    }
}

/// The first `count` associations of item `item_id` from `r` on, after `found`, and the
/// reader after them.
pub open spec fn spec_ipma_associations<'a>(
    r: OffsetReader<'a>,
    item_id: u32,
    wide: bool,
    count: int,
    found: Seq<Association>,
) -> Result<(Seq<Association>, OffsetReader<'a>), Error>
    decreases count,
{
    if count <= 0 {
        Ok((found, r))
    } else {
        match spec_ipma_associations(r, item_id, wide, count - 1, found) {
            Err(e) => Err(e),
            Ok((associations, at)) => if at.avail() < association_size(wide) {
                Err(Error::UnexpectedEOF)
            } else {
                Ok(
                    (
                        associations.push(spec_association(at, item_id, wide)),
                        at.after(association_size(wide)),
                    ),
                )
            },
        }
    }
}

/// The associations of the entry that starts at the position of `r`, after `found`: an
/// item id (16 bits wide in version 0, else 32), a one-byte count and that many
/// associations.
pub open spec fn spec_ipma_entry<'a>(
    r: OffsetReader<'a>,
    version: u8,
    wide: bool,
    found: Seq<Association>,
) -> Result<(Seq<Association>, OffsetReader<'a>), Error> {
    let id_size: int = if version == 0 {
        2
    } else {
        4
    };
    let item_id = if version == 0 {
        r.u16_at(0) as u32
    } else {
        r.u32_at(0)
    };
    if r.avail() < id_size + 1 {
        Err(Error::UnexpectedEOF)
    } else {
        spec_ipma_associations(
            r.after(id_size + 1),
            item_id,
            wide,
            r.u8_at(id_size) as int,
            found,
        )
    }
}

/// The associations of the first `count` entries from `r` on, and the reader after them.
pub open spec fn spec_ipma_entries<'a>(r: OffsetReader<'a>, version: u8, wide: bool, count: int) -> Result<
    (Seq<Association>, OffsetReader<'a>),
    Error,
>
    decreases count,
{
    if count <= 0 {
        Ok((Seq::empty(), r))
    } else {
        match spec_ipma_entries(r, version, wide, count - 1) {
            Err(e) => Err(e),
            Ok((associations, at)) => spec_ipma_entry(at, version, wide, associations),
        }
    }
}

/// What reading an association box gives: the version and flags, a 32-bit entry count,
/// and the associations of that many entries.
pub open spec fn spec_read_ipma<'a>(r: OffsetReader<'a>) -> Result<
    (Seq<Association>, OffsetReader<'a>),
    Error,
> {
    match spec_read_fullbox_extra(r) {
        Err(e) => Err(e),
        Ok(((version, flags), body)) => if body.avail() < 4 {
            Err(Error::UnexpectedEOF)
        } else {
            spec_ipma_entries(body.after(4), version, flags & 1 == 1, body.u32_at(0) as int)
        },
    }
}

/// Once reading associations has failed, it has failed for every larger count.
pub proof fn lemma_ipma_associations_error(
    r: OffsetReader,
    item_id: u32,
    wide: bool,
    few: int,
    many: int,
    found: Seq<Association>,
)
    requires
        few <= many,
        spec_ipma_associations(r, item_id, wide, few, found) is Err,
    ensures
        spec_ipma_associations(r, item_id, wide, many, found) == spec_ipma_associations(
            r,
            item_id,
            wide,
            few,
            found,
        ),
    decreases many - few,
{
    if few < many {
        lemma_ipma_associations_error(r, item_id, wide, few, many - 1, found);
    }
}

/// Once reading entries has failed, it has failed for every larger count.
pub proof fn lemma_ipma_entries_error(r: OffsetReader, version: u8, wide: bool, few: int, many: int)
    requires
        few <= many,
        spec_ipma_entries(r, version, wide, few) is Err,
    ensures
        spec_ipma_entries(r, version, wide, many) == spec_ipma_entries(r, version, wide, few),
    decreases many - few,
{
    if few < many {
        lemma_ipma_entries_error(r, version, wide, few, many - 1);
    }
}

/// Reads one association.
fn read_association(src: &mut OffsetReader, item_id: u32, wide: bool) -> (r: Result<
    Association,
    Error,
>)
    requires
        old(src).wf(),
    ensures
        final(src).wf(),
        match r {
            Ok(a) => old(src).avail() >= association_size(wide) && a == spec_association(
                *old(src),
                item_id,
                wide,
            ) && *final(src) == old(src).after(association_size(wide)),
            Err(e) => old(src).avail() < association_size(wide) && e == Error::UnexpectedEOF,
        },
{
    let num_association_bytes: usize = if wide {
        2
    } else {
        1
    };
    let bytes = src.read_exact(num_association_bytes)?;
    let mut association = BitCursor::new(bytes)?;
    let essential = association.read_bool()?;
    let width = association.remaining();
    proof {
        lemma_bits_value_small(bytes@, 1, width as int);
    }
    let property_index = association.read_u16(width as u8)?;
    Ok(Association { item_id, essential, property_index })
}

/// Whether reading the entry at the position of `r` asks for memory: it holds a first
/// association. Room is asked for each association once it is read.
pub open spec fn ipma_entry_reserves(r: OffsetReader, version: u8, wide: bool) -> bool {
    let id_size: int = if version == 0 {
        2
    } else {
        4
    };
    r.avail() >= id_size + 1 + association_size(wide) && r.u8_at(id_size) >= 1
}

/// Whether reading the first `count` entries from `r` on asks for memory: one of them
/// does, and those before it can be read.
pub open spec fn ipma_entries_reserve(r: OffsetReader, version: u8, wide: bool, count: int) -> bool
    decreases count,
{
    count > 0 && (ipma_entries_reserve(r, version, wide, count - 1) || match spec_ipma_entries(
        r,
        version,
        wide,
        count - 1,
    ) {
        Ok((_, at)) => ipma_entry_reserves(at, version, wide),
        Err(_) => false,
    })
}

/// Whether reading an association box asks for memory: its version, flags and entry count
/// can be read and one of its entries holds an association.
pub open spec fn ipma_reserves(r: OffsetReader) -> bool {
    match spec_read_fullbox_extra(r) {
        Ok(((version, flags), body)) => body.avail() >= 4 && ipma_entries_reserve(
            body.after(4),
            version,
            flags & 1 == 1,
            body.u32_at(0) as int,
        ),
        Err(_) => false,
    }
}

/// Where fewer entries ask for memory, more do.
pub proof fn lemma_ipma_entries_reserve_more(
    r: OffsetReader,
    version: u8,
    wide: bool,
    few: int,
    many: int,
)
    requires
        few <= many,
        ipma_entries_reserve(r, version, wide, few),
    ensures
        ipma_entries_reserve(r, version, wide, many),
    decreases many - few,
{
    if few < many {
        lemma_ipma_entries_reserve_more(r, version, wide, few, many - 1);
    }
}

/// Reads one entry of the association table and appends its associations.
fn read_ipma_entry(
    src: &mut OffsetReader,
    version: u8,
    wide: bool,
    associations: &mut Vec<Association>,
) -> (r: Result<(), Error>)
    requires
        old(src).wf(),
    ensures
        final(src).wf(),
        match r {
            Ok(_) => spec_ipma_entry(*old(src), version, wide, old(associations)@) == Ok::<
                (Seq<Association>, OffsetReader),
                Error,
            >((final(associations)@, *final(src))),
            Err(e) => (e == Error::OutOfMemory && ipma_entry_reserves(*old(src), version, wide))
                || spec_ipma_entry(*old(src), version, wide, old(associations)@) == Err::<
                (Seq<Association>, OffsetReader),
                Error,
            >(e),
        },
{
    let ghost found = associations@;
    let item_id = if version == 0 {
        be_u16(src)? as u32
    } else {
        be_u32(src)?
    };
    let association_count = src.read_u8()?;
    let ghost start = *src;
    let mut i: u8 = 0;
    while i < association_count
        invariant
            i <= association_count,
            src.wf(),
            found == old(associations)@,
            spec_ipma_entry(*old(src), version, wide, found) == spec_ipma_associations(
                start,
                item_id,
                wide,
                association_count as int,
                found,
            ),
            spec_ipma_associations(start, item_id, wide, i as int, found) == Ok::<
                (Seq<Association>, OffsetReader),
                Error,
            >((associations@, *src)),
            i >= 1 ==> ipma_entry_reserves(*old(src), version, wide),
            start == old(src).after(
                if version == 0 {
                    3int
                } else {
                    5int
                },
            ),
            association_count == old(src).u8_at(
                if version == 0 {
                    2int
                } else {
                    4int
                },
            ),
            old(src).wf(),
            old(src).avail() >= (if version == 0 {
                3int
            } else {
                5int
            }),
        decreases association_count - i,
    {
        proof {
            if spec_ipma_associations(start, item_id, wide, i + 1, found) is Err {
                lemma_ipma_associations_error(
                    start,
                    item_id,
                    wide,
                    i + 1,
                    association_count as int,
                    found,
                );
            }
        }
        let association = read_association(src, item_id, wide)?;
        match try_push(associations, association) {
            Ok(_) => {},
            Err(e) => {
                return Err(Error::from_try_reserve(e));
            },
        }
        i = i + 1;
    }
    Ok(())
}

/// Parse an Item Property Association Box. Memory can run out only where reading the box
/// asks for memory; everywhere else the result is what the box holds.
pub fn read_ipma(src: &mut BMFFBox) -> (r: Result<Vec<Association>, Error>)
    requires
        old(src).wf(),
    ensures
        final(src).wf(),
        final(src).head == old(src).head,
        match r {
            Ok(associations) => spec_read_ipma(old(src).content) == Ok::<
                (Seq<Association>, OffsetReader),
                Error,
            >((associations@, final(src).content)),
            Err(e) => (e == Error::OutOfMemory && ipma_reserves(old(src).content))
                || spec_read_ipma(old(src).content) == Err::<
                (Seq<Association>, OffsetReader),
                Error,
            >(e),
        },
{
    let (version, flags) = read_fullbox_extra(&mut src.content)?;
    let wide = flags & 1 == 1;

    let mut associations: Vec<Association> = Vec::new();

    let entry_count = be_u32(&mut src.content)?;
    let ghost start = src.content;
    let mut i: u32 = 0;
    while i < entry_count
        invariant
            i <= entry_count,
            src.wf(),
            src.head == old(src).head,
            spec_read_ipma(old(src).content) == spec_ipma_entries(
                start,
                version,
                wide,
                entry_count as int,
            ),
            spec_ipma_entries(start, version, wide, i as int) == Ok::<
                (Seq<Association>, OffsetReader),
                Error,
            >((associations@, src.content)),
            ipma_reserves(old(src).content) == ipma_entries_reserve(
                start,
                version,
                wide,
                entry_count as int,
            ),
        decreases entry_count - i,
    {
        proof {
            if spec_ipma_entries(start, version, wide, i + 1) is Err {
                lemma_ipma_entries_error(start, version, wide, i + 1, entry_count as int);
            }
            if ipma_entries_reserve(start, version, wide, i + 1) {
                lemma_ipma_entries_reserve_more(start, version, wide, i + 1, entry_count as int);
            }
        }
        read_ipma_entry(&mut src.content, version, wide, &mut associations)?;
        i = i + 1;
    }
    Ok(associations)
}

// ---------------------------------------------------------------------------------------
// The property container
// ---------------------------------------------------------------------------------------
/// The number of channel depths that a pixel information box gives for a declared count:
/// no more than 16.
pub open spec fn channel_count(declared: u8) -> int {
    if declared < 16 {
        declared as int
    } else {
        16
    }
}

/// What reading a pixel information box gives: the version, which must be 0 with flags of
/// zero; a channel count; and one depth for each channel, which must fill the box to its
/// declared end.
pub open spec fn spec_read_pixi<'a>(r: OffsetReader<'a>) -> Result<(Seq<u8>, OffsetReader<'a>), Error> {
    match spec_read_fullbox_version_no_flags(r) {
        Err(e) => Err(e),
        Ok((version, body)) => {
            let count = channel_count(body.u8_at(0));
            if version != 0 {
                Err(Error::Unsupported("pixi version"))
            } else if body.avail() < 1 {
                Err(Error::UnexpectedEOF)
            } else if body.avail() < 1 + count {
                Err(Error::InvalidData("invalid num_channels"))
            } else {
                match spec_check_parser_state(body.after(1 + count)) {
                    Err(e) => Err(e),
                    Ok(_) => Ok((body.after(1).bytes(count), body.after(1 + count))),
                }
            }
        },
    }
}

/// Parse a Pixel Information Box
pub fn read_pixi(src: &mut BMFFBox) -> (r: Result<arrayvec::ArrayVec<u8, 16>, Error>)
    requires
        old(src).wf(),
    ensures
        final(src).wf(),
        final(src).head == old(src).head,
        match spec_read_pixi(old(src).content) {
            Ok((depths, left)) => r is Ok && channel_values(r->Ok_0) == depths
                && final(src).content == left,
            Err(e) => r is Err && r->Err_0 == e,
        },
{
    let version = read_fullbox_version_no_flags(&mut src.content)?;
    if version != 0 {
        return Err(Error::Unsupported("pixi version"));
    }
    let num_channels = src.content.read_u8()?;
    let count: usize = if num_channels < 16 {
        num_channels as usize
    } else {
        16
    };
    let depths = match src.content.read_exact(count) {
        Ok(depths) => depths,
        Err(_) => {
            return Err(Error::InvalidData("invalid num_channels"));
        },
    };
    let channels = match channels_from_slice(depths) {
        Some(channels) => channels,
        None => {
            return Err(Error::InvalidData("invalid num_channels"));
        },
    };
    check_parser_state(&src.content)?;
    Ok(channels)
}

/// What reading an auxiliary type box gives: the version, which must be 0 with flags of
/// zero, and then all bytes of the box.
pub open spec fn spec_read_auxc<'a>(r: OffsetReader<'a>) -> Result<(Seq<u8>, OffsetReader<'a>), Error> {
    match spec_read_fullbox_version_no_flags(r) {
        Err(e) => Err(e),
        Ok((version, body)) => if version != 0 {
            Err(Error::Unsupported("auxC version"))
        } else {
            Ok((body.bytes(body.avail()), body.after(body.avail())))
        },
    }
}

/// Parse an Auxiliary Type Property Box. A version or flags that are not accepted are
/// reported as they are; memory can run out everywhere else.
pub fn read_auxc(src: &mut BMFFBox) -> (r: Result<AuxiliaryTypeProperty, Error>)
    requires
        old(src).wf(),
    ensures
        final(src).wf(),
        final(src).head == old(src).head,
        match spec_read_auxc(old(src).content) {
            Err(e) => r is Err && r->Err_0 == e,
            Ok((bytes, left)) => match r {
                Ok(aux) => aux@ == bytes && final(src).content == left,
                Err(e) => e == Error::OutOfMemory,
            },
        },
{
    let version = read_fullbox_version_no_flags(&mut src.content)?;
    if version != 0 {
        return Err(Error::Unsupported("auxC version"));
    }
    let aux_data = src.read_into_try_vec()?;

    Ok(AuxiliaryTypeProperty { aux_data })
}

/// What reading a content light level box gives: two 16-bit numbers. What follows in the
/// box is passed over.
pub open spec fn spec_read_clli<'a>(r: OffsetReader<'a>) -> Result<
    (ContentLightLevel, OffsetReader<'a>),
    Error,
> {
    if r.avail() < 4 {
        Err(Error::UnexpectedEOF)
    } else {
        Ok(
            (
                ContentLightLevel {
                    max_content_light_level: r.u16_at(0),
                    max_pic_average_light_level: r.u16_at(2),
                },
                r.after(r.avail()),
            ),
        )
    }
}

/// Parse a Content Light Level Box
pub fn read_clli(src: &mut BMFFBox) -> (r: Result<ContentLightLevel, Error>)
    requires
        old(src).wf(),
    ensures
        final(src).wf(),
        final(src).head == old(src).head,
        agrees(r, final(src).content, spec_read_clli(old(src).content)),
{
    let max_content_light_level = be_u16(&mut src.content)?;
    let max_pic_average_light_level = be_u16(&mut src.content)?;
    skip_box_remain(src)?;
    Ok(ContentLightLevel { max_content_light_level, max_pic_average_light_level })
}

/// What reading a mastering display colour volume box gives: three chromaticity pairs, the
/// white point pair, and the maximum and minimum luminance, 24 bytes in all. What follows in
/// the box is passed over.
pub open spec fn spec_read_mdcv<'a>(r: OffsetReader<'a>) -> Result<
    (MasteringDisplayColourVolume, OffsetReader<'a>),
    Error,
> {
    if r.avail() < 24 {
        Err(Error::UnexpectedEOF)
    } else {
        Ok(
            (
                MasteringDisplayColourVolume {
                    primaries: (
                        (r.u16_at(0), r.u16_at(2)),
                        (r.u16_at(4), r.u16_at(6)),
                        (r.u16_at(8), r.u16_at(10)),
                    ),
                    white_point: (r.u16_at(12), r.u16_at(14)),
                    max_luminance: r.u32_at(16),
                    min_luminance: r.u32_at(20),
                },
                r.after(r.avail()),
            ),
        )
    }
}

/// Parse a Mastering Display Colour Volume Box
pub fn read_mdcv(src: &mut BMFFBox) -> (r: Result<MasteringDisplayColourVolume, Error>)
    requires
        old(src).wf(),
    ensures
        final(src).wf(),
        final(src).head == old(src).head,
        agrees(r, final(src).content, spec_read_mdcv(old(src).content)),
{
    let x0 = be_u16(&mut src.content)?;
    let y0 = be_u16(&mut src.content)?;
    let x1 = be_u16(&mut src.content)?;
    let y1 = be_u16(&mut src.content)?;
    let x2 = be_u16(&mut src.content)?;
    let y2 = be_u16(&mut src.content)?;
    let white_x = be_u16(&mut src.content)?;
    let white_y = be_u16(&mut src.content)?;
    let max_luminance = be_u32(&mut src.content)?;
    let min_luminance = be_u32(&mut src.content)?;
    skip_box_remain(src)?;
    Ok(
        MasteringDisplayColourVolume {
            primaries: ((x0, y0), (x1, y1), (x2, y2)),
            white_point: (white_x, white_y),
            max_luminance,
            min_luminance,
        },
    )
}

/// The property that a box of the container holds. Boxes of other kinds than those read
/// here count as unsupported properties.
pub open spec fn spec_read_property(b: BMFFBox) -> Result<Property, Error> {
    match b.head.name {
        BoxType::PixelInformationBox => match spec_read_pixi(b.content) {
            Err(e) => Err(e),
            Ok((depths, _)) => Ok(Property::Channels(depths)),
        },
        BoxType::AuxiliaryTypeProperty => match spec_read_auxc(b.content) {
            Err(e) => Err(e),
            Ok((bytes, _)) => Ok(Property::AuxiliaryType(bytes)),
        },
        BoxType::ContentLightLevelBox => match spec_read_clli(b.content) {
            Err(e) => Err(e),
            Ok((level, _)) => Ok(Property::ContentLightLevel(level)),
        },
        BoxType::MasteringDisplayColourVolumeBox => match spec_read_mdcv(b.content) {
            Err(e) => Err(e),
            Ok((volume, _)) => Ok(Property::MasteringDisplay(volume)),
        },
        _ => Ok(Property::Unsupported),
    }
}

/// Reads the property that a box of the container holds. Memory can run out only for an
/// auxiliary type box that can be read.
fn read_property(b: &mut BMFFBox) -> (r: Result<ItemProperty, Error>)
    requires
        old(b).wf(),
    ensures
        final(b).wf(),
        match r {
            Ok(property) => spec_read_property(*old(b)) == Ok::<Property, Error>(property@),
            Err(e) => (e == Error::OutOfMemory && spec_read_property(*old(b)) is Ok)
                || spec_read_property(*old(b)) == Err::<Property, Error>(e),
        },
{
    Ok(
        match b.head.name {
            BoxType::PixelInformationBox => ItemProperty::Channels(read_pixi(b)?),
            BoxType::AuxiliaryTypeProperty => ItemProperty::AuxiliaryType(read_auxc(b)?),
            BoxType::ContentLightLevelBox => ItemProperty::ContentLightLevel(read_clli(b)?),
            BoxType::MasteringDisplayColourVolumeBox => ItemProperty::MasteringDisplay(
                read_mdcv(b)?,
            ),
            _ => {
                skip_box_remain(b)?;
                ItemProperty::Unsupported
            },
        },
    )
}

/// The properties of the boxes from `r` on, after `found`. Every box gives one property,
/// so that a property's place in the list is its box's place in the container.
pub open spec fn spec_ipco_boxes<'a>(r: OffsetReader<'a>, found: Seq<Property>) -> Result<
    (Seq<Property>, OffsetReader<'a>),
    Error,
>
    decreases r.avail(),
    when r.wf()
{
    match spec_next_box(r) {
        Err(e) => Err(e),
        Ok((None, next)) => Ok((found, next)),
        Ok((Some(b), next)) => match spec_read_property(b) {
            Err(e) => Err(e),
            Ok(property) => spec_ipco_boxes(next, found.push(property)),
        },
    }
}

/// Whether reading a property container asks for memory: it holds a first box whose
/// property can be read. Room is asked for each property once it is read.
pub open spec fn ipco_reserves(r: OffsetReader) -> bool {
    match spec_next_box(r) {
        Ok((Some(b), _)) => spec_read_property(b) is Ok,
        _ => false,
    }
}

/// Parse an Item Property Container Box. Memory can run out only where reading the box
/// asks for memory; everywhere else the result is what the box holds.
pub fn read_ipco(src: &mut BMFFBox) -> (r: Result<Vec<ItemProperty>, Error>)
    requires
        old(src).wf(),
    ensures
        final(src).wf(),
        final(src).head == old(src).head,
        match r {
            Ok(found) => spec_ipco_boxes(old(src).content, Seq::empty()) == Ok::<
                (Seq<Property>, OffsetReader),
                Error,
            >((properties(found@), final(src).content)),
            Err(e) => (e == Error::OutOfMemory && ipco_reserves(old(src).content))
                || spec_ipco_boxes(old(src).content, Seq::empty()) == Err::<
                (Seq<Property>, OffsetReader),
                Error,
            >(e),
        },
{
    let mut found: Vec<ItemProperty> = Vec::new();
    assert(properties(found@) =~= Seq::<Property>::empty());

    loop
        invariant
            src.wf(),
            src.head == old(src).head,
            spec_ipco_boxes(old(src).content, Seq::empty()) == spec_ipco_boxes(
                src.content,
                properties(found@),
            ),
            found@.len() == 0 ==> src.content == old(src).content,
            found@.len() >= 1 ==> ipco_reserves(old(src).content),
        decreases src.content.avail(),
    {
        proof {
            lemma_next_box_shrinks(src.content);
        }
        let mut b = match next_box(&mut src.content)? {
            Some(b) => b,
            None => {
                return Ok(found);
            },
        };
        // Must push for every property to have correct index for them
        let property = read_property(&mut b)?;
        let ghost before = found@;
        let ghost added = property@;
        match try_push(&mut found, property) {
            Ok(_) => {},
            Err(e) => {
                return Err(Error::from_try_reserve(e));
            },
        }
        assert(properties(found@) =~= properties(before).push(added));
    }
}

// ---------------------------------------------------------------------------------------
// Joining the two
// ---------------------------------------------------------------------------------------
/// The properties and associations of the boxes from `r` on, given those found so far. A
/// later container or table replaces an earlier one; no other kind of box may occur.
pub open spec fn spec_iprp_boxes<'a>(
    r: OffsetReader<'a>,
    found: Seq<Property>,
    table: Seq<Association>,
) -> Result<((Seq<Property>, Seq<Association>), OffsetReader<'a>), Error>
    decreases r.avail(),
    when r.wf()
{
    match spec_next_box(r) {
        Err(e) => Err(e),
        Ok((None, next)) => Ok(((found, table), next)),
        Ok((Some(b), next)) => match b.head.name {
            BoxType::ItemPropertyContainerBox => match spec_ipco_boxes(b.content, Seq::empty()) {
                Err(e) => Err(e),
                Ok((container, _)) => spec_iprp_boxes(next, container, table),
            },
            BoxType::ItemPropertyAssociationBox => match spec_read_ipma(b.content) {
                Err(e) => Err(e),
                Ok((associations, _)) => spec_iprp_boxes(next, found, associations),
            },
            _ => Err(Error::InvalidData("unexpected ipco child")),
        },
    }
}

/// Whether an association names a property of the container that the parser has read:
/// index 0 names none, an index beyond the container names none, and unsupported
/// properties are left out.
pub open spec fn resolves(found: Seq<Property>, a: Association) -> bool {
    1 <= a.property_index <= found.len() && found[a.property_index - 1] != Property::Unsupported
}

/// The properties that the first `count` associations give to their items, in the order of
/// the associations.
pub open spec fn spec_associate(found: Seq<Property>, table: Seq<Association>, count: int) -> Seq<
    Associated,
>
    decreases count,
{
    if count <= 0 {
        Seq::empty()
    } else {
        let rest = spec_associate(found, table, count - 1);
        let a = table[count - 1];
        if resolves(found, a) {
            rest.push(Associated { item_id: a.item_id, property: found[a.property_index - 1] })
        } else {
            rest
        }
    }
}

/// What reading an item properties box gives: the properties of its associations, and the
/// reader after its boxes.
pub open spec fn spec_read_iprp<'a>(r: OffsetReader<'a>) -> Result<
    (Seq<Associated>, OffsetReader<'a>),
    Error,
> {
    match spec_iprp_boxes(r, Seq::empty(), Seq::empty()) {
        Err(e) => Err(e),
        Ok(((found, table), next)) => Ok((spec_associate(found, table, table.len() as int), next)),
    }
}

/// Whether giving each association its property asks for memory: one of the associations
/// names a property that the parser has read.
pub open spec fn associate_reserves(found: Seq<Property>, table: Seq<Association>) -> bool {
    exists|i: int| 0 <= i < table.len() && resolves(found, #[trigger] table[i])
}

/// Gives each association its property. Memory can run out only where an association
/// names a property.
fn associate(found: &Vec<ItemProperty>, table: &Vec<Association>) -> (r: Result<
    Vec<AssociatedProperty>,
    Error,
>)
    ensures
        match r {
            Ok(joined) => associated(joined@) == spec_associate(
                properties(found@),
                table@,
                table@.len() as int,
            ),
            Err(e) => e == Error::OutOfMemory && associate_reserves(properties(found@), table@),
        },
{
    let mut joined: Vec<AssociatedProperty> = Vec::new();
    assert(associated(joined@) =~= Seq::<Associated>::empty());
    let mut i: usize = 0;
    while i < table.len()
        invariant
            i <= table@.len(),
            associated(joined@) == spec_associate(properties(found@), table@, i as int),
        decreases table@.len() - i,
    {
        let a = table[i];
        i = i + 1;
        if a.property_index == 0 {
            continue ;
        }
        let index = a.property_index as usize - 1;
        if index < found.len() {
            let prop = &found[index];
            if !prop.is_unsupported() {
                assert(resolves(properties(found@), table@[i - 1]));
                let property = prop.try_clone()?;
                let ghost before = joined@;
                let entry = AssociatedProperty { item_id: a.item_id, property };
                let ghost added = entry@;
                match try_push(&mut joined, entry) {
                    Ok(_) => {},
                    Err(e) => {
                        return Err(Error::from_try_reserve(e));
                    },
                }
                assert(associated(joined@) =~= associated(before).push(added));
            }
        }
    }
    Ok(joined)
}

/// Whether reading one box of an item properties box asks for memory.
pub open spec fn iprp_child_reserves(b: BMFFBox) -> bool {
    match b.head.name {
        BoxType::ItemPropertyContainerBox => ipco_reserves(b.content),
        BoxType::ItemPropertyAssociationBox => ipma_reserves(b.content),
        _ => false,
    }
}

/// Whether one box of an item properties box can be read.
pub open spec fn iprp_child_reads(b: BMFFBox) -> bool {
    match b.head.name {
        BoxType::ItemPropertyContainerBox => spec_ipco_boxes(b.content, Seq::empty()) is Ok,
        BoxType::ItemPropertyAssociationBox => spec_read_ipma(b.content) is Ok,
        _ => false,
    }
}

/// Whether reading the boxes of an item properties box from `r` on asks for memory: one
/// of them does, and those before it can be read.
pub open spec fn iprp_boxes_reserve(r: OffsetReader) -> bool
    decreases r.avail(),
    when r.wf()
{
    match spec_next_box(r) {
        Ok((Some(b), next)) => iprp_child_reserves(b) || (iprp_child_reads(b)
            && iprp_boxes_reserve(next)),
        _ => false,
    }
}

/// Whether reading an item properties box asks for memory: reading its boxes does, or
/// one of its associations names a property that the parser has read.
pub open spec fn iprp_reserves(r: OffsetReader) -> bool {
    iprp_boxes_reserve(r) || match spec_iprp_boxes(r, Seq::empty(), Seq::empty()) {
        Ok(((found, table), _)) => associate_reserves(found, table),
        Err(_) => false,
    }
}

/// Reads the container and the association table of an item properties box.
fn read_iprp_boxes(src: &mut BMFFBox) -> (r: Result<(Vec<ItemProperty>, Vec<Association>), Error>)
    requires
        old(src).wf(),
    ensures
        final(src).wf(),
        final(src).head == old(src).head,
        match r {
            Ok((found, table)) => spec_iprp_boxes(old(src).content, Seq::empty(), Seq::empty())
                == Ok::<((Seq<Property>, Seq<Association>), OffsetReader), Error>(
                ((properties(found@), table@), final(src).content),
            ),
            Err(e) => (e == Error::OutOfMemory && iprp_boxes_reserve(old(src).content))
                || spec_iprp_boxes(old(src).content, Seq::empty(), Seq::empty()) == Err::<
                ((Seq<Property>, Seq<Association>), OffsetReader),
                Error,
            >(e),
        },
{
    let mut found: Vec<ItemProperty> = Vec::new();
    let mut table: Vec<Association> = Vec::new();
    assert(properties(found@) =~= Seq::<Property>::empty());
    let ghost mut reserved = false;

    loop
        invariant
            src.wf(),
            src.head == old(src).head,
            old(src).content.wf(),
            spec_iprp_boxes(old(src).content, Seq::empty(), Seq::empty()) == spec_iprp_boxes(
                src.content,
                properties(found@),
                table@,
            ),
            reserved ==> iprp_boxes_reserve(old(src).content),
            !reserved ==> iprp_boxes_reserve(old(src).content) == iprp_boxes_reserve(
                src.content,
            ),
        decreases src.content.avail(),
    {
        proof {
            lemma_next_box_shrinks(src.content);
        }
        let mut b = match next_box(&mut src.content)? {
            Some(b) => b,
            None => {
                return Ok((found, table));
            },
        };
        let ghost child = b;
        match b.head.name {
            BoxType::ItemPropertyContainerBox => {
                found = read_ipco(&mut b)?;
            },
            BoxType::ItemPropertyAssociationBox => {
                table = read_ipma(&mut b)?;
            },
            _ => {
                return Err(Error::InvalidData("unexpected ipco child"));
            },
        }
        proof {
            if !reserved && iprp_child_reserves(child) {
                reserved = true;
            }
        }
    }
}

/// Parse an Item Properties Box. Memory can run out only where reading the box asks for
/// memory; everywhere else the result is what the box holds.
pub fn read_iprp(src: &mut BMFFBox) -> (r: Result<Vec<AssociatedProperty>, Error>)
    requires
        old(src).wf(),
    ensures
        final(src).wf(),
        final(src).head == old(src).head,
        match r {
            Ok(joined) => spec_read_iprp(old(src).content) == Ok::<
                (Seq<Associated>, OffsetReader),
                Error,
            >((associated(joined@), final(src).content)),
            Err(e) => (e == Error::OutOfMemory && iprp_reserves(old(src).content))
                || spec_read_iprp(old(src).content) == Err::<
                (Seq<Associated>, OffsetReader),
                Error,
            >(e),
        },
{
    let (found, table) = read_iprp_boxes(src)?;
    associate(&found, &table)
}

} // verus!
