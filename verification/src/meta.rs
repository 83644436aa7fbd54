//! The file type box and the metadata box.
//!
//! The metadata box is read box by box into a [`MetaState`]; [`spec_meta_child`] says what
//! each box adds to it and [`spec_meta_result`] what must hold of it at the end.

use vstd::prelude::*;
use crate::boxes::BoxType;
use crate::boxes::FourCC;
use crate::boxes::AV01;
use crate::boxes::GRID;
use crate::error::Error;
use crate::fallible::try_append;
use crate::fallible::try_push;
use crate::fallible::try_with_capacity;
use crate::iloc::locations;
use crate::iloc::iloc_reserves;
use crate::iloc::read_iloc;
use crate::iloc::spec_read_iloc;
use crate::iloc::ItemLocation;
use crate::iloc::ItemLocationBoxItem;
use crate::items::iinf_reserves;
use crate::items::iref_reserves;
use crate::items::read_iinf;
use crate::items::read_iref;
use crate::items::read_pitm;
use crate::items::spec_read_iinf;
use crate::items::spec_read_iref;
use crate::items::spec_read_pitm;
use crate::items::ItemInfoEntry;
use crate::items::SingleItemTypeReferenceBox;
use crate::props::associated;
use crate::props::iprp_reserves;
use crate::props::read_iprp;
use crate::props::spec_read_iprp;
use crate::props::Associated;
use crate::props::AssociatedProperty;
use crate::reader::be_u32;
use crate::reader::check_parser_state;
use crate::reader::lemma_next_box_shrinks;
use crate::reader::next_box;
use crate::reader::read_fullbox_version_no_flags;
use crate::reader::skip_box_content;
use crate::reader::spec_check_parser_state;
use crate::reader::spec_next_box;
use crate::reader::spec_read_fullbox_version_no_flags;
use crate::reader::BMFFBox;
use crate::reader::OffsetReader;

verus! {

/// File type box 'ftyp'.
#[derive(Debug)]
pub struct FileTypeBox {
    pub major_brand: FourCC,
    pub minor_version: u32,
    pub compatible_brands: Vec<FourCC>,
}

/// A file type box, as a mathematical value.
pub struct FileType {
    pub major_brand: FourCC,
    pub minor_version: u32,
    pub compatible_brands: Seq<FourCC>,
}

impl View for FileTypeBox {
    type V = FileType;

    open spec fn view(&self) -> FileType {
        FileType {
            major_brand: self.major_brand,
            minor_version: self.minor_version,
            compatible_brands: self.compatible_brands@,
        }
    }
}

/// The first `count` compatible brands of a file type box with payload `r`: 32-bit codes
/// from the ninth byte on.
pub open spec fn spec_brands(r: OffsetReader, count: int) -> Seq<FourCC> {
    Seq::new(count as nat, |i: int| FourCC { value: r.u32_at(8 + 4 * i) })
}

/// What reading a file type box gives: the major brand, the minor version, and the
/// compatible brands, which must fill what the box declares beyond them in whole codes.
pub open spec fn spec_read_ftyp<'a>(r: OffsetReader<'a>) -> Result<(FileType, OffsetReader<'a>), Error> {
    let declared = r.limit - 8;
    let count = declared / 4;
    if r.avail() < 8 {
        Err(Error::UnexpectedEOF)
    } else if declared % 4 != 0 {
        Err(Error::InvalidData("invalid ftyp size"))
    } else if count > usize::MAX {
        Err(Error::Unsupported("integer conversion failed"))
    } else if r.avail() < 8 + 4 * count {
        Err(Error::UnexpectedEOF)
    } else {
        Ok(
            (
                FileType {
                    major_brand: FourCC { value: r.u32_at(0) },
                    minor_version: r.u32_at(4),
                    compatible_brands: spec_brands(r, count),
                },
                r.after(8 + 4 * count),
            ),
        )
    }
}

/// Whether reading a file type box asks for memory: its major brand and minor version
/// can be read and what it declares beyond them is a number of whole codes that fits the
/// machine. Room for the brands is reserved right after.
pub open spec fn ftyp_reserves(r: OffsetReader) -> bool {
    r.avail() >= 8 && (r.limit - 8) % 4 == 0 && (r.limit - 8) / 4 <= usize::MAX
}

/// Parse an ftyp box. Memory can run out only where reading the box asks for memory;
/// everywhere else the result is what the box holds.
pub fn read_ftyp(src: &mut BMFFBox) -> (r: Result<FileTypeBox, Error>)
    requires
        old(src).wf(),
    ensures
        final(src).wf(),
        final(src).head == old(src).head,
        match r {
            Ok(ftyp) => spec_read_ftyp(old(src).content) == Ok::<(FileType, OffsetReader), Error>(
                (ftyp@, final(src).content),
            ),
            Err(e) => (e == Error::OutOfMemory && ftyp_reserves(old(src).content))
                || spec_read_ftyp(old(src).content) == Err::<(FileType, OffsetReader), Error>(
                e,
            ),
        },
{
    let ghost start = src.content;
    let major = be_u32(&mut src.content)?;
    let minor = be_u32(&mut src.content)?;
    let bytes_left = src.bytes_left();
    if bytes_left % 4 != 0 {
        return Err(Error::InvalidData("invalid ftyp size"));
    }
    // Is a brand_count of zero valid?
    let brand_count = bytes_left / 4;
    if brand_count > usize::MAX as u64 {
        return Err(Error::Unsupported("integer conversion failed"));
    }
    let mut brands: Vec<FourCC> = match try_with_capacity(brand_count as usize) {
        Ok(brands) => brands,
        Err(e) => {
            return Err(Error::from_try_reserve(e));
        },
    };
    let mut i: u64 = 0;
    while i < brand_count
        invariant
            i <= brand_count,
            brand_count <= usize::MAX,
            brand_count == (start.limit - 8) / 4,
            (start.limit - 8) % 4 == 0,
            start.wf(),
            start.avail() >= 8,
            start == old(src).content,
            src.wf(),
            src.head == old(src).head,
            start.avail() >= 8 + 4 * i,
            src.content == start.after(8 + 4 * i),
            brands@ =~= spec_brands(start, i as int),
        decreases brand_count - i,
    {
        let brand = FourCC { value: be_u32(&mut src.content)? };
        match try_push(&mut brands, brand) {
            Ok(_) => {},
            Err(e) => {
                return Err(Error::from_try_reserve(e));
            },
        }
        i = i + 1;
    }
    Ok(
        FileTypeBox {
            major_brand: FourCC { value: major },
            minor_version: minor,
            compatible_brands: brands,
        },
    )
}

/// What the metadata box has told so far.
pub struct MetaState {
    pub primary_item_id: Option<u32>,
    pub item_infos: Option<Seq<ItemInfoEntry>>,
    pub iloc_items: Option<Seq<ItemLocation>>,
    pub item_references: Seq<SingleItemTypeReferenceBox>,
    pub properties: Seq<Associated>,
}

/// What an AVIF file's metadata comes to.
pub struct Meta {
    pub item_references: Seq<SingleItemTypeReferenceBox>,
    pub properties: Seq<Associated>,
    pub primary_item_id: u32,
    pub iloc_items: Seq<ItemLocation>,
}

/// What an AVIF file's metadata comes to.
#[derive(Debug)]
pub struct AvifInternalMeta {
    pub item_references: Vec<SingleItemTypeReferenceBox>,
    pub properties: Vec<AssociatedProperty>,
    pub primary_item_id: u32,
    pub iloc_items: Vec<ItemLocationBoxItem>,
}

impl View for AvifInternalMeta {
    type V = Meta;

    open spec fn view(&self) -> Meta {
        Meta {
            item_references: self.item_references@,
            properties: associated(self.properties@),
            primary_item_id: self.primary_item_id,
            iloc_items: locations(self.iloc_items@),
        }
    }
}

/// The state before any box of the metadata box.
pub open spec fn meta_start() -> MetaState {
    MetaState {
        primary_item_id: None,
        item_infos: None,
        iloc_items: None,
        item_references: Seq::empty(),
        properties: Seq::empty(),
    }
}

/// The error for a second item info box.
pub open spec fn second_iinf() -> Error {
    Error::InvalidData(
        "There should be zero or one iinf boxes per ISO 14496-12:2015 § 8.11.6.1",
    )
}

/// The error for a second item location box.
pub open spec fn second_iloc() -> Error {
    Error::InvalidData(
        "There should be zero or one iloc boxes per ISO 14496-12:2015 § 8.11.3.1",
    )
}

/// The error for a second primary item box.
pub open spec fn second_pitm() -> Error {
    Error::InvalidData(
        "There should be zero or one pitm boxes per ISO 14496-12:2015 § 8.11.4.1",
    )
}

/// What the payload of a child box leaves behind and what it adds to the state, before
/// the check that it was read to its end. At most one item info box, one item location box
/// and one primary item box may occur. Item references add up; a later item properties box
/// replaces an earlier one; any other box is passed over.
pub open spec fn spec_meta_payload<'a>(state: MetaState, b: BMFFBox<'a>) -> Result<
    (MetaState, OffsetReader<'a>),
    Error,
> {
    match b.head.name {
        BoxType::ItemInfoBox => if state.item_infos is Some {
            Err(second_iinf())
        } else {
            match spec_read_iinf(b.content) {
                Err(e) => Err(e),
                Ok((infos, left)) => Ok((MetaState { item_infos: Some(infos), ..state }, left)),
            }
        },
        BoxType::ItemLocationBox => if state.iloc_items is Some {
            Err(second_iloc())
        } else {
            match spec_read_iloc(b.content) {
                Err(e) => Err(e),
                Ok((items, left)) => Ok((MetaState { iloc_items: Some(items), ..state }, left)),
            }
        },
        BoxType::PrimaryItemBox => if state.primary_item_id is Some {
            Err(second_pitm())
        } else {
            match spec_read_pitm(b.content) {
                Err(e) => Err(e),
                Ok((id, left)) => Ok((MetaState { primary_item_id: Some(id), ..state }, left)),
            }
        },
        BoxType::ImageReferenceBox => match spec_read_iref(b.content) {
            Err(e) => Err(e),
            Ok((references, left)) => Ok(
                (
                    MetaState { item_references: state.item_references + references, ..state },
                    left,
                ),
            ),
        },
        BoxType::ImagePropertiesBox => match spec_read_iprp(b.content) {
            Err(e) => Err(e),
            Ok((joined, left)) => Ok((MetaState { properties: joined, ..state }, left)),
        },
        _ => Ok((state, b.content.after(b.content.avail()))),
    }
}

/// Whether reading the payload of a child box asks for memory: the box is a first item
/// info box or a first item location box whose reading does; an item properties box whose
/// reading does; or an item reference box whose reading does or which can be read, since
/// its references are then moved to those found before.
pub open spec fn meta_child_reserves(state: MetaState, b: BMFFBox) -> bool {
    match b.head.name {
        BoxType::ItemInfoBox => state.item_infos is None && iinf_reserves(b.content),
        BoxType::ItemLocationBox => state.iloc_items is None && iloc_reserves(b.content),
        BoxType::ImageReferenceBox => iref_reserves(b.content) || spec_read_iref(b.content) is Ok,
        BoxType::ImagePropertiesBox => iprp_reserves(b.content),
        _ => false,
    }
}

/// Whether reading the boxes of a metadata box from `r` on asks for memory: one of them
/// does, and those before it can be read.
pub open spec fn meta_boxes_reserve(r: OffsetReader, state: MetaState) -> bool
    decreases r.avail(),
    when r.wf()
{
    match spec_next_box(r) {
        Ok((Some(b), next)) => meta_child_reserves(state, b) || match spec_meta_child(state, b) {
            Ok(after) => meta_boxes_reserve(next, after),
            Err(_) => false,
        },
        _ => false,
    }
}

/// Whether reading a metadata box asks for memory: its version and flags are accepted and
/// reading its boxes does.
pub open spec fn avif_meta_reserves(r: OffsetReader) -> bool {
    match spec_read_fullbox_version_no_flags(r) {
        Ok((version, body)) => version == 0 && meta_boxes_reserve(body, meta_start()),
        Err(_) => false,
    }
}

/// What a child box adds to the state: what its payload adds, provided that the payload
/// was read to its declared end.
pub open spec fn spec_meta_child(state: MetaState, b: BMFFBox) -> Result<MetaState, Error> {
    match spec_meta_payload(state, b) {
        Err(e) => Err(e),
        Ok((next, left)) => match spec_check_parser_state(left) {
            Err(e) => Err(e),
            Ok(_) => Ok(next),
        },
    }
}

/// The state after the boxes from `r` on, and the reader after them.
pub open spec fn spec_meta_boxes<'a>(r: OffsetReader<'a>, state: MetaState) -> Result<
    (MetaState, OffsetReader<'a>),
    Error,
>
    decreases r.avail(),
    when r.wf()
{
    match spec_next_box(r) {
        Err(e) => Err(e),
        Ok((None, next)) => Ok((state, next)),
        Ok((Some(b), next)) => match spec_meta_child(state, b) {
            Err(e) => Err(e),
            Ok(after) => spec_meta_boxes(next, after),
        },
    }
}

/// The first entry for item `id` among `infos` from index `from` on.
pub open spec fn find_info(infos: Seq<ItemInfoEntry>, id: u32, from: int) -> Option<ItemInfoEntry>
    decreases infos.len() - from,
{
    if from < 0 || from >= infos.len() {
        None
    } else if infos[from].item_id == id {
        Some(infos[from])
    } else {
        find_info(infos, id, from + 1)
    }
}

/// What the state comes to once the metadata box has been read: there must be a primary
/// item and item infos; the first info of the primary item must exist and give it the type
/// `av01` (a `grid` is a tiled image, which is not supported); and there must be item
/// locations.
pub open spec fn spec_meta_result(state: MetaState) -> Result<Meta, Error> {
    if state.primary_item_id is None {
        Err(Error::InvalidData("Required pitm box not present in meta box"))
    } else if state.item_infos is None {
        Err(Error::InvalidData("iinf missing"))
    } else {
        match find_info(state.item_infos->Some_0, state.primary_item_id->Some_0, 0) {
            None => Err(Error::InvalidData("primary_item_id not present in iinf box")),
            Some(info) => if info.item_type.value == GRID {
                Err(Error::Unsupported("Grid-based AVIF collage is not supported"))
            } else if info.item_type.value != AV01 {
                Err(Error::InvalidData("primary_item_id type is not av01"))
            } else if state.iloc_items is None {
                Err(Error::InvalidData("iloc missing"))
            } else {
                Ok(
                    Meta {
                        item_references: state.item_references,
                        properties: state.properties,
                        primary_item_id: state.primary_item_id->Some_0,
                        iloc_items: state.iloc_items->Some_0,
                    },
                )
            },
        }
    }
}

/// What reading a metadata box gives: the version, which must be 0 with flags of zero;
/// the state after all boxes that follow; and what that state comes to.
pub open spec fn spec_read_avif_meta<'a>(r: OffsetReader<'a>) -> Result<(Meta, OffsetReader<'a>), Error> {
    match spec_read_fullbox_version_no_flags(r) {
        Err(e) => Err(e),
        Ok((version, body)) => if version != 0 {
            Err(Error::Unsupported("unsupported meta version"))
        } else {
            match spec_meta_boxes(body, meta_start()) {
                Err(e) => Err(e),
                Ok((state, left)) => match spec_meta_result(state) {
                    Err(e) => Err(e),
                    Ok(meta) => Ok((meta, left)),
                },
            }
        },
    }
}

/// What the metadata box has told so far.
#[derive(Debug)]
pub struct MetaBuilder {
    pub primary_item_id: Option<u32>,
    pub item_infos: Option<Vec<ItemInfoEntry>>,
    pub iloc_items: Option<Vec<ItemLocationBoxItem>>,
    pub item_references: Vec<SingleItemTypeReferenceBox>,
    pub properties: Vec<AssociatedProperty>,
}

impl View for MetaBuilder {
    type V = MetaState;

    open spec fn view(&self) -> MetaState {
        MetaState {
            primary_item_id: self.primary_item_id,
            item_infos: match self.item_infos {
                Some(infos) => Some(infos@),
                None => None,
            },
            iloc_items: match self.iloc_items {
                Some(items) => Some(locations(items@)),
                None => None,
            },
            item_references: self.item_references@,
            properties: associated(self.properties@),
        }
    }
}

impl MetaBuilder {
    /// The state before any box of the metadata box.
    pub fn new() -> (state: MetaBuilder)
        ensures
            state@ == meta_start(),
    {
        let state = MetaBuilder {
            primary_item_id: None,
            item_infos: None,
            iloc_items: None,
            item_references: Vec::new(),
            properties: Vec::new(),
        };
        assert(associated(state.properties@) =~= Seq::<Associated>::empty());
        state
    }

    /// Reads the payload of one child box into the state.
    fn read_payload(&mut self, b: &mut BMFFBox) -> (r: Result<(), Error>)
        requires
            old(b).wf(),
            old(b).untouched(),
        ensures
            final(b).wf(),
            match r {
                Ok(_) => spec_meta_payload(old(self)@, *old(b)) == Ok::<
                    (MetaState, OffsetReader),
                    Error,
                >((final(self)@, final(b).content)),
                Err(e) => (e == Error::OutOfMemory && meta_child_reserves(old(self)@, *old(b)))
                    || spec_meta_payload(old(self)@, *old(b)) == Err::<
                    (MetaState, OffsetReader),
                    Error,
                >(e),
            },
    {
        match b.head.name {
            BoxType::ItemInfoBox => {
                if self.item_infos.is_some() {
                    return Err(
                        Error::InvalidData(
                            "There should be zero or one iinf boxes per ISO 14496-12:2015 § 8.11.6.1",
                        ),
                    );
                }
                self.item_infos = Some(read_iinf(b)?);
            },
            BoxType::ItemLocationBox => {
                if self.iloc_items.is_some() {
                    return Err(
                        Error::InvalidData(
                            "There should be zero or one iloc boxes per ISO 14496-12:2015 § 8.11.3.1",
                        ),
                    );
                }
                self.iloc_items = Some(read_iloc(b)?);
            },
            BoxType::PrimaryItemBox => {
                if self.primary_item_id.is_some() {
                    return Err(
                        Error::InvalidData(
                            "There should be zero or one pitm boxes per ISO 14496-12:2015 § 8.11.4.1",
                        ),
                    );
                }
                self.primary_item_id = Some(read_pitm(b)?);
            },
            BoxType::ImageReferenceBox => {
                let mut references = read_iref(b)?;
                match try_append(&mut self.item_references, &mut references) {
                    Ok(_) => {},
                    Err(e) => {
                        return Err(Error::from_try_reserve(e));
                    },
                }
            },
            BoxType::ImagePropertiesBox => {
                self.properties = read_iprp(b)?;
            },
            _ => {
                skip_box_content(b)?;
            },
        }
        Ok(())
    }

    /// Reads one child box into the state and checks that it was read to its end.
    fn read_child(&mut self, b: &mut BMFFBox) -> (r: Result<(), Error>)
        requires
            old(b).wf(),
            old(b).untouched(),
        ensures
            match r {
                Ok(_) => spec_meta_child(old(self)@, *old(b)) == Ok::<MetaState, Error>(
                    final(self)@,
                ),
                Err(e) => (e == Error::OutOfMemory && meta_child_reserves(old(self)@, *old(b)))
                    || spec_meta_child(old(self)@, *old(b)) == Err::<MetaState, Error>(e),
            },
    {
        self.read_payload(b)?;
        check_parser_state(&b.content)
    }

    /// Checks the state at the end of the metadata box and gives what it comes to.
    fn finish(self) -> (r: Result<AvifInternalMeta, Error>)
        ensures
            match r {
                Ok(meta) => spec_meta_result(self@) == Ok::<Meta, Error>(meta@),
                Err(e) => spec_meta_result(self@) == Err::<Meta, Error>(e),
            },
    {
        let primary_item_id = match self.primary_item_id {
            Some(id) => id,
            None => {
                return Err(Error::InvalidData("Required pitm box not present in meta box"));
            },
        };
        let item_infos = match self.item_infos {
            Some(infos) => infos,
            None => {
                return Err(Error::InvalidData("iinf missing"));
            },
        };
        let mut i: usize = 0;
        while i < item_infos.len() && item_infos[i].item_id != primary_item_id
            invariant
                i <= item_infos@.len(),
                find_info(item_infos@, primary_item_id, 0) == find_info(
                    item_infos@,
                    primary_item_id,
                    i as int,
                ),
            decreases item_infos@.len() - i,
        {
            i = i + 1;
        }
        if i < item_infos.len() {
            let item_info = item_infos[i];
            if item_info.item_type.value != AV01 {
                if item_info.item_type.value == GRID {
                    return Err(Error::Unsupported("Grid-based AVIF collage is not supported"));
                }
                return Err(Error::InvalidData("primary_item_id type is not av01"));
            }
        } else {
            return Err(Error::InvalidData("primary_item_id not present in iinf box"));
        }
        let iloc_items = match self.iloc_items {
            Some(items) => items,
            None => {
                return Err(Error::InvalidData("iloc missing"));
            },
        };
        Ok(
            AvifInternalMeta {
                properties: self.properties,
                item_references: self.item_references,
                primary_item_id,
                iloc_items,
            },
        )
    }
}

/// Parse a metadata box in the context of an AVIF
/// Currently requires the primary item to be an av01 item type and generates
/// an error otherwise. Memory can run out only where reading the box asks for memory;
/// everywhere else the result is what the box holds.
pub fn read_avif_meta(src: &mut BMFFBox) -> (r: Result<AvifInternalMeta, Error>)
    requires
        old(src).wf(),
    ensures
        final(src).wf(),
        final(src).head == old(src).head,
        match r {
            Ok(meta) => spec_read_avif_meta(old(src).content) == Ok::<(Meta, OffsetReader), Error>(
                (meta@, final(src).content),
            ),
            Err(e) => (e == Error::OutOfMemory && avif_meta_reserves(old(src).content))
                || spec_read_avif_meta(old(src).content) == Err::<(Meta, OffsetReader), Error>(
                e,
            ),
        },
{
    let version = read_fullbox_version_no_flags(&mut src.content)?;

    if version != 0 {
        return Err(Error::Unsupported("unsupported meta version"));
    }
    let mut state = MetaBuilder::new();
    let ghost body = src.content;
    let ghost mut reserved = false;

    loop
        invariant
            src.wf(),
            src.head == old(src).head,
            body.wf(),
            spec_read_fullbox_version_no_flags(old(src).content) == Ok::<
                (u8, OffsetReader),
                Error,
            >((0u8, body)),
            spec_meta_boxes(body, meta_start()) == spec_meta_boxes(src.content, state@),
            reserved ==> meta_boxes_reserve(body, meta_start()),
            !reserved ==> meta_boxes_reserve(body, meta_start()) == meta_boxes_reserve(
                src.content,
                state@,
            ),
        decreases src.content.avail(),
    {
        proof {
            lemma_next_box_shrinks(src.content);
        }
        let mut b = match next_box(&mut src.content)? {
            Some(b) => b,
            None => {
                return state.finish();
            },
        };
        let ghost child = b;
        let ghost before = state@;
        state.read_child(&mut b)?;
        proof {
            if !reserved && meta_child_reserves(before, child) {
                reserved = true;
            }
        }
    }
}

} // verus!
