//! What holds of every parse.
//!
//! The parsers are stated as functions of the input; the proof functions of this module
//! state what follows from those statements for all inputs.

use vstd::prelude::*;
use crate::avif::file_start;
use crate::avif::reads_as;
use crate::avif::spec_first_box;
use crate::avif::spec_load_locations;
use crate::avif::spec_read_avif;
use crate::avif::spec_read_boxes;
use crate::avif::spec_top_boxes;
use crate::avif::spec_top_child;
use crate::avif::top_start;
use crate::avif::Avif;
use crate::avif::AvifData;
use crate::avif::LoadState;
use crate::avif::TopState;
use crate::bits::bits_value;
use crate::bits::lemma_bits_value_bound;
use crate::boxes::BoxType;
use crate::boxes::AVIF;
use crate::boxes::AVIS;
use crate::error::Error;
use crate::extents::find_source;
use crate::extents::spec_load_extent;
use crate::extents::spec_load_extents;
use crate::extents::MediaData;
use crate::iloc::spec_iloc_extent;
use crate::iloc::spec_iloc_extents;
use crate::iloc::spec_iloc_item;
use crate::iloc::spec_iloc_items;
use crate::iloc::spec_iloc_table;
use crate::iloc::spec_iloc_widths;
use crate::iloc::spec_read_iloc;
use crate::iloc::lemma_iloc_extents_error;
use crate::iloc::lemma_iloc_items_error;
use crate::iloc::spec_construction_method;
use crate::bits::bits_fit;
use crate::bits::MAX_BIT_BUFFER;
use crate::iloc::ExtentRange;
use crate::iloc::IlocVersion;
use crate::iloc::IlocWidths;
use crate::iloc::ItemLocation;
use crate::iloc::ItemLocationBoxExtent;
use crate::meta::spec_meta_boxes;
use crate::meta::spec_meta_child;
use crate::meta::spec_read_avif_meta;
use crate::meta::spec_read_ftyp;
use crate::meta::meta_start;
use crate::meta::second_iinf;
use crate::meta::second_iloc;
use crate::meta::second_pitm;
use crate::meta::Meta;
use crate::meta::MetaState;
use crate::reader::lemma_next_box_shrinks;
use crate::reader::spec_next_box;
use crate::reader::BMFFBox;
use crate::reader::OffsetReader;

verus! {

// ---------------------------------------------------------------------------------------
// What the parsers establish
// ---------------------------------------------------------------------------------------
/// A range with a length is not empty.
pub open spec fn range_wf(range: ExtentRange) -> bool {
    match range {
        ExtentRange::WithLength { start, end } => start < end,
        ExtentRange::ToEnd { .. } => true,
    }
}

/// Every range of the extents is well formed.
pub open spec fn extents_wf(extents: Seq<ItemLocationBoxExtent>) -> bool {
    forall|j: int| 0 <= j < extents.len() ==> range_wf(#[trigger] extents[j].extent_range)
}

/// Every item has an extent, and every range of every item is well formed.
pub open spec fn locations_wf(items: Seq<ItemLocation>) -> bool {
    forall|i: int|
        0 <= i < items.len() ==> (#[trigger] items[i]).extents.len() >= 1 && extents_wf(
            items[i].extents,
        )
}

/// The data of a box is the part of `file` that starts at the box's offset.
pub open spec fn backed_by(m: MediaData, file: Seq<u8>) -> bool {
    &&& m.offset + m.data.len() <= file.len()
    &&& m.data == file.subrange(m.offset as int, m.offset + m.data.len())
}

/// Every box holds the part of `file` that starts at its offset.
pub open spec fn all_backed_by(mdats: Seq<MediaData>, file: Seq<u8>) -> bool {
    forall|i: int| 0 <= i < mdats.len() ==> backed_by(#[trigger] mdats[i], file)
}

/// No box is empty.
pub open spec fn none_empty(mdats: Seq<MediaData>) -> bool {
    forall|i: int| 0 <= i < mdats.len() ==> (#[trigger] mdats[i]).data.len() > 0
}

/// An extent that was read has a well-formed range.
pub proof fn lemma_iloc_extent_wf(data: Seq<u8>, pos: int, widths: IlocWidths, base_offset: u64)
    ensures
        match spec_iloc_extent(data, pos, widths, base_offset) {
            Ok((extent, _)) => range_wf(extent.extent_range),
            Err(_) => true,
        },
{
    reveal(spec_iloc_extent);
    if widths.length >= 0 {
        lemma_bits_value_bound(data, pos + widths.index + widths.offset, widths.length);
    }
    if widths.offset >= 0 {
        lemma_bits_value_bound(data, pos + widths.index, widths.offset);
    }
}

/// Extents that were read are as many as were asked for and have well-formed ranges.
pub proof fn lemma_iloc_extents_wf(
    data: Seq<u8>,
    pos: int,
    count: int,
    widths: IlocWidths,
    base_offset: u64,
)
    ensures
        match spec_iloc_extents(data, pos, count, widths, base_offset) {
            Ok((extents, _)) => extents_wf(extents) && (count >= 0 ==> extents.len() == count),
            Err(_) => true,
        },
    decreases count,
{
    if count > 0 {
        lemma_iloc_extents_wf(data, pos, count - 1, widths, base_offset);
        match spec_iloc_extents(data, pos, count - 1, widths, base_offset) {
            Ok((_, p)) => {
                lemma_iloc_extent_wf(data, p, widths, base_offset);
            },
            Err(_) => {},
        }
    }
}

/// Items that were read have extents with well-formed ranges.
pub proof fn lemma_iloc_items_wf(
    data: Seq<u8>,
    pos: int,
    count: int,
    version: IlocVersion,
    widths: IlocWidths,
)
    ensures
        match spec_iloc_items(data, pos, count, version, widths) {
            Ok((items, _)) => locations_wf(items),
            Err(_) => true,
        },
    decreases count,
{
    if count > 0 {
        lemma_iloc_items_wf(data, pos, count - 1, version, widths);
        match spec_iloc_items(data, pos, count - 1, version, widths) {
            Ok((_, p)) => {
                reveal(spec_iloc_item);
                let p_method = p + version.id_bits();
                let p_reference = if version == IlocVersion::Zero {
                    p_method
                } else {
                    p_method + 16
                };
                let p_base = p_reference + 16;
                let p_count = p_base + widths.base_offset;
                lemma_iloc_extents_wf(
                    data,
                    p_count + 16,
                    bits_value(data, p_count, 16),
                    widths,
                    bits_value(data, p_base, widths.base_offset) as u64,
                );
            },
            Err(_) => {},
        }
    }
}

/// An item location box that was read has well-formed ranges.
pub proof fn lemma_read_iloc_wf(r: OffsetReader)
    ensures
        match spec_read_iloc(r) {
            Ok((items, _)) => locations_wf(items),
            Err(_) => true,
        },
{
    match spec_read_iloc(r) {
        Ok(_) => {
            let body = crate::reader::spec_read_fullbox_version_no_flags(r)->Ok_0.1;
            let version = IlocVersion::of(
                crate::reader::spec_read_fullbox_version_no_flags(r)->Ok_0.0,
            )->Ok_0;
            let table = body.bytes(body.avail());
            let widths = crate::iloc::spec_iloc_widths(table, version)->Ok_0;
            lemma_iloc_items_wf(
                table,
                16 + version.id_bits(),
                bits_value(table, 16, version.id_bits()),
                version,
                widths,
            );
        },
        Err(_) => {},
    }
}

/// What holds of the state of a metadata box: the item locations, once read, have
/// well-formed ranges.
pub open spec fn meta_state_wf(state: MetaState) -> bool {
    state.iloc_items is Some ==> locations_wf(state.iloc_items->Some_0)
}

/// Every child box keeps the state of a metadata box well formed.
pub proof fn lemma_meta_child_wf(state: MetaState, b: BMFFBox)
    requires
        meta_state_wf(state),
    ensures
        match spec_meta_child(state, b) {
            Ok(next) => meta_state_wf(next),
            Err(_) => true,
        },
{
    lemma_read_iloc_wf(b.content);
}

/// The boxes of a metadata box keep its state well formed.
pub proof fn lemma_meta_boxes_wf(r: OffsetReader, state: MetaState)
    requires
        r.wf(),
        meta_state_wf(state),
    ensures
        match spec_meta_boxes(r, state) {
            Ok((last, _)) => meta_state_wf(last),
            Err(_) => true,
        },
    decreases r.avail(),
{
    lemma_next_box_shrinks(r);
    match spec_next_box(r) {
        Ok((Some(b), next)) => {
            lemma_meta_child_wf(state, b);
            match spec_meta_child(state, b) {
                Ok(after) => {
                    lemma_meta_boxes_wf(next, after);
                },
                Err(_) => {},
            }
        },
        _ => {},
    }
}

/// A metadata box that was read has item locations with well-formed ranges.
pub proof fn lemma_read_avif_meta_wf(r: OffsetReader)
    requires
        r.wf(),
    ensures
        match spec_read_avif_meta(r) {
            Ok((meta, _)) => locations_wf(meta.iloc_items),
            Err(_) => true,
        },
{
    match crate::reader::spec_read_fullbox_version_no_flags(r) {
        Ok((_, body)) => {
            lemma_meta_boxes_wf(body, meta_start());
        },
        Err(_) => {},
    }
}

/// What holds of the state of a file `file`: the metadata, once read, has item locations
/// with well-formed ranges; and every media data box is not empty and holds the part of the
/// file that starts at its offset.
pub open spec fn top_state_wf(state: TopState, file: Seq<u8>) -> bool {
    &&& state.meta is Some ==> locations_wf(state.meta->Some_0.iloc_items)
    &&& none_empty(state.mdats)
    &&& all_backed_by(state.mdats, file)
}

/// Every top-level box keeps the state of its file well formed.
pub proof fn lemma_top_child_wf(state: TopState, b: BMFFBox)
    requires
        b.wf(),
        top_state_wf(state, b.content.reader@),
    ensures
        match spec_top_child(state, b) {
            Ok(next) => top_state_wf(next, b.content.reader@),
            Err(_) => true,
        },
{
    lemma_read_avif_meta_wf(b.content);
}

/// The boxes of a file keep its state well formed.
pub proof fn lemma_top_boxes_wf(r: OffsetReader, state: TopState)
    requires
        r.wf(),
        top_state_wf(state, r.reader@),
    ensures
        match spec_top_boxes(r, state) {
            Ok(last) => top_state_wf(last, r.reader@),
            Err(_) => true,
        },
    decreases r.avail(),
{
    lemma_next_box_shrinks(r);
    match spec_next_box(r) {
        Ok((Some(b), next)) => {
            lemma_top_child_wf(state, b);
            match spec_top_child(state, b) {
                Ok(after) => {
                    lemma_top_boxes_wf(next, after);
                },
                Err(_) => {},
            }
        },
        _ => {},
    }
}

/// The first box of a file leaves a well-formed reader of the same file behind.
pub proof fn lemma_first_box_reader(r: OffsetReader)
    requires
        r.wf(),
    ensures
        match spec_first_box(r) {
            Ok(next) => next.wf() && next.reader == r.reader,
            Err(_) => true,
        },
{
    lemma_next_box_shrinks(r);
}

/// The metadata and media data that were read from a file are well formed: every range
/// with a length is not empty, and every media data box is not empty and holds the part of
/// the file that starts at its offset.
pub proof fn lemma_read_boxes_wf(data: &[u8])
    ensures
        match spec_read_boxes(data) {
            Ok((meta, mdats)) => {
                &&& locations_wf(meta.iloc_items)
                &&& none_empty(mdats)
                &&& all_backed_by(mdats, data@)
            },
            Err(_) => true,
        },
{
    let start = file_start(data);
    assert(data@.len() == data.len());
    lemma_first_box_reader(start);
    match spec_first_box(start) {
        Ok(r) => {
            assert(top_state_wf(top_start(), data@));
            lemma_top_boxes_wf(r, top_start());
        },
        Err(_) => {},
    }
}

// ---------------------------------------------------------------------------------------
// Extents and the bytes they name
// ---------------------------------------------------------------------------------------
/// Whether the box holds all bytes of the extent: the extent starts at or after the box's
/// offset, and ends (or, where it runs to the end, starts) no later than the box's data.
pub open spec fn covers(m: MediaData, extent: ExtentRange) -> bool {
    m.offset <= extent.first() && match extent {
        ExtentRange::WithLength { end, .. } => end <= m.offset + m.data.len(),
        ExtentRange::ToEnd { start } => start <= m.offset + m.data.len(),
    }
}

/// The bytes of `file` that a range with a length names.
pub open spec fn range_bytes(file: Seq<u8>, range: ExtentRange) -> Seq<u8> {
    match range {
        ExtentRange::WithLength { start, end } => file.subrange(start as int, end as int),
        ExtentRange::ToEnd { .. } => Seq::empty(),
    }
}

/// The bytes of `file` that the first `count` extents name, in the order of the extents.
pub open spec fn named_bytes(file: Seq<u8>, extents: Seq<ItemLocationBoxExtent>, count: int) -> Seq<
    u8,
>
    decreases count,
{
    if count <= 0 {
        Seq::empty()
    } else {
        named_bytes(file, extents, count - 1) + range_bytes(file, extents[count - 1].extent_range)
    }
}

/// Every extent has a range with a length.
pub open spec fn all_with_length(extents: Seq<ItemLocationBoxExtent>) -> bool {
    forall|j: int| 0 <= j < extents.len() ==> (#[trigger] extents[j]).extent_range is WithLength
}

/// One of the first `count` extents has a range with a length.
pub open spec fn some_with_length(extents: Seq<ItemLocationBoxExtent>, count: int) -> bool {
    exists|j: int|
        0 <= j < count && j < extents.len() && (#[trigger] extents[j]).extent_range is WithLength
}

/// The box that an extent is read from is one that the extent covers exactly or starts in;
/// where there is none, no box is.
pub proof fn lemma_find_source(mdats: Seq<MediaData>, extent: ExtentRange, from: int)
    requires
        0 <= from,
    ensures
        match find_source(mdats, extent, from) {
            Some(i) => from <= i < mdats.len() && (mdats[i].matches_extent(extent)
                || mdats[i].contains_extent(extent)),
            None => forall|j: int|
                from <= j < mdats.len() ==> !(#[trigger] mdats[j]).matches_extent(extent)
                    && !mdats[j].contains_extent(extent),
        },
    decreases mdats.len() - from,
{
    if from < mdats.len() && !(mdats[from].matches_extent(extent) || mdats[from].contains_extent(
        extent,
    )) {
        lemma_find_source(mdats, extent, from + 1);
    }
}

/// An extent that no media data box covers is a data error.
pub proof fn lemma_uncovered_extent_is_data_error(
    mdats: Seq<MediaData>,
    extent: ExtentRange,
    buf: Seq<u8>,
)
    requires
        forall|i: int| 0 <= i < mdats.len() ==> !covers(#[trigger] mdats[i], extent),
    ensures
        spec_load_extent(mdats, extent, buf) matches Err(Error::InvalidData(_)),
{
    lemma_find_source(mdats, extent, 0);
}

/// Loading an extent fails only with a data error. Where it succeeds, some box covered the
/// extent, the buffer has only grown, and the boxes still hold parts of the file. A range
/// with a length adds exactly the bytes of the file that it names, which are at least one;
/// and where no box was empty, any range adds at least one byte.
pub proof fn lemma_load_extent(
    mdats: Seq<MediaData>,
    extent: ExtentRange,
    buf: Seq<u8>,
    file: Seq<u8>,
)
    requires
        all_backed_by(mdats, file),
        range_wf(extent),
    ensures
        match spec_load_extent(mdats, extent, buf) {
            Ok((loaded, left)) => {
                &&& left.len() == mdats.len()
                &&& all_backed_by(left, file)
                &&& loaded.len() >= buf.len()
                &&& exists|i: int| 0 <= i < mdats.len() && covers(#[trigger] mdats[i], extent)
                &&& extent is WithLength ==> loaded == buf + range_bytes(file, extent)
                    && loaded.len() > buf.len()
                &&& none_empty(mdats) ==> loaded.len() > buf.len()
            },
            Err(e) => e is InvalidData,
        },
{
    lemma_find_source(mdats, extent, 0);
    match find_source(mdats, extent, 0) {
        Some(i) => {
            let m = mdats[i];
            assert(backed_by(m, file));
            if m.matches_extent(extent) {
                let left = mdats.update(i, MediaData { offset: m.offset, data: Seq::empty() });
                assert(covers(mdats[i], extent));
                assert forall|j: int| 0 <= j < left.len() implies backed_by(
                    #[trigger] left[j],
                    file,
                ) by {
                    if j == i {
                        assert(left[j].data =~= file.subrange(
                            left[j].offset as int,
                            left[j].offset + 0,
                        ));
                    } else {
                        assert(left[j] == mdats[j]);
                    }
                }
            } else {
                match m.read_extent(extent) {
                    Ok(bytes) => {
                        assert(covers(mdats[i], extent));
                        match extent {
                            ExtentRange::WithLength { start, end } => {
                                assert(bytes =~= file.subrange(start as int, end as int));
                            },
                            ExtentRange::ToEnd { .. } => {},
                        }
                    },
                    Err(_) => {},
                }
            }
        },
        None => {},
    }
}

/// Loading extents fails only with a data error. Where it succeeds, the buffer has only
/// grown and the boxes still hold parts of the file. Extents whose ranges all have a length
/// add exactly the bytes of the file that they name, in their order. At least one byte is
/// added where one of the ranges has a length, and where there is an extent and no box was
/// empty.
pub proof fn lemma_load_extents(
    mdats: Seq<MediaData>,
    extents: Seq<ItemLocationBoxExtent>,
    count: int,
    buf: Seq<u8>,
    file: Seq<u8>,
)
    requires
        all_backed_by(mdats, file),
        extents_wf(extents),
        0 <= count <= extents.len(),
    ensures
        match spec_load_extents(mdats, extents, count, buf) {
            Ok((loaded, left)) => {
                &&& left.len() == mdats.len()
                &&& all_backed_by(left, file)
                &&& loaded.len() >= buf.len()
                &&& all_with_length(extents) ==> loaded == buf + named_bytes(file, extents, count)
                &&& some_with_length(extents, count) ==> loaded.len() > buf.len()
                &&& none_empty(mdats) && count >= 1 ==> loaded.len() > buf.len()
            },
            Err(e) => e is InvalidData,
        },
    decreases count,
{
    if count > 0 {
        lemma_load_extents(mdats, extents, count - 1, buf, file);
        match spec_load_extents(mdats, extents, count - 1, buf) {
            Ok((loaded, left)) => {
                let extent = extents[count - 1].extent_range;
                lemma_load_extent(left, extent, loaded, file);
                match spec_load_extent(left, extent, loaded) {
                    Ok((more, _)) => {
                        if all_with_length(extents) {
                            assert(more =~= buf + named_bytes(file, extents, count));
                        }
                        if count == 1 {
                            assert(left == mdats);
                        }
                        if some_with_length(extents, count) && !(extent is WithLength) {
                            let j = choose|j: int|
                                0 <= j < count && j < extents.len() && (
                                #[trigger] extents[j]).extent_range is WithLength;
                            assert(some_with_length(extents, count - 1));
                        }
                    },
                    Err(_) => {},
                }
            },
            Err(_) => {},
        }
    } else {
        assert(buf =~= buf + named_bytes(file, extents, count));
    }
}

// ---------------------------------------------------------------------------------------
// Items and their payloads
// ---------------------------------------------------------------------------------------
/// The bytes of `file` that the extents of item `item_id` name, over its locations among
/// the first `count`, in the order of the locations.
pub open spec fn item_bytes(file: Seq<u8>, items: Seq<ItemLocation>, count: int, item_id: u32) -> Seq<
    u8,
>
    decreases count,
{
    if count <= 0 {
        Seq::empty()
    } else if items[count - 1].item_id == item_id {
        item_bytes(file, items, count - 1, item_id) + named_bytes(
            file,
            items[count - 1].extents,
            items[count - 1].extents.len() as int,
        )
    } else {
        item_bytes(file, items, count - 1, item_id)
    }
}

/// Whether one of the first `count` locations is a location of item `item_id`.
pub open spec fn located(items: Seq<ItemLocation>, count: int, item_id: u32) -> bool {
    exists|i: int| 0 <= i < count && i < items.len() && (#[trigger] items[i]).item_id == item_id
}

/// Whether every extent of item `item_id` has a range with a length.
pub open spec fn with_lengths(items: Seq<ItemLocation>, item_id: u32) -> bool {
    forall|i: int|
        0 <= i < items.len() && (#[trigger] items[i]).item_id == item_id ==> all_with_length(
            items[i].extents,
        )
}

/// Whether one of the first `count` locations is a location of item `item_id` with an
/// extent whose range has a length.
pub open spec fn located_with_length(items: Seq<ItemLocation>, count: int, item_id: u32) -> bool {
    exists|i: int|
        0 <= i < count && i < items.len() && (#[trigger] items[i]).item_id == item_id
            && some_with_length(items[i].extents, items[i].extents.len() as int)
}

/// Whether every location of the alpha item comes after a location of the primary item.
pub open spec fn primary_comes_first(
    items: Seq<ItemLocation>,
    primary_item_id: u32,
    alpha_item_id: Option<u32>,
) -> bool {
    forall|k: int|
        0 <= k < items.len() && alpha_item_id == Some((#[trigger] items[k]).item_id) ==> located(
            items,
            k,
            primary_item_id,
        )
}

/// An item without a location among the first `count` has no bytes there.
pub proof fn lemma_item_bytes_of_unlocated(
    file: Seq<u8>,
    items: Seq<ItemLocation>,
    count: int,
    item_id: u32,
)
    requires
        count <= items.len(),
        !located(items, count, item_id),
    ensures
        item_bytes(file, items, count, item_id) == Seq::<u8>::empty(),
    decreases count,
{
    if count > 0 {
        assert(items[count - 1].item_id != item_id);
        assert(!located(items, count - 1, item_id)) by {
            if located(items, count - 1, item_id) {
                let i = choose|i: int|
                    0 <= i < count - 1 && i < items.len() && (#[trigger] items[i]).item_id
                        == item_id;
                assert(located(items, count, item_id));
            }
        }
        lemma_item_bytes_of_unlocated(file, items, count - 1, item_id);
    }
}

/// What loading item locations comes to, from empty payloads and media data boxes that
/// are not empty and hold parts of `file`. The boxes still hold parts of the file. Where all
/// extents of an item have ranges with a length, its payload is made of exactly the bytes of
/// the file that they name. The payload of the primary item is not empty as soon as a
/// location of it with a range that has a length was loaded; and, where the primary item
/// comes first, as soon as any location of it was loaded.
pub proof fn lemma_load_locations(
    start: LoadState,
    items: Seq<ItemLocation>,
    count: int,
    primary_item_id: u32,
    alpha_item_id: Option<u32>,
    file: Seq<u8>,
)
    requires
        start.primary.len() == 0,
        start.alpha is None,
        all_backed_by(start.mdats, file),
        none_empty(start.mdats),
        locations_wf(items),
        0 <= count <= items.len(),
    ensures
        match spec_load_locations(start, items, count, primary_item_id, alpha_item_id) {
            Ok(state) => {
                &&& all_backed_by(state.mdats, file)
                &&& with_lengths(items, primary_item_id) ==> state.primary == item_bytes(
                    file,
                    items,
                    count,
                    primary_item_id,
                )
                &&& alpha_item_id is Some && alpha_item_id != Some(primary_item_id)
                    && with_lengths(items, alpha_item_id->Some_0) ==> state.alpha == if located(
                    items,
                    count,
                    alpha_item_id->Some_0,
                ) {
                    Some(item_bytes(file, items, count, alpha_item_id->Some_0))
                } else {
                    None
                }
                &&& located_with_length(items, count, primary_item_id) ==> state.primary.len()
                    > 0
                &&& primary_comes_first(items, primary_item_id, alpha_item_id) ==> if located(
                    items,
                    count,
                    primary_item_id,
                ) {
                    state.primary.len() > 0
                } else {
                    none_empty(state.mdats) && state.primary.len() == 0
                }
            },
            Err(_) => true,
        },
    decreases count,
{
    if count > 0 {
        lemma_load_locations(start, items, count - 1, primary_item_id, alpha_item_id, file);
        match spec_load_locations(start, items, count - 1, primary_item_id, alpha_item_id) {
            Ok(state) => {
                let item = items[count - 1];
                let alpha = match state.alpha {
                    Some(alpha) => alpha,
                    None => Seq::empty(),
                };
                lemma_load_extents(
                    state.mdats,
                    item.extents,
                    item.extents.len() as int,
                    state.primary,
                    file,
                );
                lemma_load_extents(
                    state.mdats,
                    item.extents,
                    item.extents.len() as int,
                    alpha,
                    file,
                );
                if item.item_id == primary_item_id {
                    assert(located(items, count, primary_item_id));
                    if located_with_length(items, count, primary_item_id) && !some_with_length(
                        item.extents,
                        item.extents.len() as int,
                    ) {
                        let i = choose|i: int|
                            0 <= i < count && i < items.len() && (#[trigger] items[i]).item_id
                                == primary_item_id && some_with_length(
                                items[i].extents,
                                items[i].extents.len() as int,
                            );
                        assert(located_with_length(items, count - 1, primary_item_id));
                    }
                } else {
                    if located(items, count, primary_item_id) {
                        let i = choose|i: int|
                            0 <= i < count && i < items.len() && (#[trigger] items[i]).item_id
                                == primary_item_id;
                        assert(located(items, count - 1, primary_item_id));
                    }
                    if located_with_length(items, count, primary_item_id) {
                        let i = choose|i: int|
                            0 <= i < count && i < items.len() && (#[trigger] items[i]).item_id
                                == primary_item_id && some_with_length(
                                items[i].extents,
                                items[i].extents.len() as int,
                            );
                        assert(located_with_length(items, count - 1, primary_item_id));
                    }
                    if primary_comes_first(items, primary_item_id, alpha_item_id)
                        && alpha_item_id == Some(item.item_id) {
                        assert(located(items, count - 1, primary_item_id));
                    }
                }
                if alpha_item_id is Some {
                    let alpha_id = alpha_item_id->Some_0;
                    if item.item_id == alpha_id {
                        assert(located(items, count, alpha_id));
                    } else if located(items, count, alpha_id) {
                        let i = choose|i: int|
                            0 <= i < count && i < items.len() && (#[trigger] items[i]).item_id
                                == alpha_id;
                        assert(located(items, count - 1, alpha_id));
                    }
                    if with_lengths(items, alpha_id) && item.item_id == alpha_id
                        && alpha_id != primary_item_id {
                        if !located(items, count - 1, alpha_id) {
                            lemma_item_bytes_of_unlocated(file, items, count - 1, alpha_id);
                        }
                    }
                }
            },
            Err(_) => {},
        }
    } else {
        assert(start.primary =~= item_bytes(file, items, count, primary_item_id));
    }
}

/// The alpha item of the file `data`.
pub open spec fn file_alpha_item(data: &[u8]) -> Option<u32> {
    crate::resolve::spec_alpha_item(
        spec_read_boxes(data)->Ok_0.0.item_references,
        spec_read_boxes(data)->Ok_0.0.properties,
        spec_read_boxes(data)->Ok_0.0.primary_item_id,
        0,
    )
}

/// The payload of an item is made of the bytes that its extents name: where every extent
/// of the primary item has a range with a length, a file that parses gives a primary payload
/// that is the concatenation, in the order of the item's locations and of their extents, of
/// the byte ranges of the file that the extents name. The like holds of the alpha item, which
/// has a payload exactly where it has a location.
pub proof fn lemma_payload_is_concatenation_of_extents(data: &[u8])
    requires
        spec_read_avif(data) is Ok,
    ensures
        ({
            let meta = spec_read_boxes(data)->Ok_0.0;
            let count = meta.iloc_items.len() as int;
            let avif = spec_read_avif(data)->Ok_0;
            &&& with_lengths(meta.iloc_items, meta.primary_item_id) ==> avif.primary_item
                == item_bytes(data@, meta.iloc_items, count, meta.primary_item_id)
            &&& file_alpha_item(data) is Some && with_lengths(
                meta.iloc_items,
                file_alpha_item(data)->Some_0,
            ) ==> avif.alpha_item == if located(
                meta.iloc_items,
                count,
                file_alpha_item(data)->Some_0,
            ) {
                Some(item_bytes(data@, meta.iloc_items, count, file_alpha_item(data)->Some_0))
            } else {
                None
            }
        }),
{
    lemma_read_boxes_wf(data);
    let (meta, mdats) = spec_read_boxes(data)->Ok_0;
    lemma_alpha_item_is_not_primary(meta.item_references, meta.properties, meta.primary_item_id, 0);
    lemma_load_locations(
        LoadState { primary: Seq::empty(), alpha: None, mdats },
        meta.iloc_items,
        meta.iloc_items.len() as int,
        meta.primary_item_id,
        file_alpha_item(data),
        data@,
    );
}

/// The alpha item is never the primary item.
pub proof fn lemma_alpha_item_is_not_primary(
    references: Seq<crate::items::SingleItemTypeReferenceBox>,
    joined: Seq<crate::props::Associated>,
    primary_item_id: u32,
    from: int,
)
    ensures
        crate::resolve::spec_alpha_item(references, joined, primary_item_id, from) != Some(
            primary_item_id,
        ),
    decreases references.len() - from,
{
    if 0 <= from < references.len() {
        lemma_alpha_item_is_not_primary(references, joined, primary_item_id, from + 1);
    }
}

/// The payload of the primary item is not empty: a file that parses gives a primary
/// payload of at least one byte where the primary item has a location with an extent whose
/// range has a length; and also where it has any location and every location of the alpha
/// item (if the file has one) comes after a location of the primary item.
pub proof fn lemma_primary_item_is_not_empty(data: &[u8])
    requires
        spec_read_avif(data) is Ok,
        ({
            let meta = spec_read_boxes(data)->Ok_0.0;
            let count = meta.iloc_items.len() as int;
            ||| located_with_length(meta.iloc_items, count, meta.primary_item_id)
            ||| located(meta.iloc_items, count, meta.primary_item_id) && primary_comes_first(
                meta.iloc_items,
                meta.primary_item_id,
                file_alpha_item(data),
            )
        }),
    ensures
        spec_read_avif(data)->Ok_0.primary_item.len() > 0,
{
    lemma_read_boxes_wf(data);
    let (meta, mdats) = spec_read_boxes(data)->Ok_0;
    lemma_load_locations(
        LoadState { primary: Seq::empty(), alpha: None, mdats },
        meta.iloc_items,
        meta.iloc_items.len() as int,
        meta.primary_item_id,
        file_alpha_item(data),
        data@,
    );
}

// ---------------------------------------------------------------------------------------
// The first box
// ---------------------------------------------------------------------------------------
/// A file whose first box is not a file type box is a data error.
pub proof fn lemma_first_box_must_be_ftyp(data: &[u8])
    requires
        spec_next_box(file_start(data)) matches Ok((Some(b), _)) && b.head.name
            != BoxType::FileTypeBox,
    ensures
        spec_read_avif(data) == Err::<Avif, Error>(crate::avif::ftyp_not_first()),
        crate::avif::ftyp_not_first() is InvalidData,
{
}

/// Reading a file whose first box is not a file type box gives that data error and no
/// other result: nothing is reserved before the first box is judged.
pub proof fn lemma_first_box_other_than_ftyp_is_reported(data: &[u8], r: Result<AvifData, Error>)
    requires
        reads_as(data, r),
        spec_next_box(file_start(data)) matches Ok((Some(b), _)) && b.head.name
            != BoxType::FileTypeBox,
    ensures
        r is Err,
        r->Err_0 == crate::avif::ftyp_not_first(),
{
}

/// Reading a file of no bytes gives the data error that the metadata is missing, and no
/// other result.
pub proof fn lemma_empty_file_is_reported(data: &[u8], r: Result<AvifData, Error>)
    requires
        reads_as(data, r),
        data@.len() == 0,
    ensures
        r is Err,
        r->Err_0 == Error::InvalidData("missing meta"),
{
    assert(data@.len() == data.len());
    let start = file_start(data);
    assert(start.wf());
    assert(spec_first_box(start) == Ok::<OffsetReader, Error>(start));
    assert(spec_top_boxes(start, top_start()) == Ok::<TopState, Error>(top_start()));
}

/// A file whose major brand is `avis` is not supported, and a file whose major brand is
/// neither `avif` nor `avis` is a data error.
pub proof fn lemma_brand_must_be_avif(data: &[u8])
    requires
        spec_next_box(file_start(data)) matches Ok((Some(b), _)) && b.head.name
            == BoxType::FileTypeBox && spec_read_ftyp(b.content) is Ok,
    ensures
        ({
            let b = spec_next_box(file_start(data))->Ok_0.0->Some_0;
            let brand = spec_read_ftyp(b.content)->Ok_0.0.major_brand.value;
            &&& brand == AVIS ==> spec_read_avif(data) == Err::<Avif, Error>(
                crate::avif::animated(),
            )
            &&& brand != AVIS && brand != AVIF ==> spec_read_avif(data) == Err::<Avif, Error>(
                crate::avif::wrong_brand(),
            )
        }),
        crate::avif::animated() is Unsupported,
        crate::avif::wrong_brand() is InvalidData,
{
}

// ---------------------------------------------------------------------------------------
// Boxes that may occur once
// ---------------------------------------------------------------------------------------
/// The number of boxes of the given kind among the boxes from `r` on.
pub open spec fn count_boxes(r: OffsetReader, kind: BoxType) -> nat
    decreases r.avail(),
    when r.wf()
{
    match spec_next_box(r) {
        Ok((Some(b), next)) => if b.head.name == kind {
            1 + count_boxes(next, kind)
        } else {
            count_boxes(next, kind)
        },
        _ => 0,
    }
}

/// A metadata box that is met after another is a data error, whatever it holds.
pub proof fn lemma_second_meta_is_data_error(state: TopState, b: BMFFBox)
    requires
        state.meta is Some,
        b.head.name == BoxType::MetadataBox,
    ensures
        spec_top_child(state, b) == Err::<TopState, Error>(crate::avif::second_meta()),
        crate::avif::second_meta() is InvalidData,
{
}

/// An item info box, an item location box or a primary item box that is met after
/// another of its kind is a data error, whatever it holds.
pub proof fn lemma_second_box_is_data_error(state: MetaState, b: BMFFBox)
    ensures
        state.item_infos is Some && b.head.name == BoxType::ItemInfoBox ==> spec_meta_child(
            state,
            b,
        ) == Err::<MetaState, Error>(second_iinf()),
        state.iloc_items is Some && b.head.name == BoxType::ItemLocationBox ==> spec_meta_child(
            state,
            b,
        ) == Err::<MetaState, Error>(second_iloc()),
        state.primary_item_id is Some && b.head.name == BoxType::PrimaryItemBox
            ==> spec_meta_child(state, b) == Err::<MetaState, Error>(second_pitm()),
        second_iinf() is InvalidData,
        second_iloc() is InvalidData,
        second_pitm() is InvalidData,
{
}

/// Whether an optional value is there, as a number.
pub open spec fn present<T>(value: Option<T>) -> nat {
    if value is Some {
        1
    } else {
        0
    }
}

/// Boxes that parse hold no metadata box beyond the first: counting one for metadata
/// that was read before, they hold exactly one where there is metadata at the end, and none
/// where there is not.
pub proof fn lemma_one_meta_box(r: OffsetReader, state: TopState)
    requires
        r.wf(),
    ensures
        match spec_top_boxes(r, state) {
            Ok(last) => present(state.meta) + count_boxes(r, BoxType::MetadataBox) == present(
                last.meta,
            ),
            Err(_) => true,
        },
    decreases r.avail(),
{
    lemma_next_box_shrinks(r);
    match spec_next_box(r) {
        Ok((Some(b), next)) => {
            match spec_top_child(state, b) {
                Ok(after) => {
                    lemma_one_meta_box(next, after);
                },
                Err(_) => {},
            }
        },
        _ => {},
    }
}

/// The boxes of a metadata box that parse hold no item info box, no item location box and
/// no primary item box beyond the first of each kind.
#[verifier::rlimit(50)]
pub proof fn lemma_one_box_of_each_kind(r: OffsetReader, state: MetaState)
    requires
        r.wf(),
    ensures
        match spec_meta_boxes(r, state) {
            Ok((last, _)) => {
                &&& present(state.item_infos) + count_boxes(r, BoxType::ItemInfoBox) == present(
                    last.item_infos,
                )
                &&& present(state.iloc_items) + count_boxes(r, BoxType::ItemLocationBox)
                    == present(last.iloc_items)
                &&& present(state.primary_item_id) + count_boxes(r, BoxType::PrimaryItemBox)
                    == present(last.primary_item_id)
            },
            Err(_) => true,
        },
    decreases r.avail(),
{
    lemma_next_box_shrinks(r);
    match spec_next_box(r) {
        Ok((Some(b), next)) => {
            match spec_meta_child(state, b) {
                Ok(after) => {
                    lemma_one_box_of_each_kind(next, after);
                },
                Err(_) => {},
            }
        },
        _ => {},
    }
}

/// Whether reading the boxes of a file from `r` on with `state` comes, box after box
/// that parses, to the reader `at` with the state `then`.
pub open spec fn top_reaches(r: OffsetReader, state: TopState, at: OffsetReader, then: TopState) -> bool
    decreases r.avail(),
    when r.wf()
{
    (r == at && state == then) || match spec_next_box(r) {
        Ok((Some(b), next)) => match spec_top_child(state, b) {
            Ok(after) => top_reaches(next, after, at, then),
            Err(_) => false,
        },
        _ => false,
    }
}

/// Where the boxes before parse, a second metadata box fails the boxes with a data error,
/// whatever it and the boxes after it hold.
pub proof fn lemma_second_meta_fails_the_boxes(
    r: OffsetReader,
    state: TopState,
    at: OffsetReader,
    then: TopState,
)
    requires
        r.wf(),
        top_reaches(r, state, at, then),
        then.meta is Some,
        spec_next_box(at) matches Ok((Some(b), _)) && b.head.name == BoxType::MetadataBox,
    ensures
        spec_top_boxes(r, state) == Err::<TopState, Error>(crate::avif::second_meta()),
    decreases r.avail(),
{
    lemma_next_box_shrinks(r);
    if !(r == at && state == then) {
        match spec_next_box(r) {
            Ok((Some(b), next)) => {
                match spec_top_child(state, b) {
                    Ok(after) => {
                        lemma_second_meta_fails_the_boxes(next, after, at, then);
                    },
                    Err(_) => {},
                }
            },
            _ => {},
        }
    }
}

/// A file with two metadata boxes is a data error: where the first box of the file and
/// the boxes up to the second metadata box parse, what the file comes to is that error,
/// whatever the second metadata box and the boxes after it hold.
pub proof fn lemma_second_meta_fails_the_file(data: &[u8], at: OffsetReader, then: TopState)
    requires
        spec_first_box(file_start(data)) is Ok,
        top_reaches(spec_first_box(file_start(data))->Ok_0, top_start(), at, then),
        then.meta is Some,
        spec_next_box(at) matches Ok((Some(b), _)) && b.head.name == BoxType::MetadataBox,
    ensures
        spec_read_avif(data) == Err::<Avif, Error>(crate::avif::second_meta()),
        crate::avif::second_meta() is InvalidData,
{
    assert(data@.len() == data.len());
    lemma_first_box_reader(file_start(data));
    lemma_second_meta_fails_the_boxes(
        spec_first_box(file_start(data))->Ok_0,
        top_start(),
        at,
        then,
    );
}

/// Whether reading the boxes of a metadata box from `r` on with `state` comes, box after
/// box that parses, to the reader `at` with the state `then`.
pub open spec fn meta_reaches(
    r: OffsetReader,
    state: MetaState,
    at: OffsetReader,
    then: MetaState,
) -> bool
    decreases r.avail(),
    when r.wf()
{
    (r == at && state == then) || match spec_next_box(r) {
        Ok((Some(b), next)) => match spec_meta_child(state, b) {
            Ok(after) => meta_reaches(next, after, at, then),
            Err(_) => false,
        },
        _ => false,
    }
}

/// Where the boxes before parse, what the boxes of a metadata box come to is what they
/// come to from any box that is reached.
pub proof fn lemma_meta_reaches(r: OffsetReader, state: MetaState, at: OffsetReader, then: MetaState)
    requires
        r.wf(),
        meta_reaches(r, state, at, then),
    ensures
        spec_meta_boxes(r, state) == spec_meta_boxes(at, then),
        at.wf(),
    decreases r.avail(),
{
    lemma_next_box_shrinks(r);
    if !(r == at && state == then) {
        match spec_next_box(r) {
            Ok((Some(b), next)) => {
                match spec_meta_child(state, b) {
                    Ok(after) => {
                        lemma_meta_reaches(next, after, at, then);
                    },
                    Err(_) => {},
                }
            },
            _ => {},
        }
    }
}

/// A metadata box with two item info boxes, two item location boxes or two primary item
/// boxes is a data error: where its version and flags are accepted and the boxes up to the
/// second of its kind parse, what the metadata box comes to is that error, whatever the
/// second box and the boxes after it hold.
pub proof fn lemma_second_box_fails_the_meta(r: OffsetReader, at: OffsetReader, then: MetaState)
    requires
        r.wf(),
        crate::reader::spec_read_fullbox_version_no_flags(r) matches Ok((version, body))
            && version == 0 && meta_reaches(body, meta_start(), at, then),
        spec_next_box(at) is Ok,
        spec_next_box(at)->Ok_0.0 is Some,
    ensures
        ({
            let b = spec_next_box(at)->Ok_0.0->Some_0;
            &&& then.item_infos is Some && b.head.name == BoxType::ItemInfoBox
                ==> spec_read_avif_meta(r) == Err::<(Meta, OffsetReader), Error>(second_iinf())
            &&& then.iloc_items is Some && b.head.name == BoxType::ItemLocationBox
                ==> spec_read_avif_meta(r) == Err::<(Meta, OffsetReader), Error>(second_iloc())
            &&& then.primary_item_id is Some && b.head.name == BoxType::PrimaryItemBox
                ==> spec_read_avif_meta(r) == Err::<(Meta, OffsetReader), Error>(second_pitm())
        }),
        second_iinf() is InvalidData,
        second_iloc() is InvalidData,
        second_pitm() is InvalidData,
{
    let body = crate::reader::spec_read_fullbox_version_no_flags(r)->Ok_0.1;
    lemma_meta_reaches(body, meta_start(), at, then);
    lemma_next_box_shrinks(at);
    lemma_second_box_is_data_error(then, spec_next_box(at)->Ok_0.0->Some_0);
}

// ---------------------------------------------------------------------------------------
// Light level and colour volume
// ---------------------------------------------------------------------------------------
/// Whether item `item_id` has a content light level property.
pub open spec fn has_light_level(joined: Seq<crate::props::Associated>, item_id: u32) -> bool {
    exists|i: int|
        0 <= i < joined.len() && (#[trigger] joined[i]).item_id == item_id
            && joined[i].property is ContentLightLevel
}

/// Whether item `item_id` has a mastering display colour volume property.
pub open spec fn has_mastering_display(joined: Seq<crate::props::Associated>, item_id: u32) -> bool {
    exists|i: int|
        0 <= i < joined.len() && (#[trigger] joined[i]).item_id == item_id
            && joined[i].property is MasteringDisplay
}

/// The content light level of an item is that of one of its properties, and is there
/// exactly where the item has such a property from `from` on.
pub proof fn lemma_light_level(joined: Seq<crate::props::Associated>, item_id: u32, from: int)
    requires
        0 <= from,
    ensures
        match crate::resolve::spec_light_level(joined, item_id, from) {
            Some(level) => exists|i: int|
                from <= i < joined.len() && (#[trigger] joined[i]).item_id == item_id
                    && joined[i].property == crate::props::Property::ContentLightLevel(level),
            None => forall|i: int|
                from <= i < joined.len() ==> !((#[trigger] joined[i]).item_id == item_id
                    && joined[i].property is ContentLightLevel),
        },
    decreases joined.len() - from,
{
    if from < joined.len() {
        if !(joined[from].item_id == item_id && joined[from].property is ContentLightLevel) {
            lemma_light_level(joined, item_id, from + 1);
        }
    }
}

/// The mastering display colour volume of an item is that of one of its properties, and
/// is there exactly where the item has such a property from `from` on.
pub proof fn lemma_mastering_display(joined: Seq<crate::props::Associated>, item_id: u32, from: int)
    requires
        0 <= from,
    ensures
        match crate::resolve::spec_mastering_display(joined, item_id, from) {
            Some(volume) => exists|i: int|
                from <= i < joined.len() && (#[trigger] joined[i]).item_id == item_id
                    && joined[i].property == crate::props::Property::MasteringDisplay(volume),
            None => forall|i: int|
                from <= i < joined.len() ==> !((#[trigger] joined[i]).item_id == item_id
                    && joined[i].property is MasteringDisplay),
        },
    decreases joined.len() - from,
{
    if from < joined.len() {
        if !(joined[from].item_id == item_id && joined[from].property is MasteringDisplay) {
            lemma_mastering_display(joined, item_id, from + 1);
        }
    }
}

/// A file that parses gives a content light level record exactly where its primary item
/// has a content light level property, and a mastering display record exactly where it has
/// a mastering display colour volume property; each record is that of such a property. So a
/// file with only the one kind of property gives the one record and not the other, and a
/// file with both gives both.
pub proof fn lemma_light_level_and_colour_volume_records(data: &[u8])
    requires
        spec_read_avif(data) is Ok,
    ensures
        ({
            let meta = spec_read_boxes(data)->Ok_0.0;
            let avif = spec_read_avif(data)->Ok_0;
            &&& avif.content_light_level is Some <==> has_light_level(
                meta.properties,
                meta.primary_item_id,
            )
            &&& avif.mastering_display is Some <==> has_mastering_display(
                meta.properties,
                meta.primary_item_id,
            )
            &&& avif.content_light_level matches Some(level) ==> exists|i: int|
                0 <= i < meta.properties.len() && (#[trigger] meta.properties[i]).item_id
                    == meta.primary_item_id && meta.properties[i].property
                    == crate::props::Property::ContentLightLevel(level)
            &&& avif.mastering_display matches Some(volume) ==> exists|i: int|
                0 <= i < meta.properties.len() && (#[trigger] meta.properties[i]).item_id
                    == meta.primary_item_id && meta.properties[i].property
                    == crate::props::Property::MasteringDisplay(volume)
        }),
{
    let meta = spec_read_boxes(data)->Ok_0.0;
    lemma_light_level(meta.properties, meta.primary_item_id, 0);
    lemma_mastering_display(meta.properties, meta.primary_item_id, 0);
}

/// A file that parses holds exactly one metadata box after its first box.
pub proof fn lemma_file_has_one_meta_box(data: &[u8])
    requires
        spec_read_avif(data) is Ok,
    ensures
        count_boxes(spec_first_box(file_start(data))->Ok_0, BoxType::MetadataBox) == 1,
{
    assert(data@.len() == data.len());
    lemma_first_box_reader(file_start(data));
    lemma_one_meta_box(spec_first_box(file_start(data))->Ok_0, top_start());
}

/// A metadata box that parses holds exactly one item info box, one item location box and
/// one primary item box after its version and flags.
pub proof fn lemma_meta_has_one_box_of_each_kind(r: OffsetReader)
    requires
        r.wf(),
        spec_read_avif_meta(r) is Ok,
    ensures
        ({
            let body = crate::reader::spec_read_fullbox_version_no_flags(r)->Ok_0.1;
            &&& count_boxes(body, BoxType::ItemInfoBox) == 1
            &&& count_boxes(body, BoxType::ItemLocationBox) == 1
            &&& count_boxes(body, BoxType::PrimaryItemBox) == 1
        }),
{
    let body = crate::reader::spec_read_fullbox_version_no_flags(r)->Ok_0.1;
    lemma_one_box_of_each_kind(body, meta_start());
}

// ---------------------------------------------------------------------------------------
// Parsing twice
// ---------------------------------------------------------------------------------------
/// Parsing the same input twice gives the same: two results of reading one file hold the
/// same payloads and metadata where both are payloads, and the same error where both are
/// errors other than the report that memory ran out. Where reading the file asks for no
/// memory, the two are the same error.
pub proof fn lemma_parsing_is_repeatable(
    data: &[u8],
    first: Result<AvifData, Error>,
    second: Result<AvifData, Error>,
)
    requires
        reads_as(data, first),
        reads_as(data, second),
    ensures
        first is Ok && second is Ok ==> first->Ok_0@ == second->Ok_0@,
        first is Err && second is Err && first->Err_0 != Error::OutOfMemory && second->Err_0
            != Error::OutOfMemory ==> first->Err_0 == second->Err_0,
        first is Ok && second is Err ==> second->Err_0 == Error::OutOfMemory,
        !crate::avif::avif_reserves(data) ==> first is Err && second is Err && first->Err_0
            == second->Err_0,
{
    if !crate::avif::avif_reserves(data) {
        lemma_file_that_asks_for_no_memory_fails(data);
    }
}

/// A file that parses asks for memory: a file on which nothing is reserved fails before
/// its metadata is read.
pub proof fn lemma_file_that_asks_for_no_memory_fails(data: &[u8])
    requires
        !crate::avif::avif_reserves(data),
    ensures
        spec_read_avif(data) is Err,
{
    assert(data@.len() == data.len());
    let start = file_start(data);
    lemma_next_box_shrinks(start);
    match spec_first_box(start) {
        Ok(r) => {
            assert(r.avail() == 0);
            assert(spec_top_boxes(r, top_start()) == Ok::<TopState, Error>(top_start()));
        },
        Err(_) => {},
    }
}

// ---------------------------------------------------------------------------------------
// Extents at the limits
// ---------------------------------------------------------------------------------------
/// An extent of the item location table whose start or end overflows 64 bits is a data
/// error; and so is every other way in which an extent fails to be read.
pub proof fn lemma_extent_overflow_is_data_error(
    data: Seq<u8>,
    pos: int,
    widths: IlocWidths,
    base_offset: u64,
)
    ensures
        spec_iloc_extent(data, pos, widths, base_offset) is Err ==> spec_iloc_extent(
            data,
            pos,
            widths,
            base_offset,
        )->Err_0 is InvalidData,
        ({
            let start = base_offset + bits_value(data, pos + widths.index, widths.offset);
            let length = bits_value(data, pos + widths.index + widths.offset, widths.length);
            start > u64::MAX || (length != 0 && start + length > u64::MAX)
        }) ==> spec_iloc_extent(data, pos, widths, base_offset) is Err,
{
    reveal(spec_iloc_extent);
}

/// The position of the extents of the item that starts at bit `pos`, their count and
/// their base offset, where the fields of the item before its extents are accepted.
pub open spec fn iloc_item_extents(data: Seq<u8>, pos: int, version: IlocVersion, widths: IlocWidths) -> Option<
    (int, int, u64),
> {
    let p_method = pos + version.id_bits();
    let p_reference = if version == IlocVersion::Zero {
        p_method
    } else {
        p_method + 16
    };
    let p_base = p_reference + 16;
    let p_count = p_base + widths.base_offset;
    if bits_fit(data, p_count + 16) && (version == IlocVersion::Zero || spec_construction_method(
        bits_value(data, p_method + 12, 4),
    ) is Ok) && bits_value(data, p_reference, 16) == 0 && bits_value(data, p_count, 16) >= 1
        && widths.base_offset >= 0 {
        Some(
            (
                p_count + 16,
                bits_value(data, p_count, 16),
                bits_value(data, p_base, widths.base_offset) as u64,
            ),
        )
    } else {
        None
    }
}

/// An extent whose start or end overflows 64 bits fails its table with a data error:
/// where the field sizes and the item count of the table are accepted, the items before
/// the extent's item parse, the fields of that item before its extents are accepted, and its
/// extents before the overflowing one parse, what the table comes to is a data error.
pub proof fn lemma_overflowing_extent_fails_the_table(
    data: Seq<u8>,
    version: IlocVersion,
    item: int,
    extent: int,
)
    requires
        data.len() <= MAX_BIT_BUFFER,
        spec_iloc_widths(data, version) is Ok,
        bits_fit(data, 16 + version.id_bits()),
        0 <= item < bits_value(data, 16, version.id_bits()),
        spec_iloc_items(
            data,
            16 + version.id_bits(),
            item,
            version,
            spec_iloc_widths(data, version)->Ok_0,
        ) is Ok,
        ({
            let widths = spec_iloc_widths(data, version)->Ok_0;
            let pos = spec_iloc_items(data, 16 + version.id_bits(), item, version, widths)->Ok_0.1;
            &&& iloc_item_extents(data, pos, version, widths) matches Some((p, count, base))
                && 0 <= extent < count && spec_iloc_extents(data, p, extent, widths, base) is Ok
                && ({
                let at = spec_iloc_extents(data, p, extent, widths, base)->Ok_0.1;
                let start = base + bits_value(data, at + widths.index, widths.offset);
                let length = bits_value(data, at + widths.index + widths.offset, widths.length);
                start > u64::MAX || (length != 0 && start + length > u64::MAX)
            })
        }),
    ensures
        spec_iloc_table(data, version) matches Err(Error::InvalidData(_)),
{
    let widths = spec_iloc_widths(data, version)->Ok_0;
    let p_items = 16 + version.id_bits();
    let count = bits_value(data, 16, version.id_bits());
    let pos = spec_iloc_items(data, p_items, item, version, widths)->Ok_0.1;
    let (p, extents, base) = iloc_item_extents(data, pos, version, widths)->Some_0;
    let at = spec_iloc_extents(data, p, extent, widths, base)->Ok_0.1;
    lemma_extent_overflow_is_data_error(data, at, widths, base);
    let e = spec_iloc_extent(data, at, widths, base)->Err_0;
    assert(spec_iloc_extents(data, p, extent + 1, widths, base) == Err::<
        (Seq<ItemLocationBoxExtent>, int),
        Error,
    >(e));
    lemma_iloc_extents_error(data, p, extent + 1, extents, widths, base);
    assert(spec_iloc_item(data, pos, version, widths) == Err::<(ItemLocation, int), Error>(e)) by {
        reveal(spec_iloc_item);
    }
    assert(spec_iloc_items(data, p_items, item + 1, version, widths) == Err::<
        (Seq<ItemLocation>, int),
        Error,
    >(e));
    lemma_iloc_items_error(data, p_items, item + 1, count, version, widths);
}

// ---------------------------------------------------------------------------------------
// Where no memory is asked for
// ---------------------------------------------------------------------------------------
/// References that were read are as many more than those found before as were asked for.
pub proof fn lemma_references_count(
    c: OffsetReader,
    wide: bool,
    item_type: crate::boxes::FourCC,
    count: int,
    found: Seq<crate::items::SingleItemTypeReferenceBox>,
)
    requires
        0 <= count,
    ensures
        match crate::items::spec_references(c, wide, item_type, count, found) {
            Ok(references) => references.len() == found.len() + count,
            Err(_) => true,
        },
    decreases count,
{
    if count > 0 {
        lemma_references_count(c, wide, item_type, count - 1, found);
    }
}

/// Reference boxes that were read give at least the references found before, and more
/// where reading them asks for memory.
pub proof fn lemma_iref_boxes_count(
    r: OffsetReader,
    wide: bool,
    found: Seq<crate::items::SingleItemTypeReferenceBox>,
)
    requires
        r.wf(),
    ensures
        match crate::items::spec_iref_boxes(r, wide, found) {
            Ok((references, _)) => references.len() >= found.len() && (
            crate::items::iref_boxes_reserve(r, wide) ==> references.len() > found.len()),
            Err(_) => true,
        },
    decreases r.avail(),
{
    lemma_next_box_shrinks(r);
    match spec_next_box(r) {
        Ok((Some(b), next)) => {
            let c = b.content;
            let count = c.u16_at(crate::items::reference_target_place(wide, 0) - 2) as int;
            let item_type = crate::boxes::FourCC { value: b.head.name.code() };
            lemma_references_count(c, wide, item_type, count, found);
            match crate::items::spec_read_reference_box(b, wide, found) {
                Ok(references) => {
                    lemma_iref_boxes_count(next, wide, references);
                    if !crate::items::reference_box_reserves(b, wide) {
                        crate::items::lemma_reference_box_without_reserve(b, wide, found);
                    } else {
                        assert(count >= 1);
                    }
                },
                Err(_) => {},
            }
        },
        _ => {},
    }
}

/// An item reference box that holds no reference is read without asking for memory, so
/// that reading it gives the empty list and nothing else.
pub proof fn lemma_iref_without_references(r: OffsetReader)
    requires
        r.wf(),
        crate::items::spec_read_iref(r) matches Ok((references, _)) && references.len() == 0,
    ensures
        !crate::items::iref_reserves(r),
{
    match crate::reader::spec_read_fullbox_version_no_flags(r) {
        Ok((version, body)) => {
            lemma_iref_boxes_count(body, version != 0, Seq::empty());
        },
        Err(_) => {},
    }
}

/// Item locations none of which is one of the primary item or of the alpha item are
/// loaded without asking for memory.
pub proof fn lemma_locations_of_other_items_reserve_nothing(
    state: LoadState,
    items: Seq<ItemLocation>,
    count: int,
    primary_item_id: u32,
    alpha_item_id: Option<u32>,
)
    requires
        count <= items.len(),
        forall|i: int|
            0 <= i < items.len() ==> (#[trigger] items[i]).item_id != primary_item_id
                && alpha_item_id != Some(items[i].item_id),
    ensures
        !crate::avif::locations_reserve(state, items, count, primary_item_id, alpha_item_id),
        count >= 0 ==> spec_load_locations(state, items, count, primary_item_id, alpha_item_id)
            == Ok::<LoadState, Error>(state),
    decreases count,
{
    if count > 0 {
        lemma_locations_of_other_items_reserve_nothing(
            state,
            items,
            count - 1,
            primary_item_id,
            alpha_item_id,
        );
    }
}

/// Metadata that locates neither the primary item nor the alpha item is resolved without
/// asking for memory, and comes to empty payloads.
pub proof fn lemma_resolve_without_locations(meta: Meta, mdats: Seq<MediaData>)
    requires
        forall|i: int|
            0 <= i < meta.iloc_items.len() ==> (#[trigger] meta.iloc_items[i]).item_id
                != meta.primary_item_id && crate::resolve::spec_alpha_item(
                meta.item_references,
                meta.properties,
                meta.primary_item_id,
                0,
            ) != Some(meta.iloc_items[i].item_id),
    ensures
        !crate::avif::resolve_reserves(meta, mdats),
        crate::avif::spec_resolve(meta, mdats) matches Ok(avif) && avif.primary_item.len() == 0
            && avif.alpha_item is None,
{
    lemma_locations_of_other_items_reserve_nothing(
        LoadState { primary: Seq::empty(), alpha: None, mdats },
        meta.iloc_items,
        meta.iloc_items.len() as int,
        meta.primary_item_id,
        crate::resolve::spec_alpha_item(
            meta.item_references,
            meta.properties,
            meta.primary_item_id,
            0,
        ),
    );
}

} // verus!
