//! The boxes that name the items of a file: the primary item, the item infos and the item
//! references.

use vstd::prelude::*;
use crate::boxes::BoxType;
use crate::boxes::FourCC;
use crate::error::Error;
use crate::fallible::try_push;
use crate::fallible::try_with_capacity;
use crate::reader::agrees;
use crate::reader::be_u16;
use crate::reader::be_u32;
use crate::reader::check_parser_state;
use crate::reader::lemma_next_box_shrinks;
use crate::reader::next_box;
use crate::reader::read_fullbox_extra;
use crate::reader::read_fullbox_version_no_flags;
use crate::reader::skip_box_remain;
use crate::reader::spec_check_parser_state;
use crate::reader::spec_next_box;
use crate::reader::spec_read_fullbox_version_no_flags;
use crate::reader::BMFFBox;
use crate::reader::OffsetReader;

verus! {

/// Used for 'infe' boxes within 'iinf' boxes
#[derive(Debug, Clone, Copy, PartialEq, Eq, Structural)]
pub struct ItemInfoEntry {
    pub item_id: u32,
    pub item_type: FourCC,
}

/// One reference from an item to another, of the type that its box names.
#[derive(Debug, Clone, Copy, PartialEq, Eq, Structural)]
pub struct SingleItemTypeReferenceBox {
    pub item_type: FourCC,
    pub from_item_id: u32,
    pub to_item_id: u32,
}

/// What reading a primary item box gives: the id of the primary item, 16 bits wide in
/// version 0 and 32 bits wide in version 1.
pub open spec fn spec_read_pitm<'a>(r: OffsetReader<'a>) -> Result<(u32, OffsetReader<'a>), Error> {
    match spec_read_fullbox_version_no_flags(r) {
        Err(e) => Err(e),
        Ok((version, body)) => if version == 0 {
            if body.avail() < 2 {
                Err(Error::UnexpectedEOF)
            } else {
                Ok((body.u16_at(0) as u32, body.after(2)))
            }
        } else if version == 1 {
            if body.avail() < 4 {
                Err(Error::UnexpectedEOF)
            } else {
                Ok((body.u32_at(0), body.after(4)))
            }
        } else {
            Err(Error::Unsupported("unsupported pitm version"))
        },
    }
}

/// Parse a Primary Item Box
pub fn read_pitm(src: &mut BMFFBox) -> (r: Result<u32, Error>)
    requires
        old(src).wf(),
    ensures
        final(src).wf(),
        final(src).head == old(src).head,
        agrees(r, final(src).content, spec_read_pitm(old(src).content)),
{
    let version = read_fullbox_version_no_flags(&mut src.content)?;

    let item_id = match version {
        0 => be_u16(&mut src.content)? as u32,
        1 => be_u32(&mut src.content)?,
        _ => {
            return Err(Error::Unsupported("unsupported pitm version"));
        },
    };
    Ok(item_id)
}

/// What reading an item info entry gives: the version, which must be 2 (16-bit id) or 3
/// (32-bit id), with any flags; the id; a protection index, which must be 0; and the item
/// type. What follows in the box is passed over.
pub open spec fn spec_read_infe<'a>(r: OffsetReader<'a>) -> Result<
    (ItemInfoEntry, OffsetReader<'a>),
    Error,
> {
    let version = r.u8_at(0);
    let p_protection: int = if version == 2 {
        6
    } else {
        8
    };
    if r.avail() < 4 {
        Err(Error::UnexpectedEOF)
    } else if version != 2 && version != 3 {
        Err(Error::Unsupported("unsupported version in 'infe' box"))
    } else if r.avail() < p_protection + 2 {
        Err(Error::UnexpectedEOF)
    } else if r.u16_at(p_protection) != 0 {
        Err(
            Error::Unsupported(
                "protected items (infe.item_protection_index != 0) are not supported",
            ),
        )
    } else if r.avail() < p_protection + 6 {
        Err(Error::UnexpectedEOF)
    } else {
        Ok(
            (
                ItemInfoEntry {
                    item_id: if version == 2 {
                        r.u16_at(4) as u32
                    } else {
                        r.u32_at(4)
                    },
                    item_type: FourCC { value: r.u32_at(p_protection + 2) },
                },
                r.after(r.avail()),
            ),
        )
    }
}

/// Parse an Item Info Entry
pub fn read_infe(src: &mut BMFFBox) -> (r: Result<ItemInfoEntry, Error>)
    requires
        old(src).wf(),
    ensures
        final(src).wf(),
        final(src).head == old(src).head,
        agrees(r, final(src).content, spec_read_infe(old(src).content)),
{
    // According to the standard, it seems the flags field should be 0, but
    // at least one sample AVIF image has a nonzero value.
    let (version, _) = read_fullbox_extra(&mut src.content)?;

    // mif1 brand (see ISO 23008-12:2017 § 10.2.1) only requires v2 and 3
    let item_id = match version {
        2 => be_u16(&mut src.content)? as u32,
        3 => be_u32(&mut src.content)?,
        _ => {
            return Err(Error::Unsupported("unsupported version in 'infe' box"));
        },
    };

    let item_protection_index = be_u16(&mut src.content)?;

    if item_protection_index != 0 {
        return Err(
            Error::Unsupported(
                "protected items (infe.item_protection_index != 0) are not supported",
            ),
        );
    }
    let item_type = FourCC { value: be_u32(&mut src.content)? };

    // There are some additional fields here, but they're not of interest to us
    skip_box_remain(src)?;

    Ok(ItemInfoEntry { item_id, item_type })
}

/// The entries of the boxes from `r` on, after `found`: every box must be an item info
/// entry and must be read to its declared end.
pub open spec fn spec_infe_boxes<'a>(r: OffsetReader<'a>, found: Seq<ItemInfoEntry>) -> Result<
    (Seq<ItemInfoEntry>, OffsetReader<'a>),
    Error,
>
    decreases r.avail(),
    when r.wf()
{
    match spec_next_box(r) {
        Err(e) => Err(e),
        Ok((None, next)) => Ok((found, next)),
        Ok((Some(b), next)) => if b.head.name != BoxType::ItemInfoEntry {
            Err(Error::InvalidData("iinf box should contain only infe boxes"))
        } else {
            match spec_read_infe(b.content) {
                Err(e) => Err(e),
                Ok((entry, left)) => match spec_check_parser_state(left) {
                    Err(e) => Err(e),
                    Ok(_) => spec_infe_boxes(next, found.push(entry)),
                },
            }
        },
    }
}

/// What reading an item info box gives: the version, which must be 0 or 1 with flags of
/// zero; an entry count, 16 bits wide in version 0 and 32 bits wide in version 1; and the
/// entries of all boxes that follow.
pub open spec fn spec_read_iinf<'a>(r: OffsetReader<'a>) -> Result<
    (Seq<ItemInfoEntry>, OffsetReader<'a>),
    Error,
> {
    match spec_read_fullbox_version_no_flags(r) {
        Err(e) => Err(e),
        Ok((version, body)) => {
            let count_size: int = if version == 0 {
                2
            } else {
                4
            };
            if version > 1 {
                Err(Error::Unsupported("unsupported iinf version"))
            } else if body.avail() < count_size {
                Err(Error::UnexpectedEOF)
            } else {
                spec_infe_boxes(body.after(count_size), Seq::empty())
            }
        },
    }
}

/// Whether reading an item info box asks for memory: its version and flags are accepted
/// and its entry count can be read. Room for the entries is reserved right after.
pub open spec fn iinf_reserves(r: OffsetReader) -> bool {
    match spec_read_fullbox_version_no_flags(r) {
        Ok((version, body)) => version <= 1 && body.avail() >= (if version == 0 {
            2int
        } else {
            4int
        }),
        Err(_) => false,
    }
}

/// Parse an Item Information Box. Memory can run out only where reading the box asks for
/// memory; everywhere else the result is what the box holds.
pub fn read_iinf(src: &mut BMFFBox) -> (r: Result<Vec<ItemInfoEntry>, Error>)
    requires
        old(src).wf(),
    ensures
        final(src).wf(),
        final(src).head == old(src).head,
        match r {
            Ok(infos) => spec_read_iinf(old(src).content) == Ok::<
                (Seq<ItemInfoEntry>, OffsetReader),
                Error,
            >((infos@, final(src).content)),
            Err(e) => (e == Error::OutOfMemory && iinf_reserves(old(src).content))
                || spec_read_iinf(old(src).content) == Err::<
                (Seq<ItemInfoEntry>, OffsetReader),
                Error,
            >(e),
        },
{
    let version = read_fullbox_version_no_flags(&mut src.content)?;

    match version {
        0 | 1 => (),
        _ => {
            return Err(Error::Unsupported("unsupported iinf version"));
        },
    }

    let entry_count: u32 = if version == 0 {
        be_u16(&mut src.content)? as u32
    } else {
        be_u32(&mut src.content)?
    };
    if entry_count as u64 > usize::MAX as u64 {
        return Err(Error::OutOfMemory);
    }
    let mut item_infos: Vec<ItemInfoEntry> = match try_with_capacity(entry_count as usize) {
        Ok(infos) => infos,
        Err(e) => {
            return Err(Error::from_try_reserve(e));
        },
    };

    let ghost start = src.content;
    loop
        invariant
            src.wf(),
            src.head == old(src).head,
            iinf_reserves(old(src).content),
            spec_read_iinf(old(src).content) == spec_infe_boxes(start, Seq::empty()),
            spec_infe_boxes(start, Seq::empty()) == spec_infe_boxes(src.content, item_infos@),
        decreases src.content.avail(),
    {
        proof {
            lemma_next_box_shrinks(src.content);
        }
        let mut b = match next_box(&mut src.content)? {
            Some(b) => b,
            None => {
                return Ok(item_infos);
            },
        };
        if b.head.name != BoxType::ItemInfoEntry {
            return Err(Error::InvalidData("iinf box should contain only infe boxes"));
        }
        let entry = read_infe(&mut b)?;
        match try_push(&mut item_infos, entry) {
            Ok(_) => {},
            Err(e) => {
                return Err(Error::from_try_reserve(e));
            },
        }
        check_parser_state(&b.content)?;
    }
}

/// The item id at place `p` of `c`: 32 bits wide or 16 bits wide.
pub open spec fn reference_id_at(c: OffsetReader, wide: bool, p: int) -> u32 {
    if wide {
        c.u32_at(p)
    } else {
        c.u16_at(p) as u32
    }
}

/// The place of target `i` in a reference box: after the source id and a 16-bit count.
pub open spec fn reference_target_place(wide: bool, i: int) -> int {
    if wide {
        6 + 4 * i
    } else {
        4 + 2 * i
    }
}

/// The first `count` references of the reference box with payload `c`, after `found`: one
/// for each target id, from the source id that starts the box. A source may not refer to
/// itself.
pub open spec fn spec_references(
    c: OffsetReader,
    wide: bool,
    item_type: FourCC,
    count: int,
    found: Seq<SingleItemTypeReferenceBox>,
) -> Result<Seq<SingleItemTypeReferenceBox>, Error>
    decreases count,
{
    if count <= 0 {
        Ok(found)
    } else {
        match spec_references(c, wide, item_type, count - 1, found) {
            Err(e) => Err(e),
            Ok(references) => {
                let from_item_id = reference_id_at(c, wide, 0);
                let to_item_id = reference_id_at(c, wide, reference_target_place(wide, count - 1));
                if c.avail() < reference_target_place(wide, count) {
                    Err(Error::UnexpectedEOF)
                } else if from_item_id == to_item_id {
                    Err(Error::InvalidData("from_item_id and to_item_id must be different"))
                } else {
                    Ok(
                        references.push(
                            SingleItemTypeReferenceBox { item_type, from_item_id, to_item_id },
                        ),
                    )
                }
            },
        }
    }
}

/// The references of one reference box, after `found`: a source id, a 16-bit count and that
/// many target ids, which must fill the box to its declared end. The type of the box is the
/// type of its references.
pub open spec fn spec_read_reference_box(
    b: BMFFBox,
    wide: bool,
    found: Seq<SingleItemTypeReferenceBox>,
) -> Result<Seq<SingleItemTypeReferenceBox>, Error> {
    let c = b.content;
    let count = c.u16_at(reference_target_place(wide, 0) - 2);
    if c.avail() < reference_target_place(wide, 0) {
        Err(Error::UnexpectedEOF)
    } else {
        match spec_references(c, wide, FourCC { value: b.head.name.code() }, count as int, found) {
            Err(e) => Err(e),
            Ok(references) => match spec_check_parser_state(
                c.after(reference_target_place(wide, count as int)),
            ) {
                Err(e) => Err(e),
                Ok(_) => Ok(references),
            },
        }
    }
}

/// Once reading references has failed, it has failed for every larger count.
pub proof fn lemma_references_error(
    c: OffsetReader,
    wide: bool,
    item_type: FourCC,
    few: int,
    many: int,
    found: Seq<SingleItemTypeReferenceBox>,
)
    requires
        few <= many,
        spec_references(c, wide, item_type, few, found) is Err,
    ensures
        spec_references(c, wide, item_type, many, found) == spec_references(
            c,
            wide,
            item_type,
            few,
            found,
        ),
    decreases many - few,
{
    if few < many {
        lemma_references_error(c, wide, item_type, few, many - 1, found);
    }
}

/// Whether reading a reference box asks for memory: it holds a first reference, from a
/// source to another item. Room is asked for each reference once it is read.
pub open spec fn reference_box_reserves(b: BMFFBox, wide: bool) -> bool {
    &&& b.content.avail() >= reference_target_place(wide, 1)
    &&& b.content.u16_at(reference_target_place(wide, 0) - 2) >= 1
    &&& reference_id_at(b.content, wide, 0) != reference_id_at(
        b.content,
        wide,
        reference_target_place(wide, 0),
    )
}

/// A reference box that is read without asking for memory adds no reference.
pub proof fn lemma_reference_box_without_reserve(
    b: BMFFBox,
    wide: bool,
    found: Seq<SingleItemTypeReferenceBox>,
)
    requires
        !reference_box_reserves(b, wide),
        spec_read_reference_box(b, wide, found) is Ok,
    ensures
        spec_read_reference_box(b, wide, found) == Ok::<Seq<SingleItemTypeReferenceBox>, Error>(
            found,
        ),
        forall|other: Seq<SingleItemTypeReferenceBox>|
            #[trigger] spec_read_reference_box(b, wide, other) == Ok::<
                Seq<SingleItemTypeReferenceBox>,
                Error,
            >(other),
{
    let c = b.content;
    let count = c.u16_at(reference_target_place(wide, 0) - 2) as int;
    let item_type = FourCC { value: b.head.name.code() };
    if count >= 1 {
        if spec_references(c, wide, item_type, 1, found) is Err {
            lemma_references_error(c, wide, item_type, 1, count, found);
        }
        assert(spec_references(c, wide, item_type, 0, found) == Ok::<
            Seq<SingleItemTypeReferenceBox>,
            Error,
        >(found));
    }
    assert forall|other: Seq<SingleItemTypeReferenceBox>|
        #[trigger] spec_read_reference_box(b, wide, other) == Ok::<
            Seq<SingleItemTypeReferenceBox>,
            Error,
        >(other) by {
        assert(spec_references(c, wide, item_type, 0, other) == Ok::<
            Seq<SingleItemTypeReferenceBox>,
            Error,
        >(other));
    }
}

/// Reads the references of one reference box and appends them to `item_references`.
fn read_reference_box(
    b: &mut BMFFBox,
    wide: bool,
    item_references: &mut Vec<SingleItemTypeReferenceBox>,
) -> (r: Result<(), Error>)
    requires
        old(b).wf(),
    ensures
        final(b).wf(),
        match r {
            Ok(_) => spec_read_reference_box(*old(b), wide, old(item_references)@) == Ok::<
                Seq<SingleItemTypeReferenceBox>,
                Error,
            >(final(item_references)@),
            Err(e) => (e == Error::OutOfMemory && reference_box_reserves(*old(b), wide))
                || spec_read_reference_box(*old(b), wide, old(item_references)@) == Err::<
                Seq<SingleItemTypeReferenceBox>,
                Error,
            >(e),
        },
{
    let ghost c = b.content;
    let ghost found = item_references@;
    let item_type = FourCC { value: b.head.name.to_code() };
    let from_item_id = if wide {
        be_u32(&mut b.content)?
    } else {
        be_u16(&mut b.content)? as u32
    };
    let reference_count = be_u16(&mut b.content)?;
    let mut i: u16 = 0;
    while i < reference_count
        invariant
            i <= reference_count,
            b.wf(),
            c.wf(),
            c == old(b).content,
            found == old(item_references)@,
            b.head == old(b).head,
            item_type == (FourCC { value: b.head.name.code() }),
            from_item_id == reference_id_at(c, wide, 0),
            reference_count == c.u16_at(reference_target_place(wide, 0) - 2),
            c.avail() >= reference_target_place(wide, i as int),
            b.content == c.after(reference_target_place(wide, i as int)),
            spec_references(c, wide, item_type, i as int, found) == Ok::<
                Seq<SingleItemTypeReferenceBox>,
                Error,
            >(item_references@),
            i >= 1 ==> reference_box_reserves(*old(b), wide),
        decreases reference_count - i,
    {
        proof {
            if spec_references(c, wide, item_type, i + 1, found) is Err {
                lemma_references_error(c, wide, item_type, i + 1, reference_count as int, found);
            }
        }
        let to_item_id = if wide {
            be_u32(&mut b.content)?
        } else {
            be_u16(&mut b.content)? as u32
        };
        if from_item_id == to_item_id {
            return Err(Error::InvalidData("from_item_id and to_item_id must be different"));
        }
        match try_push(
            item_references,
            SingleItemTypeReferenceBox { item_type, from_item_id, to_item_id },
        ) {
            Ok(_) => {},
            Err(e) => {
                return Err(Error::from_try_reserve(e));
            },
        }
        i = i + 1;
    }
    check_parser_state(&b.content)
}

/// The references of the boxes from `r` on, after `found`.
pub open spec fn spec_iref_boxes<'a>(
    r: OffsetReader<'a>,
    wide: bool,
    found: Seq<SingleItemTypeReferenceBox>,
) -> Result<(Seq<SingleItemTypeReferenceBox>, OffsetReader<'a>), Error>
    decreases r.avail(),
    when r.wf()
{
    match spec_next_box(r) {
        Err(e) => Err(e),
        Ok((None, next)) => Ok((found, next)),
        Ok((Some(b), next)) => match spec_read_reference_box(b, wide, found) {
            Err(e) => Err(e),
            Ok(references) => spec_iref_boxes(next, wide, references),
        },
    }
}

/// What reading an item reference box gives: the version, which must be 0 (16-bit ids) or
/// 1 (32-bit ids) with flags of zero, and the references of all boxes that follow.
pub open spec fn spec_read_iref<'a>(r: OffsetReader<'a>) -> Result<
    (Seq<SingleItemTypeReferenceBox>, OffsetReader<'a>),
    Error,
> {
    match spec_read_fullbox_version_no_flags(r) {
        Err(e) => Err(e),
        Ok((version, body)) => if version > 1 {
            Err(Error::Unsupported("iref version"))
        } else {
            spec_iref_boxes(body, version != 0, Seq::empty())
        },
    }
}

/// Whether reading the reference boxes from `r` on asks for memory: one of them does,
/// and those before it can be read.
pub open spec fn iref_boxes_reserve(r: OffsetReader, wide: bool) -> bool
    decreases r.avail(),
    when r.wf()
{
    match spec_next_box(r) {
        Ok((Some(b), next)) => reference_box_reserves(b, wide) || (spec_read_reference_box(
            b,
            wide,
            Seq::empty(),
        ) is Ok && iref_boxes_reserve(next, wide)),
        _ => false,
    }
}

/// Whether reading an item reference box asks for memory: its version and flags are
/// accepted and the boxes that follow hold a first reference.
pub open spec fn iref_reserves(r: OffsetReader) -> bool {
    match spec_read_fullbox_version_no_flags(r) {
        Ok((version, body)) => version <= 1 && iref_boxes_reserve(body, version != 0),
        Err(_) => false,
    }
}

/// Parse an Item Reference Box. Memory can run out only where reading the box asks for
/// memory; everywhere else the result is what the box holds.
pub fn read_iref(src: &mut BMFFBox) -> (r: Result<Vec<SingleItemTypeReferenceBox>, Error>)
    requires
        old(src).wf(),
    ensures
        final(src).wf(),
        final(src).head == old(src).head,
        match r {
            Ok(references) => spec_read_iref(old(src).content) == Ok::<
                (Seq<SingleItemTypeReferenceBox>, OffsetReader),
                Error,
            >((references@, final(src).content)),
            Err(e) => (e == Error::OutOfMemory && iref_reserves(old(src).content))
                || spec_read_iref(old(src).content) == Err::<
                (Seq<SingleItemTypeReferenceBox>, OffsetReader),
                Error,
            >(e),
        },
{
    let mut item_references: Vec<SingleItemTypeReferenceBox> = Vec::new();
    let version = read_fullbox_version_no_flags(&mut src.content)?;
    if version > 1 {
        return Err(Error::Unsupported("iref version"));
    }
    let wide = version != 0;
    let ghost body = src.content;
    let ghost mut reserved = false;

    loop
        invariant
            src.wf(),
            src.head == old(src).head,
            body.wf(),
            spec_read_iref(old(src).content) == spec_iref_boxes(
                src.content,
                wide,
                item_references@,
            ),
            iref_reserves(old(src).content) == iref_boxes_reserve(body, wide),
            reserved ==> iref_boxes_reserve(body, wide),
            !reserved ==> item_references@ == Seq::<SingleItemTypeReferenceBox>::empty()
                && iref_boxes_reserve(body, wide) == iref_boxes_reserve(src.content, wide),
        decreases src.content.avail(),
    {
        proof {
            lemma_next_box_shrinks(src.content);
        }
        let mut b = match next_box(&mut src.content)? {
            Some(b) => b,
            None => {
                return Ok(item_references);
            },
        };
        let ghost child = b;
        let ghost found = item_references@;
        read_reference_box(&mut b, wide, &mut item_references)?;
        proof {
            if !reserved {
                if reference_box_reserves(child, wide) {
                    reserved = true;
                } else {
                    lemma_reference_box_without_reserve(child, wide, found);
                }
            }
        }
    }
}

} // verus!
