//! From metadata to payloads: which item holds the alpha plane, and what bytes each item
//! is made of.

use vstd::prelude::*;
use crate::boxes::AUXL;
use crate::boxes::PREM;
use crate::error::Error;
use crate::extents::load_extent;
use crate::extents::media;
use crate::extents::spec_load_extent;
use crate::extents::spec_load_extents;
use crate::extents::MediaData;
use crate::extents::MediaDataBox;
use crate::iloc::ConstructionMethod;
use crate::iloc::ItemLocation;
use crate::iloc::ItemLocationBoxItem;
use crate::items::SingleItemTypeReferenceBox;
use crate::meta::AvifInternalMeta;
use crate::props::associated;
use crate::props::aux_type;
use crate::props::ALPHA_URN;
use crate::props::Associated;
use crate::props::AssociatedProperty;
use crate::props::ContentLightLevel;
use crate::props::ItemProperty;
use crate::props::MasteringDisplayColourVolume;
use crate::props::Property;

verus! {

/// Whether two byte slices hold the same bytes.
pub fn bytes_equal(a: &[u8], b: &[u8]) -> (r: bool)
    ensures
        r == (a@ == b@),
{
    if a.len() != b.len() {
        return false;
    }
    let mut i: usize = 0;
    while i < a.len()
        invariant
            i <= a@.len(),
            a@.len() == b@.len(),
            forall|j: int| 0 <= j < i ==> a@[j] == b@[j],
        decreases a@.len() - i,
    {
        if a[i] != b[i] {
            return false;
        }
        i = i + 1;
    }
    assert(a@ =~= b@);
    true
}

/// Whether a property says that item `item_id` is an alpha plane: an auxiliary type
/// property of that item whose type is the alpha URN.
pub open spec fn marks_alpha(p: Associated, item_id: u32) -> bool {
    p.item_id == item_id && match p.property {
        Property::AuxiliaryType(bytes) => aux_type(bytes) == ALPHA_URN@,
        _ => false,
    }
}

/// Whether some property says that item `item_id` is an alpha plane.
pub open spec fn has_alpha_property(joined: Seq<Associated>, item_id: u32) -> bool {
    exists|i: int| 0 <= i < joined.len() && marks_alpha(#[trigger] joined[i], item_id)
}

/// Whether a reference presents its source as an alpha plane of the primary item: an
/// `auxl` reference to the primary item from another item that has the alpha property.
pub open spec fn presents_alpha(
    reference: SingleItemTypeReferenceBox,
    joined: Seq<Associated>,
    primary_item_id: u32,
) -> bool {
    &&& reference.to_item_id == primary_item_id
    &&& reference.from_item_id != primary_item_id
    &&& reference.item_type.value == AUXL
    &&& has_alpha_property(joined, reference.from_item_id)
}

/// The alpha item: the source of the first reference from index `from` on that presents
/// an alpha plane of the primary item.
pub open spec fn spec_alpha_item(
    references: Seq<SingleItemTypeReferenceBox>,
    joined: Seq<Associated>,
    primary_item_id: u32,
    from: int,
) -> Option<u32>
    decreases references.len() - from,
{
    if from < 0 || from >= references.len() {
        None
    } else if presents_alpha(references[from], joined, primary_item_id) {
        Some(references[from].from_item_id)
    } else {
        spec_alpha_item(references, joined, primary_item_id, from + 1)
    }
}

/// Whether the alpha is premultiplied: there is an alpha item and a `prem` reference from
/// the primary item to it.
pub open spec fn spec_premultiplied(
    references: Seq<SingleItemTypeReferenceBox>,
    primary_item_id: u32,
    alpha_item_id: Option<u32>,
) -> bool {
    alpha_item_id is Some && exists|i: int|
        0 <= i < references.len() && (#[trigger] references[i]).from_item_id == primary_item_id
            && references[i].to_item_id == alpha_item_id->Some_0 && references[i].item_type.value
            == PREM
}

/// The content light level of item `item_id`: that of its first such property from index
/// `from` on.
pub open spec fn spec_light_level(joined: Seq<Associated>, item_id: u32, from: int) -> Option<
    ContentLightLevel,
>
    decreases joined.len() - from,
{
    if from < 0 || from >= joined.len() {
        None
    } else if joined[from].item_id == item_id && joined[from].property is ContentLightLevel {
        Some(joined[from].property->ContentLightLevel_0)
    } else {
        spec_light_level(joined, item_id, from + 1)
    }
}

/// The mastering display colour volume of item `item_id`: that of its first such property
/// from index `from` on.
pub open spec fn spec_mastering_display(joined: Seq<Associated>, item_id: u32, from: int) -> Option<
    MasteringDisplayColourVolume,
>
    decreases joined.len() - from,
{
    if from < 0 || from >= joined.len() {
        None
    } else if joined[from].item_id == item_id && joined[from].property is MasteringDisplay {
        Some(joined[from].property->MasteringDisplay_0)
    } else {
        spec_mastering_display(joined, item_id, from + 1)
    }
}

/// Tells whether some property says that item `item_id` is an alpha plane.
pub fn item_has_alpha_property(joined: &Vec<AssociatedProperty>, item_id: u32) -> (r: bool)
    ensures
        r == has_alpha_property(associated(joined@), item_id),
{
    let mut i: usize = 0;
    while i < joined.len()
        invariant
            i <= joined@.len(),
            forall|j: int| 0 <= j < i ==> !marks_alpha(#[trigger] associated(joined@)[j], item_id),
        decreases joined@.len() - i,
    {
        let prop = &joined[i];
        if prop.item_id == item_id {
            match &prop.property {
                ItemProperty::AuxiliaryType(urn) => {
                    if bytes_equal(urn.type_subtype().0, ALPHA_URN.as_slice()) {
                        assert(marks_alpha(associated(joined@)[i as int], item_id));
                        return true;
                    }
                },
                _ => {},
            }
        }
        i = i + 1;
    }
    false
}

/// Finds the alpha item of the primary item, if there is one.
pub fn find_alpha_item(meta: &AvifInternalMeta) -> (r: Option<u32>)
    ensures
        r == spec_alpha_item(meta@.item_references, meta@.properties, meta@.primary_item_id, 0),
{
    let mut i: usize = 0;
    while i < meta.item_references.len()
        invariant
            i <= meta.item_references@.len(),
            spec_alpha_item(meta@.item_references, meta@.properties, meta@.primary_item_id, 0)
                == spec_alpha_item(
                meta@.item_references,
                meta@.properties,
                meta@.primary_item_id,
                i as int,
            ),
        decreases meta.item_references@.len() - i,
    {
        let iref = meta.item_references[i];
        // Auxiliary image for the primary image
        if iref.to_item_id == meta.primary_item_id && iref.from_item_id != meta.primary_item_id
            && iref.item_type.value == AUXL  // which has the alpha property
         && item_has_alpha_property(&meta.properties, iref.from_item_id) {
            return Some(iref.from_item_id);
        }
        i = i + 1;
    }
    None
}

/// Tells whether the alpha is premultiplied.
pub fn is_premultiplied(meta: &AvifInternalMeta, alpha_item_id: Option<u32>) -> (r: bool)
    ensures
        r == spec_premultiplied(meta@.item_references, meta@.primary_item_id, alpha_item_id),
{
    let alpha = match alpha_item_id {
        Some(id) => id,
        None => {
            return false;
        },
    };
    let mut i: usize = 0;
    while i < meta.item_references.len()
        invariant
            i <= meta.item_references@.len(),
            alpha_item_id == Some(alpha),
            forall|j: int|
                0 <= j < i ==> !((#[trigger] meta.item_references@[j]).from_item_id
                    == meta.primary_item_id && meta.item_references@[j].to_item_id == alpha
                    && meta.item_references@[j].item_type.value == PREM),
        decreases meta.item_references@.len() - i,
    {
        let iref = meta.item_references[i];
        if iref.from_item_id == meta.primary_item_id && iref.to_item_id == alpha
            && iref.item_type.value == PREM {
            assert(meta@.item_references[i as int] == iref);
            return true;
        }
        i = i + 1;
    }
    false
}

/// Finds the content light level of an item.
pub fn find_light_level(joined: &Vec<AssociatedProperty>, item_id: u32) -> (r: Option<
    ContentLightLevel,
>)
    ensures
        r == spec_light_level(associated(joined@), item_id, 0),
{
    let mut i: usize = 0;
    while i < joined.len()
        invariant
            i <= joined@.len(),
            spec_light_level(associated(joined@), item_id, 0) == spec_light_level(
                associated(joined@),
                item_id,
                i as int,
            ),
        decreases joined@.len() - i,
    {
        let prop = &joined[i];
        if prop.item_id == item_id {
            match &prop.property {
                ItemProperty::ContentLightLevel(level) => {
                    return Some(*level);
                },
                _ => {},
            }
        }
        i = i + 1;
    }
    None
}

/// Finds the mastering display colour volume of an item.
pub fn find_mastering_display(joined: &Vec<AssociatedProperty>, item_id: u32) -> (r: Option<
    MasteringDisplayColourVolume,
>)
    ensures
        r == spec_mastering_display(associated(joined@), item_id, 0),
{
    let mut i: usize = 0;
    while i < joined.len()
        invariant
            i <= joined@.len(),
            spec_mastering_display(associated(joined@), item_id, 0) == spec_mastering_display(
                associated(joined@),
                item_id,
                i as int,
            ),
        decreases joined@.len() - i,
    {
        let prop = &joined[i];
        if prop.item_id == item_id {
            match &prop.property {
                ItemProperty::MasteringDisplay(volume) => {
                    return Some(*volume);
                },
                _ => {},
            }
        }
        i = i + 1;
    }
    None
}

/// What loading all extents of one item into `buf` gives. Only items stored in the file
/// itself can be loaded.
pub open spec fn spec_load_item(mdats: Seq<MediaData>, item: ItemLocation, buf: Seq<u8>) -> Result<
    (Seq<u8>, Seq<MediaData>),
    Error,
> {
    if item.construction_method != ConstructionMethod::File {
        Err(Error::Unsupported("unsupported construction_method"))
    } else {
        spec_load_extents(mdats, item.extents, item.extents.len() as int, buf)
    }
}

/// Once loading extents has failed, it has failed for every larger count.
pub proof fn lemma_load_extents_error(
    mdats: Seq<MediaData>,
    extents: Seq<crate::iloc::ItemLocationBoxExtent>,
    few: int,
    many: int,
    buf: Seq<u8>,
)
    requires
        few <= many,
        spec_load_extents(mdats, extents, few, buf) is Err,
    ensures
        spec_load_extents(mdats, extents, many, buf) == spec_load_extents(mdats, extents, few, buf),
    decreases many - few,
{
    if few < many {
        lemma_load_extents_error(mdats, extents, few, many - 1, buf);
    }
}

/// Whether loading the item asks for memory: it is stored in the file and its first
/// extent can be loaded. Before that nothing is reserved.
pub open spec fn load_item_reserves(mdats: Seq<MediaData>, item: ItemLocation, buf: Seq<u8>) -> bool {
    &&& item.construction_method == ConstructionMethod::File
    &&& item.extents.len() >= 1
    &&& spec_load_extent(mdats, item.extents[0].extent_range, buf) is Ok
}

/// Loads all extents of one item into `item_data`. Memory can run out only where the
/// item asks for memory; everywhere else the result is what loading the item gives.
pub fn load_item(
    mdats: &mut Vec<MediaDataBox>,
    loc: &ItemLocationBoxItem,
    item_data: &mut Vec<u8>,
) -> (r: Result<(), Error>)
    ensures
        final(mdats)@.len() == old(mdats)@.len(),
        match r {
            Ok(_) => spec_load_item(media(old(mdats)@), loc@, old(item_data)@) == Ok::<
                (Seq<u8>, Seq<MediaData>),
                Error,
            >((final(item_data)@, media(final(mdats)@))),
            Err(e) => (e == Error::OutOfMemory && load_item_reserves(
                media(old(mdats)@),
                loc@,
                old(item_data)@,
            )) || spec_load_item(media(old(mdats)@), loc@, old(item_data)@) == Err::<
                (Seq<u8>, Seq<MediaData>),
                Error,
            >(e),
        },
{
    if loc.construction_method != ConstructionMethod::File {
        return Err(Error::Unsupported("unsupported construction_method"));
    }
    let ghost start = media(mdats@);
    let ghost buf = item_data@;
    let mut i: usize = 0;
    while i < loc.extents.len()
        invariant
            i <= loc.extents@.len(),
            mdats@.len() == old(mdats)@.len(),
            start == media(old(mdats)@),
            buf == old(item_data)@,
            loc.construction_method == ConstructionMethod::File,
            spec_load_extents(start, loc.extents@, i as int, buf) == Ok::<
                (Seq<u8>, Seq<MediaData>),
                Error,
            >((item_data@, media(mdats@))),
            i >= 1 ==> load_item_reserves(start, loc@, buf),
        decreases loc.extents@.len() - i,
    {
        proof {
            assert(spec_load_extents(start, loc.extents@, 0, buf) == Ok::<
                (Seq<u8>, Seq<MediaData>),
                Error,
            >((buf, start)));
        }
        proof {
            if spec_load_extents(start, loc.extents@, i + 1, buf) is Err {
                lemma_load_extents_error(
                    start,
                    loc.extents@,
                    i + 1,
                    loc.extents@.len() as int,
                    buf,
                );
            }
        }
        let extent = loc.extents[i];
        load_extent(mdats, &extent.extent_range, item_data)?;
        i = i + 1;
    }
    Ok(())
}

} // verus!
