//! Reading a whole AVIF file.
//!
//! [`spec_read_avif`] says what a file comes to: the file type box is checked, the boxes
//! after it are gathered into a [`TopState`], and the metadata is resolved against the media
//! data into the payloads of the primary item and of its alpha plane.

use vstd::prelude::*;
use crate::boxes::BoxType;
use crate::boxes::AVIF;
use crate::boxes::AVIS;
use crate::error::Error;
use crate::extents::media;
use crate::extents::MediaData;
use crate::extents::MediaDataBox;
use crate::fallible::try_push;
use crate::iloc::locations;
use crate::iloc::ItemLocation;
use crate::meta::read_avif_meta;
use crate::meta::ftyp_reserves;
use crate::meta::read_ftyp;
use crate::meta::spec_read_avif_meta;
use crate::meta::spec_read_ftyp;
use crate::meta::AvifInternalMeta;
use crate::meta::Meta;
use crate::obu::parse_obu;
use crate::obu::spec_parse_obu;
use crate::obu::SequenceHeaderObu;
use crate::props::ContentLightLevel;
use crate::props::MasteringDisplayColourVolume;
use crate::reader::check_parser_state;
use crate::reader::lemma_next_box_shrinks;
use crate::reader::next_box;
use crate::reader::skip_box_content;
use crate::reader::spec_check_parser_state;
use crate::reader::spec_next_box;
use crate::reader::BMFFBox;
use crate::reader::OffsetReader;
use crate::resolve::find_alpha_item;
use crate::resolve::find_light_level;
use crate::resolve::find_mastering_display;
use crate::resolve::is_premultiplied;
use crate::resolve::load_item;
use crate::resolve::load_item_reserves;
use crate::resolve::spec_alpha_item;
use crate::resolve::spec_light_level;
use crate::resolve::spec_load_item;
use crate::resolve::spec_mastering_display;
use crate::resolve::spec_premultiplied;

verus! {

/// What an AVIF file holds: the AV1 payloads and what the container says of them.
#[derive(Debug)]
pub struct AvifData {
    /// AV1 data for the color channels.
    ///
    /// The collected data indicated by the `pitm` box, See ISO 14496-12:2015 § 8.11.4
    pub primary_item: Vec<u8>,
    /// AV1 data for alpha channel.
    ///
    /// Associated alpha channel for the primary item, if any
    pub alpha_item: Option<Vec<u8>>,
    /// If true, divide RGB values by the alpha value.
    ///
    /// See `prem` in MIAF § 7.3.5.2
    pub premultiplied_alpha: bool,
    /// The content light level of the primary item, if the file gives one.
    pub content_light_level: Option<ContentLightLevel>,
    /// The mastering display colour volume of the primary item, if the file gives one.
    pub mastering_display: Option<MasteringDisplayColourVolume>,
}

/// What an AVIF file holds, as a mathematical value.
pub struct Avif {
    pub primary_item: Seq<u8>,
    pub alpha_item: Option<Seq<u8>>,
    pub premultiplied_alpha: bool,
    pub content_light_level: Option<ContentLightLevel>,
    pub mastering_display: Option<MasteringDisplayColourVolume>,
}

impl View for AvifData {
    type V = Avif;

    open spec fn view(&self) -> Avif {
        Avif {
            primary_item: self.primary_item@,
            alpha_item: match self.alpha_item {
                Some(alpha) => Some(alpha@),
                None => None,
            },
            premultiplied_alpha: self.premultiplied_alpha,
            content_light_level: self.content_light_level,
            mastering_display: self.mastering_display,
        }
    }
}

impl Default for AvifData {
    fn default() -> (r: AvifData)
        ensures
            r@ == (Avif {
                primary_item: Seq::empty(),
                alpha_item: None,
                premultiplied_alpha: false,
                content_light_level: None,
                mastering_display: None,
            }),
    {
        AvifData {
            primary_item: Vec::new(),
            alpha_item: None,
            premultiplied_alpha: false,
            content_light_level: None,
            mastering_display: None,
        }
    }
}

/// See `AvifData::primary_item_metadata()`
#[non_exhaustive]
#[derive(Debug, Clone, Copy)]
pub struct AV1Metadata {
    /// Should be true for non-animated AVIF
    pub still_picture: bool,
    /// At least 1.
    pub max_frame_width: u32,
    /// At least 1.
    pub max_frame_height: u32,
    /// 8, 10, or 12
    pub bit_depth: u8,
    /// 0, 1 or 2 for the level of complexity
    pub seq_profile: u8,
    /// Horizontal and vertical. `false` is full-res.
    pub chroma_subsampling: (bool, bool),
}

impl AV1Metadata {
    /// The part of a sequence header that callers are given.
    pub open spec fn of(h: SequenceHeaderObu) -> AV1Metadata {
        AV1Metadata {
            still_picture: h.still_picture,
            max_frame_width: h.max_frame_width,
            max_frame_height: h.max_frame_height,
            bit_depth: h.color.bit_depth,
            seq_profile: h.seq_profile,
            chroma_subsampling: (h.color.subsampling_x != 0, h.color.subsampling_y != 0),
        }
    }

    /// What holds of all metadata that was read: both dimensions are positive, the bit
    /// depth is 8, 10 or 12, and the profile is 0, 1 or 2.
    pub open spec fn valid(&self) -> bool {
        &&& self.max_frame_width >= 1
        &&& self.max_frame_height >= 1
        &&& (self.bit_depth == 8 || self.bit_depth == 10 || self.bit_depth == 12)
        &&& self.seq_profile <= 2
    }
}

/// The metadata that the AV1 stream `data` gives: that of its first sequence header.
pub open spec fn spec_metadata(data: Seq<u8>) -> Result<AV1Metadata, Error> {
    match spec_parse_obu(data) {
        Err(e) => Err(e),
        Ok(h) => Ok(AV1Metadata::of(h)),
    }
}

// ---------------------------------------------------------------------------------------
// Resolving metadata against media data
// ---------------------------------------------------------------------------------------
/// The payloads gathered so far and the media data boxes as they stand.
pub struct LoadState {
    pub primary: Seq<u8>,
    pub alpha: Option<Seq<u8>>,
    pub mdats: Seq<MediaData>,
}

/// What one item location adds to the payloads: its extents go to the primary payload
/// where it locates the primary item, to the alpha payload where it locates the alpha item,
/// and nowhere otherwise.
pub open spec fn spec_load_location(
    state: LoadState,
    item: ItemLocation,
    primary_item_id: u32,
    alpha_item_id: Option<u32>,
) -> Result<LoadState, Error> {
    if item.item_id == primary_item_id {
        match spec_load_item(state.mdats, item, state.primary) {
            Err(e) => Err(e),
            Ok((buf, mdats)) => Ok(LoadState { primary: buf, alpha: state.alpha, mdats }),
        }
    } else if alpha_item_id == Some(item.item_id) {
        match spec_load_item(
            state.mdats,
            item,
            match state.alpha {
                Some(alpha) => alpha,
                None => Seq::empty(),
            },
        ) {
            Err(e) => Err(e),
            Ok((buf, mdats)) => Ok(LoadState { primary: state.primary, alpha: Some(buf), mdats }),
        }
    } else {
        Ok(state)
    }
}

/// What the first `count` item locations add to the payloads, in their order.
pub open spec fn spec_load_locations(
    state: LoadState,
    items: Seq<ItemLocation>,
    count: int,
    primary_item_id: u32,
    alpha_item_id: Option<u32>,
) -> Result<LoadState, Error>
    decreases count,
{
    if count <= 0 {
        Ok(state)
    } else {
        match spec_load_locations(state, items, count - 1, primary_item_id, alpha_item_id) {
            Err(e) => Err(e),
            Ok(loaded) => spec_load_location(loaded, items[count - 1], primary_item_id, alpha_item_id),
        }
    }
}

/// What the metadata and the media data of a file come to.
pub open spec fn spec_resolve(meta: Meta, mdats: Seq<MediaData>) -> Result<Avif, Error> {
    let alpha_item_id = spec_alpha_item(
        meta.item_references,
        meta.properties,
        meta.primary_item_id,
        0,
    );
    match spec_load_locations(
        LoadState { primary: Seq::empty(), alpha: None, mdats },
        meta.iloc_items,
        meta.iloc_items.len() as int,
        meta.primary_item_id,
        alpha_item_id,
    ) {
        Err(e) => Err(e),
        Ok(state) => Ok(
            Avif {
                primary_item: state.primary,
                alpha_item: state.alpha,
                premultiplied_alpha: spec_premultiplied(
                    meta.item_references,
                    meta.primary_item_id,
                    alpha_item_id,
                ),
                content_light_level: spec_light_level(meta.properties, meta.primary_item_id, 0),
                mastering_display: spec_mastering_display(
                    meta.properties,
                    meta.primary_item_id,
                    0,
                ),
            },
        ),
    }
}

/// Once loading item locations has failed, it has failed for every larger count.
pub proof fn lemma_load_locations_error(
    state: LoadState,
    items: Seq<ItemLocation>,
    few: int,
    many: int,
    primary_item_id: u32,
    alpha_item_id: Option<u32>,
)
    requires
        few <= many,
        spec_load_locations(state, items, few, primary_item_id, alpha_item_id) is Err,
    ensures
        spec_load_locations(state, items, many, primary_item_id, alpha_item_id)
            == spec_load_locations(state, items, few, primary_item_id, alpha_item_id),
    decreases many - few,
{
    if few < many {
        lemma_load_locations_error(state, items, few, many - 1, primary_item_id, alpha_item_id);
    }
}

/// Whether loading one item location asks for memory: it locates the primary item or
/// the alpha item, and loading that item does.
pub open spec fn location_reserves(
    state: LoadState,
    item: ItemLocation,
    primary_item_id: u32,
    alpha_item_id: Option<u32>,
) -> bool {
    if item.item_id == primary_item_id {
        load_item_reserves(state.mdats, item, state.primary)
    } else if alpha_item_id == Some(item.item_id) {
        load_item_reserves(
            state.mdats,
            item,
            match state.alpha {
                Some(alpha) => alpha,
                None => Seq::empty(),
            },
        )
    } else {
        false
    }
}

/// Whether loading the first `count` item locations asks for memory: one of them does,
/// and those before it can be loaded.
pub open spec fn locations_reserve(
    state: LoadState,
    items: Seq<ItemLocation>,
    count: int,
    primary_item_id: u32,
    alpha_item_id: Option<u32>,
) -> bool
    decreases count,
{
    count > 0 && (locations_reserve(state, items, count - 1, primary_item_id, alpha_item_id)
        || match spec_load_locations(state, items, count - 1, primary_item_id, alpha_item_id) {
        Ok(loaded) => location_reserves(loaded, items[count - 1], primary_item_id, alpha_item_id),
        Err(_) => false,
    })
}

/// Whether resolving the metadata against the media data asks for memory. It does not,
/// for one, where no location is one of the primary item or of the alpha item.
pub open spec fn resolve_reserves(meta: Meta, mdats: Seq<MediaData>) -> bool {
    locations_reserve(
        LoadState { primary: Seq::empty(), alpha: None, mdats },
        meta.iloc_items,
        meta.iloc_items.len() as int,
        meta.primary_item_id,
        spec_alpha_item(meta.item_references, meta.properties, meta.primary_item_id, 0),
    )
}

/// Where fewer locations ask for memory, more do.
pub proof fn lemma_locations_reserve_more(
    state: LoadState,
    items: Seq<ItemLocation>,
    few: int,
    many: int,
    primary_item_id: u32,
    alpha_item_id: Option<u32>,
)
    requires
        few <= many,
        locations_reserve(state, items, few, primary_item_id, alpha_item_id),
    ensures
        locations_reserve(state, items, many, primary_item_id, alpha_item_id),
    decreases many - few,
{
    if few < many {
        lemma_locations_reserve_more(state, items, few, many - 1, primary_item_id, alpha_item_id);
    }
}

/// The view of an optional buffer.
pub open spec fn optional_bytes(buf: Option<Vec<u8>>) -> Option<Seq<u8>> {
    match buf {
        Some(bytes) => Some(bytes@),
        None => None,
    }
}

/// Resolves the metadata of a file against its media data. Memory can run out only
/// where resolving asks for memory; everywhere else the result is what the two come to.
#[verifier::loop_isolation(false)]
pub fn resolve(meta: &AvifInternalMeta, mdats: Vec<MediaDataBox>) -> (r: Result<AvifData, Error>)
    ensures
        match r {
            Ok(avif) => spec_resolve(meta@, media(mdats@)) == Ok::<Avif, Error>(avif@),
            Err(e) => (e == Error::OutOfMemory && resolve_reserves(meta@, media(mdats@)))
                || spec_resolve(meta@, media(mdats@)) == Err::<Avif, Error>(e),
        },
{
    let alpha_item_id = find_alpha_item(meta);
    let premultiplied_alpha = is_premultiplied(meta, alpha_item_id);
    let content_light_level = find_light_level(&meta.properties, meta.primary_item_id);
    let mastering_display = find_mastering_display(&meta.properties, meta.primary_item_id);

    let ghost start = LoadState { primary: Seq::empty(), alpha: None, mdats: media(mdats@) };
    let ghost items = locations(meta.iloc_items@);
    let mut sources = mdats;
    let mut primary_item: Vec<u8> = Vec::new();
    let mut alpha_item: Option<Vec<u8>> = None;

    // load data of relevant items
    let mut i: usize = 0;
    while i < meta.iloc_items.len()
        invariant
            i <= meta.iloc_items@.len(),
            items == locations(meta.iloc_items@),
            items == meta@.iloc_items,
            spec_load_locations(start, items, i as int, meta.primary_item_id, alpha_item_id)
                == Ok::<LoadState, Error>(
                LoadState {
                    primary: primary_item@,
                    alpha: optional_bytes(alpha_item),
                    mdats: media(sources@),
                },
            ),
        decreases meta.iloc_items@.len() - i,
    {
        proof {
            if spec_load_locations(start, items, i + 1, meta.primary_item_id, alpha_item_id)
                is Err {
                lemma_load_locations_error(
                    start,
                    items,
                    i + 1,
                    items.len() as int,
                    meta.primary_item_id,
                    alpha_item_id,
                );
            }
            if locations_reserve(start, items, i + 1, meta.primary_item_id, alpha_item_id) {
                lemma_locations_reserve_more(
                    start,
                    items,
                    i + 1,
                    items.len() as int,
                    meta.primary_item_id,
                    alpha_item_id,
                );
            }
        }
        let loc = &meta.iloc_items[i];
        let is_alpha = match alpha_item_id {
            Some(id) => id == loc.item_id,
            None => false,
        };
        if loc.item_id == meta.primary_item_id {
            load_item(&mut sources, loc, &mut primary_item)?;
        } else if is_alpha {
            let mut item_data = match alpha_item {
                Some(alpha) => alpha,
                None => Vec::new(),
            };
            load_item(&mut sources, loc, &mut item_data)?;
            alpha_item = Some(item_data);
        }
        i = i + 1;
    }
    Ok(
        AvifData {
            primary_item,
            alpha_item,
            premultiplied_alpha,
            content_light_level,
            mastering_display,
        },
    )
}

// ---------------------------------------------------------------------------------------
// The boxes of the file
// ---------------------------------------------------------------------------------------
/// What the boxes of the file have told so far: the metadata, and the media data boxes in
/// the order in which they occur.
pub struct TopState {
    pub meta: Option<Meta>,
    pub mdats: Seq<MediaData>,
}

/// The state before any box.
pub open spec fn top_start() -> TopState {
    TopState { meta: None, mdats: Seq::empty() }
}

/// The error for a second metadata box.
pub open spec fn second_meta() -> Error {
    Error::InvalidData(
        "There should be zero or one meta boxes per ISO 14496-12:2015 § 8.11.1.1",
    )
}

/// What the payload of a top-level box leaves behind and what it adds to the state, before
/// the check that it was read to its end. At most one metadata box may occur; every media
/// data box that declares content is kept with the offset of its content; any other box is
/// passed over.
pub open spec fn spec_top_payload<'a>(state: TopState, b: BMFFBox<'a>) -> Result<
    (TopState, OffsetReader<'a>),
    Error,
> {
    match b.head.name {
        BoxType::MetadataBox => if state.meta is Some {
            Err(second_meta())
        } else {
            match spec_read_avif_meta(b.content) {
                Err(e) => Err(e),
                Ok((meta, left)) => Ok((TopState { meta: Some(meta), mdats: state.mdats }, left)),
            }
        },
        BoxType::MediaDataBox => if b.content.limit > 0 {
            Ok(
                (
                    TopState {
                        meta: state.meta,
                        mdats: state.mdats.push(
                            MediaData {
                                offset: b.content.offset as u64,
                                data: b.content.bytes(b.content.avail()),
                            },
                        ),
                    },
                    b.content.after(b.content.avail()),
                ),
            )
        } else {
            Ok((state, b.content))
        },
        _ => Ok((state, b.content.after(b.content.avail()))),
    }
}

/// What a top-level box adds to the state: what its payload adds, provided that the
/// payload was read to its declared end.
pub open spec fn spec_top_child(state: TopState, b: BMFFBox) -> Result<TopState, Error> {
    match spec_top_payload(state, b) {
        Err(e) => Err(e),
        Ok((next, left)) => match spec_check_parser_state(left) {
            Err(e) => Err(e),
            Ok(_) => Ok(next),
        },
    }
}

/// The state after the boxes from `r` on.
pub open spec fn spec_top_boxes(r: OffsetReader, state: TopState) -> Result<TopState, Error>
    decreases r.avail(),
    when r.wf()
{
    match spec_next_box(r) {
        Err(e) => Err(e),
        Ok((None, _)) => Ok(state),
        Ok((Some(b), next)) => match spec_top_child(state, b) {
            Err(e) => Err(e),
            Ok(after) => spec_top_boxes(next, after),
        },
    }
}

/// The error for a file of the brand `avis`.
pub open spec fn animated() -> Error {
    Error::Unsupported("Animated AVIF is not supported. Please use real AV1 videos instead.")
}

/// The error for a file whose first box is not a file type box.
pub open spec fn ftyp_not_first() -> Error {
    Error::InvalidData("'ftyp' box must occur first")
}

/// The error for a file of a brand other than `avif` and `avis`.
pub open spec fn wrong_brand() -> Error {
    Error::InvalidData("ftyp must be 'avif'")
}

/// What the first box must be, and the reader after it: a file type box whose major brand
/// is `avif`. The brand `avis` (an animation) is not supported.
pub open spec fn spec_first_box<'a>(r: OffsetReader<'a>) -> Result<OffsetReader<'a>, Error> {
    match spec_next_box(r) {
        Err(e) => Err(e),
        Ok((None, next)) => Ok(next),
        Ok((Some(b), next)) => if b.head.name != BoxType::FileTypeBox {
            Err(ftyp_not_first())
        } else {
            match spec_read_ftyp(b.content) {
                Err(e) => Err(e),
                Ok((ftyp, _)) => if ftyp.major_brand.value == AVIF {
                    Ok(next)
                } else if ftyp.major_brand.value == AVIS {
                    Err(animated())
                } else {
                    Err(wrong_brand())
                },
            }
        },
    }
}

/// The reader at the start of a file.
pub open spec fn file_start<'a>(data: &'a [u8]) -> OffsetReader<'a> {
    OffsetReader { reader: data, offset: 0, end: data@.len() as usize, limit: data@.len() as u64 }
}

/// What the boxes of the file `data` hold: its metadata and its media data. The first box
/// is checked, the others are gathered, and a metadata box must be among them.
pub open spec fn spec_read_boxes(data: &[u8]) -> Result<(Meta, Seq<MediaData>), Error> {
    match spec_first_box(file_start(data)) {
        Err(e) => Err(e),
        Ok(r) => match spec_top_boxes(r, top_start()) {
            Err(e) => Err(e),
            Ok(state) => match state.meta {
                None => Err(Error::InvalidData("missing meta")),
                Some(meta) => Ok((meta, state.mdats)),
            },
        },
    }
}

/// What the file `data` comes to: what its metadata and its media data resolve to.
pub open spec fn spec_read_avif(data: &[u8]) -> Result<Avif, Error> {
    match spec_read_boxes(data) {
        Err(e) => Err(e),
        Ok((meta, mdats)) => spec_resolve(meta, mdats),
    }
}

/// Whether checking the first box from `r` on asks for memory: it is a file type box
/// whose reading does.
pub open spec fn first_box_reserves(r: OffsetReader) -> bool {
    match spec_next_box(r) {
        Ok((Some(b), _)) => b.head.name == BoxType::FileTypeBox && ftyp_reserves(b.content),
        _ => false,
    }
}

/// Whether reading the file `data` asks for memory: it starts with a file type box whose
/// brands can be read. Room for the brands is the first that is reserved; a file that fails
/// before, and a file of no bytes, ask for none.
pub open spec fn avif_reserves(data: &[u8]) -> bool {
    first_box_reserves(file_start(data))
}

/// Whether `r` is a result that reading the file `data` may give: what the file comes to,
/// or, where reading the file asks for memory, the report that memory ran out.
pub open spec fn reads_as(data: &[u8], r: Result<AvifData, Error>) -> bool {
    match r {
        Ok(avif) => spec_read_avif(data) == Ok::<Avif, Error>(avif@),
        Err(e) => (e == Error::OutOfMemory && avif_reserves(data)) || spec_read_avif(data)
            == Err::<Avif, Error>(e),
    }
}

/// What the boxes of the file have told so far.
#[derive(Debug)]
pub struct TopBuilder {
    pub meta: Option<AvifInternalMeta>,
    pub mdats: Vec<MediaDataBox>,
}

impl View for TopBuilder {
    type V = TopState;

    open spec fn view(&self) -> TopState {
        TopState {
            meta: match self.meta {
                Some(meta) => Some(meta@),
                None => None,
            },
            mdats: media(self.mdats@),
        }
    }
}

impl TopBuilder {
    /// The state before any box.
    pub fn new() -> (state: TopBuilder)
        ensures
            state@ == top_start(),
    {
        let state = TopBuilder { meta: None, mdats: Vec::new() };
        assert(media(state.mdats@) =~= Seq::<MediaData>::empty());
        state
    }

    /// Reads the payload of one top-level box into the state.
    fn read_payload(&mut self, b: &mut BMFFBox) -> (r: Result<(), Error>)
        requires
            old(b).wf(),
            old(b).untouched(),
        ensures
            final(b).wf(),
            match r {
                Ok(_) => spec_top_payload(old(self)@, *old(b)) == Ok::<
                    (TopState, OffsetReader),
                    Error,
                >((final(self)@, final(b).content)),
                Err(e) => e == Error::OutOfMemory || spec_top_payload(old(self)@, *old(b))
                    == Err::<(TopState, OffsetReader), Error>(e),
            },
    {
        match b.head.name {
            BoxType::MetadataBox => {
                if self.meta.is_some() {
                    return Err(
                        Error::InvalidData(
                            "There should be zero or one meta boxes per ISO 14496-12:2015 § 8.11.1.1",
                        ),
                    );
                }
                self.meta = Some(read_avif_meta(b)?);
            },
            BoxType::MediaDataBox => {
                if b.bytes_left() > 0 {
                    let offset = b.offset();
                    let data = b.read_into_try_vec()?;
                    let ghost before = media(self.mdats@);
                    let mdat = MediaDataBox { offset, data };
                    let ghost added = mdat@;
                    match try_push(&mut self.mdats, mdat) {
                        Ok(_) => {},
                        Err(e) => {
                            return Err(Error::from_try_reserve(e));
                        },
                    }
                    assert(media(self.mdats@) =~= before.push(added));
                }
            },
            _ => {
                skip_box_content(b)?;
            },
        }
        Ok(())
    }

    /// Reads one top-level box into the state and checks that it was read to its end.
    fn read_child(&mut self, b: &mut BMFFBox) -> (r: Result<(), Error>)
        requires
            old(b).wf(),
            old(b).untouched(),
        ensures
            match r {
                Ok(_) => spec_top_child(old(self)@, *old(b)) == Ok::<TopState, Error>(
                    final(self)@,
                ),
                Err(e) => e == Error::OutOfMemory || spec_top_child(old(self)@, *old(b)) == Err::<
                    TopState,
                    Error,
                >(e),
            },
    {
        self.read_payload(b)?;
        check_parser_state(&b.content)
    }
}

/// Checks the first box of a file.
fn read_first_box(f: &mut OffsetReader) -> (r: Result<(), Error>)
    requires
        old(f).wf(),
    ensures
        final(f).wf(),
        match r {
            Ok(_) => spec_first_box(*old(f)) == Ok::<OffsetReader, Error>(*final(f)),
            Err(e) => (e == Error::OutOfMemory && first_box_reserves(*old(f))) || spec_first_box(
                *old(f),
            ) == Err::<OffsetReader, Error>(e),
        },
        r is Ok && !first_box_reserves(*old(f)) ==> final(f).avail() == 0,
{
    // 'ftyp' box must occur first; see ISO 14496-12:2015 § 4.3.1
    if let Some(mut b) = next_box(f)? {
        if b.head.name == BoxType::FileTypeBox {
            let ftyp = read_ftyp(&mut b)?;
            if ftyp.major_brand.value != AVIF {
                if ftyp.major_brand.value == AVIS {
                    return Err(
                        Error::Unsupported(
                            "Animated AVIF is not supported. Please use real AV1 videos instead.",
                        ),
                    );
                }
                return Err(Error::InvalidData("ftyp must be 'avif'"));
            }
        } else {
            return Err(Error::InvalidData("'ftyp' box must occur first"));
        }
    }
    Ok(())
}

/// Reads the boxes of a file after the first.
fn read_top_boxes(f: &mut OffsetReader) -> (r: Result<TopBuilder, Error>)
    requires
        old(f).wf(),
    ensures
        match r {
            Ok(state) => spec_top_boxes(*old(f), top_start()) == Ok::<TopState, Error>(state@),
            Err(e) => (e == Error::OutOfMemory && old(f).avail() > 0) || spec_top_boxes(
                *old(f),
                top_start(),
            ) == Err::<TopState, Error>(e),
        },
{
    let mut state = TopBuilder::new();
    loop
        invariant
            f.wf(),
            f.avail() <= old(f).avail(),
            spec_top_boxes(*old(f), top_start()) == spec_top_boxes(*f, state@),
        decreases f.avail(),
    {
        proof {
            lemma_next_box_shrinks(*f);
        }
        let mut b = match next_box(f)? {
            Some(b) => b,
            None => {
                return Ok(state);
            },
        };
        state.read_child(&mut b)?;
    }
}

/// Read the contents of an AVIF file
///
/// Metadata is accumulated and returned in [`AvifData`] struct. Memory can run out only
/// where reading the file asks for memory; everywhere else the result is what the file comes
/// to.
pub fn read_avif(data: &[u8]) -> (r: Result<AvifData, Error>)
    ensures
        reads_as(data, r),
{
    let mut f = OffsetReader::new(data);
    assert(f == file_start(data));
    read_first_box(&mut f)?;
    let state = read_top_boxes(&mut f)?;
    let meta = match state.meta {
        Some(meta) => meta,
        None => {
            return Err(Error::InvalidData("missing meta"));
        },
    };
    resolve(&meta, state.mdats)
}

impl AvifData {
    /// Reads the AVIF file that `data` holds.
    pub fn from_reader(data: &[u8]) -> (r: Result<AvifData, Error>)
        ensures
            reads_as(data, r),
    {
        read_avif(data)
    }

    /// Reads the first sequence header of an AV1 stream and keeps what callers are given.
    pub fn parse_obu(data: &[u8]) -> (r: Result<AV1Metadata, Error>)
        ensures
            r == spec_metadata(data@),
            r is Ok ==> r->Ok_0.valid(),
    {
        let h = parse_obu(data)?;
        Ok(
            AV1Metadata {
                still_picture: h.still_picture,
                max_frame_width: h.max_frame_width,
                max_frame_height: h.max_frame_height,
                bit_depth: h.color.bit_depth,
                seq_profile: h.seq_profile,
                chroma_subsampling: (h.color.subsampling_x != 0, h.color.subsampling_y != 0),
            },
        )
    }

    /// Parses AV1 data to get basic properties of the opaque channel
    pub fn primary_item_metadata(&self) -> (r: Result<AV1Metadata, Error>)
        ensures
            r == spec_metadata(self@.primary_item),
            r is Ok ==> r->Ok_0.valid(),
    {
        Self::parse_obu(self.primary_item.as_slice())
    }

    /// Parses AV1 data to get basic properties about the alpha channel, if any
    pub fn alpha_item_metadata(&self) -> (r: Result<Option<AV1Metadata>, Error>)
        ensures
            match self@.alpha_item {
                None => r == Ok::<Option<AV1Metadata>, Error>(None),
                Some(alpha) => match spec_metadata(alpha) {
                    Ok(metadata) => r == Ok::<Option<AV1Metadata>, Error>(Some(metadata)),
                    Err(e) => r == Err::<Option<AV1Metadata>, Error>(e),
                },
            },
            match r {
                Ok(Some(metadata)) => metadata.valid(),
                _ => true,
            },
    {
        match &self.alpha_item {
            None => Ok(None),
            Some(alpha) => Ok(Some(Self::parse_obu(alpha.as_slice())?)),
        }
    }
}

} // verus!
