use avif_parse::read_avif;
use avif_parse::AvifData;
use avif_parse::ContentLightLevel;
use avif_parse::Error;

const ALPHA_URN: &str = "urn:mpeg:mpegB:cicp:systems:auxiliary:alpha";

fn bx(kind: &[u8; 4], payload: &[u8]) -> Vec<u8> {
    let mut out = ((payload.len() + 8) as u32).to_be_bytes().to_vec();
    out.extend_from_slice(kind);
    out.extend_from_slice(payload);
    out
}

fn full(kind: &[u8; 4], version: u8, flags: u32, payload: &[u8]) -> Vec<u8> {
    let mut body = vec![version];
    body.extend_from_slice(&flags.to_be_bytes()[1..]);
    body.extend_from_slice(payload);
    bx(kind, &body)
}

fn ftyp(major: &[u8; 4]) -> Vec<u8> {
    let mut body = major.to_vec();
    body.extend(0u32.to_be_bytes());
    body.extend(b"avif");
    body.extend(b"mif1");
    body.extend(b"miaf");
    bx(b"ftyp", &body)
}

fn hdlr() -> Vec<u8> {
    let mut body = vec![0u8; 4];
    body.extend(b"pict");
    body.extend([0u8; 13]);
    full(b"hdlr", 0, 0, &body)
}

fn pitm(id: u16) -> Vec<u8> {
    full(b"pitm", 0, 0, &id.to_be_bytes())
}

fn infe(id: u16, kind: &[u8; 4]) -> Vec<u8> {
    let mut body = id.to_be_bytes().to_vec();
    body.extend(0u16.to_be_bytes());
    body.extend(kind);
    body.push(0);
    full(b"infe", 2, 0, &body)
}

fn iinf(entries: &[Vec<u8>]) -> Vec<u8> {
    let mut body = (entries.len() as u16).to_be_bytes().to_vec();
    for e in entries {
        body.extend(e);
    }
    full(b"iinf", 0, 0, &body)
}

/// A version 0 item location box with 32-bit offsets and lengths and no base offset.
fn iloc(items: &[(u16, Vec<(u32, u32)>)]) -> Vec<u8> {
    let mut body = vec![0x44, 0x00];
    body.extend((items.len() as u16).to_be_bytes());
    for (id, extents) in items {
        body.extend(id.to_be_bytes());
        body.extend(0u16.to_be_bytes());
        body.extend((extents.len() as u16).to_be_bytes());
        for (offset, length) in extents {
            body.extend(offset.to_be_bytes());
            body.extend(length.to_be_bytes());
        }
    }
    full(b"iloc", 0, 0, &body)
}

/// A version 1 item location box: each item has a construction method.
fn iloc_v1(items: &[(u16, u16, Vec<(u32, u32)>)]) -> Vec<u8> {
    let mut body = vec![0x44, 0x00];
    body.extend((items.len() as u16).to_be_bytes());
    for (id, method, extents) in items {
        body.extend(id.to_be_bytes());
        body.extend(method.to_be_bytes());
        body.extend(0u16.to_be_bytes());
        body.extend((extents.len() as u16).to_be_bytes());
        for (offset, length) in extents {
            body.extend(offset.to_be_bytes());
            body.extend(length.to_be_bytes());
        }
    }
    full(b"iloc", 1, 0, &body)
}

fn reference(kind: &[u8; 4], from: u16, to: &[u16]) -> Vec<u8> {
    let mut body = from.to_be_bytes().to_vec();
    body.extend((to.len() as u16).to_be_bytes());
    for id in to {
        body.extend(id.to_be_bytes());
    }
    bx(kind, &body)
}

fn iref(references: &[Vec<u8>]) -> Vec<u8> {
    full(b"iref", 0, 0, &references.concat())
}

fn auxc(urn: &str) -> Vec<u8> {
    let mut body = urn.as_bytes().to_vec();
    body.push(0);
    full(b"auxC", 0, 0, &body)
}

fn pixi(depths: &[u8]) -> Vec<u8> {
    let mut body = vec![depths.len() as u8];
    body.extend(depths);
    full(b"pixi", 0, 0, &body)
}

fn ispe(width: u32, height: u32) -> Vec<u8> {
    let mut body = width.to_be_bytes().to_vec();
    body.extend(height.to_be_bytes());
    full(b"ispe", 0, 0, &body)
}

fn clli(max_cll: u16, max_pall: u16) -> Vec<u8> {
    let mut body = max_cll.to_be_bytes().to_vec();
    body.extend(max_pall.to_be_bytes());
    bx(b"clli", &body)
}

fn mdcv(primaries: [(u16, u16); 3], white: (u16, u16), max: u32, min: u32) -> Vec<u8> {
    let mut body = Vec::new();
    for (x, y) in primaries {
        body.extend(x.to_be_bytes());
        body.extend(y.to_be_bytes());
    }
    body.extend(white.0.to_be_bytes());
    body.extend(white.1.to_be_bytes());
    body.extend(max.to_be_bytes());
    body.extend(min.to_be_bytes());
    bx(b"mdcv", &body)
}

/// An item properties box: the properties, and for each item the 1-based indices of its
/// properties.
fn iprp(properties: &[Vec<u8>], associations: &[(u16, Vec<u8>)]) -> Vec<u8> {
    let mut table = (associations.len() as u32).to_be_bytes().to_vec();
    for (id, indices) in associations {
        table.extend(id.to_be_bytes());
        table.push(indices.len() as u8);
        table.extend(indices);
    }
    let mut body = bx(b"ipco", &properties.concat());
    body.extend(full(b"ipma", 0, 0, &table));
    bx(b"iprp", &body)
}

fn meta(children: &[Vec<u8>]) -> Vec<u8> {
    full(b"meta", 0, 0, &children.concat())
}

fn mdat(payload: &[u8]) -> Vec<u8> {
    bx(b"mdat", payload)
}

/// The payload of an item: a temporal delimiter, a sequence header of ten bytes for a
/// still picture of 100 by 50 at 8 bits in 4:2:0, and filler up to `len` bytes.
fn av1_payload(len: usize) -> Vec<u8> {
    let mut out = vec![0x12, 0x00, 0x0a, 0x0a, 0x19, 0x1d, 0x58, 0xf1, 0x68, 0x6c, 0, 0, 0, 0];
    let mut i = 0u32;
    while out.len() < len {
        out.push((i * 7 + 3) as u8);
        i += 1;
    }
    out.truncate(len);
    out
}

/// The offset of the first media data payload in a file that starts with `ftyp(b"avif")`.
fn first_payload_offset() -> u32 {
    ftyp(b"avif").len() as u32 + 8
}

/// A file with one item of type `av01` whose payload lies in one media data box.
fn simple_file(payload: &[u8]) -> Vec<u8> {
    let start = first_payload_offset();
    let mut file = ftyp(b"avif");
    file.extend(mdat(payload));
    file.extend(meta(&[
        hdlr(),
        pitm(1),
        iloc(&[(1, vec![(start, payload.len() as u32)])]),
        iinf(&[infe(1, b"av01")]),
        iprp(&[ispe(100, 50), pixi(&[8, 8, 8])], &[(1, vec![1, 0x82])]),
    ]));
    file
}

/// A file whose metadata box holds the given boxes and whose only media data box holds
/// `payload`.
fn file_with_meta(children: &[Vec<u8>], payload: &[u8]) -> Vec<u8> {
    let mut file = ftyp(b"avif");
    file.extend(mdat(payload));
    file.extend(meta(children));
    file
}

#[test]
fn public_avif_primary_item() {
    // The file is built here: one item of 6979 bytes in one extent, with the prefix below.
    let input = simple_file(&av1_payload(6979));
    let context = read_avif(&input).expect("read_avif failed");
    assert_eq!(context.primary_item.len(), 6979);
    assert_eq!(context.primary_item[0..4], [0x12, 0x00, 0x0a, 0x0a]);
}

#[test]
fn public_avif_primary_item_split_extents() {
    // The file is built here: one item of 4387 bytes in split extents.
    // The item lies in three pieces: two in a first media data box, out of order, and one
    // that is all of a second media data box.
    let payload = av1_payload(4387);
    let (a, rest) = payload.split_at(1000);
    let (b, c) = rest.split_at(2000);
    let mut first = b.to_vec();
    first.extend([0xee; 16]);
    first.extend(a);
    let start = first_payload_offset();
    let second_start = start + first.len() as u32 + 8;
    let mut input = ftyp(b"avif");
    input.extend(mdat(&first));
    input.extend(mdat(c));
    input.extend(meta(&[
        pitm(1),
        iinf(&[infe(1, b"av01")]),
        iloc(&[(
            1,
            vec![(start + 2016, 1000), (start, 2000), (second_start, c.len() as u32)],
        )]),
    ]));
    let context = read_avif(&input).expect("read_avif failed");
    assert_eq!(context.primary_item.len(), 4387);
    assert_eq!(context.primary_item, payload);
}

#[test]
fn extent_that_ends_after_its_box_is_a_data_error() {
    // An extent that starts in a media data box and ends after it.
    let payload = av1_payload(64);
    let start = first_payload_offset();
    let input = file_with_meta(
        &[pitm(1), iinf(&[infe(1, b"av01")]), iloc(&[(1, vec![(start + 60, 5)])])],
        &payload,
    );
    assert!(read_avif(&input).is_err());
    assert!(matches!(
        read_avif(&input),
        Err(Error::InvalidData("extent crosses box boundary"))
    ));
}

#[test]
fn extent_that_starts_before_every_box_is_a_data_error() {
    // An extent that starts before every media data box.
    let payload = av1_payload(64);
    let start = first_payload_offset();
    let input = file_with_meta(
        &[pitm(1), iinf(&[infe(1, b"av01")]), iloc(&[(1, vec![(start - 1, 5)])])],
        &payload,
    );
    assert!(read_avif(&input).is_err());
    assert!(matches!(
        read_avif(&input),
        Err(Error::InvalidData("iloc contains an extent that is not in mdat"))
    ));
}

#[test]
fn primary_item_of_type_grid_is_unsupported() {
    let payload = av1_payload(64);
    let start = first_payload_offset();
    let input = file_with_meta(
        &[pitm(1), iinf(&[infe(1, b"grid")]), iloc(&[(1, vec![(start, 64)])])],
        &payload,
    );
    assert!(matches!(
        read_avif(&input),
        Err(Error::Unsupported("Grid-based AVIF collage is not supported"))
    ));
}

#[test]
fn primary_item_metadata_is_read_from_the_payload() {
    let input = simple_file(&av1_payload(200));
    let avif = AvifData::from_reader(&input).unwrap();
    let meta = avif.primary_item_metadata().unwrap();
    assert!(meta.still_picture);
    assert_eq!(meta.max_frame_width, 100);
    assert_eq!(meta.max_frame_height, 50);
    assert_eq!(meta.bit_depth, 8);
    assert_eq!(meta.seq_profile, 0);
    assert_eq!(meta.chroma_subsampling, (true, true));
    assert!(avif.alpha_item.is_none());
    assert!(avif.alpha_item_metadata().unwrap().is_none());
    assert!(!avif.premultiplied_alpha);
    assert!(avif.content_light_level.is_none());
    assert!(avif.mastering_display.is_none());
}

#[test]
fn payload_without_sequence_header_has_no_metadata() {
    let input = simple_file(&[0x12, 0x00]);
    let avif = read_avif(&input).unwrap();
    assert!(matches!(avif.primary_item_metadata(), Err(Error::UnexpectedEOF)));
}

/// A file with a primary item 1 and an auxiliary item 2, each in its own media data box.
fn file_with_auxiliary(urn: &str, references: &[Vec<u8>], alpha_first: bool) -> Vec<u8> {
    let color = av1_payload(300);
    let alpha = av1_payload(120);
    let start = first_payload_offset();
    let alpha_start = start + 300 + 8;
    let mut locations = vec![(1, vec![(start, 300)]), (2, vec![(alpha_start, 120)])];
    if alpha_first {
        locations.reverse();
    }
    let mut file = ftyp(b"avif");
    file.extend(mdat(&color));
    file.extend(mdat(&alpha));
    file.extend(meta(&[
        hdlr(),
        pitm(1),
        iloc(&locations),
        iinf(&[infe(1, b"av01"), infe(2, b"av01")]),
        iprp(&[ispe(100, 50), auxc(urn)], &[(1, vec![1]), (2, vec![1, 0x82])]),
        iref(references),
    ]));
    file
}

#[test]
fn alpha_item_is_found_through_reference_and_property() {
    let input = file_with_auxiliary(ALPHA_URN, &[reference(b"auxl", 2, &[1])], false);
    let avif = read_avif(&input).unwrap();
    assert_eq!(avif.primary_item, av1_payload(300));
    assert_eq!(avif.alpha_item, Some(av1_payload(120)));
    assert!(!avif.premultiplied_alpha);
    let meta = avif.alpha_item_metadata().unwrap().unwrap();
    assert_eq!(meta.max_frame_width, 100);
}

#[test]
fn alpha_item_located_before_the_primary_item() {
    let input = file_with_auxiliary(ALPHA_URN, &[reference(b"auxl", 2, &[1])], true);
    let avif = read_avif(&input).unwrap();
    assert_eq!(avif.primary_item, av1_payload(300));
    assert_eq!(avif.alpha_item, Some(av1_payload(120)));
}

#[test]
fn premultiplied_alpha_needs_a_prem_reference() {
    let input = file_with_auxiliary(
        ALPHA_URN,
        &[reference(b"auxl", 2, &[1]), reference(b"prem", 1, &[2])],
        false,
    );
    let avif = read_avif(&input).unwrap();
    assert!(avif.alpha_item.is_some());
    assert!(avif.premultiplied_alpha);

    // The reference must run from the primary item to the alpha item.
    let input = file_with_auxiliary(
        ALPHA_URN,
        &[reference(b"auxl", 2, &[1]), reference(b"prem", 2, &[1])],
        false,
    );
    let avif = read_avif(&input).unwrap();
    assert!(avif.alpha_item.is_some());
    assert!(!avif.premultiplied_alpha);
}

#[test]
fn auxiliary_item_of_another_type_is_no_alpha() {
    let input = file_with_auxiliary(
        "urn:mpeg:mpegB:cicp:systems:auxiliary:depth",
        &[reference(b"auxl", 2, &[1]), reference(b"prem", 1, &[2])],
        false,
    );
    let avif = read_avif(&input).unwrap();
    assert_eq!(avif.primary_item, av1_payload(300));
    assert!(avif.alpha_item.is_none());
    assert!(!avif.premultiplied_alpha);
}

#[test]
fn alpha_needs_an_auxl_reference_to_the_primary_item() {
    for references in [
        vec![],
        vec![reference(b"thmb", 2, &[1])],
        vec![reference(b"auxl", 2, &[3])],
        vec![reference(b"auxl", 1, &[2])],
    ] {
        let input = file_with_auxiliary(ALPHA_URN, &references, false);
        let avif = read_avif(&input).unwrap();
        assert!(avif.alpha_item.is_none());
    }
}

#[test]
fn first_alpha_candidate_wins() {
    // Items 2 and 3 are both alpha planes of item 1; the reference of item 3 comes first.
    let start = first_payload_offset();
    let input = file_with_meta(
        &[
            pitm(1),
            iinf(&[infe(1, b"av01"), infe(2, b"av01"), infe(3, b"av01")]),
            iloc(&[(1, vec![(start, 10)]), (2, vec![(start + 10, 20)]), (3, vec![(start + 30, 30)])]),
            iprp(&[auxc(ALPHA_URN)], &[(2, vec![1]), (3, vec![1])]),
            iref(&[reference(b"auxl", 3, &[1]), reference(b"auxl", 2, &[1])]),
        ],
        &av1_payload(60),
    );
    let avif = read_avif(&input).unwrap();
    assert_eq!(avif.primary_item, av1_payload(60)[..10]);
    assert_eq!(avif.alpha_item.unwrap(), av1_payload(60)[30..]);
}

#[test]
fn alpha_that_takes_the_box_leaves_the_primary_item_empty() {
    // Both items run from the start of the one media data box to its end, and the alpha
    // item is located first: it takes the box's bytes.
    let start = first_payload_offset();
    let input = file_with_meta(
        &[
            pitm(1),
            iinf(&[infe(1, b"av01"), infe(2, b"av01")]),
            iloc(&[(2, vec![(start, 0)]), (1, vec![(start, 0)])]),
            iprp(&[auxc(ALPHA_URN)], &[(2, vec![1])]),
            iref(&[reference(b"auxl", 2, &[1])]),
        ],
        &av1_payload(60),
    );
    let avif = read_avif(&input).unwrap();
    assert_eq!(avif.alpha_item, Some(av1_payload(60)));
    assert!(avif.primary_item.is_empty());
}

#[test]
fn content_light_level_only() {
    let start = first_payload_offset();
    let input = file_with_meta(
        &[
            pitm(1),
            iinf(&[infe(1, b"av01")]),
            iloc(&[(1, vec![(start, 64)])]),
            iprp(&[ispe(1, 1), clli(1000, 400)], &[(1, vec![1, 2])]),
        ],
        &av1_payload(64),
    );
    let avif = read_avif(&input).unwrap();
    assert_eq!(
        avif.content_light_level,
        Some(ContentLightLevel { max_content_light_level: 1000, max_pic_average_light_level: 400 })
    );
    assert!(avif.mastering_display.is_none());
}

#[test]
fn mastering_display_only() {
    let start = first_payload_offset();
    let input = file_with_meta(
        &[
            pitm(1),
            iinf(&[infe(1, b"av01")]),
            iloc(&[(1, vec![(start, 64)])]),
            iprp(
                &[mdcv(
                    [(13250, 34500), (7500, 3000), (34000, 16000)],
                    (15635, 16450),
                    10_000_000,
                    50,
                )],
                &[(1, vec![1])],
            ),
        ],
        &av1_payload(64),
    );
    let avif = read_avif(&input).unwrap();
    assert!(avif.content_light_level.is_none());
    let volume = avif.mastering_display.unwrap();
    assert_eq!(volume.primaries, ((13250, 34500), (7500, 3000), (34000, 16000)));
    assert_eq!(volume.white_point, (15635, 16450));
    assert_eq!(volume.max_luminance, 10_000_000);
    assert_eq!(volume.min_luminance, 50);
}

#[test]
fn content_light_level_and_mastering_display() {
    let start = first_payload_offset();
    let input = file_with_meta(
        &[
            pitm(1),
            iinf(&[infe(1, b"av01"), infe(2, b"av01")]),
            iloc(&[(1, vec![(start, 64)])]),
            iprp(
                &[
                    clli(7, 8),
                    mdcv([(1, 2), (3, 4), (5, 6)], (7, 8), 9, 10),
                    clli(4000, 1200),
                    mdcv([(35400, 14600), (8500, 39850), (6550, 2300)], (15635, 16450), 40_000_000, 1),
                ],
                &[(2, vec![1, 2]), (1, vec![3, 4, 1])],
            ),
        ],
        &av1_payload(64),
    );
    let avif = read_avif(&input).unwrap();
    assert_eq!(
        avif.content_light_level,
        Some(ContentLightLevel { max_content_light_level: 4000, max_pic_average_light_level: 1200 })
    );
    let volume = avif.mastering_display.unwrap();
    assert_eq!(volume.primaries, ((35400, 14600), (8500, 39850), (6550, 2300)));
    assert_eq!(volume.white_point, (15635, 16450));
    assert_eq!(volume.max_luminance, 40_000_000);
    assert_eq!(volume.min_luminance, 1);
}

#[test]
fn truncated_light_level_is_an_error() {
    let start = first_payload_offset();
    let input = file_with_meta(
        &[
            pitm(1),
            iinf(&[infe(1, b"av01")]),
            iloc(&[(1, vec![(start, 64)])]),
            iprp(&[bx(b"clli", &[0, 1, 2])], &[(1, vec![1])]),
        ],
        &av1_payload(64),
    );
    assert!(matches!(read_avif(&input), Err(Error::UnexpectedEOF)));
}

#[test]
fn first_box_must_be_ftyp() {
    let mut input = mdat(&[1, 2, 3]);
    input.extend(simple_file(&av1_payload(10)));
    assert!(matches!(read_avif(&input), Err(Error::InvalidData("'ftyp' box must occur first"))));

    let input = bx(b"free", &[]);
    assert!(matches!(read_avif(&input), Err(Error::InvalidData("'ftyp' box must occur first"))));
}

#[test]
fn major_brand_must_be_avif() {
    let mut input = simple_file(&av1_payload(10));
    input[8..12].copy_from_slice(b"avis");
    assert!(matches!(
        read_avif(&input),
        Err(Error::Unsupported(
            "Animated AVIF is not supported. Please use real AV1 videos instead."
        ))
    ));

    for brand in [b"heic", b"mif1", b"AVIF", b"avi\0"] {
        input[8..12].copy_from_slice(brand);
        assert!(matches!(read_avif(&input), Err(Error::InvalidData("ftyp must be 'avif'"))));
    }
}

#[test]
fn ftyp_must_hold_whole_brands() {
    let mut input = bx(b"ftyp", b"avif\0\0\0\0avi");
    input.extend(&simple_file(&av1_payload(10))[ftyp(b"avif").len()..]);
    assert!(matches!(read_avif(&input), Err(Error::InvalidData("invalid ftyp size"))));

    assert!(matches!(read_avif(&bx(b"ftyp", b"avif")), Err(Error::UnexpectedEOF)));
}

#[test]
fn empty_input_has_no_meta() {
    assert!(matches!(read_avif(&[]), Err(Error::InvalidData("missing meta"))));
    assert!(matches!(read_avif(&ftyp(b"avif")), Err(Error::InvalidData("missing meta"))));
}

#[test]
fn two_meta_boxes_are_an_error() {
    let mut input = simple_file(&av1_payload(10));
    let meta_box = input[ftyp(b"avif").len() + 18..].to_vec();
    input.extend(meta_box);
    assert!(matches!(
        read_avif(&input),
        Err(Error::InvalidData(
            "There should be zero or one meta boxes per ISO 14496-12:2015 § 8.11.1.1"
        ))
    ));
}

#[test]
fn two_boxes_of_a_kind_in_meta_are_an_error() {
    let start = first_payload_offset();
    let payload = av1_payload(10);
    let one = [pitm(1), iinf(&[infe(1, b"av01")]), iloc(&[(1, vec![(start, 10)])])];
    assert!(read_avif(&file_with_meta(&one, &payload)).is_ok());

    let mut twice = one.to_vec();
    twice.push(iinf(&[infe(1, b"av01")]));
    assert!(matches!(
        read_avif(&file_with_meta(&twice, &payload)),
        Err(Error::InvalidData(
            "There should be zero or one iinf boxes per ISO 14496-12:2015 § 8.11.6.1"
        ))
    ));

    let mut twice = one.to_vec();
    twice.push(iloc(&[(1, vec![(start, 10)])]));
    assert!(matches!(
        read_avif(&file_with_meta(&twice, &payload)),
        Err(Error::InvalidData(
            "There should be zero or one iloc boxes per ISO 14496-12:2015 § 8.11.3.1"
        ))
    ));

    let mut twice = one.to_vec();
    twice.push(pitm(1));
    assert!(matches!(
        read_avif(&file_with_meta(&twice, &payload)),
        Err(Error::InvalidData(
            "There should be zero or one pitm boxes per ISO 14496-12:2015 § 8.11.4.1"
        ))
    ));
}

#[test]
fn meta_must_name_and_describe_the_primary_item() {
    let start = first_payload_offset();
    let payload = av1_payload(10);
    let location = iloc(&[(1, vec![(start, 10)])]);
    let cases: [(Vec<Vec<u8>>, &str); 5] = [
        (
            vec![iinf(&[infe(1, b"av01")]), location.clone()],
            "Required pitm box not present in meta box",
        ),
        (vec![pitm(1), location.clone()], "iinf missing"),
        (
            vec![pitm(1), iinf(&[infe(2, b"av01")]), location.clone()],
            "primary_item_id not present in iinf box",
        ),
        (
            vec![pitm(1), iinf(&[infe(1, b"hvc1")]), location.clone()],
            "primary_item_id type is not av01",
        ),
        (vec![pitm(1), iinf(&[infe(1, b"av01")])], "iloc missing"),
    ];
    for (children, reason) in cases {
        match read_avif(&file_with_meta(&children, &payload)) {
            Err(Error::InvalidData(why)) => assert_eq!(why, reason),
            other => panic!("{:?}", other.map(|_| ())),
        }
    }
}

#[test]
fn first_info_of_the_primary_item_decides_its_type() {
    let start = first_payload_offset();
    let payload = av1_payload(10);
    let input = file_with_meta(
        &[
            pitm(1),
            iinf(&[infe(1, b"grid"), infe(1, b"av01")]),
            iloc(&[(1, vec![(start, 10)])]),
        ],
        &payload,
    );
    assert!(matches!(read_avif(&input), Err(Error::Unsupported(_))));
}

#[test]
fn meta_version_and_flags_must_be_zero() {
    let payload = av1_payload(10);
    let mut input = ftyp(b"avif");
    input.extend(mdat(&payload));
    input.extend(full(b"meta", 1, 0, &pitm(1)));
    assert!(matches!(read_avif(&input), Err(Error::Unsupported("unsupported meta version"))));

    let mut input = ftyp(b"avif");
    input.extend(full(b"meta", 0, 1, &pitm(1)));
    assert!(matches!(read_avif(&input), Err(Error::Unsupported("expected flags to be 0"))));
}

#[test]
fn item_without_location_gives_an_empty_payload() {
    let start = first_payload_offset();
    let input = file_with_meta(
        &[pitm(1), iinf(&[infe(1, b"av01")]), iloc(&[(2, vec![(start, 10)])])],
        &av1_payload(10),
    );
    assert!(read_avif(&input).unwrap().primary_item.is_empty());
}

#[test]
fn items_in_the_item_data_box_cannot_be_loaded() {
    let start = first_payload_offset();
    let payload = av1_payload(10);
    let input = file_with_meta(
        &[pitm(1), iinf(&[infe(1, b"av01")]), iloc_v1(&[(1, 1, vec![(start, 10)])])],
        &payload,
    );
    assert!(matches!(
        read_avif(&input),
        Err(Error::Unsupported("unsupported construction_method"))
    ));

    // Items that are not loaded may lie there.
    let input = file_with_meta(
        &[
            pitm(1),
            iinf(&[infe(1, b"av01"), infe(2, b"Exif")]),
            iloc_v1(&[(2, 1, vec![(0, 4)]), (1, 0, vec![(start, 10)])]),
        ],
        &payload,
    );
    assert_eq!(read_avif(&input).unwrap().primary_item, payload);
}

#[test]
fn valid_file_gives_a_primary_item_that_is_not_empty() {
    for len in [1usize, 2, 100, 5000] {
        let avif = read_avif(&simple_file(&av1_payload(len))).unwrap();
        assert!(!avif.primary_item.is_empty());
        assert_eq!(avif.primary_item, av1_payload(len));
    }
}

#[test]
fn extent_to_the_end_of_the_box() {
    let start = first_payload_offset();
    let payload = av1_payload(50);
    // From the start: the whole box.
    let input = file_with_meta(
        &[pitm(1), iinf(&[infe(1, b"av01")]), iloc(&[(1, vec![(start, 0)])])],
        &payload,
    );
    assert_eq!(read_avif(&input).unwrap().primary_item, payload);
    // From inside: the rest of the box.
    let input = file_with_meta(
        &[pitm(1), iinf(&[infe(1, b"av01")]), iloc(&[(1, vec![(start + 20, 0)])])],
        &payload,
    );
    assert_eq!(read_avif(&input).unwrap().primary_item, payload[20..]);
}

#[test]
fn extent_that_is_the_whole_box_takes_it() {
    let start = first_payload_offset();
    let payload = av1_payload(50);
    // The second extent finds the box empty.
    let input = file_with_meta(
        &[pitm(1), iinf(&[infe(1, b"av01")]), iloc(&[(1, vec![(start, 50), (start, 50)])])],
        &payload,
    );
    assert!(matches!(
        read_avif(&input),
        Err(Error::InvalidData("iloc contains an extent that is not in mdat"))
    ));
    // Copied ranges leave the box as it is.
    let input = file_with_meta(
        &[pitm(1), iinf(&[infe(1, b"av01")]), iloc(&[(1, vec![(start, 49), (start, 49)])])],
        &payload,
    );
    assert_eq!(read_avif(&input).unwrap().primary_item.len(), 98);
}

#[test]
fn locations_of_one_item_add_up() {
    let start = first_payload_offset();
    let payload = av1_payload(50);
    let input = file_with_meta(
        &[
            pitm(1),
            iinf(&[infe(1, b"av01")]),
            iloc(&[(1, vec![(start + 10, 5)]), (7, vec![(start, 1)]), (1, vec![(start, 3)])]),
        ],
        &payload,
    );
    let mut expected = payload[10..15].to_vec();
    expected.extend(&payload[..3]);
    assert_eq!(read_avif(&input).unwrap().primary_item, expected);
}

#[test]
fn uncovered_extents_are_data_errors() {
    let start = first_payload_offset();
    let payload = av1_payload(50);
    for extent in [
        (start + 50, 1),
        (start + 49, 2),
        (start + 50, 0),
        (0, 10),
        (u32::MAX, 1),
        (start + 1, u32::MAX),
    ] {
        let input = file_with_meta(
            &[pitm(1), iinf(&[infe(1, b"av01")]), iloc(&[(1, vec![extent])])],
            &payload,
        );
        assert!(matches!(read_avif(&input), Err(Error::InvalidData(_))), "{:?}", extent);
    }
}

#[test]
fn empty_media_data_box_is_not_kept() {
    let start = first_payload_offset();
    let mut input = ftyp(b"avif");
    input.extend(mdat(&[]));
    input.extend(mdat(&av1_payload(20)));
    input.extend(meta(&[
        pitm(1),
        iinf(&[infe(1, b"av01")]),
        iloc(&[(1, vec![(start + 8, 20)])]),
    ]));
    assert_eq!(read_avif(&input).unwrap().primary_item, av1_payload(20));
}

#[test]
fn unknown_boxes_are_passed_over() {
    let payload = av1_payload(30);
    let mut input = ftyp(b"avif");
    input.extend(bx(b"free", &[0; 9]));
    let start = input.len() as u32 + 8;
    input.extend(mdat(&payload));
    input.extend(bx(b"uuid", &[7; 20]));
    input.extend(meta(&[
        bx(b"dinf", &[1, 2, 3]),
        pitm(1),
        bx(b"idat", &[]),
        iinf(&[infe(1, b"av01")]),
        iloc(&[(1, vec![(start, 30)])]),
        bx(b"grpl", &[0; 40]),
    ]));
    input.extend(bx(b"skip", &[]));
    assert_eq!(read_avif(&input).unwrap().primary_item, payload);
}

#[test]
fn truncated_files_are_errors() {
    let input = simple_file(&av1_payload(40));
    assert!(read_avif(&input).is_ok());
    for len in 1..input.len() {
        assert!(read_avif(&input[..len]).is_err(), "{}", len);
    }
}

#[test]
fn trailing_bytes_are_a_truncated_box() {
    let mut input = simple_file(&av1_payload(40));
    input.extend([0, 0, 0]);
    assert!(matches!(read_avif(&input), Err(Error::UnexpectedEOF)));
}

#[test]
fn box_that_runs_to_the_end_of_the_file_is_unsupported() {
    let mut input = simple_file(&av1_payload(40));
    input.extend(0u32.to_be_bytes());
    input.extend(b"mdat");
    input.extend([1, 2, 3]);
    assert!(matches!(read_avif(&input), Err(Error::Unsupported("unknown sized box"))));
}

#[test]
fn box_with_content_beyond_its_children_is_an_error() {
    let start = first_payload_offset();
    let mut bad_pitm = pitm(1);
    bad_pitm.push(0);
    bad_pitm[3] += 1;
    let input = file_with_meta(
        &[bad_pitm, iinf(&[infe(1, b"av01")]), iloc(&[(1, vec![(start, 10)])])],
        &av1_payload(10),
    );
    assert!(matches!(
        read_avif(&input),
        Err(Error::InvalidData("unread box content or bad parser sync"))
    ));
}

#[test]
fn parsing_twice_gives_the_same() {
    let input = file_with_auxiliary(
        ALPHA_URN,
        &[reference(b"auxl", 2, &[1]), reference(b"prem", 1, &[2])],
        false,
    );
    let first = read_avif(&input).unwrap();
    let second = read_avif(&input).unwrap();
    assert_eq!(first.primary_item, second.primary_item);
    assert_eq!(first.alpha_item, second.alpha_item);
    assert_eq!(first.premultiplied_alpha, second.premultiplied_alpha);

    let bad = &input[..input.len() - 1];
    assert_eq!(
        format!("{:?}", read_avif(bad).map(|_| ())),
        format!("{:?}", read_avif(bad).map(|_| ()))
    );
}

#[test]
fn damaged_files_give_results_or_errors() {
    let mut seed = 0x2545_f491_4f6c_dd1du64;
    let mut next = move || {
        seed ^= seed << 13;
        seed ^= seed >> 7;
        seed ^= seed << 17;
        seed
    };
    let good = file_with_auxiliary(
        ALPHA_URN,
        &[reference(b"auxl", 2, &[1]), reference(b"prem", 1, &[2])],
        false,
    );
    let mut parsed = 0;
    for _ in 0..20_000 {
        let mut file = good.clone();
        for _ in 0..1 + next() % 3 {
            let at = (next() % file.len() as u64) as usize;
            file[at] = next() as u8;
        }
        if next() % 4 == 0 {
            file.truncate((next() % (file.len() as u64 + 1)) as usize);
        }
        if let Ok(avif) = read_avif(&file) {
            parsed += 1;
            let _ = avif.primary_item_metadata();
            let _ = avif.alpha_item_metadata();
        }
    }
    assert!(parsed > 0);
}

#[test]
fn default_data_is_empty() {
    let data = AvifData::default();
    assert!(data.primary_item.is_empty());
    assert!(data.alpha_item.is_none());
    assert!(!data.premultiplied_alpha);
    assert!(data.content_light_level.is_none());
    assert!(data.mastering_display.is_none());
}
