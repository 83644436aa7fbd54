use avif_parse::boxes::FourCC;
use avif_parse::items::read_iinf;
use avif_parse::items::read_infe;
use avif_parse::items::read_iref;
use avif_parse::items::read_pitm;
use avif_parse::items::ItemInfoEntry;
use avif_parse::items::SingleItemTypeReferenceBox;
use avif_parse::meta::read_avif_meta;
use avif_parse::meta::read_ftyp;
use avif_parse::reader::next_box;
use avif_parse::reader::BMFFBox;
use avif_parse::reader::OffsetReader;
use avif_parse::Error;

fn bx(kind: &[u8; 4], payload: &[u8]) -> Vec<u8> {
    let mut out = ((payload.len() + 8) as u32).to_be_bytes().to_vec();
    out.extend_from_slice(kind);
    out.extend_from_slice(payload);
    out
}

fn full(kind: &[u8; 4], version: u8, flags: u32, payload: &[u8]) -> Vec<u8> {
    let mut body = vec![version];
    body.extend_from_slice(&flags.to_be_bytes()[1..]);
    body.extend_from_slice(payload);
    bx(kind, &body)
}

fn open(bytes: &[u8]) -> BMFFBox<'_> {
    let mut r = OffsetReader::new(bytes);
    next_box(&mut r).unwrap().unwrap()
}

fn code(kind: &[u8; 4]) -> FourCC {
    FourCC { value: u32::from_be_bytes(*kind) }
}

#[test]
fn file_type_box() {
    let bytes = bx(b"ftyp", b"avif\0\0\0\x07mif1miafMA1B");
    let mut b = open(&bytes);
    let ftyp = read_ftyp(&mut b).unwrap();
    assert_eq!(ftyp.major_brand, code(b"avif"));
    assert_eq!(ftyp.minor_version, 7);
    assert_eq!(ftyp.compatible_brands, [code(b"mif1"), code(b"miaf"), code(b"MA1B")]);
    assert_eq!(b.bytes_left(), 0);

    let bytes = bx(b"ftyp", b"avis\0\0\0\0");
    let ftyp = read_ftyp(&mut open(&bytes)).unwrap();
    assert_eq!(ftyp.major_brand.value, 0x6176_6973);
    assert!(ftyp.compatible_brands.is_empty());
}

#[test]
fn file_type_box_that_declares_more_brands_than_it_holds() {
    let mut bytes = bx(b"ftyp", b"avif\0\0\0\0mif1");
    bytes[3] += 4;
    assert!(matches!(read_ftyp(&mut open(&bytes)), Err(Error::UnexpectedEOF)));
}

#[test]
fn primary_item_box() {
    let bytes = full(b"pitm", 0, 0, &[0x12, 0x34]);
    let mut b = open(&bytes);
    assert_eq!(read_pitm(&mut b).unwrap(), 0x1234);
    assert_eq!(b.bytes_left(), 0);

    let bytes = full(b"pitm", 1, 0, &[0x12, 0x34, 0x56, 0x78]);
    assert_eq!(read_pitm(&mut open(&bytes)).unwrap(), 0x1234_5678);

    let bytes = full(b"pitm", 2, 0, &[0, 0, 0, 1]);
    assert!(matches!(
        read_pitm(&mut open(&bytes)),
        Err(Error::Unsupported("unsupported pitm version"))
    ));
    let bytes = full(b"pitm", 1, 0, &[0, 0, 1]);
    assert!(matches!(read_pitm(&mut open(&bytes)), Err(Error::UnexpectedEOF)));
    let bytes = full(b"pitm", 0, 2, &[0, 1]);
    assert!(matches!(
        read_pitm(&mut open(&bytes)),
        Err(Error::Unsupported("expected flags to be 0"))
    ));
}

#[test]
fn item_info_entry() {
    let bytes = full(b"infe", 2, 1, b"\x00\x05\x00\x00av01Color\0");
    let mut b = open(&bytes);
    assert_eq!(read_infe(&mut b).unwrap(), ItemInfoEntry { item_id: 5, item_type: code(b"av01") });
    assert_eq!(b.bytes_left(), 0);

    let bytes = full(b"infe", 3, 0, b"\x00\x01\x00\x05\x00\x00Exif");
    assert_eq!(
        read_infe(&mut open(&bytes)).unwrap(),
        ItemInfoEntry { item_id: 65541, item_type: code(b"Exif") }
    );
}

#[test]
fn item_info_entry_errors() {
    for version in [0u8, 1, 4, 255] {
        let bytes = full(b"infe", version, 0, b"\x00\x05\x00\x00av01");
        assert!(matches!(
            read_infe(&mut open(&bytes)),
            Err(Error::Unsupported("unsupported version in 'infe' box"))
        ));
    }
    let bytes = full(b"infe", 2, 0, b"\x00\x05\x00\x01av01");
    assert!(matches!(
        read_infe(&mut open(&bytes)),
        Err(Error::Unsupported(
            "protected items (infe.item_protection_index != 0) are not supported"
        ))
    ));
    let bytes = full(b"infe", 2, 0, b"\x00\x05\x00\x00av0");
    assert!(matches!(read_infe(&mut open(&bytes)), Err(Error::UnexpectedEOF)));
    let bytes = full(b"infe", 2, 0, b"\x00\x05\x00");
    assert!(matches!(read_infe(&mut open(&bytes)), Err(Error::UnexpectedEOF)));
}

#[test]
fn item_info_box() {
    let mut body = vec![0, 2];
    body.extend(full(b"infe", 2, 0, b"\x00\x01\x00\x00av01\0"));
    body.extend(full(b"infe", 2, 0, b"\x00\x02\x00\x00grid\0"));
    let bytes = full(b"iinf", 0, 0, &body);
    let mut b = open(&bytes);
    assert_eq!(
        read_iinf(&mut b).unwrap(),
        [
            ItemInfoEntry { item_id: 1, item_type: code(b"av01") },
            ItemInfoEntry { item_id: 2, item_type: code(b"grid") },
        ]
    );
    assert_eq!(b.bytes_left(), 0);

    let mut body = vec![0, 0, 0, 1];
    body.extend(full(b"infe", 3, 0, b"\x00\x00\x00\x09\x00\x00av01\0"));
    let bytes = full(b"iinf", 1, 0, &body);
    assert_eq!(
        read_iinf(&mut open(&bytes)).unwrap(),
        [ItemInfoEntry { item_id: 9, item_type: code(b"av01") }]
    );
}

#[test]
fn item_info_box_errors() {
    let bytes = full(b"iinf", 2, 0, &[0, 0]);
    assert!(matches!(
        read_iinf(&mut open(&bytes)),
        Err(Error::Unsupported("unsupported iinf version"))
    ));

    let mut body = vec![0, 1];
    body.extend(bx(b"free", &[]));
    let bytes = full(b"iinf", 0, 0, &body);
    assert!(matches!(
        read_iinf(&mut open(&bytes)),
        Err(Error::InvalidData("iinf box should contain only infe boxes"))
    ));

    let bytes = full(b"iinf", 0, 0, &[0]);
    assert!(matches!(read_iinf(&mut open(&bytes)), Err(Error::UnexpectedEOF)));

    // An entry that declares more than the item info box holds.
    let mut entry = full(b"infe", 2, 0, b"\x00\x01\x00\x00av01\0");
    entry[3] += 1;
    let mut body = vec![0, 1];
    body.extend(entry);
    let bytes = full(b"iinf", 0, 0, &body);
    assert!(matches!(
        read_iinf(&mut open(&bytes)),
        Err(Error::InvalidData("unread box content or bad parser sync"))
    ));
}

fn reference(kind: &[u8; 4], from: u16, to: u16) -> SingleItemTypeReferenceBox {
    SingleItemTypeReferenceBox {
        item_type: code(kind),
        from_item_id: from as u32,
        to_item_id: to as u32,
    }
}

#[test]
fn item_reference_box() {
    let mut body = bx(b"auxl", &[0, 2, 0, 1, 0, 1]);
    body.extend(bx(b"dimg", &[0, 9, 0, 3, 0, 1, 0, 2, 0, 3]));
    body.extend(bx(b"thmb", &[0, 4, 0, 0]));
    let bytes = full(b"iref", 0, 0, &body);
    let mut b = open(&bytes);
    assert_eq!(
        read_iref(&mut b).unwrap(),
        [
            reference(b"auxl", 2, 1),
            reference(b"dimg", 9, 1),
            reference(b"dimg", 9, 2),
            reference(b"dimg", 9, 3),
        ]
    );
    assert_eq!(b.bytes_left(), 0);

    let body = bx(b"prem", &[0, 1, 0, 0, 0, 1, 0, 0, 0, 2]);
    let bytes = full(b"iref", 1, 0, &body);
    assert_eq!(
        read_iref(&mut open(&bytes)).unwrap(),
        [SingleItemTypeReferenceBox {
            item_type: code(b"prem"),
            from_item_id: 65536,
            to_item_id: 2,
        }]
    );
}

#[test]
fn item_reference_box_errors() {
    let bytes = full(b"iref", 2, 0, &[]);
    assert!(matches!(read_iref(&mut open(&bytes)), Err(Error::Unsupported("iref version"))));

    let bytes = full(b"iref", 0, 0, &bx(b"auxl", &[0, 2, 0, 2, 0, 1, 0, 2]));
    assert!(matches!(
        read_iref(&mut open(&bytes)),
        Err(Error::InvalidData("from_item_id and to_item_id must be different"))
    ));

    let bytes = full(b"iref", 0, 0, &bx(b"auxl", &[0, 2, 0, 2, 0, 1]));
    assert!(matches!(read_iref(&mut open(&bytes)), Err(Error::UnexpectedEOF)));

    let bytes = full(b"iref", 0, 0, &bx(b"auxl", &[0, 2, 0, 1, 0, 1, 0]));
    assert!(matches!(
        read_iref(&mut open(&bytes)),
        Err(Error::InvalidData("unread box content or bad parser sync"))
    ));

    let bytes = full(b"iref", 0, 0, &bx(b"auxl", &[0, 2, 0]));
    assert!(matches!(read_iref(&mut open(&bytes)), Err(Error::UnexpectedEOF)));
}

#[test]
fn metadata_box_gathers_its_children() {
    let mut body = full(b"pitm", 0, 0, &[0, 1]);
    body.extend(full(b"iref", 0, 0, &bx(b"auxl", &[0, 2, 0, 1, 0, 1])));
    let mut infos = vec![0, 1];
    infos.extend(full(b"infe", 2, 0, b"\x00\x01\x00\x00av01\0"));
    body.extend(full(b"iinf", 0, 0, &infos));
    body.extend(full(b"iref", 0, 0, &bx(b"prem", &[0, 1, 0, 1, 0, 2])));
    body.extend(full(
        b"iloc",
        0,
        0,
        &[0x44, 0x00, 0x00, 0x01, 0x00, 0x01, 0x00, 0x00, 0x00, 0x01, 0, 0, 0, 1, 0, 0, 0, 2],
    ));
    let bytes = full(b"meta", 0, 0, &body);
    let mut b = open(&bytes);
    let meta = read_avif_meta(&mut b).unwrap();
    assert_eq!(meta.primary_item_id, 1);
    assert_eq!(meta.item_references, [reference(b"auxl", 2, 1), reference(b"prem", 1, 2)]);
    assert!(meta.properties.is_empty());
    assert_eq!(meta.iloc_items.len(), 1);
    assert_eq!(meta.iloc_items[0].item_id, 1);
    assert_eq!(b.bytes_left(), 0);
}

#[test]
fn item_reference_box_without_references() {
    let bytes = full(b"iref", 0, 0, &[]);
    assert!(read_iref(&mut open(&bytes)).unwrap().is_empty());

    let mut body = bx(b"auxl", &[0, 2, 0, 0]);
    body.extend(bx(b"thmb", &[0, 3, 0, 0]));
    let bytes = full(b"iref", 1, 0, &[]);
    assert!(read_iref(&mut open(&bytes)).unwrap().is_empty());
    let bytes = full(b"iref", 0, 0, &body);
    assert!(read_iref(&mut open(&bytes)).unwrap().is_empty());
}
