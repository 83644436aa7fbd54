use avif_parse::iloc::read_iloc;
use avif_parse::iloc::read_iloc_table;
use avif_parse::iloc::ConstructionMethod;
use avif_parse::iloc::ExtentRange;
use avif_parse::iloc::IlocFieldSize;
use avif_parse::iloc::IlocVersion;
use avif_parse::reader::next_box;
use avif_parse::reader::OffsetReader;
use avif_parse::Error;

fn ranges(item: &avif_parse::iloc::ItemLocationBoxItem) -> Vec<ExtentRange> {
    item.extents.iter().map(|e| e.extent_range).collect()
}

#[test]
fn field_sizes() {
    assert_eq!(IlocFieldSize::try_from(0).unwrap().to_bits(), 0);
    assert_eq!(IlocFieldSize::try_from(4).unwrap().to_bits(), 32);
    assert_eq!(IlocFieldSize::try_from(8).unwrap().to_bits(), 64);
    for bad in [1u8, 2, 3, 5, 6, 7, 9, 15, 16, 32, 64] {
        assert!(matches!(
            IlocFieldSize::try_from(bad),
            Err(Error::InvalidData("value must be in the set {0, 4, 8}"))
        ));
    }
}

#[test]
fn versions() {
    assert_eq!(IlocVersion::try_from(0).unwrap(), IlocVersion::Zero);
    assert_eq!(IlocVersion::try_from(1).unwrap(), IlocVersion::One);
    assert_eq!(IlocVersion::try_from(2).unwrap(), IlocVersion::Two);
    assert!(matches!(
        IlocVersion::try_from(3),
        Err(Error::Unsupported("unsupported version in 'iloc' box"))
    ));
}

#[test]
fn extent_range_start() {
    assert_eq!(ExtentRange::WithLength { start: 5, end: 9 }.start(), 5);
    assert_eq!(ExtentRange::ToEnd { start: 7 }.start(), 7);
}

#[test]
fn version_0_table() {
    let table = [
        0x44, 0x00, // offset 4, length 4, base offset 0, reserved
        0x00, 0x02, // two items
        0x00, 0x01, 0x00, 0x00, 0x00, 0x02, // item 1, this file, two extents
        0x00, 0x00, 0x01, 0x00, 0x00, 0x00, 0x00, 0x10, // 256, 16 bytes
        0x00, 0x00, 0x02, 0x00, 0x00, 0x00, 0x00, 0x00, // 512, to the end
        0xff, 0xfe, 0x00, 0x00, 0x00, 0x01, // item 65534, one extent
        0xff, 0xff, 0xff, 0xff, 0x00, 0x00, 0x00, 0x01, // the last byte below 4 GiB
    ];
    let items = read_iloc_table(&table, IlocVersion::Zero).unwrap();
    assert_eq!(items.len(), 2);
    assert_eq!(items[0].item_id, 1);
    assert_eq!(items[0].construction_method, ConstructionMethod::File);
    assert_eq!(
        ranges(&items[0]),
        [ExtentRange::WithLength { start: 256, end: 272 }, ExtentRange::ToEnd { start: 512 }]
    );
    assert_eq!(items[1].item_id, 65534);
    assert_eq!(
        ranges(&items[1]),
        [ExtentRange::WithLength { start: 0xffff_ffff, end: 0x1_0000_0000 }]
    );
}

#[test]
fn version_1_table_with_base_offset_and_extent_index() {
    let table = [
        0x08, 0x84, // offset 0, length 8, base offset 8, index 4
        0x00, 0x02, // two items
        0x00, 0x07, 0x00, 0x00, 0x00, 0x00, // item 7, method 0, this file
        0x00, 0x00, 0x00, 0x01, 0x00, 0x00, 0x00, 0x00, // base offset 2^32
        0x00, 0x01, // one extent
        0xde, 0xad, 0xbe, 0xef, // extent index
        0x00, 0x00, 0x00, 0x00, 0x00, 0x00, 0x00, 0x05, // 5 bytes
        0x00, 0x08, 0x00, 0x01, 0x00, 0x00, // item 8, method 1, this file
        0x00, 0x00, 0x00, 0x00, 0x00, 0x00, 0x00, 0x00, // base offset 0
        0x00, 0x01, // one extent
        0x00, 0x00, 0x00, 0x00, // extent index
        0x00, 0x00, 0x00, 0x00, 0x00, 0x00, 0x00, 0x00, // to the end
    ];
    let items = read_iloc_table(&table, IlocVersion::One).unwrap();
    assert_eq!(items.len(), 2);
    assert_eq!(items[0].item_id, 7);
    assert_eq!(items[0].construction_method, ConstructionMethod::File);
    assert_eq!(
        ranges(&items[0]),
        [ExtentRange::WithLength { start: 0x1_0000_0000, end: 0x1_0000_0005 }]
    );
    assert_eq!(items[1].item_id, 8);
    assert_eq!(items[1].construction_method, ConstructionMethod::Idat);
    assert_eq!(ranges(&items[1]), [ExtentRange::ToEnd { start: 0 }]);
}

#[test]
fn version_2_table_has_32_bit_ids() {
    let table = [
        0x40, 0x00, // offset 4, length 0, base offset 0, index 0
        0x00, 0x00, 0x00, 0x01, // one item
        0x00, 0x01, 0x00, 0x02, // item 65538
        0x0f, 0xf0, // reserved bits, method 0
        0x00, 0x00, // this file
        0x00, 0x01, // one extent
        0x00, 0x00, 0x00, 0x09, // from 9 to the end
    ];
    let items = read_iloc_table(&table, IlocVersion::Two).unwrap();
    assert_eq!(items.len(), 1);
    assert_eq!(items[0].item_id, 65538);
    assert_eq!(ranges(&items[0]), [ExtentRange::ToEnd { start: 9 }]);
}

#[test]
fn table_without_items() {
    assert!(read_iloc_table(&[0x00, 0x00, 0x00, 0x00], IlocVersion::Zero).unwrap().is_empty());
    assert!(read_iloc_table(&[0x48, 0x40, 0, 0, 0, 0], IlocVersion::Two).unwrap().is_empty());
}

#[test]
fn size_selectors_are_checked_in_order() {
    for table in [[0x34u8, 0x44, 0, 0], [0x43, 0x44, 0, 0], [0x44, 0x34, 0, 0], [0x44, 0x43, 0, 0]] {
        assert!(matches!(
            read_iloc_table(&table, IlocVersion::One),
            Err(Error::InvalidData("value must be in the set {0, 4, 8}"))
        ));
    }
    // Version 0 has reserved bits in place of the index size.
    assert!(read_iloc_table(&[0x44, 0x43, 0, 0], IlocVersion::Zero).unwrap().is_empty());
    // A bad selector is reported before the table is found too short.
    assert!(matches!(
        read_iloc_table(&[0x30], IlocVersion::Zero),
        Err(Error::InvalidData("value must be in the set {0, 4, 8}"))
    ));
    assert!(matches!(
        read_iloc_table(&[0x40], IlocVersion::Zero),
        Err(Error::InvalidData("truncated bits"))
    ));
}

fn one_item(method: u16, reference: u16, extents: u16, rest: &[u8]) -> Vec<u8> {
    let mut table = vec![0x88, 0x80, 0x00, 0x01, 0x00, 0x01];
    table.extend(method.to_be_bytes());
    table.extend(reference.to_be_bytes());
    table.extend(16u64.to_be_bytes());
    table.extend(extents.to_be_bytes());
    table.extend(rest);
    table
}

fn extent(offset: u64, length: u64) -> Vec<u8> {
    let mut out = offset.to_be_bytes().to_vec();
    out.extend(length.to_be_bytes());
    out
}

#[test]
fn construction_methods() {
    let ok = one_item(0, 0, 1, &extent(4, 4));
    let items = read_iloc_table(&ok, IlocVersion::One).unwrap();
    assert_eq!(ranges(&items[0]), [ExtentRange::WithLength { start: 20, end: 24 }]);

    let idat = one_item(0xfff1, 0, 1, &extent(4, 4));
    let items = read_iloc_table(&idat, IlocVersion::One).unwrap();
    assert_eq!(items[0].construction_method, ConstructionMethod::Idat);

    assert!(matches!(
        read_iloc_table(&one_item(2, 0, 1, &extent(4, 4)), IlocVersion::One),
        Err(Error::Unsupported("construction_method 'item_offset' is not supported"))
    ));
    for method in 3..16 {
        assert!(matches!(
            read_iloc_table(&one_item(method, 0, 1, &extent(4, 4)), IlocVersion::One),
            Err(Error::InvalidData(_))
        ));
    }
}

#[test]
fn external_references_are_unsupported() {
    assert!(matches!(
        read_iloc_table(&one_item(0, 1, 1, &extent(4, 4)), IlocVersion::One),
        Err(Error::Unsupported(
            "external file references (iloc.data_reference_index != 0) are not supported"
        ))
    ));
}

#[test]
fn item_needs_an_extent() {
    assert!(matches!(
        read_iloc_table(&one_item(0, 0, 0, &[]), IlocVersion::One),
        Err(Error::InvalidData(
            "extent_count must have a value 1 or greater per ISO 14496-12:2015 § 8.11.3.3"
        ))
    ));
}

#[test]
fn offsets_must_fit_64_bits() {
    assert!(matches!(
        read_iloc_table(&one_item(0, 0, 1, &extent(u64::MAX - 15, 0)), IlocVersion::One),
        Err(Error::InvalidData("offset calculation overflow"))
    ));
    assert!(matches!(
        read_iloc_table(&one_item(0, 0, 1, &extent(u64::MAX - 17, 2)), IlocVersion::One),
        Err(Error::InvalidData("end calculation overflow"))
    ));
    let items =
        read_iloc_table(&one_item(0, 0, 1, &extent(u64::MAX - 17, 1)), IlocVersion::One).unwrap();
    assert_eq!(
        ranges(&items[0]),
        [ExtentRange::WithLength { start: u64::MAX - 1, end: u64::MAX }]
    );
    let items =
        read_iloc_table(&one_item(0, 0, 1, &extent(u64::MAX - 16, 0)), IlocVersion::One).unwrap();
    assert_eq!(ranges(&items[0]), [ExtentRange::ToEnd { start: u64::MAX }]);
}

#[test]
fn table_must_be_used_up_exactly() {
    let mut table = one_item(0, 0, 1, &extent(4, 4));
    assert!(read_iloc_table(&table, IlocVersion::One).is_ok());
    table.push(0);
    assert!(matches!(
        read_iloc_table(&table, IlocVersion::One),
        Err(Error::InvalidData("invalid iloc size"))
    ));
    table.truncate(table.len() - 2);
    assert!(matches!(
        read_iloc_table(&table, IlocVersion::One),
        Err(Error::InvalidData("truncated bits"))
    ));
    for len in 0..table.len() {
        assert!(matches!(
            read_iloc_table(&table[..len], IlocVersion::One),
            Err(Error::InvalidData("truncated bits"))
        ));
    }
}

#[test]
fn declared_items_must_be_there() {
    // 65535 items are declared, none is there.
    assert!(matches!(
        read_iloc_table(&[0x44, 0x00, 0xff, 0xff], IlocVersion::Zero),
        Err(Error::InvalidData("truncated bits")) | Err(Error::OutOfMemory)
    ));
}

fn iloc_box(version: u8, flags: u8, table: &[u8]) -> Vec<u8> {
    let mut out = ((table.len() + 12) as u32).to_be_bytes().to_vec();
    out.extend(b"iloc");
    out.extend([version, 0, 0, flags]);
    out.extend(table);
    out
}

#[test]
fn box_version_and_flags() {
    let table = [0x44, 0x00, 0x00, 0x01, 0x00, 0x05, 0x00, 0x00, 0x00, 0x01, 0, 0, 0, 1, 0, 0, 0, 2];
    let bytes = iloc_box(0, 0, &table);
    let mut r = OffsetReader::new(&bytes);
    let mut b = next_box(&mut r).unwrap().unwrap();
    let items = read_iloc(&mut b).unwrap();
    assert_eq!(items[0].item_id, 5);
    assert_eq!(ranges(&items[0]), [ExtentRange::WithLength { start: 1, end: 3 }]);
    assert_eq!(b.bytes_left(), 0);

    let bytes = iloc_box(3, 0, &table);
    let mut r = OffsetReader::new(&bytes);
    let mut b = next_box(&mut r).unwrap().unwrap();
    assert!(matches!(
        read_iloc(&mut b),
        Err(Error::Unsupported("unsupported version in 'iloc' box"))
    ));

    let bytes = iloc_box(0, 1, &table);
    let mut r = OffsetReader::new(&bytes);
    let mut b = next_box(&mut r).unwrap().unwrap();
    assert!(matches!(read_iloc(&mut b), Err(Error::Unsupported("expected flags to be 0"))));
}
