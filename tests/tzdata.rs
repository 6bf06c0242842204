use std::cmp::Ordering;
use zoneinfo_db::bytes::{compare_bytes, read_be_u32};
use zoneinfo_db::index::{SIZEOF_INDEX_ENTRY_ANDROID, SIZEOF_INDEX_ENTRY_OHOS};
use zoneinfo_db::{
    find_tz_data_android, find_tz_data_ohos, ByteStream, TzDataError, TzDataHeader, TzDataIndexes,
};

struct Zone {
    name: Vec<u8>,
    length: u32,
}

fn push_u32(out: &mut Vec<u8>, v: u32) {
    out.extend_from_slice(&v.to_be_bytes());
}

/// Builds a database: header, one record per zone in the order given, the zone
/// data back to back (zone `i` filled with the byte `i`), then the zone table.
fn build_db(version: &[u8; 5], zones: &[Zone], record_size: usize, zonetab_offset: u32) -> Vec<u8> {
    let index_offset: u32 = 24;
    let data_offset = index_offset + (zones.len() * record_size) as u32;
    let mut out = Vec::new();
    out.extend_from_slice(b"tzdata");
    out.extend_from_slice(version);
    out.push(0);
    push_u32(&mut out, index_offset);
    push_u32(&mut out, data_offset);
    push_u32(&mut out, zonetab_offset);
    let mut offset: u32 = 0;
    for z in zones {
        let mut name = [0u8; 40];
        name[..z.name.len()].copy_from_slice(&z.name);
        out.extend_from_slice(&name);
        push_u32(&mut out, offset);
        push_u32(&mut out, z.length);
        if record_size == SIZEOF_INDEX_ENTRY_ANDROID {
            push_u32(&mut out, 28800);
        }
        offset += z.length;
    }
    for (i, z) in zones.iter().enumerate() {
        out.extend(std::iter::repeat(i as u8).take(z.length as usize));
    }
    assert!(out.len() <= zonetab_offset as usize);
    out.resize(zonetab_offset as usize, 0);
    out.extend_from_slice(b"AU\tAustralia/Sydney\n");
    out
}

/// `count` zones with sorted names, among them `Asia/Shanghai` with
/// `shanghai_len` bytes of data and `Pacific/Noumea`.
fn fixture_zones(count: usize, length: u32, shanghai_len: u32) -> Vec<Zone> {
    let mut names: Vec<Vec<u8>> = (0..count - 2)
        .map(|i| format!("Etc/Zone{:03}", i).into_bytes())
        .collect();
    names.push(b"Asia/Shanghai".to_vec());
    names.push(b"Pacific/Noumea".to_vec());
    names.sort();
    names
        .into_iter()
        .map(|name| {
            let length = if name == b"Asia/Shanghai" { shanghai_len } else { length };
            Zone { name, length }
        })
        .collect()
}

fn ohos_fixture() -> Vec<u8> {
    build_db(b"2024a", &fixture_zones(442, 500, 393), SIZEOF_INDEX_ENTRY_OHOS, 272428)
}

fn android_fixture() -> Vec<u8> {
    build_db(b"2021a", &fixture_zones(593, 700, 573), SIZEOF_INDEX_ENTRY_ANDROID, 491837)
}

#[test]
fn test_ohos_tzdata_header_and_index() {
    let mut file = ByteStream::new(ohos_fixture());
    let header = TzDataHeader::new(&mut file).unwrap();
    assert_eq!(header.version, *b"2024a");
    assert_eq!(header.index_offset, 24);
    assert_eq!(header.data_offset, 21240);
    assert_eq!(header.zonetab_offset, 272428);

    let iter = TzDataIndexes::new_ohos(&mut file, &header).unwrap();
    assert_eq!(iter.timezones().len(), 442);
    assert!(iter.find_timezone(b"Asia/Shanghai").is_some());
    assert!(iter.find_timezone(b"Pacific/Noumea").is_some());
}

#[test]
fn test_ohos_tzdata_loading() {
    let mut file = ByteStream::new(ohos_fixture());
    let header = TzDataHeader::new(&mut file).unwrap();
    let iter = TzDataIndexes::new_ohos(&mut file, &header).unwrap();
    let timezone = iter.find_timezone(b"Asia/Shanghai").unwrap();
    let tzdata = iter.find_tzdata(&mut file, &header, timezone).unwrap();
    assert_eq!(tzdata.len(), 393);
}

#[test]
fn test_android_tzdata_header_and_index() {
    let mut file = ByteStream::new(android_fixture());
    let header = TzDataHeader::new(&mut file).unwrap();
    assert_eq!(header.version, *b"2021a");
    assert_eq!(header.index_offset, 24);
    assert_eq!(header.data_offset, 30860);
    assert_eq!(header.zonetab_offset, 491837);

    let iter = TzDataIndexes::new_android(&mut file, &header).unwrap();
    assert_eq!(iter.timezones().len(), 593);
    assert!(iter.find_timezone(b"Asia/Shanghai").is_some());
    assert!(iter.find_timezone(b"Pacific/Noumea").is_some());
}

#[test]
fn test_android_tzdata_loading() {
    let mut file = ByteStream::new(android_fixture());
    let header = TzDataHeader::new(&mut file).unwrap();
    let iter = TzDataIndexes::new_android(&mut file, &header).unwrap();
    let timezone = iter.find_timezone(b"Asia/Shanghai").unwrap();
    let tzdata = iter.find_tzdata(&mut file, &header, timezone).unwrap();
    assert_eq!(tzdata.len(), 573);
}

#[test]
fn test_ohos_tzdata_find() {
    let file = ByteStream::new(ohos_fixture());
    let tzdata = find_tz_data_ohos(file, b"Asia/Shanghai").unwrap().unwrap();
    assert_eq!(tzdata.len(), 393);
}

#[test]
fn test_android_tzdata_find() {
    let file = ByteStream::new(android_fixture());
    let tzdata = find_tz_data_android(file, b"Asia/Shanghai").unwrap().unwrap();
    assert_eq!(tzdata.len(), 573);
}

#[test]
fn fixture_offsets_are_ordered() {
    for (data, _) in [(ohos_fixture(), 0), (android_fixture(), 1)] {
        let mut file = ByteStream::new(data);
        let header = TzDataHeader::new(&mut file).unwrap();
        assert!(header.index_offset <= header.data_offset);
        assert!(header.data_offset <= header.zonetab_offset);
    }
}

#[test]
fn header_consumes_exactly_24_bytes() {
    let mut file = ByteStream::new(ohos_fixture());
    TzDataHeader::new(&mut file).unwrap();
    assert_eq!(file.position(), 24);
}

#[test]
fn every_decoded_entry_is_found_again() {
    let mut file = ByteStream::new(ohos_fixture());
    let header = TzDataHeader::new(&mut file).unwrap();
    let table = TzDataIndexes::new_ohos(&mut file, &header).unwrap();
    for e in table.timezones() {
        let found = table.find_timezone(&e.name).unwrap();
        assert_eq!(found.name, e.name);
        assert_eq!(found.offset, e.offset);
        assert_eq!(found.length, e.length);
    }
}

#[test]
fn parsing_twice_gives_identical_values() {
    let data = android_fixture();
    let mut a = ByteStream::new(data.clone());
    let mut b = ByteStream::new(data);
    let ha = TzDataHeader::new(&mut a).unwrap();
    let hb = TzDataHeader::new(&mut b).unwrap();
    assert_eq!(ha, hb);
    let ta = TzDataIndexes::new_android(&mut a, &ha).unwrap();
    let tb = TzDataIndexes::new_android(&mut b, &hb).unwrap();
    assert_eq!(ta.timezones().len(), tb.timezones().len());
    for (x, y) in ta.timezones().iter().zip(tb.timezones()) {
        assert_eq!(x.name, y.name);
        assert_eq!(x.offset, y.offset);
        assert_eq!(x.length, y.length);
    }
}

#[test]
fn absent_names_are_not_found() {
    let mut file = ByteStream::new(ohos_fixture());
    let header = TzDataHeader::new(&mut file).unwrap();
    let table = TzDataIndexes::new_ohos(&mut file, &header).unwrap();
    assert!(table.find_timezone(b"Nowhere/Imaginary").is_none());
    assert!(table.find_timezone(b"Mars/OlympusMons").is_none());
    assert!(table.find_timezone(b"").is_none());
    assert!(table.find_timezone(b"Asia/Shangha").is_none());
    assert!(table.find_timezone(b"Asia/Shanghai2").is_none());
}

#[test]
fn absent_zone_is_none_not_error() {
    let r = find_tz_data_ohos(ByteStream::new(ohos_fixture()), b"Mars/OlympusMons");
    assert_eq!(r, Ok(None));
    let r = find_tz_data_android(ByteStream::new(android_fixture()), b"Mars/OlympusMons");
    assert_eq!(r, Ok(None));
}

#[test]
fn extracted_data_is_the_entry_bytes() {
    let zones = vec![
        Zone { name: b"Africa/Abidjan".to_vec(), length: 3 },
        Zone { name: b"Europe/Paris".to_vec(), length: 5 },
    ];
    let db = build_db(b"2023c", &zones, SIZEOF_INDEX_ENTRY_OHOS, 24 + 96 + 8);
    assert_eq!(find_tz_data_ohos(ByteStream::new(db.clone()), b"Europe/Paris"), Ok(Some(vec![1; 5])));
    assert_eq!(find_tz_data_ohos(ByteStream::new(db), b"Africa/Abidjan"), Ok(Some(vec![0; 3])));
}

#[test]
fn legacy_field_is_not_kept() {
    let zones = vec![Zone { name: b"Europe/Paris".to_vec(), length: 4 }];
    let db = build_db(b"2021a", &zones, SIZEOF_INDEX_ENTRY_ANDROID, 24 + 52 + 4);
    let mut file = ByteStream::new(db.clone());
    let header = TzDataHeader::new(&mut file).unwrap();
    let table = TzDataIndexes::new_android(&mut file, &header).unwrap();
    assert_eq!(table.timezones().len(), 1);
    let e = &table.timezones()[0];
    assert_eq!(&*e.name, b"Europe/Paris");
    assert_eq!(e.offset, 0);
    assert_eq!(e.length, 4);
    assert_eq!(find_tz_data_android(ByteStream::new(db), b"Europe/Paris"), Ok(Some(vec![0; 4])));
}

fn header_bytes(index_offset: u32, data_offset: u32, zonetab_offset: u32) -> Vec<u8> {
    let mut out = b"tzdata2024a\0".to_vec();
    push_u32(&mut out, index_offset);
    push_u32(&mut out, data_offset);
    push_u32(&mut out, zonetab_offset);
    out
}

#[test]
fn header_scenario_2024a() {
    let mut file = ByteStream::new(header_bytes(24, 21240, 272428));
    let header = TzDataHeader::new(&mut file).unwrap();
    assert_eq!(&header.version, b"2024a");
    assert_eq!(header.index_offset, 24);
    assert_eq!(header.data_offset, 21240);
    assert_eq!(header.zonetab_offset, 272428);
}

#[test]
fn truncated_magic_is_eof() {
    let mut file = ByteStream::new(b"tzdata2024".to_vec());
    assert_eq!(TzDataHeader::new(&mut file), Err(TzDataError::UnexpectedEof));
    assert_eq!(file.position(), 0);
    let mut empty = ByteStream::new(Vec::new());
    assert_eq!(TzDataHeader::new(&mut empty), Err(TzDataError::UnexpectedEof));
    assert_eq!(find_tz_data_ohos(ByteStream::new(b"tzd".to_vec()), b"UTC"), Err(TzDataError::UnexpectedEof));
}

#[test]
fn wrong_magic_is_rejected() {
    let mut bytes = header_bytes(24, 24, 24);
    bytes[0] = b'T';
    let mut file = ByteStream::new(bytes);
    assert_eq!(TzDataHeader::new(&mut file), Err(TzDataError::InvalidMagic));
    assert_eq!(file.position(), 12);

    let mut bytes = header_bytes(24, 24, 24);
    bytes[11] = b'x';
    assert_eq!(TzDataHeader::new(&mut ByteStream::new(bytes)), Err(TzDataError::InvalidMagic));
}

#[test]
fn truncated_offsets_are_eof() {
    let mut bytes = header_bytes(24, 24, 24);
    bytes.truncate(20);
    assert_eq!(TzDataHeader::new(&mut ByteStream::new(bytes)), Err(TzDataError::UnexpectedEof));
}

#[test]
fn short_index_region_is_eof() {
    let mut file = ByteStream::new(header_bytes(24, 24 + 48, 24 + 48));
    let header = TzDataHeader::new(&mut file).unwrap();
    assert!(matches!(TzDataIndexes::new_ohos(&mut file, &header), Err(TzDataError::UnexpectedEof)));
    assert_eq!(file.position(), 24);
}

#[test]
fn data_offset_before_index_gives_empty_table() {
    let mut file = ByteStream::new(header_bytes(100, 50, 200));
    let header = TzDataHeader::new(&mut file).unwrap();
    let table = TzDataIndexes::new_ohos(&mut file, &header).unwrap();
    assert_eq!(table.timezones().len(), 0);
    assert!(table.find_timezone(b"UTC").is_none());
    assert_eq!(file.position(), 24);
}

#[test]
fn runt_record_is_dropped() {
    let zones = vec![
        Zone { name: b"A/B".to_vec(), length: 1 },
        Zone { name: b"C/D".to_vec(), length: 1 },
    ];
    let full = build_db(b"2024a", &zones, SIZEOF_INDEX_ENTRY_OHOS, 24 + 96 + 2);
    // Cut the region to two records and 30 bytes of a third, all present.
    let mut bytes = header_bytes(24, 24 + 96 + 30, 0);
    bytes.extend_from_slice(&full[24..24 + 96]);
    bytes.extend_from_slice(b"E/F\0");
    bytes.resize(24 + 96 + 30, 0);
    let mut file = ByteStream::new(bytes);
    let header = TzDataHeader::new(&mut file).unwrap();
    let table = TzDataIndexes::new_ohos(&mut file, &header).unwrap();
    assert_eq!(table.timezones().len(), 2);
    assert_eq!(&*table.timezones()[0].name, b"A/B");
    assert_eq!(&*table.timezones()[1].name, b"C/D");
    assert_eq!(file.position(), 24 + 96 + 30);
}

#[test]
fn record_without_nul_is_dropped() {
    let mut bytes = header_bytes(24, 24 + 96, 0);
    bytes.extend(std::iter::repeat(b'x').take(40));
    bytes.extend_from_slice(&[0, 0, 0, 1, 0, 0, 0, 2]);
    let mut name = [0u8; 40];
    name[..3].copy_from_slice(b"UTC");
    bytes.extend_from_slice(&name);
    bytes.extend_from_slice(&[0, 0, 0, 7, 0, 0, 0, 9]);
    let mut file = ByteStream::new(bytes);
    let header = TzDataHeader::new(&mut file).unwrap();
    let table = TzDataIndexes::new_ohos(&mut file, &header).unwrap();
    assert_eq!(table.timezones().len(), 1);
    let e = table.find_timezone(b"UTC").unwrap();
    assert_eq!((e.offset, e.length), (7, 9));
}

#[test]
fn data_past_the_end_is_eof() {
    let mut bytes = header_bytes(24, 24 + 48, 24 + 48);
    let mut name = [0u8; 40];
    name[..3].copy_from_slice(b"UTC");
    bytes.extend_from_slice(&name);
    bytes.extend_from_slice(&[0, 0, 0, 0, 0, 0, 0, 10]);
    bytes.extend_from_slice(&[1, 2, 3]);
    let mut file = ByteStream::new(bytes.clone());
    let header = TzDataHeader::new(&mut file).unwrap();
    let table = TzDataIndexes::new_ohos(&mut file, &header).unwrap();
    let e = table.find_timezone(b"UTC").unwrap();
    assert_eq!(table.find_tzdata(&mut file, &header, e), Err(TzDataError::UnexpectedEof));
    assert_eq!(file.position(), 72);
    assert_eq!(find_tz_data_ohos(ByteStream::new(bytes), b"UTC"), Err(TzDataError::UnexpectedEof));
}

#[test]
fn stream_reads_and_seeks() {
    let mut s = ByteStream::new(vec![1, 2, 3, 4, 5]);
    assert_eq!(s.read_exact(2), Ok(vec![1, 2]));
    assert_eq!(s.position(), 2);
    assert_eq!(s.read_exact(4), Err(TzDataError::UnexpectedEof));
    assert_eq!(s.position(), 2);
    s.seek(10);
    assert_eq!(s.read_exact(0), Ok(vec![]));
    assert_eq!(s.read_exact(1), Err(TzDataError::UnexpectedEof));
    assert_eq!(s.position(), 10);
    s.seek(5);
    assert_eq!(s.read_exact(0), Ok(vec![]));
}

#[test]
fn big_endian_fields() {
    assert_eq!(read_be_u32(&[0, 0, 0x52, 0xf8], 0), 21240);
    assert_eq!(read_be_u32(&[9, 0x12, 0x34, 0x56, 0x78], 1), 0x12345678);
    assert_eq!(read_be_u32(&[0xff, 0xff, 0xff, 0xff], 0), u32::MAX);
}

#[test]
fn names_compare_byte_wise() {
    assert_eq!(compare_bytes(b"Asia/Shanghai", b"Asia/Tokyo"), Ordering::Less);
    assert_eq!(compare_bytes(b"Asia", b"Asia/Tokyo"), Ordering::Less);
    assert_eq!(compare_bytes(b"UTC", b"UTC"), Ordering::Equal);
    assert_eq!(compare_bytes(b"b", b"B"), Ordering::Greater);
}

#[test]
fn empty_entry_past_the_end_is_empty() {
    let mut bytes = header_bytes(24, 24 + 48, 24 + 48);
    let mut name = [0u8; 40];
    name[..3].copy_from_slice(b"UTC");
    bytes.extend_from_slice(&name);
    bytes.extend_from_slice(&[0, 0, 0x10, 0, 0, 0, 0, 0]);
    let mut file = ByteStream::new(bytes.clone());
    let header = TzDataHeader::new(&mut file).unwrap();
    let table = TzDataIndexes::new_ohos(&mut file, &header).unwrap();
    let e = table.find_timezone(b"UTC").unwrap();
    assert_eq!(table.find_tzdata(&mut file, &header, e), Ok(vec![]));
    assert_eq!(find_tz_data_ohos(ByteStream::new(bytes), b"UTC"), Ok(Some(vec![])));
}

#[test]
fn empty_region_past_the_end_is_empty_table() {
    let mut file = ByteStream::new(header_bytes(24, 24, 24));
    let header = TzDataHeader::new(&mut file).unwrap();
    file.seek(1000);
    let table = TzDataIndexes::new_ohos(&mut file, &header).unwrap();
    assert_eq!(table.timezones().len(), 0);
    assert_eq!(file.position(), 1000);
}

#[test]
fn unsorted_table_follows_the_search() {
    // Names out of order: the search for "A/A" looks at the middle entry
    // "M/M", goes left to "Z/Z", goes left again, and finds nothing.
    let zones = vec![
        Zone { name: b"Z/Z".to_vec(), length: 1 },
        Zone { name: b"M/M".to_vec(), length: 2 },
        Zone { name: b"A/A".to_vec(), length: 3 },
    ];
    let db = build_db(b"2024a", &zones, SIZEOF_INDEX_ENTRY_OHOS, 24 + 144 + 6);
    let mut file = ByteStream::new(db.clone());
    let header = TzDataHeader::new(&mut file).unwrap();
    let table = TzDataIndexes::new_ohos(&mut file, &header).unwrap();
    assert!(table.find_timezone(b"A/A").is_none());
    assert_eq!(table.find_timezone(b"M/M").unwrap().length, 2);
    assert_eq!(find_tz_data_ohos(ByteStream::new(db.clone()), b"A/A"), Ok(None));
    assert_eq!(find_tz_data_ohos(ByteStream::new(db), b"M/M"), Ok(Some(vec![1; 2])));
}
