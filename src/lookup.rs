//! One-call lookups: header, index, search and extraction in turn.
use vstd::prelude::*;

use crate::bytes::be_u32;
use crate::header::{magic_ok, TzDataHeader};
use crate::index::{
    decode_records, find_entry, lemma_search_entry_sorted, names_sorted, search_entry, zone_data,
    TzDataIndexes, ZoneEntry,
    SIZEOF_INDEX_ENTRY_ANDROID, SIZEOF_INDEX_ENTRY_OHOS,
};
use crate::stream::{ByteStream, TzDataError};

verus! {

/// The data offset that the header at `start` of `data` records.
pub open spec fn data_offset_at(data: Seq<u8>, start: int) -> u32 {
    be_u32(data.subrange(start + 16, start + 20))
}

/// The length of the index region that the header at `start` of `data` records.
pub open spec fn index_len_at(data: Seq<u8>, start: int) -> nat {
    let index_offset = be_u32(data.subrange(start + 12, start + 16));
    let data_offset = data_offset_at(data, start);
    if data_offset >= index_offset {
        (data_offset - index_offset) as nat
    } else {
        0
    }
}

/// The index table of the database that starts at `start` of `data`, with
/// records of `stride` bytes: the header is read, then the index region right
/// after it.
pub open spec fn index_at(data: Seq<u8>, start: int, stride: nat) -> Result<
    Seq<ZoneEntry>,
    TzDataError,
> {
    let n = index_len_at(data, start);
    if start + 12 > data.len() {
        Err(TzDataError::UnexpectedEof)
    } else if !magic_ok(data.subrange(start, start + 12)) {
        Err(TzDataError::InvalidMagic)
    } else if start + 24 + n > data.len() {
        Err(TzDataError::UnexpectedEof)
    } else {
        Ok(decode_records(data.subrange(start + 24, start + 24 + n), stride))
    }
}

/// The data that a lookup gives for the entry it `found`: `None` where it found
/// none, else the bytes the entry points at.
pub open spec fn lookup_in(data: Seq<u8>, data_offset: u32, found: Option<ZoneEntry>) -> Result<
    Option<Seq<u8>>,
    TzDataError,
> {
    match found {
        None => Ok(None),
        Some(e) => match zone_data(data, data_offset, e) {
            Ok(v) => Ok(Some(v)),
            Err(x) => Err(x),
        },
    }
}

/// A lookup's result, with the bytes as a sequence.
pub open spec fn found_result(r: Result<Option<Vec<u8>>, TzDataError>) -> Result<
    Option<Seq<u8>>,
    TzDataError,
> {
    match r {
        Ok(Some(v)) => Ok(Some(v@)),
        Ok(None) => Ok(None),
        Err(e) => Err(e),
    }
}

/// What looking up `name` in the database at `start` of `data` gives, with
/// records of `stride` bytes: the header, then the index, then the binary
/// search, then the entry's data. Where the index is sorted by name, the search
/// finds the entry of that name exactly when there is one.
pub open spec fn looked_up(
    data: Seq<u8>,
    start: int,
    stride: nat,
    name: Seq<u8>,
    r: Result<Option<Vec<u8>>, TzDataError>,
) -> bool {
    match index_at(data, start, stride) {
        Err(e) => r == Err::<Option<Vec<u8>>, TzDataError>(e),
        Ok(entries) => {
            &&& found_result(r) == lookup_in(
                data,
                data_offset_at(data, start),
                search_entry(entries, name),
            )
            &&& names_sorted(entries) ==> found_result(r) == lookup_in(
                data,
                data_offset_at(data, start),
                find_entry(entries, name),
            )
        },
    }
}

fn find_tz_data(mut reader: ByteStream, tz_name: &[u8], stride: usize) -> (r: Result<
    Option<Vec<u8>>,
    TzDataError,
>)
    requires
        stride == SIZEOF_INDEX_ENTRY_ANDROID || stride == SIZEOF_INDEX_ENTRY_OHOS,
    ensures
        looked_up(reader.contents(), reader.cursor() as int, stride as nat, tz_name@, r),
{
    let ghost data = reader.contents();
    let ghost start = reader.cursor() as int;
    let header = TzDataHeader::new(&mut reader)?;
    proof {
        let b = data.subrange(start, start + 24);
        assert(b.subrange(12, 16) =~= data.subrange(start + 12, start + 16));
        assert(b.subrange(16, 20) =~= data.subrange(start + 16, start + 20));
        assert(b.subrange(0, 12) =~= data.subrange(start, start + 12));
    }
    let index = if stride == SIZEOF_INDEX_ENTRY_ANDROID {
        TzDataIndexes::new_android(&mut reader, &header)?
    } else {
        TzDataIndexes::new_ohos(&mut reader, &header)?
    };
    let ghost entries = index@;
    assert(index_at(data, start, stride as nat) == Ok::<Seq<ZoneEntry>, TzDataError>(entries));
    proof {
        if names_sorted(entries) {
            lemma_search_entry_sorted(entries, tz_name@);
        }
    }
    match index.find_timezone(tz_name) {
        Some(entry) => {
            let r = index.find_tzdata(&mut reader, &header, entry);
            match r {
                Ok(v) => Ok(Some(v)),
                Err(e) => Err(e),
            }
        },
        None => Ok(None),
    }
}

/// Get timezone data from the `tzdata` file reader of Android.
pub fn find_tz_data_android(reader: ByteStream, tz_name: &[u8]) -> (r: Result<
    Option<Vec<u8>>,
    TzDataError,
>)
    ensures
        looked_up(
            reader.contents(),
            reader.cursor() as int,
            SIZEOF_INDEX_ENTRY_ANDROID as nat,
            tz_name@,
            r,
        ),
{
    find_tz_data(reader, tz_name, SIZEOF_INDEX_ENTRY_ANDROID)
}

/// Get timezone data from the `tzdata` file reader of HarmonyOS NEXT.
pub fn find_tz_data_ohos(reader: ByteStream, tz_name: &[u8]) -> (r: Result<
    Option<Vec<u8>>,
    TzDataError,
>)
    ensures
        looked_up(
            reader.contents(),
            reader.cursor() as int,
            SIZEOF_INDEX_ENTRY_OHOS as nat,
            tz_name@,
            r,
        ),
{
    find_tz_data(reader, tz_name, SIZEOF_INDEX_ENTRY_OHOS)
}

} // verus!
