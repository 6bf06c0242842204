//! The index table: one record per zone, naming where its rules lie.
use vstd::prelude::*;

use crate::bytes::{
    be_u32, bytes_lt, compare_bytes, lemma_bytes_lt_irreflexive, lemma_bytes_lt_total,
    lemma_bytes_lt_transitive, read_be_u32,
};
use crate::header::TzDataHeader;
use crate::stream::{bytes_result, copy_range, ByteStream, TzDataError};

verus! {

/// The database reserves 40 bytes for each id.
pub const SIZEOF_TZNAME: usize = 40;

/// Size of one big-endian field of a record.
pub const SIZEOF_U32: usize = 4;

/// HarmonyOS NEXT record size: `name + offset + length`.
pub const SIZEOF_INDEX_ENTRY_OHOS: usize = SIZEOF_TZNAME + 2 * SIZEOF_U32;

/// Android record size: `name + offset + length + raw_utc_offset(legacy)`.
pub const SIZEOF_INDEX_ENTRY_ANDROID: usize = SIZEOF_TZNAME + 3 * SIZEOF_U32;

/// What an index entry says: a zone name, and where its data lies relative to
/// the data region.
pub struct ZoneEntry {
    pub name: Seq<u8>,
    pub offset: u32,
    pub length: u32,
}

/// Whether `k` is the position of the first NUL in `field`.
pub open spec fn is_first_nul(field: Seq<u8>, k: int) -> bool {
    &&& 0 <= k < field.len()
    &&& field[k] == 0
    &&& forall|j: int| 0 <= j < k ==> field[j] != 0
}

/// The bytes before the first NUL of `field`, or `None` where it holds no NUL.
pub open spec fn name_before_nul(field: Seq<u8>) -> Option<Seq<u8>> {
    if exists|k: int| is_first_nul(field, k) {
        Some(field.take(choose|k: int| is_first_nul(field, k)))
    } else {
        None
    }
}

/// The entry that a full record holds: its name is NUL-terminated within the
/// first 40 bytes, and the offset and length follow. A record whose name field
/// holds no NUL gives none.
pub open spec fn decode_record(rec: Seq<u8>) -> Option<ZoneEntry> {
    match name_before_nul(rec.take(40)) {
        Some(name) => Some(
            ZoneEntry {
                name,
                offset: be_u32(rec.subrange(40, 44)),
                length: be_u32(rec.subrange(44, 48)),
            },
        ),
        None => None,
    }
}

/// The entries of an index region cut into records of `stride` bytes, in order.
/// Records without a name are dropped, and so is a short record at the end.
pub open spec fn decode_records(region: Seq<u8>, stride: nat) -> Seq<ZoneEntry>
    decreases region.len(),
{
    if stride == 0 || region.len() < stride {
        seq![]
    } else {
        let rest = decode_records(region.skip(stride as int), stride);
        match decode_record(region.take(stride as int)) {
            Some(e) => seq![e] + rest,
            None => rest,
        }
    }
}

/// Length of the index region: from the index offset up to the data offset, or
/// nothing where the data offset comes first.
pub open spec fn index_region_len(h: TzDataHeader) -> nat {
    if h.data_offset >= h.index_offset {
        (h.data_offset - h.index_offset) as nat
    } else {
        0
    }
}

/// Whether the names of `entries` rise strictly in byte order.
pub open spec fn names_sorted(entries: Seq<ZoneEntry>) -> bool {
    forall|i: int, j: int|
        0 <= i < j < entries.len() ==> bytes_lt(
            #[trigger] entries[i].name,
            #[trigger] entries[j].name,
        )
}

/// Whether some entry carries `name`.
pub open spec fn has_name(entries: Seq<ZoneEntry>, name: Seq<u8>) -> bool {
    exists|i: int| 0 <= i < entries.len() && #[trigger] entries[i].name == name
}

/// The entry named `name`, where there is one.
pub open spec fn find_entry(entries: Seq<ZoneEntry>, name: Seq<u8>) -> Option<ZoneEntry> {
    if has_name(entries, name) {
        Some(entries[choose|i: int| 0 <= i < entries.len() && #[trigger] entries[i].name == name])
    } else {
        None
    }
}

/// In a table with strictly rising names, two entries with one name are one entry.
pub proof fn lemma_sorted_names_unique(entries: Seq<ZoneEntry>, i: int, j: int)
    requires
        names_sorted(entries),
        0 <= i < entries.len(),
        0 <= j < entries.len(),
        entries[i].name == entries[j].name,
    ensures
        i == j,
{
    lemma_bytes_lt_irreflexive(entries[i].name);
    if i < j {
        assert(bytes_lt(entries[i].name, entries[j].name));
    } else if j < i {
        assert(bytes_lt(entries[j].name, entries[i].name));
    }
}

/// In a table with strictly rising names, `find_entry` gives the entry at `i`
/// for the name at `i`.
pub proof fn lemma_find_entry_at(entries: Seq<ZoneEntry>, i: int)
    requires
        names_sorted(entries),
        0 <= i < entries.len(),
    ensures
        find_entry(entries, entries[i].name) == Some(entries[i]),
{
    let name = entries[i].name;
    assert(has_name(entries, name));
    let j = choose|j: int| 0 <= j < entries.len() && #[trigger] entries[j].name == name;
    lemma_sorted_names_unique(entries, i, j);
}

/// The data of entry `e` in a database `data` whose data region starts at
/// `data_offset`: its `length` bytes from `data_offset + offset` on, or
/// `UnexpectedEof` where they run past the end. An entry of length zero has
/// no data, wherever it points.
pub open spec fn zone_data(data: Seq<u8>, data_offset: u32, e: ZoneEntry) -> Result<
    Seq<u8>,
    TzDataError,
> {
    let at = data_offset + e.offset;
    if e.length == 0 {
        Ok(Seq::empty())
    } else if at + e.length <= data.len() {
        Ok(data.subrange(at, at + e.length))
    } else {
        Err(TzDataError::UnexpectedEof)
    }
}

/// Where a binary search for `name` in `entries[lo..hi]` stops: it looks at the
/// middle entry and goes on in the half where the name would lie, until it meets
/// the name or runs out of entries.
pub open spec fn search_range(
    entries: Seq<ZoneEntry>,
    name: Seq<u8>,
    lo: int,
    hi: int,
) -> Option<int>
    decreases hi - lo,
{
    if lo < 0 || hi > entries.len() || lo >= hi {
        None
    } else {
        let mid = lo + (hi - lo) / 2;
        if bytes_lt(entries[mid].name, name) {
            search_range(entries, name, mid + 1, hi)
        } else if bytes_lt(name, entries[mid].name) {
            search_range(entries, name, lo, mid)
        } else {
            Some(mid)
        }
    }
}

/// The entry that a binary search for `name` over the whole table finds.
pub open spec fn search_entry(entries: Seq<ZoneEntry>, name: Seq<u8>) -> Option<ZoneEntry> {
    match search_range(entries, name, 0, entries.len() as int) {
        Some(i) => Some(entries[i]),
        None => None,
    }
}

/// On a sorted table, a search of a range whose entries before it come before
/// the name and whose entries after it come after the name stops at the entry
/// of that name, or finds none where there is none.
proof fn lemma_search_range_sorted(entries: Seq<ZoneEntry>, name: Seq<u8>, lo: int, hi: int)
    requires
        names_sorted(entries),
        0 <= lo <= hi <= entries.len(),
        forall|i: int| 0 <= i < lo ==> bytes_lt(#[trigger] entries[i].name, name),
        forall|i: int| hi <= i < entries.len() ==> bytes_lt(name, #[trigger] entries[i].name),
    ensures
        match search_range(entries, name, lo, hi) {
            Some(i) => 0 <= i < entries.len() && entries[i].name == name,
            None => !has_name(entries, name),
        },
    decreases hi - lo,
{
    lemma_bytes_lt_irreflexive(name);
    if lo >= hi {
        if has_name(entries, name) {
            let i = choose|i: int| 0 <= i < entries.len() && #[trigger] entries[i].name == name;
            if i < lo {
                assert(bytes_lt(entries[i].name, name));
            } else {
                assert(bytes_lt(name, entries[i].name));
            }
        }
    } else {
        let mid = lo + (hi - lo) / 2;
        if bytes_lt(entries[mid].name, name) {
            assert forall|i: int| 0 <= i < mid + 1 implies bytes_lt(
                #[trigger] entries[i].name,
                name,
            ) by {
                if i < mid {
                    lemma_bytes_lt_transitive(entries[i].name, entries[mid].name, name);
                }
            }
            lemma_search_range_sorted(entries, name, mid + 1, hi);
        } else if bytes_lt(name, entries[mid].name) {
            assert forall|i: int| mid <= i < entries.len() implies bytes_lt(
                name,
                #[trigger] entries[i].name,
            ) by {
                if i > mid {
                    lemma_bytes_lt_transitive(name, entries[mid].name, entries[i].name);
                }
            }
            lemma_search_range_sorted(entries, name, lo, mid);
        } else {
            lemma_bytes_lt_total(entries[mid].name, name);
        }
    }
}

/// On a table with strictly rising names, the binary search finds exactly the
/// entry of the name, where there is one.
pub proof fn lemma_search_entry_sorted(entries: Seq<ZoneEntry>, name: Seq<u8>)
    requires
        names_sorted(entries),
    ensures
        search_entry(entries, name) == find_entry(entries, name),
{
    lemma_search_range_sorted(entries, name, 0, entries.len() as int);
    if let Some(i) = search_range(entries, name, 0, entries.len() as int) {
        lemma_find_entry_at(entries, i);
    }
}

/// Index entry of the `tzdata` file.
#[derive(Debug)]
pub struct TzDataIndex {
    pub name: Box<[u8]>,
    pub offset: u32,
    pub length: u32,
}

impl View for TzDataIndex {
    type V = ZoneEntry;

    open spec fn view(&self) -> ZoneEntry {
        ZoneEntry { name: self.name@, offset: self.offset, length: self.length }
    }
}

/// The views of a sequence of index entries.
pub open spec fn entry_views(s: Seq<TzDataIndex>) -> Seq<ZoneEntry> {
    s.map_values(|e: TzDataIndex| e@)
}

/// Indexes of the `tzdata` file.
pub struct TzDataIndexes {
    indexes: Vec<TzDataIndex>,
}

impl View for TzDataIndexes {
    type V = Seq<ZoneEntry>;

    closed spec fn view(&self) -> Seq<ZoneEntry> {
        entry_views(self.indexes@)
    }
}

/// Relies on `Vec::into_boxed_slice`: the boxed slice holds the vector's bytes.
#[verifier::external_body]
fn boxed_bytes(v: Vec<u8>) -> (r: Box<[u8]>)
    ensures
        r@ == v@,
{
    v.into_boxed_slice()
}

/// Finds the first NUL among the first `SIZEOF_TZNAME` bytes of the record at
/// `start`.
fn find_name_end(buf: &Vec<u8>, start: usize) -> (r: Option<usize>)
    requires
        start + SIZEOF_TZNAME <= buf@.len(),
    ensures
        name_before_nul(buf@.subrange(start as int, start + SIZEOF_TZNAME)) == (match r {
            Some(k) => Some(buf@.subrange(start as int, start + k)),
            None => None::<Seq<u8>>,
        }),
        r matches Some(k) ==> k < SIZEOF_TZNAME,
{
    let ghost field = buf@.subrange(start as int, start + SIZEOF_TZNAME);
    let total = buf.len();
    let mut k: usize = 0;
    while k < SIZEOF_TZNAME
        invariant
            k <= SIZEOF_TZNAME,
            total == buf@.len(),
            start + SIZEOF_TZNAME <= buf@.len(),
            field == buf@.subrange(start as int, start + SIZEOF_TZNAME),
            forall|j: int| 0 <= j < k ==> field[j] != 0,
        decreases SIZEOF_TZNAME - k,
    {
        if buf[start + k] == 0 {
            proof {
                assert(is_first_nul(field, k as int));
                let c = choose|c: int| is_first_nul(field, c);
                if c < k {
                    assert(field[c] != 0);
                } else if k < c {
                    assert(field[k as int] != 0);
                }
                assert(field.take(k as int) =~= buf@.subrange(start as int, start + k));
            }
            return Some(k);
        }
        k = k + 1;
    }
    proof {
        assert forall|c: int| !is_first_nul(field, c) by {
            if 0 <= c < field.len() {
                assert(field[c] != 0);
            }
        }
    }
    None
}

impl TzDataIndexes {
    /// Parse the indexes of the `tzdata` file of Android.
    pub fn new_android(reader: &mut ByteStream, header: &TzDataHeader) -> (r: Result<
        Self,
        TzDataError,
    >)
        ensures
            Self::parsed(
                *old(reader),
                *final(reader),
                *header,
                SIZEOF_INDEX_ENTRY_ANDROID as nat,
                r,
            ),
    {
        Self::new(reader, header, SIZEOF_INDEX_ENTRY_ANDROID)
    }

    /// Parse the indexes of the `tzdata` file of HarmonyOS NEXT.
    pub fn new_ohos(reader: &mut ByteStream, header: &TzDataHeader) -> (r: Result<
        Self,
        TzDataError,
    >)
        ensures
            Self::parsed(*old(reader), *final(reader), *header, SIZEOF_INDEX_ENTRY_OHOS as nat, r),
    {
        Self::new(reader, header, SIZEOF_INDEX_ENTRY_OHOS)
    }

    /// What reading an index of records of `stride` bytes does: it reads the whole
    /// index region from the position and decodes it, or fails with
    /// `UnexpectedEof`, and then moves nothing, where the region runs past the end.
    /// An empty region is read wherever the position lies.
    pub open spec fn parsed(
        before: ByteStream,
        after: ByteStream,
        header: TzDataHeader,
        stride: nat,
        r: Result<Self, TzDataError>,
    ) -> bool {
        let n = index_region_len(header) as int;
        &&& after.contents() == before.contents()
        &&& (r is Ok <==> before.can_read(n))
        &&& r matches Ok(t) ==> t@ == decode_records(before.next_bytes(n), stride)
            && after.cursor() == before.cursor() + n
        &&& r matches Err(e) ==> e == TzDataError::UnexpectedEof && after.cursor()
            == before.cursor()
    }

    /// Get all timezones.
    pub fn timezones(&self) -> (r: &[TzDataIndex])
        ensures
            entry_views(r@) == self@,
    {
        self.indexes.as_slice()
    }

    /// Find a timezone by name.
    ///
    /// A binary search that trusts the table to be sorted by name, as the
    /// database keeps it: it finds what `search_entry` names. What it finds
    /// always carries the name; on a sorted table it finds the entry exactly
    /// when there is one.
    pub fn find_timezone(&self, timezone: &[u8]) -> (r: Option<&TzDataIndex>)
        ensures
            match r {
                Some(e) => search_entry(self@, timezone@) == Some(e@),
                None => search_entry(self@, timezone@) is None,
            },
            r matches Some(e) ==> e@.name == timezone@ && self@.contains(e@),
            names_sorted(self@) ==> (match r {
                Some(e) => find_entry(self@, timezone@) == Some(e@),
                None => find_entry(self@, timezone@) is None,
            }),
    {
        let ghost entries = self@;
        proof {
            if names_sorted(entries) {
                lemma_search_entry_sorted(entries, timezone@);
            }
        }
        let mut lo: usize = 0;
        let mut hi: usize = self.indexes.len();
        while lo < hi
            invariant
                lo <= hi <= self.indexes@.len(),
                entries == self@,
                entries.len() == self.indexes@.len(),
                search_range(entries, timezone@, lo as int, hi as int) == search_range(
                    entries,
                    timezone@,
                    0,
                    entries.len() as int,
                ),
            decreases hi - lo,
        {
            let mid = lo + (hi - lo) / 2;
            let entry = &self.indexes[mid];
            assert(entries[mid as int] == entry@);
            match compare_bytes(&*entry.name, timezone) {
                core::cmp::Ordering::Less => {
                    lo = mid + 1;
                },
                core::cmp::Ordering::Greater => {
                    hi = mid;
                },
                core::cmp::Ordering::Equal => {
                    proof {
                        lemma_bytes_lt_irreflexive(timezone@);
                        assert(self@.contains(entry@));
                    }
                    return Some(entry);
                },
            }
        }
        None
    }

    /// Retrieve a chunk of timezone data by the index.
    ///
    /// Seeks to `data_offset + offset` and reads `length` bytes from there; where
    /// they run past the end, fails with `UnexpectedEof`, the stream left at the
    /// sought position.
    pub fn find_tzdata(
        &self,
        reader: &mut ByteStream,
        header: &TzDataHeader,
        index: &TzDataIndex,
    ) -> (r: Result<Vec<u8>, TzDataError>)
        ensures
            final(reader).contents() == old(reader).contents(),
            bytes_result(r) == zone_data(old(reader).contents(), header.data_offset, index@),
            r is Ok ==> final(reader).cursor() == header.data_offset + index.offset + index.length,
            r is Err ==> final(reader).cursor() == header.data_offset + index.offset,
    {
        reader.seek(index.offset as u64 + header.data_offset as u64);
        reader.read_exact(index.length as usize)
    }

    fn new(reader: &mut ByteStream, header: &TzDataHeader, stride: usize) -> (r: Result<
        Self,
        TzDataError,
    >)
        requires
            stride >= SIZEOF_TZNAME + 2 * SIZEOF_U32,
        ensures
            Self::parsed(*old(reader), *final(reader), *header, stride as nat, r),
    {
        let region_len = header.data_offset.saturating_sub(header.index_offset) as usize;
        let buf = reader.read_exact(region_len)?;
        let ghost region = buf@;
        let mut indexes: Vec<TzDataIndex> = Vec::new();
        let mut start: usize = 0;
        proof {
            assert(region.skip(0) =~= region);
        }
        while buf.len() - start >= stride
            invariant
                start <= buf@.len(),
                region == buf@,
                stride >= SIZEOF_TZNAME + 2 * SIZEOF_U32,
                entry_views(indexes@) + decode_records(region.skip(start as int), stride as nat)
                    == decode_records(region, stride as nat),
            decreases buf@.len() - start,
        {
            let ghost rest = region.skip(start as int);
            let ghost rec = rest.take(stride as int);
            proof {
                assert(rec =~= region.subrange(start as int, start + stride));
                assert(rest.skip(stride as int) =~= region.skip(start + stride));
                assert(rec.take(40) =~= region.subrange(start as int, start + SIZEOF_TZNAME));
                assert(rec.subrange(40, 44) =~= region.subrange(start + 40, start + 44));
                assert(rec.subrange(44, 48) =~= region.subrange(start + 44, start + 48));
            }
            let end = find_name_end(&buf, start);
            if let Some(k) = end {
                let name = boxed_bytes(copy_range(&buf, start, k));
                let offset = read_be_u32(buf.as_slice(), start + SIZEOF_TZNAME);
                let length = read_be_u32(buf.as_slice(), start + SIZEOF_TZNAME + SIZEOF_U32);
                let ghost before = indexes@;
                indexes.push(TzDataIndex { name, offset, length });
                proof {
                    assert(entry_views(indexes@) =~= entry_views(before).push(indexes@.last()@));
                    assert(entry_views(indexes@) + decode_records(
                        region.skip(start + stride),
                        stride as nat,
                    ) =~= entry_views(before) + decode_records(rest, stride as nat));
                }
            }
            start = start + stride;
        }
        proof {
            assert(decode_records(region.skip(start as int), stride as nat) =~= seq![]);
            assert(entry_views(indexes@) =~= entry_views(indexes@) + seq![]);
        }
        Ok(TzDataIndexes { indexes })
    }
}

} // verus!
