//! Laws that relate the decoders and the search.
use vstd::prelude::*;

use crate::header::{decodes_header, TzDataHeader};
use crate::index::{
    decode_records, find_entry, lemma_find_entry_at, lemma_search_entry_sorted, names_sorted,
    search_entry, TzDataIndexes,
};
use crate::stream::{ByteStream, TzDataError};

verus! {

/// Looking up the name of any decoded entry finds that very entry, by the binary
/// search as well as by name, provided the decoded names rise strictly (as the
/// database keeps them).
pub proof fn lemma_find_decoded_entry(region: Seq<u8>, stride: nat, i: int)
    requires
        names_sorted(decode_records(region, stride)),
        0 <= i < decode_records(region, stride).len(),
    ensures
        find_entry(decode_records(region, stride), decode_records(region, stride)[i].name) == Some(
            decode_records(region, stride)[i],
        ),
        search_entry(decode_records(region, stride), decode_records(region, stride)[i].name)
            == Some(decode_records(region, stride)[i]),
{
    lemma_find_entry_at(decode_records(region, stride), i);
    let entries = decode_records(region, stride);
    lemma_search_entry_sorted(entries, entries[i].name);
}

/// A short record at the end of the index region adds nothing: the entries are
/// those of the whole records alone.
pub proof fn lemma_runt_record_dropped(region: Seq<u8>, stride: nat)
    requires
        stride > 0,
    ensures
        decode_records(region, stride) == decode_records(
            region.take(region.len() - region.len() % stride),
            stride,
        ),
    decreases region.len(),
{
    let whole = region.take(region.len() - region.len() % stride);
    if region.len() < stride {
        assert(region.len() % stride == region.len()) by (nonlinear_arith)
            requires
                region.len() < stride,
        ;
    } else {
        let rest = region.skip(stride as int);
        lemma_runt_record_dropped(rest, stride);
        assert(rest.len() % stride == region.len() % stride) by (nonlinear_arith)
            requires
                rest.len() == region.len() - stride,
                stride > 0,
        ;
        assert(region.len() - region.len() % stride >= stride) by (nonlinear_arith)
            requires
                region.len() >= stride,
                stride > 0,
        ;
        assert(whole.take(stride as int) =~= region.take(stride as int));
        assert(whole.skip(stride as int) =~= rest.take(rest.len() - rest.len() % stride));
    }
}

/// Reading a header twice from streams with the same bytes and position gives
/// the same result.
pub proof fn lemma_header_read_deterministic(
    s1: ByteStream,
    a1: ByteStream,
    r1: Result<TzDataHeader, TzDataError>,
    s2: ByteStream,
    a2: ByteStream,
    r2: Result<TzDataHeader, TzDataError>,
)
    requires
        s1.contents() == s2.contents(),
        s1.cursor() == s2.cursor(),
        TzDataHeader::read_from(s1, a1, r1),
        TzDataHeader::read_from(s2, a2, r2),
    ensures
        r1 is Ok <==> r2 is Ok,
        r1 matches Err(e1) ==> r2 == Err::<TzDataHeader, TzDataError>(e1),
        r1 matches Ok(h1) ==> (r2 matches Ok(h2) && h1.version@ == h2.version@ && h1.index_offset
            == h2.index_offset && h1.data_offset == h2.data_offset && h1.zonetab_offset
            == h2.zonetab_offset && a1.cursor() == a2.cursor()),
{
}

/// Reading the index twice from streams with the same bytes and position, with
/// the same header and record size, gives the same result.
pub proof fn lemma_index_read_deterministic(
    header: TzDataHeader,
    stride: nat,
    s1: ByteStream,
    a1: ByteStream,
    r1: Result<TzDataIndexes, TzDataError>,
    s2: ByteStream,
    a2: ByteStream,
    r2: Result<TzDataIndexes, TzDataError>,
)
    requires
        s1.contents() == s2.contents(),
        s1.cursor() == s2.cursor(),
        TzDataIndexes::parsed(s1, a1, header, stride, r1),
        TzDataIndexes::parsed(s2, a2, header, stride, r2),
    ensures
        r1 is Ok <==> r2 is Ok,
        r1 matches Err(e1) ==> r2 == Err::<TzDataIndexes, TzDataError>(e1),
        r1 matches Ok(t1) ==> (r2 matches Ok(t2) && t1@ == t2@),
        a1.cursor() == a2.cursor(),
{
}

} // verus!
