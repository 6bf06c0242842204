//! The fixed 24-byte header at the start of a database.
use vstd::prelude::*;

use crate::bytes::{be_u32, read_be_u32};
use crate::stream::{ByteStream, TzDataError};

verus! {

/// Length of the block that holds the magic word, the version and a NUL.
pub const TZDATA_VERSION_SIZE: usize = 12;

/// Length of the whole header.
pub const TZDATA_HEADER_SIZE: usize = 24;

/// The magic word `tzdata` that opens every database.
pub open spec fn tzdata_magic() -> Seq<u8> {
    seq![0x74u8, 0x7au8, 0x64u8, 0x61u8, 0x74u8, 0x61u8]
}

/// Whether a 12-byte block starts with the magic word and ends with a NUL.
pub open spec fn magic_ok(block: Seq<u8>) -> bool {
    &&& block.len() == 12
    &&& block.take(6) == tzdata_magic()
    &&& block[11] == 0
}

/// Header of the `tzdata` file.
#[derive(Debug, Clone, Copy, PartialEq, Eq)]
pub struct TzDataHeader {
    pub version: [u8; 5],
    pub index_offset: u32,
    pub data_offset: u32,
    pub zonetab_offset: u32,
}

/// Whether `h` is what the 24 header bytes `b` hold.
pub open spec fn decodes_header(h: TzDataHeader, b: Seq<u8>) -> bool {
    &&& b.len() == 24
    &&& h.version@ == b.subrange(6, 11)
    &&& h.index_offset == be_u32(b.subrange(12, 16))
    &&& h.data_offset == be_u32(b.subrange(16, 20))
    &&& h.zonetab_offset == be_u32(b.subrange(20, 24))
}

/// Tests a 12-byte block for the magic word and the closing NUL.
fn check_magic(block: &Vec<u8>) -> (r: bool)
    requires
        block@.len() == 12,
    ensures
        r == magic_ok(block@),
{
    let ok = block[0] == 0x74 && block[1] == 0x7a && block[2] == 0x64 && block[3] == 0x61
        && block[4] == 0x74 && block[5] == 0x61 && block[11] == 0;
    proof {
        if ok {
            assert(block@.take(6) =~= tzdata_magic());
        } else if block@[11] == 0 {
            let m = tzdata_magic();
            assert(exists|k: int| 0 <= k < 6 && block@[k] != m[k]);
            if block@.take(6) == m {
                let k = choose|k: int| 0 <= k < 6 && block@[k] != m[k];
                assert(block@.take(6)[k] == block@[k]);
            }
        }
    }
    ok
}

impl TzDataHeader {
    /// What reading a header does: from a stream `before`, it gives `r` and
    /// leaves the stream as `after`.
    pub open spec fn read_from(
        before: ByteStream,
        after: ByteStream,
        r: Result<Self, TzDataError>,
    ) -> bool {
        &&& after.contents() == before.contents()
        &&& !before.can_read(12) ==> r == Err::<Self, TzDataError>(TzDataError::UnexpectedEof)
            && after.cursor() == before.cursor()
        &&& before.can_read(12) && !magic_ok(before.next_bytes(12)) ==> r == Err::<
            Self,
            TzDataError,
        >(TzDataError::InvalidMagic) && after.cursor() == before.cursor() + 12
        &&& before.can_read(12) && magic_ok(before.next_bytes(12)) && !before.can_read(24)
            ==> r == Err::<Self, TzDataError>(TzDataError::UnexpectedEof)
        &&& before.can_read(24) && magic_ok(before.next_bytes(12)) ==> r is Ok
        &&& r matches Ok(h) ==> decodes_header(h, before.next_bytes(24)) && after.cursor()
            == before.cursor() + 24
    }

    /// Parse the header of the `tzdata` file.
    ///
    /// Reads twelve bytes and checks them for `tzdata`, a version and a NUL, then
    /// reads the three big-endian offsets. A stream that ends early gives
    /// `UnexpectedEof`; a wrong magic block gives `InvalidMagic` after twelve bytes
    /// were consumed.
    pub fn new(data: &mut ByteStream) -> (r: Result<Self, TzDataError>)
        ensures
            Self::read_from(*old(data), *final(data), r),
    {
        let magic = data.read_exact(TZDATA_VERSION_SIZE)?;
        if !check_magic(&magic) {
            return Err(TzDataError::InvalidMagic);
        }
        let version: [u8; 5] = [magic[6], magic[7], magic[8], magic[9], magic[10]];
        let offsets = data.read_exact(TZDATA_HEADER_SIZE - TZDATA_VERSION_SIZE)?;
        let index_offset = read_be_u32(offsets.as_slice(), 0);
        let data_offset = read_be_u32(offsets.as_slice(), 4);
        let zonetab_offset = read_be_u32(offsets.as_slice(), 8);
        let h = TzDataHeader { version, index_offset, data_offset, zonetab_offset };
        proof {
            let s = old(data);
            let b = s.next_bytes(24);
            assert(magic@ =~= b.subrange(0, 12));
            assert(offsets@ =~= b.subrange(12, 24));
            assert(h.version@ =~= b.subrange(6, 11));
            assert(offsets@.subrange(0, 4) =~= b.subrange(12, 16));
            assert(offsets@.subrange(4, 8) =~= b.subrange(16, 20));
            assert(offsets@.subrange(8, 12) =~= b.subrange(20, 24));
        }
        Ok(h)
    }
}

} // verus!
