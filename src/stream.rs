//! An in-memory byte stream with a cursor, and the errors of reading from it.
use vstd::prelude::*;

verus! {

/// Why reading the database failed.
#[derive(Debug, Clone, Copy, PartialEq, Eq, Structural)]
pub enum TzDataError {
    /// The first twelve bytes are not `tzdata`, a five-byte version and a NUL.
    InvalidMagic,
    /// The stream ended before the bytes asked for.
    UnexpectedEof,
}

/// A result that carries bytes, with the bytes as a sequence.
pub open spec fn bytes_result(r: Result<Vec<u8>, TzDataError>) -> Result<Seq<u8>, TzDataError> {
    match r {
        Ok(v) => Ok(v@),
        Err(e) => Err(e),
    }
}

/// The bytes of a database file and a read position in them.
///
/// The position may lie past the end, as after seeking a file past its end:
/// every read of one or more bytes from there fails.
pub struct ByteStream {
    data: Vec<u8>,
    pos: u64,
}

/// Copies `data[start..start + len]` into a new vector.
pub(crate) fn copy_range(data: &Vec<u8>, start: usize, len: usize) -> (r: Vec<u8>)
    requires
        start + len <= data@.len(),
    ensures
        r@ == data@.subrange(start as int, start + len),
{
    let mut r: Vec<u8> = Vec::with_capacity(len);
    let total = data.len();
    let mut i: usize = 0;
    while i < len
        invariant
            i <= len,
            start + len <= data@.len(),
            total == data@.len(),
            r@ == data@.subrange(start as int, start + i),
        decreases len - i,
    {
        r.push(data[start + i]);
        proof {
            assert(r@ =~= data@.subrange(start as int, start + i + 1));
        }
        i = i + 1;
    }
    r
}

impl ByteStream {
    /// All bytes of the stream.
    pub closed spec fn contents(&self) -> Seq<u8> {
        self.data@
    }

    /// The read position.
    pub closed spec fn cursor(&self) -> nat {
        self.pos as nat
    }

    /// Whether `n` more bytes can be read from the position. Reading nothing
    /// succeeds wherever the position lies.
    pub open spec fn can_read(&self, n: int) -> bool {
        n == 0 || self.cursor() + n <= self.contents().len()
    }

    /// The `n` bytes that follow the position.
    pub open spec fn next_bytes(&self, n: int) -> Seq<u8> {
        if n == 0 {
            Seq::empty()
        } else {
            self.contents().subrange(self.cursor() as int, self.cursor() + n)
        }
    }

    /// A stream over `data`, positioned at its start.
    pub fn new(data: Vec<u8>) -> (s: ByteStream)
        ensures
            s.contents() == data@,
            s.cursor() == 0,
    {
        ByteStream { data, pos: 0 }
    }

    /// The read position.
    pub fn position(&self) -> (r: u64)
        ensures
            r == self.cursor(),
    {
        self.pos
    }

    /// Moves the read position to `pos`, counted from the start.
    pub fn seek(&mut self, pos: u64)
        ensures
            final(self).contents() == old(self).contents(),
            final(self).cursor() == pos,
    {
        self.pos = pos;
    }

    /// Reads exactly `n` bytes. Where fewer remain, fails with `UnexpectedEof`
    /// and leaves the stream as it was; reading no bytes always succeeds.
    pub fn read_exact(&mut self, n: usize) -> (r: Result<Vec<u8>, TzDataError>)
        ensures
            final(self).contents() == old(self).contents(),
            r is Ok <==> old(self).can_read(n as int),
            r matches Ok(v) ==> v@ == old(self).next_bytes(n as int) && final(self).cursor()
                == old(self).cursor() + n,
            r matches Err(e) ==> e == TzDataError::UnexpectedEof && final(self).cursor()
                == old(self).cursor(),
    {
        if n == 0 {
            return Ok(Vec::new());
        }
        let len = self.data.len() as u64;
        if self.pos > len || len - self.pos < n as u64 {
            return Err(TzDataError::UnexpectedEof);
        }
        let v = copy_range(&self.data, self.pos as usize, n);
        self.pos = self.pos + n as u64;
        Ok(v)
    }
}

} // verus!
