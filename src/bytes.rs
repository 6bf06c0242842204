//! Big-endian integers and the byte-wise order of names.
use vstd::prelude::*;

verus! {

/// The value of four bytes read as a big-endian unsigned integer.
pub open spec fn be_u32(b: Seq<u8>) -> u32
    recommends
        b.len() == 4,
{
    (b[0] as int * 0x1000000 + b[1] as int * 0x10000 + b[2] as int * 0x100 + b[3] as int) as u32
}

/// Reads the big-endian `u32` stored at `bytes[at..at + 4]`.
pub fn read_be_u32(bytes: &[u8], at: usize) -> (r: u32)
    requires
        at + 4 <= bytes@.len(),
    ensures
        r == be_u32(bytes@.subrange(at as int, at + 4)),
{
    let b0 = bytes[at] as u32;
    let b1 = bytes[at + 1] as u32;
    let b2 = bytes[at + 2] as u32;
    let b3 = bytes[at + 3] as u32;
    b0 * 0x1000000 + b1 * 0x10000 + b2 * 0x100 + b3
}

/// Strict lexicographic order on byte strings: the order of `[u8]` in std, in which
/// a proper prefix comes first.
pub open spec fn bytes_lt(a: Seq<u8>, b: Seq<u8>) -> bool
    decreases a.len(),
{
    if a.len() == 0 {
        b.len() > 0
    } else if b.len() == 0 {
        false
    } else if a[0] != b[0] {
        a[0] < b[0]
    } else {
        bytes_lt(a.drop_first(), b.drop_first())
    }
}

/// No byte string comes before itself.
pub proof fn lemma_bytes_lt_irreflexive(a: Seq<u8>)
    ensures
        !bytes_lt(a, a),
    decreases a.len(),
{
    if a.len() > 0 {
        lemma_bytes_lt_irreflexive(a.drop_first());
    }
}

/// Of two different byte strings exactly one comes first.
pub proof fn lemma_bytes_lt_total(a: Seq<u8>, b: Seq<u8>)
    ensures
        a != b ==> (bytes_lt(a, b) || bytes_lt(b, a)),
        !(bytes_lt(a, b) && bytes_lt(b, a)),
    decreases a.len(),
{
    if a.len() > 0 && b.len() > 0 && a[0] == b[0] {
        lemma_bytes_lt_total(a.drop_first(), b.drop_first());
        if a != b {
            assert(a =~= seq![a[0]] + a.drop_first());
            assert(b =~= seq![b[0]] + b.drop_first());
        }
    } else if a.len() == 0 && b.len() == 0 {
        assert(a =~= b);
    }
}

/// The order is transitive.
pub proof fn lemma_bytes_lt_transitive(a: Seq<u8>, b: Seq<u8>, c: Seq<u8>)
    requires
        bytes_lt(a, b),
        bytes_lt(b, c),
    ensures
        bytes_lt(a, c),
    decreases a.len(),
{
    if a.len() > 0 && a[0] == b[0] && b[0] == c[0] {
        lemma_bytes_lt_transitive(a.drop_first(), b.drop_first(), c.drop_first());
    }
}

/// Compares two byte strings in the order `bytes_lt`.
pub fn compare_bytes(a: &[u8], b: &[u8]) -> (r: core::cmp::Ordering)
    ensures
        (r == core::cmp::Ordering::Less) == bytes_lt(a@, b@),
        (r == core::cmp::Ordering::Equal) == (a@ == b@),
        (r == core::cmp::Ordering::Greater) == bytes_lt(b@, a@),
{
    proof {
        lemma_bytes_lt_total(a@, b@);
        lemma_bytes_lt_irreflexive(a@);
        assert(a@.skip(0) =~= a@);
        assert(b@.skip(0) =~= b@);
    }
    let mut i: usize = 0;
    while i < a.len() && i < b.len()
        invariant
            i <= a@.len(),
            i <= b@.len(),
            a@.take(i as int) == b@.take(i as int),
            bytes_lt(a@, b@) == bytes_lt(a@.skip(i as int), b@.skip(i as int)),
            bytes_lt(b@, a@) == bytes_lt(b@.skip(i as int), a@.skip(i as int)),
        decreases a@.len() - i,
    {
        if a[i] != b[i] {
            assert(a@.skip(i as int)[0] == a@[i as int]);
            assert(b@.skip(i as int)[0] == b@[i as int]);
            if a[i] < b[i] {
                return core::cmp::Ordering::Less;
            } else {
                return core::cmp::Ordering::Greater;
            }
        }
        assert(a@.skip(i as int).drop_first() =~= a@.skip(i + 1));
        assert(b@.skip(i as int).drop_first() =~= b@.skip(i + 1));
        assert(a@.take(i + 1) =~= a@.take(i as int).push(a@[i as int]));
        assert(b@.take(i + 1) =~= b@.take(i as int).push(b@[i as int]));
        i = i + 1;
    }
    if a.len() < b.len() {
        core::cmp::Ordering::Less
    } else if b.len() < a.len() {
        core::cmp::Ordering::Greater
    } else {
        assert(a@ =~= a@.take(i as int));
        assert(b@ =~= b@.take(i as int));
        core::cmp::Ordering::Equal
    }
}

} // verus!
