//! Byte-vector helpers and big-endian integer encodings.
use vstd::prelude::*;

verus! {

/// The two big-endian bytes of `v`.
pub open spec fn be16(v: u16) -> Seq<u8> {
    seq![(v / 256) as u8, (v % 256) as u8]
}

/// The four big-endian bytes of `v`.
pub open spec fn be32(v: u32) -> Seq<u8> {
    seq![
        (v / 0x100_0000) as u8,
        ((v / 0x1_0000) % 256) as u8,
        ((v / 256) % 256) as u8,
        (v % 256) as u8,
    ]
}

/// The number that two big-endian bytes write.
pub open spec fn from_be16(hi: u8, lo: u8) -> nat {
    (hi as nat) * 256 + lo as nat
}

/// Reading back the two bytes of `be16(v)` gives `v`.
pub proof fn lemma_be16_roundtrip(v: u16)
    ensures
        from_be16(be16(v)[0], be16(v)[1]) == v,
{
}

/// Appends the bytes of a slice.
pub fn push_bytes(out: &mut Vec<u8>, b: &[u8])
    ensures
        final(out)@ == old(out)@ + b@,
{
    let ghost start = out@;
    for i in 0..b.len()
        invariant
            out@ == start + b@.take(i as int),
    {
        out.push(b[i]);
        assert(b@.take(i + 1) == b@.take(i as int).push(b@[i as int]));
    }
    assert(b@.take(b@.len() as int) =~= b@);
}

/// A copy of `b[lo..hi]`.
pub fn slice_bytes(b: &[u8], lo: usize, hi: usize) -> (out: Vec<u8>)
    requires
        lo <= hi <= b@.len(),
    ensures
        out@ == b@.subrange(lo as int, hi as int),
{
    let mut out: Vec<u8> = Vec::new();
    let mut k: usize = lo;
    while k < hi
        invariant
            lo <= k <= hi <= b@.len(),
            out@ == b@.subrange(lo as int, k as int),
        decreases hi - k,
    {
        out.push(b[k]);
        assert(b@.subrange(lo as int, k + 1) == b@.subrange(lo as int, k as int).push(b@[k as int]));
        k = k + 1;
    }
    out
}

} // verus!
