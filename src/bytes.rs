use vstd::prelude::*;

verus! {

/// The little-endian encoding of a 16-bit value.
pub open spec fn le16(v: u16) -> Seq<u8> {
    seq![(v & 0xff) as u8, ((v >> 8u16) & 0xff) as u8]
}

/// The little-endian encoding of a 32-bit value.
pub open spec fn le32(v: u32) -> Seq<u8> {
    seq![
        (v & 0xff) as u8,
        ((v >> 8u32) & 0xff) as u8,
        ((v >> 16u32) & 0xff) as u8,
        ((v >> 24u32) & 0xff) as u8,
    ]
}

/// The little-endian encoding of a 64-bit value.
pub open spec fn le64(v: u64) -> Seq<u8> {
    le32((v & 0xffff_ffff) as u32) + le32((v >> 32u64) as u32)
}

/// `s` with the bytes from `at` on replaced by `b`.
pub open spec fn splice(s: Seq<u8>, at: int, b: Seq<u8>) -> Seq<u8> {
    s.subrange(0, at) + b + s.subrange(at + b.len(), s.len() as int)
}

/// Appends the little-endian encoding of `v`.
pub fn push_u16(out: &mut Vec<u8>, v: u16)
    ensures
        final(out)@ == old(out)@ + le16(v),
{
    out.push((v & 0xff) as u8);
    out.push(((v >> 8u16) & 0xff) as u8);
    assert(final(out)@ =~= old(out)@ + le16(v));
}

/// Appends the little-endian encoding of `v`.
pub fn push_u32(out: &mut Vec<u8>, v: u32)
    ensures
        final(out)@ == old(out)@ + le32(v),
{
    out.push((v & 0xff) as u8);
    out.push(((v >> 8u32) & 0xff) as u8);
    out.push(((v >> 16u32) & 0xff) as u8);
    out.push(((v >> 24u32) & 0xff) as u8);
    assert(final(out)@ =~= old(out)@ + le32(v));
}

/// Appends the little-endian encoding of `v`.
pub fn push_u64(out: &mut Vec<u8>, v: u64)
    ensures
        final(out)@ == old(out)@ + le64(v),
{
    let ghost start = out@;
    push_u32(out, (v & 0xffff_ffff) as u32);
    push_u32(out, (v >> 32u64) as u32);
    assert(out@ =~= start + le64(v));
}

/// Overwrites `b.len()` bytes of `out` starting at `at`.
pub fn write_at(out: &mut Vec<u8>, at: usize, b: &[u8])
    requires
        at + b@.len() <= old(out)@.len(),
    ensures
        final(out)@ == splice(old(out)@, at as int, b@),
{
    let n = out.len();
    let mut i: usize = 0;
    while i < b.len()
        invariant
            at + b@.len() <= old(out)@.len(),
            n == old(out)@.len(),
            0 <= i <= b@.len(),
            out@.len() == old(out)@.len(),
            out@ =~= splice(old(out)@, at as int, b@.subrange(0, i as int))
                .subrange(0, (at + i) as int) + old(out)@.subrange((at + i) as int, old(out)@.len() as int),
        decreases b@.len() - i,
    {
        out.set(at + i, b[i]);
        i = i + 1;
        assert(out@ =~= splice(old(out)@, at as int, b@.subrange(0, i as int))
                .subrange(0, (at + i) as int) + old(out)@.subrange((at + i) as int, old(out)@.len() as int));
    }
    assert(b@.subrange(0, i as int) =~= b@);
    assert(out@ =~= splice(old(out)@, at as int, b@));
}

/// The little-endian encodings of `s`, one after another.
pub open spec fn le32s(s: Seq<u32>) -> Seq<u8>
    decreases s.len(),
{
    if s.len() == 0 {
        seq![]
    } else {
        le32s(s.drop_last()) + le32(s.last())
    }
}

/// The little-endian encodings of `s`, one after another.
pub open spec fn le64s(s: Seq<u64>) -> Seq<u8>
    decreases s.len(),
{
    if s.len() == 0 {
        seq![]
    } else {
        le64s(s.drop_last()) + le64(s.last())
    }
}

/// Appends the little-endian encoding of each value.
pub fn push_u32s(out: &mut Vec<u8>, v: &Vec<u32>)
    ensures
        final(out)@ == old(out)@ + le32s(v@),
{
    let mut i: usize = 0;
    assert(v@.subrange(0, 0) =~= Seq::<u32>::empty());
    assert(out@ =~= old(out)@ + le32s(v@.subrange(0, 0)));
    while i < v.len()
        invariant
            0 <= i <= v@.len(),
            out@ == old(out)@ + le32s(v@.subrange(0, i as int)),
        decreases v@.len() - i,
    {
        push_u32(out, v[i]);
        assert(v@.subrange(0, i + 1).drop_last() =~= v@.subrange(0, i as int));
        i = i + 1;
        assert(out@ =~= old(out)@ + le32s(v@.subrange(0, i as int)));
    }
    assert(v@.subrange(0, i as int) =~= v@);
}

/// Appends the little-endian encoding of each value.
pub fn push_u64s(out: &mut Vec<u8>, v: &Vec<u64>)
    ensures
        final(out)@ == old(out)@ + le64s(v@),
{
    let mut i: usize = 0;
    assert(v@.subrange(0, 0) =~= Seq::<u64>::empty());
    assert(out@ =~= old(out)@ + le64s(v@.subrange(0, 0)));
    while i < v.len()
        invariant
            0 <= i <= v@.len(),
            out@ == old(out)@ + le64s(v@.subrange(0, i as int)),
        decreases v@.len() - i,
    {
        push_u64(out, v[i]);
        assert(v@.subrange(0, i + 1).drop_last() =~= v@.subrange(0, i as int));
        i = i + 1;
        assert(out@ =~= old(out)@ + le64s(v@.subrange(0, i as int)));
    }
    assert(v@.subrange(0, i as int) =~= v@);
}

pub proof fn lemma_le32s_len(s: Seq<u32>)
    ensures
        le32s(s).len() == 4 * s.len(),
    decreases s.len(),
{
    if s.len() > 0 {
        lemma_le32s_len(s.drop_last());
    }
}

pub proof fn lemma_le64s_len(s: Seq<u64>)
    ensures
        le64s(s).len() == 8 * s.len(),
    decreases s.len(),
{
    if s.len() > 0 {
        lemma_le64s_len(s.drop_last());
    }
}

} // verus!
