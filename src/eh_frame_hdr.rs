use crate::bytes::le32;
use crate::error::{Table, WriteError};
use crate::table_writer::TableWriter;
use vstd::prelude::*;

verus! {

broadcast use vstd::seq_lib::group_to_multiset_ensures;

/// The size of the `.eh_frame_hdr` header.
pub const EH_FRAME_HDR_SIZE: u64 = 12;
/// The offset of the frame-pointer field within the header.
pub const FRAME_POINTER_FIELD_OFFSET: u64 = 4;
/// `DW_EH_PE_sdata4 | DW_EH_PE_datarel`.
pub const TABLE_ENCODING: u8 = 0x3b;
/// `DW_EH_PE_sdata4 | DW_EH_PE_pcrel`.
pub const FRAME_POINTER_ENCODING: u8 = 0x1b;
/// `DW_EH_PE_udata4 | DW_EH_PE_absptr`.
pub const COUNT_ENCODING: u8 = 0x03;

/// One entry of the binary-search table of `.eh_frame_hdr`, both fields
/// relative to the start of `.eh_frame_hdr`.
#[derive(Clone, Copy, Debug, PartialEq, Eq, Structural)]
pub struct EhFrameHdrEntry {
    pub frame_ptr: i32,
    pub frame_info_ptr: i32,
}

/// The 32-bit little-endian value at `at`.
pub open spec fn u32_at(b: Seq<u8>, at: int) -> u32 {
    (b[at] as u32) | ((b[at + 1] as u32) << 8u32) | ((b[at + 2] as u32) << 16u32) | ((b[at + 3]
        as u32) << 24u32)
}

pub open spec fn hdr_entry_at(b: Seq<u8>, k: int) -> EhFrameHdrEntry {
    EhFrameHdrEntry {
        frame_ptr: u32_at(b, 12 + 8 * k) as i32,
        frame_info_ptr: u32_at(b, 12 + 8 * k + 4) as i32,
    }
}

/// The table entries that follow the header of `.eh_frame_hdr`.
pub open spec fn hdr_entries(b: Seq<u8>) -> Seq<EhFrameHdrEntry> {
    Seq::new(((b.len() - 12) / 8) as nat, |k: int| hdr_entry_at(b, k))
}

pub open spec fn sorted_by_frame_ptr(s: Seq<EhFrameHdrEntry>) -> bool {
    forall|i: int, j: int| 0 <= i <= j < s.len() ==> (#[trigger] s[i]).frame_ptr <= (#[trigger] s[j]).frame_ptr
}

fn read_u32(b: &Vec<u8>, at: usize) -> (r: u32)
    requires
        at + 4 <= b@.len(),
    ensures
        r == u32_at(b@, at as int),
{
    let _len = b.len();
    (b[at] as u32) | ((b[at + 1] as u32) << 8u32) | ((b[at + 2] as u32) << 16u32) | ((b[at + 3]
        as u32) << 24u32)
}

proof fn lemma_u32_round_trip(v: u32)
    ensures
        u32_at(le32(v), 0) == v,
{
    let b = le32(v);
    let b0 = (v & 0xff) as u8;
    let b1 = ((v >> 8u32) & 0xff) as u8;
    let b2 = ((v >> 16u32) & 0xff) as u8;
    let b3 = ((v >> 24u32) & 0xff) as u8;
    assert(b[0] == b0 && b[1] == b1 && b[2] == b2 && b[3] == b3);
    assert((b0 as u32) | ((b1 as u32) << 8u32) | ((b2 as u32) << 16u32) | ((b3 as u32) << 24u32)
        == v) by (bit_vector)
        requires
            b0 == (v & 0xff) as u8,
            b1 == ((v >> 8u32) & 0xff) as u8,
            b2 == ((v >> 16u32) & 0xff) as u8,
            b3 == ((v >> 24u32) & 0xff) as u8,
    ;
}

proof fn lemma_i32_round_trip(x: i32)
    ensures
        (x as u32) as i32 == x,
{
    assert((x as u32) as i32 == x) by (bit_vector);
}

proof fn lemma_u32_at_shift(a: Seq<u8>, b: Seq<u8>, at: int)
    requires
        0 <= at,
        at + 4 <= a.len(),
    ensures
        u32_at(a + b, at) == u32_at(a, at),
{
    assert((a + b)[at] == a[at]);
    assert((a + b)[at + 1] == a[at + 1]);
    assert((a + b)[at + 2] == a[at + 2]);
    assert((a + b)[at + 3] == a[at + 3]);
}

proof fn lemma_u32_at_suffix(a: Seq<u8>, v: u32)
    ensures
        u32_at(a + le32(v), a.len() as int) == v,
{
    let b = a + le32(v);
    let n = a.len() as int;
    assert(b[n] == le32(v)[0]);
    assert(b[n + 1] == le32(v)[1]);
    assert(b[n + 2] == le32(v)[2]);
    assert(b[n + 3] == le32(v)[3]);
    lemma_u32_round_trip(v);
}

/// Sorts the `.eh_frame_hdr` table by `frame_ptr`, which is what makes it
/// binary-searchable; the header stays as it is.
pub fn sort_eh_frame_hdr_entries(eh_frame_hdr: &mut Vec<u8>)
    requires
        old(eh_frame_hdr)@.len() >= 12,
        (old(eh_frame_hdr)@.len() - 12) % 8 == 0,
    ensures
        final(eh_frame_hdr)@.len() == old(eh_frame_hdr)@.len(),
        final(eh_frame_hdr)@.subrange(0, 12) == old(eh_frame_hdr)@.subrange(0, 12),
        sorted_by_frame_ptr(hdr_entries(final(eh_frame_hdr)@)),
        hdr_entries(final(eh_frame_hdr)@).to_multiset() == hdr_entries(old(eh_frame_hdr)@).to_multiset(),
{
    let len = eh_frame_hdr.len();
    let n = (len - 12) / 8;
    let ghost orig = hdr_entries(eh_frame_hdr@);
    let mut entries: Vec<EhFrameHdrEntry> = Vec::new();
    let mut k: usize = 0;
    while k < n
        invariant
            n == (eh_frame_hdr@.len() - 12) / 8,
            len == eh_frame_hdr@.len(),
            eh_frame_hdr@ == old(eh_frame_hdr)@,
            eh_frame_hdr@.len() >= 12,
            (eh_frame_hdr@.len() - 12) % 8 == 0,
            orig == hdr_entries(eh_frame_hdr@),
            k <= n,
            entries@ == orig.subrange(0, k as int),
        decreases n - k,
    {
        assert(12 + 8 * k + 8 <= len) by (nonlinear_arith)
            requires
                k < n,
                n == (len - 12) / 8,
                len >= 12,
        ;
        let fp = read_u32(eh_frame_hdr, 12 + 8 * k) as i32;
        let fip = read_u32(eh_frame_hdr, 12 + 8 * k + 4) as i32;
        entries.push(EhFrameHdrEntry { frame_ptr: fp, frame_info_ptr: fip });
        k = k + 1;
        assert(entries@ =~= orig.subrange(0, k as int));
    }
    assert(entries@ =~= orig);
    sort_entries(&mut entries);
    let mut out: Vec<u8> = Vec::new();
    let mut i: usize = 0;
    while i < 12
        invariant
            i <= 12,
            eh_frame_hdr@ == old(eh_frame_hdr)@,
            eh_frame_hdr@.len() >= 12,
            out@ == eh_frame_hdr@.subrange(0, i as int),
        decreases 12 - i,
    {
        out.push(eh_frame_hdr[i]);
        i = i + 1;
        assert(out@ =~= eh_frame_hdr@.subrange(0, i as int));
    }
    let mut k: usize = 0;
    while k < n
        invariant
            n == entries@.len(),
            k <= n,
            old(eh_frame_hdr)@.len() >= 12,
            out@.len() == 12 + 8 * k,
            out@.subrange(0, 12) == old(eh_frame_hdr)@.subrange(0, 12),
            forall|m: int| 0 <= m < k ==> #[trigger] hdr_entry_at(out@, m) == entries@[m],
        decreases n - k,
    {
        let e = entries[k];
        let ghost before = out@;
        crate::bytes::push_u32(&mut out, e.frame_ptr as u32);
        let ghost mid = out@;
        crate::bytes::push_u32(&mut out, e.frame_info_ptr as u32);
        proof {
            assert forall|m: int| 0 <= m < k + 1 implies #[trigger] hdr_entry_at(out@, m) == entries@[m] by {
                if m < k {
                    assert(hdr_entry_at(before, m) == entries@[m]);
                    lemma_u32_at_shift(before, le32(e.frame_ptr as u32), 12 + 8 * m);
                    lemma_u32_at_shift(mid, le32(e.frame_info_ptr as u32), 12 + 8 * m);
                    lemma_u32_at_shift(before, le32(e.frame_ptr as u32), 12 + 8 * m + 4);
                    lemma_u32_at_shift(mid, le32(e.frame_info_ptr as u32), 12 + 8 * m + 4);
                } else {
                    lemma_u32_at_suffix(before, e.frame_ptr as u32);
                    lemma_u32_at_shift(mid, le32(e.frame_info_ptr as u32), 12 + 8 * m);
                    lemma_u32_at_suffix(mid, e.frame_info_ptr as u32);
                    lemma_i32_round_trip(e.frame_ptr);
                    lemma_i32_round_trip(e.frame_info_ptr);
                }
            }
            assert(out@.subrange(0, 12) =~= before.subrange(0, 12));
        }
        k = k + 1;
    }
    assert(hdr_entries(out@) =~= entries@);
    *eh_frame_hdr = out;
}

/// Sorts entries by `frame_ptr`, keeping the same entries.
fn sort_entries(v: &mut Vec<EhFrameHdrEntry>)
    ensures
        sorted_by_frame_ptr(final(v)@),
        final(v)@.to_multiset() == old(v)@.to_multiset(),
        final(v)@.len() == old(v)@.len(),
{
    let n = v.len();
    let mut i: usize = 1;
    if n == 0 {
        return;
    }
    while i < n
        invariant
            n == v@.len(),
            1 <= i <= n,
            v@.to_multiset() == old(v)@.to_multiset(),
            forall|a: int, b: int|
                0 <= a <= b < i ==> (#[trigger] v@[a]).frame_ptr <= (#[trigger] v@[b]).frame_ptr,
        decreases n - i,
    {
        let mut j: usize = i;
        while j > 0 && v[j - 1].frame_ptr > v[j].frame_ptr
            invariant
                n == v@.len(),
                0 <= j <= i < n,
                v@.to_multiset() == old(v)@.to_multiset(),
                forall|a: int, b: int|
                    0 <= a < b <= i && a != j && b != j ==> (#[trigger] v@[a]).frame_ptr <= (
                    #[trigger] v@[b]).frame_ptr,
                forall|b: int| j < b <= i ==> v@[j as int].frame_ptr < (#[trigger] v@[b]).frame_ptr,
            decreases j,
        {
            let a = v[j - 1];
            let b = v[j];
            let ghost s = v@;
            v.set(j - 1, b);
            v.set(j, a);
            proof {
                vstd::seq_lib::to_multiset_update(s, j as int - 1, b);
                vstd::seq_lib::to_multiset_update(s.update(j as int - 1, b), j as int, a);
                assert(v@.to_multiset() =~= s.to_multiset());
            }
            j = j - 1;
        }
        i = i + 1;
    }
}

/// The address of `.eh_frame` relative to the frame-pointer field of
/// `.eh_frame_hdr`.
pub open spec fn eh_frame_ptr_value(eh_frame_address: u64, eh_frame_hdr_address: u64) -> int {
    eh_frame_address - (eh_frame_hdr_address + FRAME_POINTER_FIELD_OFFSET)
}

/// Returns the address of `.eh_frame` relative to the location in
/// `.eh_frame_hdr` where the frame pointer is stored.
pub fn eh_frame_ptr(eh_frame_address: u64, eh_frame_hdr_address: u64) -> (r: Result<i32, WriteError>)
    ensures
        r.is_ok() == (-0x8000_0000 <= eh_frame_ptr_value(eh_frame_address, eh_frame_hdr_address)
            < 0x8000_0000),
        r.is_ok() ==> r->Ok_0 == eh_frame_ptr_value(eh_frame_address, eh_frame_hdr_address),
{
    let d: i128 = eh_frame_address as i128 - (eh_frame_hdr_address as i128 + FRAME_POINTER_FIELD_OFFSET as i128);
    if d < -0x8000_0000 || d >= 0x8000_0000 {
        return Err(WriteError::EhFrameHdrOverflow);
    }
    Ok(d as i32)
}

/// The number of table entries that fit an `.eh_frame_hdr` of `mem_size`
/// bytes.
pub fn eh_frame_hdr_entry_count(mem_size: u64) -> (r: Result<u32, WriteError>)
    requires
        mem_size >= EH_FRAME_HDR_SIZE,
    ensures
        r.is_ok() == ((mem_size - 12) / 8 <= u32::MAX),
        r.is_ok() ==> r->Ok_0 == (mem_size - 12) / 8,
{
    let count = (mem_size - EH_FRAME_HDR_SIZE) / 8;
    if count > u32::MAX as u64 {
        return Err(WriteError::EhFrameHdrOverflow);
    }
    Ok(count as u32)
}

/// The bytes of the `.eh_frame_hdr` header.
pub open spec fn eh_frame_hdr_header(frame_pointer: i32, entry_count: u32) -> Seq<u8> {
    seq![1u8, FRAME_POINTER_ENCODING, COUNT_ENCODING, TABLE_ENCODING] + le32(frame_pointer as u32)
        + le32(entry_count)
}

/// Writes the `.eh_frame_hdr` header: version, the three encodings, the
/// pointer to `.eh_frame` and the number of table entries.
pub fn write_eh_frame_hdr(
    table_writer: &mut TableWriter,
    eh_frame_address: u64,
    eh_frame_hdr_address: u64,
    eh_frame_hdr_mem_size: u64,
) -> (r: Result<(), WriteError>)
    requires
        old(table_writer).wf(),
        eh_frame_hdr_mem_size >= EH_FRAME_HDR_SIZE,
    ensures
        final(table_writer).wf(),
        *final(table_writer) == (TableWriter { eh_frame_hdr: final(table_writer).eh_frame_hdr, ..*old(table_writer) }),
        final(table_writer).eh_frame_hdr.capacity == old(table_writer).eh_frame_hdr.capacity,
        r.is_ok() == (12 <= old(table_writer).eh_frame_hdr.room() && -0x8000_0000
            <= eh_frame_ptr_value(eh_frame_address, eh_frame_hdr_address) < 0x8000_0000 && (
        eh_frame_hdr_mem_size - 12) / 8 <= u32::MAX),
        r.is_ok() ==> final(table_writer).eh_frame_hdr.items@ == old(table_writer).eh_frame_hdr.items@
            + eh_frame_hdr_header(
            eh_frame_ptr_value(eh_frame_address, eh_frame_hdr_address) as i32,
            ((eh_frame_hdr_mem_size - 12) / 8) as u32,
        ),
{
    if table_writer.eh_frame_hdr.remaining() < 12 {
        return Err(WriteError::InsufficientAllocation { table: Table::EhFrameHdr });
    }
    let frame_pointer = eh_frame_ptr(eh_frame_address, eh_frame_hdr_address)?;
    let entry_count = eh_frame_hdr_entry_count(eh_frame_hdr_mem_size)?;
    let mut header: Vec<u8> = vec![1u8, FRAME_POINTER_ENCODING, COUNT_ENCODING, TABLE_ENCODING];
    crate::bytes::push_u32(&mut header, frame_pointer as u32);
    crate::bytes::push_u32(&mut header, entry_count);
    assert(header@ =~= eh_frame_hdr_header(frame_pointer, entry_count));
    table_writer.eh_frame_hdr.take_bytes(header.as_slice(), Table::EhFrameHdr)
}

} // verus!
