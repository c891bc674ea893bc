use crate::error::WriteError;
use crate::model::Resolution;
use crate::reloc::{apply_relocation, step_bytes, step_emission, RelocationContext, RelocationRecord, SectionInfo};
use crate::eh_frame_hdr::u32_at;
use crate::table_writer::{cat, e_le, e_none, Emission, TableWriter};
use vstd::prelude::*;

verus! {

#[verifier::external_type_specification]
#[verifier::external_body]
#[verifier::reject_recursive_types(K)]
#[verifier::reject_recursive_types(V)]
#[verifier::reject_recursive_types(S)]
pub struct ExAHashMap<K, V, S>(ahash::AHashMap<K, V, S>);

#[verifier::external_type_specification]
#[verifier::external_body]
pub struct ExRandomState(ahash::RandomState);

/// A map from the input offset of each CIE to its output offset.
pub type CieMap = ahash::AHashMap<u32, u32>;

/// What a CIE offset map holds: input offset to output offset.
pub uninterp spec fn cie_offsets(m: CieMap) -> Map<u32, u32>;

/// Relies on `ahash::AHashMap::new`: an empty map.
#[verifier::external_body]
fn cie_map_new() -> (r: CieMap)
    ensures
        cie_offsets(r).dom() =~= Set::empty(),
{
    ahash::AHashMap::new()
}

/// Relies on `ahash::AHashMap::insert`: afterwards the key maps to the value.
#[verifier::external_body]
fn cie_map_insert(m: &mut CieMap, k: u32, v: u32)
    ensures
        cie_offsets(*final(m)) == cie_offsets(*old(m)).insert(k, v),
{
    m.insert(k, v);
}

/// Relies on `ahash::AHashMap::get`: the value of the key, if it has one.
#[verifier::external_body]
fn cie_map_get(m: &CieMap, k: u32) -> (r: Option<u32>)
    ensures
        r == (if cie_offsets(*m).contains_key(k) {
            Some(cie_offsets(*m)[k])
        } else {
            None
        }),
{
    m.get(&k).copied()
}

/// An input object's `.eh_frame` section: its bytes, its relocations in
/// offset order, and the address of the output's `.eh_frame_hdr`.
pub struct EhFrameInput {
    pub data: Vec<u8>,
    pub relocations: Vec<EhFrameRelocation>,
    pub eh_frame_hdr_address: u64,
}

/// What rewriting `input` from writer `w` produces.
pub open spec fn eh_frame_result(input: EhFrameInput, w: TableWriter, ctx: RelocationContext) -> Option<EhState> {
    eh_fold(
        input.data@,
        input.relocations@,
        w.eh_frame_start_address,
        input.eh_frame_hdr_address,
        ctx,
        eh_start(w.eh_frame_hdr.room()),
    )
}

/// A relocation of an input `.eh_frame` section, with what it refers to.
#[derive(Clone, Copy, Debug, PartialEq, Eq, Structural)]
pub struct EhFrameRelocation {
    pub rel: RelocationRecord,
    pub resolution: Resolution,
    /// The address of the section that the referenced symbol is in, when
    /// that section is part of the output.
    pub target_section_address: Option<u64>,
    /// The referenced symbol's value within its section.
    pub symbol_value: u64,
}

/// The offset within an FDE of its pc-begin field.
pub const FDE_PC_BEGIN_OFFSET: u64 = 8;

/// The bytes `from..to` of `data`.
pub fn copy_range(data: &Vec<u8>, from: usize, to: usize) -> (r: Vec<u8>)
    requires
        from <= to <= data@.len(),
    ensures
        r@ == data@.subrange(from as int, to as int),
{
    let mut r: Vec<u8> = Vec::new();
    let mut i: usize = from;
    while i < to
        invariant
            from <= i <= to,
            to <= data@.len(),
            r@ == data@.subrange(from as int, i as int),
        decreases to - i,
    {
        r.push(data[i]);
        i = i + 1;
        assert(r@ =~= data@.subrange(from as int, i as int));
    }
    r
}

fn read_u32_at(b: &Vec<u8>, at: usize) -> (r: u32)
    requires
        at + 4 <= b@.len(),
    ensures
        r == crate::eh_frame_hdr::u32_at(b@, at as int),
{
    let _len = b.len();
    (b[at] as u32) | ((b[at + 1] as u32) << 8u32) | ((b[at + 2] as u32) << 16u32) | ((b[at + 3]
        as u32) << 24u32)
}

/// A 32-bit pointer relative to `.eh_frame_hdr`, when it fits.
fn hdr_relative(address: u64, eh_frame_hdr_address: u64) -> (r: Result<i32, WriteError>)
    ensures
        r.is_ok() == (-0x8000_0000 <= (address as i64) - (eh_frame_hdr_address as i64) < 0x8000_0000),
        r.is_ok() ==> r->Ok_0 == (address as i64) - (eh_frame_hdr_address as i64),
{
    let d: i128 = (address as i64) as i128 - (eh_frame_hdr_address as i64) as i128;
    if d < -0x8000_0000 || d >= 0x8000_0000 {
        return Err(WriteError::EhFrameHdrOverflow);
    }
    Ok(d as i32)
}

/// Where the rewrite of an input `.eh_frame` stands: the input position,
/// the next relocation, the output position, the output offset of each CIE
/// seen, the bytes written to `.eh_frame` and to `.eh_frame_hdr`, the room
/// left for `.eh_frame_hdr` entries, and what relocations asked of the
/// tables.
pub struct EhState {
    pub pos: int,
    pub ri: int,
    pub opos: int,
    pub cies: Map<u32, u32>,
    pub out: Seq<u8>,
    pub hdr: Seq<u8>,
    pub hdr_room: int,
    pub e: Emission,
}

/// Applying the relocations that fall inside the entry from `pos` to `end`,
/// in order, to its bytes: the bytes, the accumulated table entries and the
/// next relocation; `None` for a relocation before the entry.
pub open spec fn entry_relocs(
    bytes: Seq<u8>,
    e: Emission,
    relocs: Seq<EhFrameRelocation>,
    ri: int,
    pos: int,
    end: int,
    address: u64,
    ctx: RelocationContext,
) -> Option<(Seq<u8>, Emission, int)>
    decreases relocs.len() - ri,
{
    if 0 <= ri < relocs.len() && relocs[ri].rel.r_offset < end {
        let er = relocs[ri];
        if er.rel.r_offset < pos {
            None
        } else {
            let off = (er.rel.r_offset - pos) as u64;
            let si = SectionInfo { section_address: address, is_writable: false };
            entry_relocs(
                step_bytes(er.rel, off, bytes, er.resolution, si, ctx),
                cat(e, step_emission(er.rel, off, bytes, er.resolution, si, ctx)),
                relocs,
                ri + 1,
                pos,
                end,
                address,
                ctx,
            )
        }
    } else {
        Some((bytes, e, ri))
    }
}

/// The first relocation from `ri` on that lies at or after `end`.
pub open spec fn skip_to(relocs: Seq<EhFrameRelocation>, ri: int, end: int) -> int
    decreases relocs.len() - ri,
{
    if 0 <= ri < relocs.len() && relocs[ri].rel.r_offset < end {
        skip_to(relocs, ri + 1, end)
    } else {
        ri
    }
}

/// A pointer to `address` relative to `.eh_frame_hdr`.
pub open spec fn hdr_pointer(address: u64, eh_frame_hdr_address: u64) -> int {
    (address as i64) - (eh_frame_hdr_address as i64)
}

/// Rewriting the entry at `st.pos` (a length and what follows it). A CIE is
/// kept and its output offset recorded. An FDE is kept when the next
/// relocation is its pc-begin and refers to a section of the output; it
/// then gets an `.eh_frame_hdr` entry (its function's and its own address,
/// relative to `.eh_frame_hdr`) where there is room, and its pointer to its
/// CIE is rewritten to the distance to the CIE's output copy. A kept entry
/// has its relocations applied; a dropped one's are skipped. `None` when the
/// length runs past the data, the CIE pointer points before the data or at
/// no CIE, or an `.eh_frame_hdr` pointer does not fit in 32 bits.
#[verifier::opaque]
pub open spec fn eh_step(
    data: Seq<u8>,
    relocs: Seq<EhFrameRelocation>,
    base: u64,
    hdr_address: u64,
    ctx: RelocationContext,
    st: EhState,
) -> Option<EhState> {
    let pos = st.pos;
    let length = u32_at(data, pos);
    let cie_id = u32_at(data, pos + 4);
    if length > data.len() - pos - 4 {
        None
    } else {
        let size = 4 + length;
        let next = pos + size;
        let r = st.ri;
        let is_cie = cie_id == 0;
        let fde_live = !is_cie && 0 <= r < relocs.len() && relocs[r].rel.r_offset < next
            && relocs[r].rel.r_offset >= pos && relocs[r].rel.r_offset - pos == FDE_PC_BEGIN_OFFSET
            && relocs[r].target_section_address is Some;
        let cies = if is_cie {
            st.cies.insert(pos as u32, st.opos as u32)
        } else {
            st.cies
        };
        let cie_pointer_pos = vstd::wrapping::u32_specs::wrapping_add(pos as u32, 4);
        let input_cie_pos = (cie_pointer_pos - cie_id) as u32;
        let er = relocs[r];
        let function = vstd::wrapping::u64_specs::wrapping_add(
            er.target_section_address->Some_0,
            vstd::wrapping::i64_specs::wrapping_add(er.symbol_value as i64, er.rel.r_addend) as u64,
        );
        let fde_address = vstd::wrapping::u64_specs::wrapping_add(base, st.opos as u64);
        let fp = hdr_pointer(function, hdr_address);
        let fip = hdr_pointer(fde_address, hdr_address);
        let hdr_take = fde_live && st.hdr_room >= 8;
        if fde_live && (cie_id > cie_pointer_pos || (hdr_take && !(crate::table_writer::fits_i32(fp)
            && crate::table_writer::fits_i32(fip))) || !cies.contains_key(input_cie_pos)) {
            None
        } else {
            let hdr = if hdr_take {
                st.hdr + crate::bytes::le32((fp as i32) as u32) + crate::bytes::le32((fip as i32) as u32)
            } else {
                st.hdr
            };
            let hdr_room = if hdr_take {
                st.hdr_room - 8
            } else {
                st.hdr_room
            };
            if is_cie || fde_live {
                let entry = data.subrange(pos, next);
                let entry = if fde_live {
                    crate::bytes::splice(
                        entry,
                        4,
                        crate::bytes::le32(
                            vstd::wrapping::u32_specs::wrapping_sub(
                                vstd::wrapping::u32_specs::wrapping_add(st.opos as u32, 4),
                                cies[input_cie_pos],
                            ),
                        ),
                    )
                } else {
                    entry
                };
                match entry_relocs(entry, st.e, relocs, r, pos, next, fde_address, ctx) {
                    None => None,
                    Some((bytes, e, ri2)) => Some(
                        EhState { pos: next, ri: ri2, opos: st.opos + size, cies, out: st.out + bytes, hdr, hdr_room, e },
                    ),
                }
            } else {
                Some(EhState { pos: next, ri: skip_to(relocs, r, next), cies, hdr, hdr_room, ..st })
            }
        }
    }
}

/// The rewrite of `data` from `st` on: entry by entry as `eh_step` says,
/// then the bytes after the last entry (too short to be one) copied as they
/// are. `None` when an entry is malformed.
pub open spec fn eh_fold(
    data: Seq<u8>,
    relocs: Seq<EhFrameRelocation>,
    base: u64,
    hdr_address: u64,
    ctx: RelocationContext,
    st: EhState,
) -> Option<EhState>
    decreases data.len() - st.pos,
{
    if !(0 <= st.pos <= data.len()) {
        None
    } else if st.pos + 8 > data.len() {
        Some(
            EhState {
                pos: data.len() as int,
                opos: st.opos + (data.len() - st.pos),
                out: st.out + data.subrange(st.pos, data.len() as int),
                ..st
            },
        )
    } else {
        match eh_step(data, relocs, base, hdr_address, ctx, st) {
            None => None,
            Some(n) => if st.pos < n.pos <= data.len() {
                eh_fold(data, relocs, base, hdr_address, ctx, n)
            } else {
                None
            },
        }
    }
}

/// The state a rewrite starts from.
pub open spec fn eh_start(hdr_room: int) -> EhState {
    EhState {
        pos: 0,
        ri: 0,
        opos: 0,
        cies: Map::empty(),
        out: Seq::empty(),
        hdr: Seq::empty(),
        hdr_room,
        e: e_none(),
    }
}

proof fn lemma_entry_relocs_grow(
    bytes: Seq<u8>,
    e: Emission,
    relocs: Seq<EhFrameRelocation>,
    ri: int,
    pos: int,
    end: int,
    address: u64,
    ctx: RelocationContext,
)
    requires
        entry_relocs(bytes, e, relocs, ri, pos, end, address, ctx) is Some,
    ensures
        e_le(e, entry_relocs(bytes, e, relocs, ri, pos, end, address, ctx)->Some_0.1),
    decreases relocs.len() - ri,
{
    if 0 <= ri < relocs.len() && relocs[ri].rel.r_offset < end {
        let er = relocs[ri];
        let off = (er.rel.r_offset - pos) as u64;
        let si = SectionInfo { section_address: address, is_writable: false };
        lemma_entry_relocs_grow(
            step_bytes(er.rel, off, bytes, er.resolution, si, ctx),
            cat(e, step_emission(er.rel, off, bytes, er.resolution, si, ctx)),
            relocs,
            ri + 1,
            pos,
            end,
            address,
            ctx,
        );
    }
}

proof fn lemma_eh_step_grows(
    data: Seq<u8>,
    relocs: Seq<EhFrameRelocation>,
    base: u64,
    hdr_address: u64,
    ctx: RelocationContext,
    st: EhState,
)
    requires
        eh_step(data, relocs, base, hdr_address, ctx, st) is Some,
        0 <= st.pos,
        st.pos + 8 <= data.len(),
    ensures
        ({
            let n = eh_step(data, relocs, base, hdr_address, ctx, st)->Some_0;
            &&& e_le(st.e, n.e)
            &&& st.out.len() <= n.out.len()
            &&& n.pos > st.pos
            &&& n.pos <= data.len()
            &&& n.opos - st.opos <= n.pos - st.pos
            &&& n.opos >= st.opos
        }),
{
    reveal(eh_step);
    let pos = st.pos;
    let length = u32_at(data, pos);
    let cie_id = u32_at(data, pos + 4);
    let size = 4 + length;
    let next = pos + size;
    let r = st.ri;
    let is_cie = cie_id == 0;
    let fde_live = !is_cie && 0 <= r < relocs.len() && relocs[r].rel.r_offset < next
        && relocs[r].rel.r_offset >= pos && relocs[r].rel.r_offset - pos == FDE_PC_BEGIN_OFFSET
        && relocs[r].target_section_address is Some;
    if is_cie || fde_live {
        let cies = if is_cie {
            st.cies.insert(pos as u32, st.opos as u32)
        } else {
            st.cies
        };
        let cie_pointer_pos = vstd::wrapping::u32_specs::wrapping_add(pos as u32, 4);
        let input_cie_pos = (cie_pointer_pos - cie_id) as u32;
        let entry = data.subrange(pos, next);
        let entry = if fde_live {
            crate::bytes::splice(
                entry,
                4,
                crate::bytes::le32(
                    vstd::wrapping::u32_specs::wrapping_sub(
                        vstd::wrapping::u32_specs::wrapping_add(st.opos as u32, 4),
                        cies[input_cie_pos],
                    ),
                ),
            )
        } else {
            entry
        };
        let fde_address = vstd::wrapping::u64_specs::wrapping_add(base, st.opos as u64);
        lemma_entry_relocs_grow(entry, st.e, relocs, r, pos, next, fde_address, ctx);
    } else {
        lemma_skip_to_ok(relocs, r, next);
    }
}

proof fn lemma_skip_to_ok(relocs: Seq<EhFrameRelocation>, ri: int, end: int)
    ensures
        skip_to(relocs, ri, end) >= ri,
    decreases relocs.len() - ri,
{
    if 0 <= ri < relocs.len() && relocs[ri].rel.r_offset < end {
        lemma_skip_to_ok(relocs, ri + 1, end);
    }
}

/// What the rewrite asks of the tables and writes only grows.
proof fn lemma_eh_fold_grows(
    data: Seq<u8>,
    relocs: Seq<EhFrameRelocation>,
    base: u64,
    hdr_address: u64,
    ctx: RelocationContext,
    st: EhState,
)
    requires
        eh_fold(data, relocs, base, hdr_address, ctx, st) is Some,
    ensures
        e_le(st.e, eh_fold(data, relocs, base, hdr_address, ctx, st)->Some_0.e),
        st.out.len() <= eh_fold(data, relocs, base, hdr_address, ctx, st)->Some_0.out.len(),
    decreases data.len() - st.pos,
{
    if 0 <= st.pos <= data.len() && st.pos + 8 <= data.len() {
        let n = eh_step(data, relocs, base, hdr_address, ctx, st)->Some_0;
        lemma_eh_step_grows(data, relocs, base, hdr_address, ctx, st);
        lemma_eh_fold_grows(data, relocs, base, hdr_address, ctx, n);
    }
}

/// The state after a kept entry whose relocated bytes, table entries and
/// next relocation are `x`.
pub open spec fn eh_after(
    pos: int,
    opos: int,
    cies: Map<u32, u32>,
    out: Seq<u8>,
    hdr: Seq<u8>,
    hdr_room: int,
    x: (Seq<u8>, Emission, int),
) -> EhState {
    EhState { pos, ri: x.2, opos, cies, out: out + x.0, hdr, hdr_room, e: x.1 }
}

/// A table writer holds the rewrite state `st`, from `w0` on.
pub open spec fn holds(w: TableWriter, w0: TableWriter, st: EhState, cies: CieMap) -> bool {
    &&& w.wf()
    &&& w.output_kind == w0.output_kind
    &&& w.dynsym_writer == w0.dynsym_writer
    &&& w.debug_symbol_writer == w0.debug_symbol_writer
    &&& w.version_writer == w0.version_writer
    &&& w.dynamic == w0.dynamic
    &&& w.eh_frame_start_address == w0.eh_frame_start_address
    &&& w.tls_start == w0.tls_start
    &&& w.tls_end == w0.tls_end
    &&& w.eh_frame.capacity == w0.eh_frame.capacity
    &&& w.eh_frame_hdr.capacity == w0.eh_frame_hdr.capacity
    &&& w.got.capacity == w0.got.capacity
    &&& w.plt_got.capacity == w0.plt_got.capacity
    &&& w.rela_plt.capacity == w0.rela_plt.capacity
    &&& w.rela_dyn_relative.capacity == w0.rela_dyn_relative.capacity
    &&& w.rela_dyn_general.capacity == w0.rela_dyn_general.capacity
    &&& w.eh_frame.items@ == w0.eh_frame.items@ + st.out
    &&& w.eh_frame_hdr.items@ == w0.eh_frame_hdr.items@ + st.hdr
    &&& st.hdr_room == w.eh_frame_hdr.room()
    &&& st.cies == cie_offsets(cies)
    &&& st.opos == st.out.len()
    &&& w0.tables_extended(st.e, w)
}

/// Rewrites the entry at `input_pos`, as `eh_step` says.
#[verifier::rlimit(100)]
fn write_eh_frame_entry(
    table_writer: &mut TableWriter,
    cies: &mut CieMap,
    data: &Vec<u8>,
    relocs: &Vec<EhFrameRelocation>,
    eh_frame_hdr_address: u64,
    ctx: &RelocationContext,
    input_pos: usize,
    output_pos: usize,
    ri: usize,
    Ghost(w0): Ghost<TableWriter>,
    Ghost(st): Ghost<EhState>,
) -> (r: Result<(usize, usize, usize), WriteError>)
    requires
        w0.wf(),
        w0.output_kind == ctx.output_kind,
        holds(*old(table_writer), w0, st, *old(cies)),
        st.pos == input_pos,
        st.ri == ri,
        st.opos == output_pos,
        output_pos <= input_pos,
        ri <= relocs@.len(),
        input_pos + 8 <= data@.len(),
        w0.fits(st.e),
        st.out.len() <= w0.eh_frame.room(),
    ensures
        final(table_writer).wf(),
        final(table_writer).output_kind == w0.output_kind,
        final(table_writer).dynsym_writer == w0.dynsym_writer,
        final(table_writer).debug_symbol_writer == w0.debug_symbol_writer,
        final(table_writer).version_writer == w0.version_writer,
        final(table_writer).dynamic == w0.dynamic,
        final(table_writer).eh_frame.capacity == w0.eh_frame.capacity,
        final(table_writer).tls_start == w0.tls_start,
        final(table_writer).tls_end == w0.tls_end,
        ({
            let x = eh_step(data@, relocs@, w0.eh_frame_start_address, eh_frame_hdr_address, *ctx, st);
            &&& r.is_ok() == (x is Some && w0.fits(x->Some_0.e) && x->Some_0.out.len() <= w0.eh_frame.room())
            &&& r.is_ok() ==> {
                &&& holds(*final(table_writer), w0, x->Some_0, *final(cies))
                &&& r->Ok_0 == (x->Some_0.pos as usize, x->Some_0.opos as usize, x->Some_0.ri as usize)
                &&& x->Some_0.pos == r->Ok_0.0 && x->Some_0.opos == r->Ok_0.1 && x->Some_0.ri == r->Ok_0.2
                &&& r->Ok_0.2 <= relocs@.len()
            }
        }),
{
    proof {
        reveal(eh_step);
    }
    let n = data.len();
    let base = table_writer.eh_frame_start_address;
    let length = read_u32_at(data, input_pos) as usize;
    let cie_id = read_u32_at(data, input_pos + 4);
    if length > n - input_pos - 4 {
        return Err(WriteError::InvalidEhFrame);
    }
    let size = 4 + length;
    let next_input_pos = input_pos + size;
    let next_output_pos = output_pos + size;
    let is_cie = cie_id == 0;
    let mut fde_live = false;
    if !is_cie && ri < relocs.len() {
        let er = relocs[ri];
        let offset = er.rel.r_offset;
        fde_live = offset < next_input_pos as u64 && offset >= input_pos as u64 && offset - input_pos as u64
            == FDE_PC_BEGIN_OFFSET && er.target_section_address.is_some();
    }
    let fde_address = base.wrapping_add(output_pos as u64);
    let mut output_cie_offset: u32 = 0;
    if is_cie {
        cie_map_insert(cies, input_pos as u32, output_pos as u32);
    }
    let ghost hdr_before = table_writer.eh_frame_hdr.items@;
    if fde_live {
        let er = relocs[ri];
        let section_address = match er.target_section_address {
            Some(a) => a,
            None => 0,
        };
        let cie_pointer_pos = (input_pos as u32).wrapping_add(4);
        if cie_id > cie_pointer_pos {
            return Err(WriteError::InvalidEhFrame);
        }
        let input_cie_pos = cie_pointer_pos - cie_id;
        if table_writer.eh_frame_hdr.remaining() >= 8 {
            let offset_in_section = (er.symbol_value as i64).wrapping_add(er.rel.r_addend) as u64;
            let frame_ptr = hdr_relative(section_address.wrapping_add(offset_in_section), eh_frame_hdr_address)?;
            let frame_info_ptr = hdr_relative(fde_address, eh_frame_hdr_address)?;
            let ghost h0 = table_writer.eh_frame_hdr.items@;
            table_writer.take_eh_frame_hdr_entry(frame_ptr, frame_info_ptr);
            proof {
                assert(table_writer.eh_frame_hdr.items@.subrange(
                    w0.eh_frame_hdr.items@.len() as int,
                    table_writer.eh_frame_hdr.items@.len() as int,
                ) =~= st.hdr + crate::bytes::le32(frame_ptr as u32) + crate::bytes::le32(frame_info_ptr as u32));
            }
        }
        let output_cie_pos = match cie_map_get(cies, input_cie_pos) {
            Some(p) => p,
            None => {
                return Err(WriteError::InvalidEhFrame);
            },
        };
        output_cie_offset = (output_pos as u32).wrapping_add(4).wrapping_sub(output_cie_pos);
    }
    let ghost hdr_now = table_writer.eh_frame_hdr.items@.subrange(
        w0.eh_frame_hdr.items@.len() as int,
        table_writer.eh_frame_hdr.items@.len() as int,
    );
    proof {
        if !fde_live || st.hdr_room < 8 {
            assert(hdr_now =~= st.hdr);
        }
        assert(table_writer.eh_frame_hdr.items@ =~= w0.eh_frame_hdr.items@ + hdr_now);
    }
    if is_cie || fde_live {
        let mut entry = copy_range(data, input_pos, next_input_pos);
        if fde_live {
            let mut pointer: Vec<u8> = Vec::new();
            crate::bytes::push_u32(&mut pointer, output_cie_offset);
            assert(pointer@ =~= crate::bytes::le32(output_cie_offset));
            crate::bytes::write_at(&mut entry, 4, pointer.as_slice());
        }
        let ghost entry1 = entry@;
        let ghost t1 = *table_writer;
        let ghost cies_now = cie_offsets(*cies);
        let ghost room_now = table_writer.eh_frame_hdr.room();
        assert(eh_step(data@, relocs@, w0.eh_frame_start_address, eh_frame_hdr_address, *ctx, st) == match entry_relocs(
            entry1, st.e, relocs@, st.ri, input_pos as int, next_input_pos as int, fde_address, *ctx) {
            None => None,
            Some(x) => Some(eh_after(next_input_pos as int, output_pos + size, cies_now, st.out, hdr_now, room_now, x)),
        });
        let ghost mut e = st.e;
        let mut ri = ri;
        while ri < relocs.len() && relocs[ri].rel.r_offset < next_input_pos as u64
            invariant
                ri <= relocs@.len(),
                w0.wf(),
                table_writer.wf(),
                table_writer.output_kind == ctx.output_kind,
                table_writer.output_kind == w0.output_kind,
                table_writer.dynsym_writer == w0.dynsym_writer,
                table_writer.debug_symbol_writer == w0.debug_symbol_writer,
                table_writer.version_writer == w0.version_writer,
                table_writer.dynamic == w0.dynamic,
                table_writer.eh_frame.capacity == w0.eh_frame.capacity,
                table_writer.tls_start == w0.tls_start,
                table_writer.tls_end == w0.tls_end,
                table_writer.eh_frame_start_address == t1.eh_frame_start_address,
                table_writer.eh_frame == t1.eh_frame,
                table_writer.eh_frame_hdr == t1.eh_frame_hdr,
                table_writer.got.capacity == w0.got.capacity,
                table_writer.plt_got.capacity == w0.plt_got.capacity,
                table_writer.rela_plt.capacity == w0.rela_plt.capacity,
                table_writer.rela_dyn_relative.capacity == w0.rela_dyn_relative.capacity,
                table_writer.rela_dyn_general.capacity == w0.rela_dyn_general.capacity,
                w0.tables_extended(e, *table_writer),
                w0.fits(e),
                entry@.len() == size,
                eh_step(data@, relocs@, w0.eh_frame_start_address, eh_frame_hdr_address, *ctx, st) == match entry_relocs(
                    entry1, st.e, relocs@, st.ri, input_pos as int, next_input_pos as int, fde_address, *ctx) {
                    None => None,
                    Some(x) => Some(eh_after(next_input_pos as int, output_pos + size, cies_now, st.out, hdr_now, room_now, x)),
                },
                cies_now == cie_offsets(*cies),
                room_now == table_writer.eh_frame_hdr.room(),
                table_writer.eh_frame_hdr.items@ == w0.eh_frame_hdr.items@ + hdr_now,
                table_writer.eh_frame.items@ == w0.eh_frame.items@ + st.out,
                entry_relocs(entry@, e, relocs@, ri as int, input_pos as int, next_input_pos as int, fde_address, *ctx)
                    == entry_relocs(entry1, st.e, relocs@, st.ri, input_pos as int, next_input_pos as int, fde_address, *ctx),
            decreases relocs@.len() - ri,
        {
            let er = relocs[ri];
            if er.rel.r_offset < input_pos as u64 {
                return Err(WriteError::InvalidEhFrame);
            }
            let si = SectionInfo { section_address: fde_address, is_writable: false };
            let off = er.rel.r_offset - input_pos as u64;
            let ghost s1 = *table_writer;
            let ghost b0 = entry@;
            let ghost step = step_emission(er.rel, off, b0, er.resolution, si, *ctx);
            let r = apply_relocation(table_writer, off, &er.rel, &er.resolution, si, ctx, &mut entry);
            proof {
                crate::table_writer::lemma_cat_tables(w0, e, step, s1);
            }
            match r {
                Ok(_) => {},
                Err(err) => {
                    proof {
                        let y = entry_relocs(b0, e, relocs@, ri as int, input_pos as int, next_input_pos as int, fde_address, *ctx);
                        assert(y == entry_relocs(
                            step_bytes(er.rel, off, b0, er.resolution, si, *ctx),
                            cat(e, step),
                            relocs@,
                            ri + 1,
                            input_pos as int,
                            next_input_pos as int,
                            fde_address,
                            *ctx,
                        ));
                        if y is Some {
                            lemma_entry_relocs_grow(
                                step_bytes(er.rel, off, b0, er.resolution, si, *ctx),
                                cat(e, step),
                                relocs@,
                                ri + 1,
                                input_pos as int,
                                next_input_pos as int,
                                fde_address,
                                *ctx,
                            );
                            if w0.fits(y->Some_0.1) {
                                crate::table_writer::lemma_e_le_fits(w0, cat(e, step), y->Some_0.1);
                            }
                        }
                    }
                    return Err(err);
                },
            }
            proof {
                crate::table_writer::lemma_tables_cat(w0, e, s1, step, *table_writer);
                e = cat(e, step);
            }
            ri = ri + 1;
        }
        let ghost before = table_writer.eh_frame.items@;
        let r = table_writer.take_eh_frame_data(entry.as_slice());
        if r.is_err() {
            return Err(WriteError::InsufficientAllocation { table: crate::error::Table::EhFrame });
        }
        proof {
            assert(table_writer.eh_frame.items@ =~= w0.eh_frame.items@ + (st.out + entry@));
        }
        Ok((next_input_pos, next_output_pos, ri))
    } else {
        let ghost ri0 = ri as int;
        let mut ri = ri;
        while ri < relocs.len() && relocs[ri].rel.r_offset < next_input_pos as u64
            invariant
                ri <= relocs@.len(),
                skip_to(relocs@, ri as int, next_input_pos as int) == skip_to(relocs@, ri0, next_input_pos as int),
            decreases relocs@.len() - ri,
        {
            ri = ri + 1;
        }
        Ok((next_input_pos, output_pos, ri))
    }
}

/// Rewrites an input `.eh_frame` into this group's `.eh_frame`, as
/// `eh_fold` says: it succeeds exactly when every entry is well formed, no
/// `.eh_frame_hdr` pointer overflows, the relocations apply, and the tables
/// and `.eh_frame` have room. `relocs` are in offset order.
#[verifier::rlimit(100)]
pub fn write_eh_frame_data(
    table_writer: &mut TableWriter,
    data: &Vec<u8>,
    relocs: &Vec<EhFrameRelocation>,
    eh_frame_hdr_address: u64,
    ctx: &RelocationContext,
) -> (r: Result<(), WriteError>)
    requires
        old(table_writer).wf(),
        old(table_writer).output_kind == ctx.output_kind,
    ensures
        final(table_writer).wf(),
        final(table_writer).output_kind == old(table_writer).output_kind,
        final(table_writer).dynsym_writer == old(table_writer).dynsym_writer,
        final(table_writer).debug_symbol_writer == old(table_writer).debug_symbol_writer,
        final(table_writer).version_writer == old(table_writer).version_writer,
        final(table_writer).dynamic == old(table_writer).dynamic,
        final(table_writer).eh_frame.capacity == old(table_writer).eh_frame.capacity,
        final(table_writer).tls_start == old(table_writer).tls_start,
        final(table_writer).tls_end == old(table_writer).tls_end,
        ({
            let w = *old(table_writer);
            let f = eh_fold(
                data@,
                relocs@,
                w.eh_frame_start_address,
                eh_frame_hdr_address,
                *ctx,
                eh_start(w.eh_frame_hdr.room()),
            );
            &&& r.is_ok() == (f is Some && w.fits(f->Some_0.e) && f->Some_0.out.len() <= w.eh_frame.room())
            &&& r.is_ok() ==> {
                &&& final(table_writer).eh_frame.items@ == w.eh_frame.items@ + f->Some_0.out
                &&& final(table_writer).eh_frame_hdr.items@ == w.eh_frame_hdr.items@ + f->Some_0.hdr
                &&& w.tables_extended(f->Some_0.e, *final(table_writer))
                &&& final(table_writer).eh_frame_start_address == vstd::wrapping::u64_specs::wrapping_add(
                    w.eh_frame_start_address,
                    f->Some_0.out.len() as u64,
                )
            }
        }),
{
    let n = data.len();
    let ghost w0 = *table_writer;
    let ghost hdr_address = eh_frame_hdr_address;
    let ghost init = eh_start(w0.eh_frame_hdr.room());
    let mut cies = cie_map_new();
    let mut input_pos: usize = 0;
    let mut output_pos: usize = 0;
    let mut ri: usize = 0;
    let ghost mut st = init;
    proof {
        crate::table_writer::lemma_none(w0);
        assert(cie_offsets(cies) =~= Map::<u32, u32>::empty());
        assert(table_writer.eh_frame.items@ =~= w0.eh_frame.items@ + Seq::<u8>::empty());
        assert(table_writer.eh_frame_hdr.items@ =~= w0.eh_frame_hdr.items@ + Seq::<u8>::empty());
    }
    while n >= 8 && input_pos <= n - 8
        invariant
            n == data@.len(),
            w0 == *old(table_writer),
            w0.wf(),
            w0.output_kind == ctx.output_kind,
            init == eh_start(w0.eh_frame_hdr.room()),
            hdr_address == eh_frame_hdr_address,
            holds(*table_writer, w0, st, cies),
            st.pos == input_pos,
            st.ri == ri,
            st.opos == output_pos,
            output_pos <= input_pos,
            input_pos <= n,
            ri <= relocs@.len(),
            w0.fits(st.e),
            st.out.len() <= w0.eh_frame.room(),
            eh_fold(data@, relocs@, w0.eh_frame_start_address, eh_frame_hdr_address, *ctx, st)
                == eh_fold(data@, relocs@, w0.eh_frame_start_address, eh_frame_hdr_address, *ctx, init),
        decreases n - input_pos,
    {
        let r = write_eh_frame_entry(
            table_writer,
            &mut cies,
            data,
            relocs,
            eh_frame_hdr_address,
            ctx,
            input_pos,
            output_pos,
            ri,
            Ghost(w0),
            Ghost(st),
        );
        let ghost x = eh_step(data@, relocs@, w0.eh_frame_start_address, eh_frame_hdr_address, *ctx, st);
        match r {
            Ok((p, o, i)) => {
                proof {
                    lemma_eh_step_grows(data@, relocs@, w0.eh_frame_start_address, eh_frame_hdr_address, *ctx, st);
                    st = x->Some_0;
                }
                input_pos = p;
                output_pos = o;
                ri = i;
            },
            Err(e) => {
                proof {
                    if x is Some {
                        lemma_eh_step_grows(data@, relocs@, w0.eh_frame_start_address, eh_frame_hdr_address, *ctx, st);
                        let f = eh_fold(data@, relocs@, w0.eh_frame_start_address, eh_frame_hdr_address, *ctx, x->Some_0);
                        if f is Some {
                            lemma_eh_fold_grows(data@, relocs@, w0.eh_frame_start_address, eh_frame_hdr_address, *ctx, x->Some_0);
                            if w0.fits(f->Some_0.e) {
                                crate::table_writer::lemma_e_le_fits(w0, x->Some_0.e, f->Some_0.e);
                            }
                        }
                    }
                }
                return Err(e);
            },
        }
    }
    // What is left is too short to be an entry: crtend.o ends with a single
    // zero u32 as a terminator.
    if input_pos < n {
        let rest = copy_range(data, input_pos, n);
        let r = table_writer.take_eh_frame_data(rest.as_slice());
        if r.is_err() {
            return r;
        }
        output_pos = output_pos + (n - input_pos);
        proof {
            assert(table_writer.eh_frame.items@ =~= w0.eh_frame.items@ + (st.out + rest@));
        }
    } else {
        proof {
            assert(st.out + data@.subrange(input_pos as int, n as int) =~= st.out);
        }
    }
    table_writer.eh_frame_start_address = table_writer.eh_frame_start_address.wrapping_add(output_pos as u64);
    Ok(())
}
} // verus!
