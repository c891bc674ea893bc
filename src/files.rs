use crate::bytes::splice;
use crate::cursor::Slots;
use crate::error::{Table, WriteError};
use crate::model::Resolution;
use crate::reloc::{
    apply_relocation, le_prefix, step_bytes, step_emission, step_skips, x86_64_rel_info, RelocationModifier,
    RelocationContext, RelocationRecord, SectionInfo,
};
use crate::table_writer::{cat, did, e_fail, e_none, Emission, TableWriter};
use vstd::prelude::*;
use vstd::wrapping::u64_specs::wrapping_add;

verus! {

/// A relocation of an input section and the symbol it refers to.
#[derive(Clone, Copy, Debug, PartialEq, Eq, Structural)]
pub struct InputRelocation {
    pub rel: RelocationRecord,
    /// Index of the referenced symbol among the file's symbols.
    pub symbol: usize,
}

/// A loaded input section.
pub struct Section {
    /// The section's bytes in the input file.
    pub data: Vec<u8>,
    /// The bytes allocated to it in its output part, padding included.
    pub capacity: usize,
    /// The output part it goes to.
    pub part: usize,
    pub address: u64,
    pub is_writable: bool,
    /// Whether its output section has bytes in the file (not `NOBITS`).
    pub has_data_in_file: bool,
    pub relocations: Vec<InputRelocation>,
    pub name: Vec<u8>,
}

/// The resolution of every symbol of the file that has one.
pub open spec fn resolved(resolutions: Seq<Option<Resolution>>, symbol: usize) -> Option<Resolution> {
    if symbol < resolutions.len() {
        resolutions[symbol as int]
    } else {
        None
    }
}

/// Relocating a section so far: its bytes, what the relocations asked of
/// the tables, and whether the next relocation is consumed by a relaxation.
pub struct RelocFold {
    pub bytes: Seq<u8>,
    pub e: Emission,
    pub skip: bool,
}

/// A section's bytes and table entries after its relocations, applied in
/// order; a relocation that a relaxation consumed is not applied, and one
/// whose symbol has no resolution fails.
pub open spec fn reloc_fold(
    data: Seq<u8>,
    relocs: Seq<InputRelocation>,
    resolutions: Seq<Option<Resolution>>,
    si: SectionInfo,
    ctx: RelocationContext,
) -> RelocFold
    decreases relocs.len(),
{
    if relocs.len() == 0 {
        RelocFold { bytes: data, e: e_none(), skip: false }
    } else {
        let p = reloc_fold(data, relocs.drop_last(), resolutions, si, ctx);
        let r = relocs.last();
        if p.skip {
            RelocFold { bytes: p.bytes, e: p.e, skip: false }
        } else {
            match resolved(resolutions, r.symbol) {
                None => RelocFold { bytes: p.bytes, e: cat(p.e, e_fail()), skip: false },
                Some(res) => RelocFold {
                    bytes: step_bytes(r.rel, r.rel.r_offset, p.bytes, res, si, ctx),
                    e: cat(p.e, step_emission(r.rel, r.rel.r_offset, p.bytes, res, si, ctx)),
                    skip: step_skips(r.rel, r.rel.r_offset, p.bytes, res, ctx.output_kind),
                },
            }
        }
    }
}

proof fn lemma_fits_first(s: TableWriter, a: Emission, b: Emission)
    requires
        s.fits(cat(a, b)),
    ensures
        s.fits(a),
{
}

/// Room for every relocation of a section is room for those of a prefix.
proof fn lemma_fold_fits_prefix(
    s: TableWriter,
    data: Seq<u8>,
    relocs: Seq<InputRelocation>,
    k: int,
    resolutions: Seq<Option<Resolution>>,
    si: SectionInfo,
    ctx: RelocationContext,
)
    requires
        0 <= k <= relocs.len(),
        s.fits(reloc_fold(data, relocs, resolutions, si, ctx).e),
    ensures
        s.fits(reloc_fold(data, relocs.subrange(0, k), resolutions, si, ctx).e),
    decreases relocs.len() - k,
{
    if k == relocs.len() {
        assert(relocs.subrange(0, k) =~= relocs);
    } else {
        let d = relocs.drop_last();
        let p = reloc_fold(data, d, resolutions, si, ctx);
        if !p.skip {
            match resolved(resolutions, relocs.last().symbol) {
                None => lemma_fits_first(s, p.e, e_fail()),
                Some(res) => lemma_fits_first(
                    s,
                    p.e,
                    step_emission(relocs.last().rel, relocs.last().rel.r_offset, p.bytes, res, si, ctx),
                ),
            }
        }
        assert(d.subrange(0, k) =~= relocs.subrange(0, k));
        lemma_fold_fits_prefix(s, data, d, k, resolutions, si, ctx);
    }
}

/// Applies the relocations of a section to its bytes `out`, in order,
/// relaxing where a relaxation applies and skipping a relocation that the
/// previous relaxation consumed.
pub fn apply_relocations(
    table_writer: &mut TableWriter,
    out: &mut Vec<u8>,
    relocs: &Vec<InputRelocation>,
    resolutions: &Vec<Option<Resolution>>,
    si: SectionInfo,
    ctx: &RelocationContext,
) -> (r: Result<(), WriteError>)
    requires
        old(table_writer).wf(),
        old(table_writer).output_kind == ctx.output_kind,
    ensures
        did(*old(table_writer), reloc_fold(old(out)@, relocs@, resolutions@, si, *ctx).e, *final(table_writer), r),
        final(table_writer).output_kind == old(table_writer).output_kind,
        final(out)@.len() == old(out)@.len(),
        r.is_ok() ==> final(out)@ == reloc_fold(old(out)@, relocs@, resolutions@, si, *ctx).bytes,
{
    let mut modifier = RelocationModifier::Normal;
    let mut i: usize = 0;
    proof {
        crate::table_writer::lemma_none(*table_writer);
        assert(relocs@.subrange(0, 0) =~= Seq::<InputRelocation>::empty());
    }
    while i < relocs.len()
        invariant
            i <= relocs@.len(),
            table_writer.output_kind == old(table_writer).output_kind,
            table_writer.output_kind == ctx.output_kind,
            old(table_writer).wf(),
            out@.len() == old(out)@.len(),
            did(
                *old(table_writer),
                reloc_fold(old(out)@, relocs@.subrange(0, i as int), resolutions@, si, *ctx).e,
                *table_writer,
                Ok(()),
            ),
            out@ == reloc_fold(old(out)@, relocs@.subrange(0, i as int), resolutions@, si, *ctx).bytes,
            (modifier is SkipNextRelocation) == reloc_fold(
                old(out)@,
                relocs@.subrange(0, i as int),
                resolutions@,
                si,
                *ctx,
            ).skip,
        decreases relocs@.len() - i,
    {
        let ir = relocs[i];
        let ghost s1 = *table_writer;
        let ghost prefix = relocs@.subrange(0, i as int);
        let ghost p = reloc_fold(old(out)@, prefix, resolutions@, si, *ctx);
        assert(relocs@.subrange(0, i + 1).drop_last() =~= prefix);
        if matches!(modifier, RelocationModifier::SkipNextRelocation) {
            modifier = RelocationModifier::Normal;
            i = i + 1;
            continue;
        }
        let res = if ir.symbol < resolutions.len() {
            resolutions[ir.symbol]
        } else {
            None
        };
        let res = match res {
            Some(res) => res,
            None => {
                proof {
                    crate::table_writer::lemma_fail_after(*old(table_writer), p.e, s1, WriteError::UnsupportedRelocation);
                    if old(table_writer).fits(reloc_fold(old(out)@, relocs@, resolutions@, si, *ctx).e) {
                        lemma_fold_fits_prefix(*old(table_writer), old(out)@, relocs@, i + 1, resolutions@, si, *ctx);
                    }
                }
                return Err(WriteError::UnsupportedRelocation);
            },
        };
        let r = apply_relocation(table_writer, ir.rel.r_offset, &ir.rel, &res, si, ctx, out);
        proof {
            let b = step_emission(ir.rel, ir.rel.r_offset, p.bytes, res, si, *ctx);
            crate::table_writer::lemma_seq(*old(table_writer), p.e, b, s1, *table_writer, match r { Ok(_) => Ok(()), Err(e) => Err(e) });
        }
        match r {
            Ok(m) => {
                modifier = m;
            },
            Err(e) => {
                proof {
                    if old(table_writer).fits(reloc_fold(old(out)@, relocs@, resolutions@, si, *ctx).e) {
                        lemma_fold_fits_prefix(*old(table_writer), old(out)@, relocs@, i + 1, resolutions@, si, *ctx);
                    }
                }
                return Err(e);
            },
        }
        i = i + 1;
    }
    assert(relocs@.subrange(0, i as int) =~= relocs@);
    Ok(())
}

pub open spec fn debug_loc_name() -> Seq<u8> {
    seq![0x2eu8, 0x64, 0x65, 0x62, 0x75, 0x67, 0x5f, 0x6c, 0x6f, 0x63]
}

pub open spec fn debug_ranges_name() -> Seq<u8> {
    seq![0x2eu8, 0x64, 0x65, 0x62, 0x75, 0x67, 0x5f, 0x72, 0x61, 0x6e, 0x67, 0x65, 0x73]
}

pub(crate) fn bytes_eq(a: &[u8], b: &[u8]) -> (r: bool)
    ensures
        r == (a@ == b@),
{
    if a.len() != b.len() {
        return false;
    }
    let mut i: usize = 0;
    while i < a.len()
        invariant
            i <= a@.len(),
            a@.len() == b@.len(),
            a@.subrange(0, i as int) == b@.subrange(0, i as int),
        decreases a@.len() - i,
    {
        if a[i] != b[i] {
            assert(a@[i as int] != b@[i as int]);
            return false;
        }
        i = i + 1;
        assert(a@.subrange(0, i as int) =~= b@.subrange(0, i as int)) by {
            assert(a@.subrange(0, i - 1) == b@.subrange(0, i - 1));
        }
    }
    assert(a@ =~= a@.subrange(0, i as int));
    assert(b@ =~= b@.subrange(0, i as int));
    true
}

/// The value that a debug-info relocation to a discarded section stores.
pub fn tombstone_value(section_name: &[u8]) -> (r: u64)
    ensures
        r == tombstone(section_name@),
{
    let loc: Vec<u8> = vec![0x2eu8, 0x64, 0x65, 0x62, 0x75, 0x67, 0x5f, 0x6c, 0x6f, 0x63];
    let ranges: Vec<u8> = vec![0x2eu8, 0x64, 0x65, 0x62, 0x75, 0x67, 0x5f, 0x72, 0x61, 0x6e, 0x67, 0x65, 0x73];
    assert(loc@ =~= debug_loc_name());
    assert(ranges@ =~= debug_ranges_name());
    if bytes_eq(section_name, loc.as_slice()) || bytes_eq(section_name, ranges.as_slice()) {
        1
    } else {
        0
    }
}

/// What a relocation in debug info refers to.
#[derive(Clone, Copy, Debug, PartialEq, Eq, Structural)]
pub enum DebugTarget {
    /// A symbol with a resolution.
    Resolved(Resolution),
    /// A string of a merged-string section, at this output address.
    MergedString(u64),
    /// A symbol in a section that was discarded.
    Discarded,
    /// Nothing that can be resolved.
    Unresolved,
}

/// A relocation of a debug-info section and what it refers to.
#[derive(Clone, Copy, Debug, PartialEq, Eq, Structural)]
pub struct DebugRelocation {
    pub rel: RelocationRecord,
    pub target: DebugTarget,
}

/// The value a debug-info relocation stores: no GOT, PLT or dynamic
/// relocation is involved, and a discarded target gets the tombstone.
pub open spec fn debug_value(d: DebugRelocation, tombstone: u64, ctx: RelocationContext) -> Option<u64> {
    match x86_64_rel_info(d.rel.r_type) {
        None => None,
        Some(i) => match d.target {
            DebugTarget::Resolved(res) => if i.kind is Absolute {
                Some(crate::reloc::value_with_addend(res, d.rel.r_addend))
            } else if i.kind is DtpOff {
                Some(wrapping_add(vstd::wrapping::u64_specs::wrapping_sub(res.raw_value, ctx.tls_end), d.rel.r_addend as u64))
            } else {
                None
            },
            DebugTarget::MergedString(a) => Some(a),
            DebugTarget::Discarded => Some(tombstone),
            DebugTarget::Unresolved => None,
        },
    }
}

/// Applies one debug-info relocation at its offset of `out`.
pub fn apply_debug_relocation(d: &DebugRelocation, tombstone: u64, ctx: &RelocationContext, out: &mut Vec<u8>) -> (r:
    Result<(), WriteError>)
    ensures
        ({
            let v = debug_value(*d, tombstone, *ctx);
            let i = x86_64_rel_info(d.rel.r_type)->Some_0;
            &&& final(out)@.len() == old(out)@.len()
            &&& r.is_ok() == (v is Some && crate::reloc::in_range(i.range, i.byte_size, v->Some_0)
                && d.rel.r_offset + i.byte_size <= old(out)@.len())
            &&& r.is_ok() ==> final(out)@ == splice(
                old(out)@,
                d.rel.r_offset as int,
                le_prefix(v->Some_0, i.byte_size),
            )
        }),
{
    let info = crate::reloc::relocation_from_raw(d.rel.r_type)?;
    let value = match d.target {
        DebugTarget::Resolved(res) => match info.kind {
            crate::reloc::RelocationKind::Absolute => res.raw_value.wrapping_add(d.rel.r_addend as u64),
            crate::reloc::RelocationKind::DtpOff => res.raw_value.wrapping_sub(ctx.tls_end).wrapping_add(
                d.rel.r_addend as u64,
            ),
            _ => {
                return Err(WriteError::UnsupportedRelocation);
            },
        },
        DebugTarget::MergedString(a) => a,
        DebugTarget::Discarded => tombstone,
        DebugTarget::Unresolved => {
            return Err(WriteError::UnsupportedRelocation);
        },
    };
    crate::reloc::write_relocation_to_buffer(info, value, out, d.rel.r_offset)
}

/// A debug-info section after its relocations, applied in order.
pub open spec fn debug_relocated(
    data: Seq<u8>,
    relocs: Seq<DebugRelocation>,
    tombstone: u64,
    ctx: RelocationContext,
) -> Seq<u8>
    decreases relocs.len(),
{
    if relocs.len() == 0 {
        data
    } else {
        let d = relocs.last();
        splice(
            debug_relocated(data, relocs.drop_last(), tombstone, ctx),
            d.rel.r_offset as int,
            le_prefix(
                debug_value(d, tombstone, ctx)->Some_0,
                x86_64_rel_info(d.rel.r_type)->Some_0.byte_size,
            ),
        )
    }
}

/// Whether debug-info relocation `d` applies to a section of `len` bytes.
pub open spec fn debug_applies(d: DebugRelocation, tombstone: u64, ctx: RelocationContext, len: nat) -> bool {
    let v = debug_value(d, tombstone, ctx);
    let i = x86_64_rel_info(d.rel.r_type)->Some_0;
    v is Some && crate::reloc::in_range(i.range, i.byte_size, v->Some_0) && d.rel.r_offset + i.byte_size <= len
}

/// Applies the relocations of a debug-info section named `section_name`.
pub fn apply_debug_relocations(
    out: &mut Vec<u8>,
    relocs: &Vec<DebugRelocation>,
    section_name: &[u8],
    ctx: &RelocationContext,
) -> (r: Result<(), WriteError>)
    ensures
        r.is_ok() == forall|i: int|
            0 <= i < relocs@.len() ==> debug_applies(#[trigger] relocs@[i], tombstone(section_name@), *ctx, old(out)@.len()),
        final(out)@.len() == old(out)@.len(),
        r.is_ok() ==> final(out)@ == debug_relocated(
            old(out)@,
            relocs@,
            tombstone(section_name@),
            *ctx,
        ),
{
    let tombstone = tombstone_value(section_name);
    let mut i: usize = 0;
    assert(relocs@.subrange(0, 0) =~= Seq::<DebugRelocation>::empty());
    while i < relocs.len()
        invariant
            i <= relocs@.len(),
            tombstone == crate::files::tombstone(section_name@),
            out@ == debug_relocated(old(out)@, relocs@.subrange(0, i as int), tombstone, *ctx),
            out@.len() == old(out)@.len(),
            forall|j: int| 0 <= j < i ==> debug_applies(#[trigger] relocs@[j], tombstone, *ctx, old(out)@.len()),
        decreases relocs@.len() - i,
    {
        assert(relocs@.subrange(0, i + 1).drop_last() =~= relocs@.subrange(0, i as int));
        let r = apply_debug_relocation(&relocs[i], tombstone, ctx, out);
        if r.is_err() {
            assert(!debug_applies(relocs@[i as int], tombstone, *ctx, old(out)@.len()));
            return r;
        }
        i = i + 1;
    }
    assert(relocs@.subrange(0, i as int) =~= relocs@);
    Ok(())
}

/// The value a debug-info relocation stores when the section it refers to
/// was discarded: 1 for `.debug_loc` and `.debug_ranges`, which use zero as
/// a list terminator, 0 elsewhere.
pub open spec fn tombstone(name: Seq<u8>) -> u64 {
    if name == debug_loc_name() || name == debug_ranges_name() {
        1
    } else {
        0
    }
}

/// A loaded debug-info section.
pub struct DebugSection {
    pub data: Vec<u8>,
    pub capacity: usize,
    pub part: usize,
    pub has_data_in_file: bool,
    pub relocations: Vec<DebugRelocation>,
    pub name: Vec<u8>,
}

/// Where a symbol copied to `.symtab` lives.
#[derive(Clone, Copy, Debug, PartialEq, Eq, Structural)]
pub enum SymbolPlacement {
    /// Not copied to `.symtab`.
    Skip,
    /// In this output section.
    Section(usize),
    /// A common symbol, which goes to `.bss`.
    Common,
    /// An absolute symbol, which keeps its value.
    Absolute,
}

/// A symbol of an input object and its name.
pub struct ObjectSymbol {
    pub sym: crate::symtab::InputSymbol,
    pub name: Vec<u8>,
    pub placement: SymbolPlacement,
}

/// An input object as emission sees it: its loaded sections, and the
/// resolution of each of its symbols.
pub struct ObjectLayout {
    pub sections: Vec<Section>,
    pub debug_sections: Vec<DebugSection>,
    pub symbols: Vec<ObjectSymbol>,
    pub resolutions: Vec<Option<Resolution>>,
    /// The object's `.eh_frame`, when it has one.
    pub eh_frame: Option<crate::eh_frame::EhFrameInput>,
}

/// What an object's `.eh_frame` asks of the tables.
pub open spec fn eh_frame_emission(
    eh: Option<crate::eh_frame::EhFrameInput>,
    w: TableWriter,
    ctx: RelocationContext,
) -> Emission {
    match eh {
        Some(input) => crate::eh_frame::eh_frame_result(input, w, ctx)->Some_0.e,
        None => e_none(),
    }
}

/// The bytes a section of `data.len()` bytes occupies in a part of
/// `capacity` bytes: the data, then zeros.
pub open spec fn padded(data: Seq<u8>, capacity: usize) -> Seq<u8> {
    data + Seq::new((capacity - data.len()) as nat, |i: int| 0u8)
}

/// What handling every resolution of a file appends to the tables.
pub open spec fn resolutions_emission(
    resolutions: Seq<Option<Resolution>>,
    kind: crate::model::OutputKind,
    tls_start: u64,
    tls_end: u64,
) -> Emission
    decreases resolutions.len(),
{
    if resolutions.len() == 0 {
        e_none()
    } else {
        cat(
            resolutions_emission(resolutions.drop_last(), kind, tls_start, tls_end),
            match resolutions.last() {
                Some(r) => crate::table_writer::resolution_emission(r, kind, tls_start, tls_end),
                None => e_none(),
            },
        )
    }
}

impl ObjectLayout {
    /// Writes `data` followed by zero padding up to `capacity` into the part.
    pub fn write_section_raw(part: &mut Slots<u8>, data: &Vec<u8>, capacity: usize) -> (r: Result<(), WriteError>)
        requires
            old(part).wf(),
        ensures
            r.is_err() ==> final(part).items@ == old(part).items@,
            final(part).wf(),
            final(part).capacity == old(part).capacity,
            r.is_ok() == (data@.len() <= capacity && capacity <= old(part).room()),
            r.is_ok() ==> final(part).items@ == old(part).items@ + data@ + Seq::new(
                (capacity - data@.len()) as nat,
                |i: int| 0u8,
            ),
    {
        if data.len() > capacity || capacity > part.remaining() {
            return Err(WriteError::InsufficientAllocation { table: Table::Section });
        }
        let _ = part.take_bytes(data.as_slice(), Table::Section);
        let mut k: usize = data.len();
        let ghost start = part.items@;
        while k < capacity
            invariant
                data@.len() <= k <= capacity,
                capacity <= old(part).room(),
                part.wf(),
                part.capacity == old(part).capacity,
                part.items@ == start + Seq::new((k - data@.len()) as nat, |i: int| 0u8),
                start == old(part).items@ + data@,
            decreases capacity - k,
        {
            let _ = part.take(0u8, Table::Section);
            k = k + 1;
            assert(part.items@ =~= start + Seq::new((k - data@.len()) as nat, |i: int| 0u8));
        }
        Ok(())
    }

    /// Copies a loaded section into its part and applies its relocations;
    /// a section without bytes in the file writes nothing.
    pub fn write_section(
        &self,
        sec: &Section,
        table_writer: &mut TableWriter,
        part: &mut Slots<u8>,
        ctx: &RelocationContext,
    ) -> (r: Result<(), WriteError>)
        requires
            old(table_writer).wf(),
            old(table_writer).output_kind == ctx.output_kind,
            old(part).wf(),
        ensures
            final(table_writer).wf(),
            final(table_writer).output_kind == old(table_writer).output_kind,
            final(part).wf(),
            final(part).capacity == old(part).capacity,
            old(table_writer).others_same(*final(table_writer)),
            !sec.has_data_in_file ==> r.is_ok() && final(part).items@ == old(part).items@
                && *final(table_writer) == *old(table_writer),
            sec.has_data_in_file ==> {
                let si = SectionInfo { section_address: sec.address, is_writable: sec.is_writable };
                let f = reloc_fold(sec.data@, sec.relocations@, self.resolutions@, si, *ctx);
                &&& r.is_ok() == (old(table_writer).fits(f.e) && sec.data@.len() <= sec.capacity
                    && sec.capacity <= old(part).room())
                &&& r.is_ok() ==> old(table_writer).extended(f.e, *final(table_writer))
                &&& r.is_ok() ==> final(part).items@ == old(part).items@ + padded(f.bytes, sec.capacity)
            },
    {
        if !sec.has_data_in_file {
            return Ok(());
        }
        let mut out = sec.data.clone();
        assert(out@ =~= sec.data@);
        let si = SectionInfo { section_address: sec.address, is_writable: sec.is_writable };
        apply_relocations(table_writer, &mut out, &sec.relocations, &self.resolutions, si, ctx)?;
        ObjectLayout::write_section_raw(part, &out, sec.capacity)
    }

    /// Copies a debug-info section into its part and applies its
    /// relocations, which never need GOT, PLT or dynamic entries.
    pub fn write_debug_section(&self, sec: &DebugSection, part: &mut Slots<u8>, ctx: &RelocationContext) -> (r:
        Result<(), WriteError>)
        requires
            old(part).wf(),
        ensures
            final(part).wf(),
            final(part).capacity == old(part).capacity,
            !sec.has_data_in_file ==> r.is_ok() && final(part).items@ == old(part).items@,
            sec.has_data_in_file ==> r.is_ok() == ((forall|i: int|
                0 <= i < sec.relocations@.len() ==> debug_applies(
                    #[trigger] sec.relocations@[i],
                    tombstone(sec.name@),
                    *ctx,
                    sec.data@.len(),
                )) && sec.data@.len() <= sec.capacity && sec.capacity <= old(part).room()),
            sec.has_data_in_file && r.is_ok() ==> final(part).items@ == old(part).items@ + padded(
                debug_relocated(sec.data@, sec.relocations@, tombstone(sec.name@), *ctx),
                sec.capacity,
            ),
    {
        if !sec.has_data_in_file {
            return Ok(());
        }
        let mut out = sec.data.clone();
        assert(out@ =~= sec.data@);
        apply_debug_relocations(&mut out, &sec.relocations, sec.name.as_slice(), ctx)?;
        ObjectLayout::write_section_raw(part, &out, sec.capacity)
    }

    /// Handles every resolution of the file's symbols: GOT, PLT and dynamic
    /// relocations, and for a dynamic symbol that no shared object defines
    /// an undefined `.dynsym` entry with, when versions are on, the global
    /// version. It succeeds exactly when the tables have room for all of it.
    pub fn write_resolutions(&self, table_writer: &mut TableWriter, gnu_version_enabled: bool) -> (r: Result<(), WriteError>)
        requires
            old(table_writer).wf(),
        ensures
            final(table_writer).eh_frame == old(table_writer).eh_frame,
            final(table_writer).eh_frame_hdr == old(table_writer).eh_frame_hdr,
            final(table_writer).eh_frame_start_address == old(table_writer).eh_frame_start_address,
            final(table_writer).debug_symbol_writer == old(table_writer).debug_symbol_writer,
            final(table_writer).wf(),
            final(table_writer).output_kind == old(table_writer).output_kind,
            ({
                let w = *old(table_writer);
                let e = resolutions_emission(self.resolutions@, w.output_kind, w.tls_start, w.tls_end);
                let f = dynamic_refs(w, (w.dynsym_writer.contents(), versym_items(w)), self.resolutions@, self.symbols@, gnu_version_enabled);
                &&& r.is_ok() == (f is Some && w.fits(e))
                &&& r.is_ok() ==> w.tables_extended(e, *final(table_writer))
                &&& r.is_ok() ==> final(table_writer).dynsym_writer.contents() == f->Some_0.0
                &&& r.is_ok() ==> versym_items(*final(table_writer)) == f->Some_0.1
            }),
    {
        let ghost kind = table_writer.output_kind;
        let ghost tls_start = table_writer.tls_start;
        let ghost tls_end = table_writer.tls_end;
        let ghost w0 = *table_writer;
        let ghost c0 = (w0.dynsym_writer.contents(), versym_items(w0));
        let mut i: usize = 0;
        proof {
            crate::table_writer::lemma_none(*table_writer);
            assert(self.resolutions@.subrange(0, 0) =~= Seq::<Option<Resolution>>::empty());
        }
        while i < self.resolutions.len()
            invariant
                w0 == *old(table_writer),
                w0.wf(),
                c0 == (w0.dynsym_writer.contents(), versym_items(w0)),
                table_writer.eh_frame == old(table_writer).eh_frame,
                table_writer.eh_frame_hdr == old(table_writer).eh_frame_hdr,
                table_writer.eh_frame_start_address == old(table_writer).eh_frame_start_address,
                table_writer.debug_symbol_writer == old(table_writer).debug_symbol_writer,
                i <= self.resolutions@.len(),
                table_writer.wf(),
                table_writer.output_kind == old(table_writer).output_kind,
                table_writer.output_kind == kind,
                kind == w0.output_kind,
                table_writer.tls_start == tls_start,
                table_writer.tls_end == tls_end,
                tls_start == w0.tls_start,
                tls_end == w0.tls_end,
                table_writer.got.capacity == w0.got.capacity,
                table_writer.plt_got.capacity == w0.plt_got.capacity,
                table_writer.rela_plt.capacity == w0.rela_plt.capacity,
                table_writer.rela_dyn_relative.capacity == w0.rela_dyn_relative.capacity,
                table_writer.rela_dyn_general.capacity == w0.rela_dyn_general.capacity,
                table_writer.dynsym_writer.same_shape(w0.dynsym_writer),
                table_writer.version_writer.versym is Some == w0.version_writer.versym is Some,
                w0.version_writer.versym is Some ==> table_writer.version_writer.versym->Some_0.capacity
                    == w0.version_writer.versym->Some_0.capacity,
                w0.tables_extended(
                    resolutions_emission(self.resolutions@.subrange(0, i as int), kind, tls_start, tls_end),
                    *table_writer,
                ),
                w0.fits(resolutions_emission(self.resolutions@.subrange(0, i as int), kind, tls_start, tls_end)),
                dynamic_refs(w0, c0, self.resolutions@.subrange(0, i as int), self.symbols@, gnu_version_enabled)
                    == Some((table_writer.dynsym_writer.contents(), versym_items(*table_writer))),
            decreases self.resolutions@.len() - i,
        {
            assert(self.resolutions@.subrange(0, i + 1).drop_last() =~= self.resolutions@.subrange(0, i as int));
            let ghost s1 = *table_writer;
            let ghost prev = resolutions_emission(self.resolutions@.subrange(0, i as int), kind, tls_start, tls_end);
            assert(resolutions_emission(self.resolutions@.subrange(0, i + 1), kind, tls_start, tls_end) == cat(
                prev,
                match self.resolutions@[i as int] {
                    Some(r) => crate::table_writer::resolution_emission(r, kind, tls_start, tls_end),
                    None => e_none(),
                },
            ));
            match self.resolutions[i] {
                Some(res) => {
                    let r = table_writer.process_resolution(&res);
                    proof {
                        crate::table_writer::lemma_cat_tables(w0, prev, s1.emission_of(res), s1);
                    }
                    if r.is_err() {
                        proof {
                            if w0.fits(resolutions_emission(self.resolutions@, kind, tls_start, tls_end)) {
                                lemma_resolutions_prefix(w0, self.resolutions@, i + 1, kind, tls_start, tls_end);
                            }
                        }
                        return r;
                    }
                    let ghost s2 = *table_writer;
                    proof {
                        crate::table_writer::lemma_tables_cat(w0, prev, s1, s1.emission_of(res), s2);
                    }
                    if res.value_flags.dynamic && i < self.symbols.len() {
                        let s = &self.symbols[i];
                        let r = table_writer.dynsym_writer.copy_symbol_shndx(&s.sym, s.name.as_slice(), 0, 0);
                        if r.is_err() {
                            proof {
                                lemma_dynamic_refs_none(w0, c0, self.resolutions@, self.symbols@, gnu_version_enabled, i + 1);
                            }
                            return r;
                        }
                        if gnu_version_enabled {
                            let r = table_writer.version_writer.set_next_symbol_version(1);
                            if r.is_err() {
                                proof {
                                    lemma_dynamic_refs_none(w0, c0, self.resolutions@, self.symbols@, gnu_version_enabled, i + 1);
                                }
                                return r;
                            }
                        }
                        proof {
                            crate::table_writer::lemma_none(s2);
                            assert(s2.tables_extended(e_none(), *table_writer));
                        }
                    }
                },
                None => {
                    proof {
                        crate::table_writer::lemma_none(s1);
                        crate::table_writer::lemma_tables_cat(w0, prev, s1, e_none(), s1);
                    }
                },
            }
            i = i + 1;
        }
        assert(self.resolutions@.subrange(0, i as int) =~= self.resolutions@);
        Ok(())
    }
}

/// The dynamic relocations that a file's loaded sections ask for, in order.
pub open spec fn sections_emission(
    secs: Seq<Section>,
    resolutions: Seq<Option<Resolution>>,
    ctx: RelocationContext,
) -> Emission
    decreases secs.len(),
{
    if secs.len() == 0 {
        e_none()
    } else {
        let sec = secs.last();
        cat(
            sections_emission(secs.drop_last(), resolutions, ctx),
            if sec.has_data_in_file {
                reloc_fold(
                    sec.data@,
                    sec.relocations@,
                    resolutions,
                    SectionInfo { section_address: sec.address, is_writable: sec.is_writable },
                    ctx,
                ).e
            } else {
                e_none()
            },
        )
    }
}

/// Where and with what value a symbol is copied to `.symtab`: `None` when
/// it cannot be, `Some(None)` when it is not copied, else its section index
/// and value.
pub open spec fn symbol_copy(
    s: ObjectSymbol,
    res: Option<Resolution>,
    output_sections: crate::symtab::OutputSections,
    bss_section: usize,
    tls_start: Option<u64>,
) -> Option<Option<(u16, u64)>> {
    match s.placement {
        SymbolPlacement::Skip => Some(None),
        SymbolPlacement::Absolute => Some(Some((crate::symtab::SHN_ABS, s.sym.st_value))),
        _ => {
            let id = match s.placement {
                SymbolPlacement::Section(id) => id,
                _ => bss_section,
            };
            let idx = if id < output_sections.output_index@.len() {
                output_sections.output_index@[id as int]
            } else {
                None
            };
            if res is None || idx is None || (s.sym.st_info % 16 == crate::symtab::STT_TLS && tls_start is None) {
                None
            } else {
                let v = res->Some_0.raw_value;
                Some(Some((idx->Some_0, if s.sym.st_info % 16 == crate::symtab::STT_TLS {
                    vstd::wrapping::u64_specs::wrapping_sub(v, tls_start->Some_0)
                } else {
                    v
                })))
            }
        },
    }
}

/// The symbol table after copying `symbols` in order into a writer shaped
/// like `w` and holding `c`; `None` when a symbol cannot be copied or does
/// not fit.
pub open spec fn symbols_copied(
    w: crate::symtab::SymbolTableWriter,
    c: crate::symtab::SymtabContents,
    symbols: Seq<ObjectSymbol>,
    resolutions: Seq<Option<Resolution>>,
    output_sections: crate::symtab::OutputSections,
    bss_section: usize,
    tls_start: Option<u64>,
) -> Option<crate::symtab::SymtabContents>
    decreases symbols.len(),
{
    if symbols.len() == 0 {
        Some(c)
    } else {
        let i = symbols.len() - 1;
        match symbols_copied(w, c, symbols.drop_last(), resolutions, output_sections, bss_section, tls_start) {
            None => None,
            Some(prev) => {
                let s = symbols.last();
                match symbol_copy(s, resolved(resolutions, i as usize), output_sections, bss_section, tls_start) {
                    None => None,
                    Some(None) => Some(prev),
                    Some(Some((shndx, value))) => if crate::symtab::contents_fit(w, prev, s.sym.local(), s.name@.len()) {
                        Some(
                            crate::symtab::contents_with_symbol(
                                prev,
                                s.sym.local(),
                                crate::symtab::symbol_entry(
                                    prev.3,
                                    s.sym.st_info,
                                    s.sym.st_other,
                                    shndx,
                                    value,
                                    s.sym.st_size,
                                ),
                                s.name@,
                            ),
                        )
                    } else {
                        None
                    },
                }
            },
        }
    }
}

proof fn lemma_copied_none(
    w: crate::symtab::SymbolTableWriter,
    c: crate::symtab::SymtabContents,
    symbols: Seq<ObjectSymbol>,
    k: int,
    resolutions: Seq<Option<Resolution>>,
    output_sections: crate::symtab::OutputSections,
    bss_section: usize,
    tls_start: Option<u64>,
)
    requires
        0 <= k <= symbols.len(),
        symbols_copied(w, c, symbols.subrange(0, k), resolutions, output_sections, bss_section, tls_start) is None,
    ensures
        symbols_copied(w, c, symbols, resolutions, output_sections, bss_section, tls_start) is None,
    decreases symbols.len() - k,
{
    if k < symbols.len() {
        assert(symbols.subrange(0, k + 1).drop_last() =~= symbols.subrange(0, k));
        lemma_copied_none(w, c, symbols, k + 1, resolutions, output_sections, bss_section, tls_start);
    } else {
        assert(symbols.subrange(0, k) =~= symbols);
    }
}

/// Room for the entries of every resolution is room for those of a prefix.
pub proof fn lemma_resolutions_prefix(
    t: TableWriter,
    s: Seq<Option<Resolution>>,
    k: int,
    kind: crate::model::OutputKind,
    tls_start: u64,
    tls_end: u64,
)
    requires
        0 <= k <= s.len(),
        t.fits(resolutions_emission(s, kind, tls_start, tls_end)),
    ensures
        t.fits(resolutions_emission(s.subrange(0, k), kind, tls_start, tls_end)),
    decreases s.len() - k,
{
    if k == s.len() {
        assert(s.subrange(0, k) =~= s);
    } else {
        crate::table_writer::lemma_fits_cat_first(
            t,
            resolutions_emission(s.drop_last(), kind, tls_start, tls_end),
            match s.last() {
                Some(r) => crate::table_writer::resolution_emission(r, kind, tls_start, tls_end),
                None => e_none(),
            },
        );
        assert(s.drop_last().subrange(0, k) =~= s.subrange(0, k));
        lemma_resolutions_prefix(t, s.drop_last(), k, kind, tls_start, tls_end);
    }
}

/// The `.gnu.version` entries a writer holds; none when versions are off.
pub open spec fn versym_items(w: TableWriter) -> Seq<u16> {
    match w.version_writer.versym {
        Some(v) => v.items@,
        None => Seq::empty(),
    }
}

/// `.dynsym` and `.gnu.version` after the first `rs.len()` resolutions,
/// from `c`, in a writer shaped like `w`: each dynamic symbol gets an
/// undefined entry, and the global version when versions are on. `None`
/// when one does not fit.
pub open spec fn dynamic_refs(
    w: TableWriter,
    c: (crate::symtab::SymtabContents, Seq<u16>),
    rs: Seq<Option<Resolution>>,
    syms: Seq<ObjectSymbol>,
    gnu: bool,
) -> Option<(crate::symtab::SymtabContents, Seq<u16>)>
    decreases rs.len(),
{
    if rs.len() == 0 {
        Some(c)
    } else {
        let i = rs.len() - 1;
        match dynamic_refs(w, c, rs.drop_last(), syms, gnu) {
            None => None,
            Some(p) => match rs[i] {
                Some(res) => if res.value_flags.dynamic && i < syms.len() {
                    let sy = syms[i];
                    if !crate::symtab::contents_fit(w.dynsym_writer, p.0, sy.sym.local(), sy.name@.len()) {
                        None
                    } else {
                        let d = crate::symtab::contents_with_symbol(
                            p.0,
                            sy.sym.local(),
                            crate::symtab::symbol_entry(p.0.3, sy.sym.st_info, sy.sym.st_other, 0, 0, sy.sym.st_size),
                            sy.name@,
                        );
                        if gnu && w.version_writer.versym is Some {
                            if p.1.len() < w.version_writer.versym->Some_0.capacity {
                                Some((d, p.1.push(1u16)))
                            } else {
                                None
                            }
                        } else {
                            Some((d, p.1))
                        }
                    }
                } else {
                    Some(p)
                },
                None => Some(p),
            },
        }
    }
}

proof fn lemma_dynamic_refs_same(
    w: TableWriter,
    v: TableWriter,
    c: (crate::symtab::SymtabContents, Seq<u16>),
    rs: Seq<Option<Resolution>>,
    syms: Seq<ObjectSymbol>,
    gnu: bool,
)
    requires
        w.dynsym_writer == v.dynsym_writer,
        w.version_writer == v.version_writer,
    ensures
        dynamic_refs(w, c, rs, syms, gnu) == dynamic_refs(v, c, rs, syms, gnu),
    decreases rs.len(),
{
    if rs.len() > 0 {
        lemma_dynamic_refs_same(w, v, c, rs.drop_last(), syms, gnu);
    }
}

proof fn lemma_dynamic_refs_none(
    w: TableWriter,
    c: (crate::symtab::SymtabContents, Seq<u16>),
    rs: Seq<Option<Resolution>>,
    syms: Seq<ObjectSymbol>,
    gnu: bool,
    k: int,
)
    requires
        0 <= k <= rs.len(),
        dynamic_refs(w, c, rs.subrange(0, k), syms, gnu) is None,
    ensures
        dynamic_refs(w, c, rs, syms, gnu) is None,
    decreases rs.len() - k,
{
    if k < rs.len() {
        assert(rs.subrange(0, k + 1).drop_last() =~= rs.subrange(0, k));
        lemma_dynamic_refs_none(w, c, rs, syms, gnu, k + 1);
    } else {
        assert(rs.subrange(0, k) =~= rs);
    }
}

impl ObjectLayout {
    proof fn lemma_symbols_fail(
        &self,
        w: crate::symtab::SymbolTableWriter,
        i: int,
        output_sections: crate::symtab::OutputSections,
        bss_section: usize,
        tls_start: Option<u64>,
    )
        requires
            0 <= i < self.symbols@.len(),
            symbols_copied(w, w.contents(), self.symbols@.subrange(0, i + 1), self.resolutions@, output_sections, bss_section, tls_start) is None,
        ensures
            symbols_copied(w, w.contents(), self.symbols@, self.resolutions@, output_sections, bss_section, tls_start) is None,
    {
        lemma_copied_none(w, w.contents(), self.symbols@, i + 1, self.resolutions@, output_sections, bss_section, tls_start);
    }

    /// Copies the file's symbols to `.symtab`. A symbol's value is that of
    /// its resolution; a thread-local one is made relative to the start of
    /// the TLS segment.
    pub fn write_symbols(
        &self,
        symbol_writer: &mut crate::symtab::SymbolTableWriter,
        output_sections: &crate::symtab::OutputSections,
        bss_section: usize,
        tls_start: Option<u64>,
    ) -> (r: Result<(), WriteError>)
        requires
            old(symbol_writer).wf(),
        ensures
            final(symbol_writer).wf(),
            final(symbol_writer).same_shape(*old(symbol_writer)),
            ({
                let f = symbols_copied(
                    *old(symbol_writer),
                    old(symbol_writer).contents(),
                    self.symbols@,
                    self.resolutions@,
                    *output_sections,
                    bss_section,
                    tls_start,
                );
                &&& r.is_ok() == f is Some
                &&& r.is_ok() ==> final(symbol_writer).contents() == f->Some_0
            }),
    {
        let mut i: usize = 0;
        assert(self.symbols@.subrange(0, 0) =~= Seq::<ObjectSymbol>::empty());
        while i < self.symbols.len()
            invariant
                i <= self.symbols@.len(),
                symbol_writer.wf(),
                symbol_writer.same_shape(*old(symbol_writer)),
                symbols_copied(
                    *old(symbol_writer),
                    old(symbol_writer).contents(),
                    self.symbols@.subrange(0, i as int),
                    self.resolutions@,
                    *output_sections,
                    bss_section,
                    tls_start,
                ) == Some(symbol_writer.contents()),
            decreases self.symbols@.len() - i,
        {
            assert(self.symbols@.subrange(0, i + 1).drop_last() =~= self.symbols@.subrange(0, i as int));
            let s = &self.symbols[i];
            let section_id = match s.placement {
                SymbolPlacement::Skip => {
                    i = i + 1;
                    continue;
                },
                SymbolPlacement::Absolute => {
                    let r = symbol_writer.copy_absolute_symbol(&s.sym, s.name.as_slice());
                    if r.is_err() {
                        proof { self.lemma_symbols_fail(*old(symbol_writer), i as int, *output_sections, bss_section, tls_start); }
                        return r;
                    }
                    i = i + 1;
                    continue;
                },
                SymbolPlacement::Common => bss_section,
                SymbolPlacement::Section(id) => id,
            };
            let res = if i < self.resolutions.len() {
                self.resolutions[i]
            } else {
                None
            };
            let mut value = match res {
                Some(res) => res.raw_value,
                None => {
                    proof { self.lemma_symbols_fail(*old(symbol_writer), i as int, *output_sections, bss_section, tls_start); }
                    return Err(WriteError::ExpectedAddress);
                },
            };
            if s.sym.st_info % 16 == crate::symtab::STT_TLS {
                match tls_start {
                    Some(t) => {
                        value = value.wrapping_sub(t);
                    },
                    None => {
                        proof { self.lemma_symbols_fail(*old(symbol_writer), i as int, *output_sections, bss_section, tls_start); }
                        return Err(WriteError::TlsOutOfRange { address: value });
                    },
                }
            }
            let r = symbol_writer.copy_symbol(&s.sym, s.name.as_slice(), output_sections, section_id, value);
            if r.is_err() {
                proof { self.lemma_symbols_fail(*old(symbol_writer), i as int, *output_sections, bss_section, tls_start); }
                return r;
            }
            i = i + 1;
        }
        assert(self.symbols@.subrange(0, i as int) =~= self.symbols@);
        Ok(())
    }

    /// Writes everything of one input object: its sections (relocated), its
    /// debug sections, its symbols' GOT, PLT and dynamic entries, and unless
    /// `strip_all` its `.symtab` entries. `parts` holds the group's cursor
    /// for each output part.
    pub fn write_file(
        &self,
        table_writer: &mut TableWriter,
        parts: &mut Vec<Slots<u8>>,
        ctx: &RelocationContext,
        output_sections: &crate::symtab::OutputSections,
        bss_section: usize,
        tls_segment_start: Option<u64>,
        gnu_version_enabled: bool,
        strip_all: bool,
    ) -> (r: Result<(), WriteError>)
        requires
            old(table_writer).wf(),
            old(table_writer).output_kind == ctx.output_kind,
            forall|p: int| 0 <= p < old(parts)@.len() ==> (#[trigger] old(parts)@[p]).wf(),
        ensures
            strip_all ==> final(table_writer).debug_symbol_writer == old(table_writer).debug_symbol_writer,
            final(table_writer).wf(),
            final(table_writer).output_kind == old(table_writer).output_kind,
            final(parts)@.len() == old(parts)@.len(),
            forall|p: int| 0 <= p < final(parts)@.len() ==> (#[trigger] final(parts)@[p]).wf(),
            ({
                let w = *old(table_writer);
                let f = match self.eh_frame {
                    Some(input) => crate::eh_frame::eh_frame_result(input, w, *ctx),
                    None => Some(crate::eh_frame::eh_start(w.eh_frame_hdr.room())),
                };
                &&& r.is_ok() && self.eh_frame is Some ==> {
                    &&& f is Some
                    &&& final(table_writer).eh_frame.items@ == w.eh_frame.items@ + f->Some_0.out
                    &&& final(table_writer).eh_frame_hdr.items@ == w.eh_frame_hdr.items@ + f->Some_0.hdr
                    &&& final(table_writer).eh_frame_start_address == vstd::wrapping::u64_specs::wrapping_add(
                        w.eh_frame_start_address,
                        f->Some_0.out.len() as u64,
                    )
                }
                &&& r.is_ok() ==> {
                    let d = dynamic_refs(
                        w,
                        (w.dynsym_writer.contents(), versym_items(w)),
                        self.resolutions@,
                        self.symbols@,
                        gnu_version_enabled,
                    );
                    &&& d is Some
                    &&& final(table_writer).dynsym_writer.contents() == d->Some_0.0
                    &&& versym_items(*final(table_writer)) == d->Some_0.1
                }
                &&& r.is_ok() && !strip_all ==> {
                    let y = symbols_copied(
                        w.debug_symbol_writer,
                        w.debug_symbol_writer.contents(),
                        self.symbols@,
                        self.resolutions@,
                        *output_sections,
                        bss_section,
                        tls_segment_start,
                    );
                    &&& y is Some
                    &&& final(table_writer).debug_symbol_writer.contents() == y->Some_0
                }
                &&& r.is_ok() ==> w.tables_extended(
                    cat(
                        cat(sections_emission(self.sections@, self.resolutions@, *ctx), eh_frame_emission(self.eh_frame, w, *ctx)),
                        resolutions_emission(self.resolutions@, w.output_kind, w.tls_start, w.tls_end),
                    ),
                    *final(table_writer),
                )
            }),
    {
        let mut i: usize = 0;
        proof {
            crate::table_writer::lemma_none(*table_writer);
            assert(self.sections@.subrange(0, 0) =~= Seq::<Section>::empty());
        }
        while i < self.sections.len()
            invariant
                table_writer.debug_symbol_writer == old(table_writer).debug_symbol_writer,
                i <= self.sections@.len(),
                table_writer.wf(),
                table_writer.output_kind == old(table_writer).output_kind,
                table_writer.output_kind == ctx.output_kind,
                table_writer.tls_start == old(table_writer).tls_start,
                table_writer.tls_end == old(table_writer).tls_end,
                table_writer.eh_frame == old(table_writer).eh_frame,
                table_writer.eh_frame_hdr == old(table_writer).eh_frame_hdr,
                table_writer.eh_frame_start_address == old(table_writer).eh_frame_start_address,
                table_writer.got.capacity == old(table_writer).got.capacity,
                table_writer.dynsym_writer == old(table_writer).dynsym_writer,
                table_writer.version_writer == old(table_writer).version_writer,
                table_writer.plt_got.capacity == old(table_writer).plt_got.capacity,
                table_writer.rela_plt.capacity == old(table_writer).rela_plt.capacity,
                table_writer.rela_dyn_relative.capacity == old(table_writer).rela_dyn_relative.capacity,
                table_writer.rela_dyn_general.capacity == old(table_writer).rela_dyn_general.capacity,
                old(table_writer).tables_extended(
                    sections_emission(self.sections@.subrange(0, i as int), self.resolutions@, *ctx),
                    *table_writer,
                ),
                parts@.len() == old(parts)@.len(),
                forall|p: int| 0 <= p < parts@.len() ==> (#[trigger] parts@[p]).wf(),
            decreases self.sections@.len() - i,
        {
            let sec = &self.sections[i];
            assert(self.sections@.subrange(0, i + 1).drop_last() =~= self.sections@.subrange(0, i as int));
            if sec.part >= parts.len() {
                return Err(WriteError::InsufficientAllocation { table: Table::Section });
            }
            let ghost before = *table_writer;
            let mut part = parts.remove(sec.part);
            let r = self.write_section(sec, table_writer, &mut part, ctx);
            parts.insert(sec.part, part);
            r?;
            proof {
                let prev = sections_emission(self.sections@.subrange(0, i as int), self.resolutions@, *ctx);
                if sec.has_data_in_file {
                    let e = reloc_fold(
                        sec.data@,
                        sec.relocations@,
                        self.resolutions@,
                        SectionInfo { section_address: sec.address, is_writable: sec.is_writable },
                        *ctx,
                    ).e;
                    crate::table_writer::lemma_tables_cat(*old(table_writer), prev, before, e, *table_writer);
                } else {
                    crate::table_writer::lemma_none(before);
                    crate::table_writer::lemma_tables_cat(*old(table_writer), prev, before, e_none(), *table_writer);
                }
            }
            i = i + 1;
        }
        assert(self.sections@.subrange(0, i as int) =~= self.sections@);
        let ghost s1 = *table_writer;
        let mut i: usize = 0;
        while i < self.debug_sections.len()
            invariant
                table_writer.wf(),
                *table_writer == s1,
                s1.output_kind == old(table_writer).output_kind,
                s1.debug_symbol_writer == old(table_writer).debug_symbol_writer,
                s1.dynsym_writer == old(table_writer).dynsym_writer,
                s1.version_writer == old(table_writer).version_writer,
                s1.eh_frame == old(table_writer).eh_frame,
                s1.eh_frame_hdr == old(table_writer).eh_frame_hdr,
                s1.eh_frame_start_address == old(table_writer).eh_frame_start_address,
                s1.tls_start == old(table_writer).tls_start,
                s1.tls_end == old(table_writer).tls_end,
                parts@.len() == old(parts)@.len(),
                forall|p: int| 0 <= p < parts@.len() ==> (#[trigger] parts@[p]).wf(),
            decreases self.debug_sections@.len() - i,
        {
            let sec = &self.debug_sections[i];
            if sec.part >= parts.len() {
                return Err(WriteError::InsufficientAllocation { table: Table::Section });
            }
            let mut part = parts.remove(sec.part);
            let r = self.write_debug_section(sec, &mut part, ctx);
            parts.insert(sec.part, part);
            r?;
            i = i + 1;
        }
        let ghost s2 = *table_writer;
        let ghost sec_e = sections_emission(self.sections@, self.resolutions@, *ctx);
        assert(old(table_writer).tables_extended(sec_e, s2));
        match &self.eh_frame {
            Some(input) => {
                crate::eh_frame::write_eh_frame_data(
                    table_writer,
                    &input.data,
                    &input.relocations,
                    input.eh_frame_hdr_address,
                    ctx,
                )?;
                proof {
                    let f = crate::eh_frame::eh_frame_result(*input, s2, *ctx);
                    crate::table_writer::lemma_tables_cat(*old(table_writer), sec_e, s2, f->Some_0.e, *table_writer);
                }
            },
            None => {
                proof {
                    crate::table_writer::lemma_none(s2);
                    crate::table_writer::lemma_tables_cat(*old(table_writer), sec_e, s2, e_none(), s2);
                }
            },
        }
        let ghost s3 = *table_writer;
        let ghost eh_e = eh_frame_emission(self.eh_frame, s2, *ctx);
        proof {
            lemma_dynamic_refs_same(
                *old(table_writer),
                s3,
                (s3.dynsym_writer.contents(), versym_items(s3)),
                self.resolutions@,
                self.symbols@,
                gnu_version_enabled,
            );
        }
        self.write_resolutions(table_writer, gnu_version_enabled)?;
        proof {
            crate::table_writer::lemma_tables_cat(
                *old(table_writer),
                cat(sec_e, eh_e),
                s3,
                resolutions_emission(self.resolutions@, s3.output_kind, s3.tls_start, s3.tls_end),
                *table_writer,
            );
        }
        if !strip_all {
            self.write_symbols(&mut table_writer.debug_symbol_writer, output_sections, bss_section, tls_segment_start)?;
        }
        Ok(())
    }
}

/// Relocating the same section twice, from writers in the same state, gives
/// the same dynamic relocations; the bytes are `reloc_fold`'s, a function
/// of the inputs alone.
pub proof fn lemma_relocation_deterministic(
    data: Seq<u8>,
    relocs: Seq<InputRelocation>,
    resolutions: Seq<Option<Resolution>>,
    si: SectionInfo,
    ctx: RelocationContext,
    s: TableWriter,
    n1: TableWriter,
    n2: TableWriter,
)
    requires
        s.extended(reloc_fold(data, relocs, resolutions, si, ctx).e, n1),
        s.extended(reloc_fold(data, relocs, resolutions, si, ctx).e, n2),
    ensures
        n1.got.items@ == n2.got.items@,
        n1.plt_got.items@ == n2.plt_got.items@,
        n1.rela_plt.items@ == n2.rela_plt.items@,
        n1.rela_dyn_relative.items@ == n2.rela_dyn_relative.items@,
        n1.rela_dyn_general.items@ == n2.rela_dyn_general.items@,
{
}

} // verus!
