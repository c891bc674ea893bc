use crate::cursor::Slots;
use crate::dynamic::DynamicEntriesWriter;
use crate::error::{Table, WriteError};
use crate::model::{
    make_rela, rela, OutputKind, Rela, Resolution, CURRENT_EXE_TLS_MOD, GOT_ENTRY_SIZE,
    R_X86_64_DTPMOD64, R_X86_64_DTPOFF64, R_X86_64_GLOB_DAT, R_X86_64_IRELATIVE,
    R_X86_64_RELATIVE, R_X86_64_TLSDESC, R_X86_64_TPOFF64,
};
use crate::symtab::SymbolTableWriter;
use crate::version::{MemSizes, VersionWriter};
use vstd::prelude::*;
use vstd::wrapping::u64_specs::{wrapping_add, wrapping_sub};

verus! {

/// The size of a PLT stub.
pub const PLT_ENTRY_SIZE: u64 = 16;
/// The size of an `Elf64_Rela` record.
pub const RELA_SIZE: u64 = 24;

/// What handling one resolution appends to each table, and whether it
/// succeeds apart from running out of space.
pub struct Emission {
    pub got: Seq<u64>,
    pub relative: Seq<Rela>,
    pub general: Seq<Rela>,
    pub plt_rela: Seq<Rela>,
    pub stubs: Seq<u8>,
    pub ok: bool,
}

pub open spec fn e_none() -> Emission {
    Emission {
        got: seq![],
        relative: seq![],
        general: seq![],
        plt_rela: seq![],
        stubs: seq![],
        ok: true,
    }
}

pub open spec fn e_fail() -> Emission {
    Emission { ok: false, ..e_none() }
}

pub open spec fn e_got(v: u64) -> Emission {
    Emission { got: seq![v], ..e_none() }
}

pub open spec fn e_general(r: Rela) -> Emission {
    Emission { general: seq![r], ..e_none() }
}

pub open spec fn e_relative(r: Rela) -> Emission {
    Emission { relative: seq![r], ..e_none() }
}

pub open spec fn e_plt_rela(r: Rela) -> Emission {
    Emission { plt_rela: seq![r], ..e_none() }
}

pub open spec fn e_stub(b: Seq<u8>) -> Emission {
    Emission { stubs: b, ..e_none() }
}

/// `a` followed by `b`.
pub open spec fn cat(a: Emission, b: Emission) -> Emission {
    Emission {
        got: a.got + b.got,
        relative: a.relative + b.relative,
        general: a.general + b.general,
        plt_rela: a.plt_rela + b.plt_rela,
        stubs: a.stubs + b.stubs,
        ok: a.ok && b.ok,
    }
}

/// The offset from the instruction after a PLT stub's jump to its GOT entry.
pub open spec fn plt_displacement(got_address: u64, plt_address: u64) -> int {
    got_address - (plt_address + 11)
}

pub open spec fn fits_i32(v: int) -> bool {
    -0x8000_0000 <= v < 0x8000_0000
}

/// The bits of a 32-bit two's-complement value.
pub open spec fn i32_bits(v: int) -> u32 {
    if v >= 0 {
        v as u32
    } else {
        (v + 0x1_0000_0000) as u32
    }
}

/// The x86-64 PLT stub that jumps through the GOT entry at `got_address`:
/// `endbr64; bnd jmp *disp(%rip); nopl 0(%rax,%rax,1)`.
pub open spec fn plt_stub(got_address: u64, plt_address: u64) -> Seq<u8> {
    seq![0xf3u8, 0x0f, 0x1e, 0xfa, 0xf2, 0xff, 0x25] + crate::bytes::le32(
        i32_bits(plt_displacement(got_address, plt_address)),
    ) + seq![0x0fu8, 0x1f, 0x44, 0x00, 0x00]
}

pub open spec fn plt_emission(res: Resolution, got_address: u64) -> Emission {
    match res.plt_address {
        Some(p) => if fits_i32(plt_displacement(got_address, p)) {
            e_stub(plt_stub(got_address, p))
        } else {
            e_fail()
        },
        None => e_none(),
    }
}

/// Whether a non-TLS GOT entry is filled by the dynamic loader through a
/// symbol lookup.
pub open spec fn needs_glob_dat(res: Resolution) -> bool {
    res.value_flags.dynamic || (res.resolution_flags.export_dynamic
        && !res.value_flags.can_bypass_got && !res.value_flags.ifunc)
}

/// Whether a TLS GOT entry is filled by the dynamic loader through a
/// symbol lookup.
pub open spec fn tls_dynamic(res: Resolution) -> bool {
    res.value_flags.dynamic || (res.resolution_flags.export_dynamic
        && !res.value_flags.can_bypass_got)
}

pub open spec fn tls_any(res: Resolution) -> bool {
    res.resolution_flags.got_tls_offset || res.resolution_flags.got_tls_module
        || res.resolution_flags.got_tls_descriptor
}

pub open spec fn dsi_or_zero(res: Resolution) -> u32 {
    match res.dynamic_symbol_index {
        Some(i) => i,
        None => 0,
    }
}

/// A general dynamic relocation against the resolution's dynamic symbol,
/// which it must have.
pub open spec fn e_symbol_rela(res: Resolution, place: u64, ty: u32, addend: i64) -> Emission {
    match res.dynamic_symbol_index {
        Some(i) => e_general(rela(place, i, ty, addend)),
        None => e_fail(),
    }
}

/// The GOT entry of a symbol that is not thread-local.
pub open spec fn got_emission(res: Resolution, kind: OutputKind, g: u64) -> Emission {
    if needs_glob_dat(res) {
        cat(e_got(0), e_symbol_rela(res, g, R_X86_64_GLOB_DAT, 0))
    } else if res.value_flags.ifunc {
        cat(e_got(0), e_plt_rela(rela(g, 0, R_X86_64_IRELATIVE, res.raw_value as i64)))
    } else if res.value_flags.address && kind.relocatable() {
        cat(e_got(res.raw_value), e_relative(rela(g, 0, R_X86_64_RELATIVE, res.raw_value as i64)))
    } else {
        e_got(res.raw_value)
    }
}

/// The GOT entry holding a TLS variable's offset from the thread pointer.
pub open spec fn tls_offset_emission(
    res: Resolution,
    kind: OutputKind,
    tls_start: u64,
    tls_end: u64,
    g: u64,
) -> Emission {
    let a = res.raw_value;
    if tls_dynamic(res) {
        cat(e_got(0), e_symbol_rela(res, g, R_X86_64_TPOFF64, 0))
    } else if a == 0 {
        e_got(0)
    } else if !(tls_start <= a <= tls_end) {
        cat(e_got(0), e_fail())
    } else if kind.executable() {
        e_got(wrapping_sub(a, tls_end))
    } else {
        cat(e_got(0), e_general(rela(g, 0, R_X86_64_TPOFF64, (a - tls_start) as i64)))
    }
}

/// The GOT entry holding a TLS variable's module id.
pub open spec fn tls_module_id_emission(res: Resolution, kind: OutputKind, g: u64) -> Emission {
    if kind.executable() {
        e_got(CURRENT_EXE_TLS_MOD)
    } else {
        cat(e_got(0), e_general(rela(g, dsi_or_zero(res), R_X86_64_DTPMOD64, 0)))
    }
}

/// The GOT entry holding a TLS variable's offset within its module.
pub open spec fn tls_module_offset_emission(res: Resolution, tls_start: u64, g: u64) -> Emission {
    match res.dynamic_symbol_index {
        Some(i) => if !res.value_flags.can_bypass_got {
            cat(e_got(0), e_general(rela(wrapping_add(g, GOT_ENTRY_SIZE), i, R_X86_64_DTPOFF64, 0)))
        } else {
            e_got(0)
        },
        None => if res.value_flags.address {
            e_got(wrapping_sub(res.raw_value, tls_start))
        } else {
            cat(e_got(0), e_fail())
        },
    }
}

/// The pair of GOT entries holding a TLS variable's module and offset.
pub open spec fn tls_module_emission(res: Resolution, kind: OutputKind, tls_start: u64, g: u64) -> Emission {
    cat(tls_module_id_emission(res, kind, g), tls_module_offset_emission(res, tls_start, g))
}

/// The pair of GOT entries of a TLS descriptor.
pub open spec fn tls_descriptor_emission(res: Resolution, kind: OutputKind, tls_start: u64, g: u64) -> Emission {
    let addend: i64 = if res.dynamic_symbol_index is None {
        wrapping_sub(res.raw_value, tls_start) as i64
    } else {
        0
    };
    cat(
        cat(e_got(0), e_got(0)),
        if kind.static_executable() {
            e_fail()
        } else {
            e_general(rela(g, dsi_or_zero(res), R_X86_64_TLSDESC, addend))
        },
    )
}

/// Everything that handling `res` appends to the GOT, PLT and relocation
/// tables.
pub open spec fn resolution_emission(
    res: Resolution,
    kind: OutputKind,
    tls_start: u64,
    tls_end: u64,
) -> Emission {
    match res.got_address {
        None => e_none(),
        Some(g) => if tls_any(res) {
            let f = res.resolution_flags;
            let g1 = if f.got_tls_offset {
                wrapping_add(g, GOT_ENTRY_SIZE)
            } else {
                g
            };
            let g2 = if f.got_tls_module {
                wrapping_add(g1, 16u64)
            } else {
                g1
            };
            cat(
                cat(
                    if f.got_tls_offset {
                        tls_offset_emission(res, kind, tls_start, tls_end, g)
                    } else {
                        e_none()
                    },
                    if f.got_tls_module {
                        tls_module_emission(res, kind, tls_start, g1)
                    } else {
                        e_none()
                    },
                ),
                if f.got_tls_descriptor {
                    tls_descriptor_emission(res, kind, tls_start, g2)
                } else {
                    e_none()
                },
            )
        } else {
            cat(got_emission(res, kind, g), plt_emission(res, g))
        },
    }
}

/// Per-group cursors into every table that symbol handling writes.
pub struct TableWriter {
    pub output_kind: OutputKind,
    pub tls_start: u64,
    pub tls_end: u64,
    pub got: Slots<u64>,
    pub plt_got: Slots<u8>,
    pub rela_plt: Slots<Rela>,
    pub rela_dyn_relative: Slots<Rela>,
    pub rela_dyn_general: Slots<Rela>,
    pub dynsym_writer: SymbolTableWriter,
    pub debug_symbol_writer: SymbolTableWriter,
    pub eh_frame_start_address: u64,
    pub eh_frame: Slots<u8>,
    /// Raw bytes: the header, in the group that writes it, then 8-byte
    /// entries.
    pub eh_frame_hdr: Slots<u8>,
    pub dynamic: DynamicEntriesWriter,
    pub version_writer: VersionWriter,
}

/// Byte sizes of the parts of one group, as layout allocated them.
#[derive(Clone, Copy, Debug, PartialEq, Eq, Structural)]
pub struct GroupSizes {
    pub got: usize,
    pub plt_got: usize,
    pub rela_plt: usize,
    pub rela_dyn_relative: usize,
    pub rela_dyn_general: usize,
    pub dynsym: usize,
    pub dynstr: usize,
    pub symtab_local: usize,
    pub symtab_global: usize,
    pub strtab: usize,
    pub eh_frame: usize,
    pub eh_frame_hdr: usize,
    pub dynamic: usize,
    pub gnu_version: usize,
    pub gnu_version_d: usize,
    pub gnu_version_r: usize,
}

impl TableWriter {
    pub open spec fn wf(&self) -> bool {
        &&& self.got.wf()
        &&& self.plt_got.wf()
        &&& self.rela_plt.wf()
        &&& self.rela_dyn_relative.wf()
        &&& self.rela_dyn_general.wf()
        &&& self.dynsym_writer.wf()
        &&& self.debug_symbol_writer.wf()
        &&& self.eh_frame.wf()
        &&& self.eh_frame_hdr.wf()
        &&& self.dynamic.out.wf()
        &&& self.version_writer.wf()
        &&& self.got.capacity * 8 <= u64::MAX
        &&& self.rela_plt.capacity * 24 <= u64::MAX
        &&& self.rela_dyn_relative.capacity * 24 <= u64::MAX
        &&& self.rela_dyn_general.capacity * 24 <= u64::MAX
        &&& self.dynamic.out.capacity * 16 <= u64::MAX
        &&& self.version_writer.versym is Some ==> self.version_writer.versym->Some_0.capacity * 2
            <= u64::MAX
    }

    /// Whether every cursor has been used up.
    pub open spec fn exhausted(&self) -> bool {
        &&& self.got.room() == 0
        &&& self.plt_got.room() == 0
        &&& self.rela_plt.room() == 0
        &&& self.rela_dyn_relative.room() == 0
        &&& self.rela_dyn_general.room() == 0
        &&& self.dynsym_writer.exhausted()
        &&& self.debug_symbol_writer.exhausted()
        &&& self.version_writer.exhausted()
        &&& self.eh_frame.room() == 0
        &&& self.eh_frame_hdr.room() == 0
        &&& self.dynamic.out.room() == 0
    }

    /// Whether the tables have room for `e`, and `e` succeeds.
    pub open spec fn fits(&self, e: Emission) -> bool {
        &&& e.ok
        &&& e.got.len() <= self.got.room()
        &&& e.relative.len() <= self.rela_dyn_relative.room()
        &&& e.general.len() <= self.rela_dyn_general.room()
        &&& e.plt_rela.len() <= self.rela_plt.room()
        &&& e.stubs.len() <= self.plt_got.room()
    }

    /// `next` holds `e` appended to the GOT, PLT and relocation tables of
    /// this writer, whatever else changed.
    pub open spec fn tables_extended(&self, e: Emission, next: TableWriter) -> bool {
        &&& next.got.items@ == self.got.items@ + e.got
        &&& next.rela_dyn_relative.items@ == self.rela_dyn_relative.items@ + e.relative
        &&& next.rela_dyn_general.items@ == self.rela_dyn_general.items@ + e.general
        &&& next.rela_plt.items@ == self.rela_plt.items@ + e.plt_rela
        &&& next.plt_got.items@ == self.plt_got.items@ + e.stubs
    }

    /// `next` holds the same GOT, PLT and relocation entries as this writer.
    pub open spec fn tables_unchanged(&self, next: TableWriter) -> bool {
        &&& next.got.items@ == self.got.items@
        &&& next.rela_dyn_relative.items@ == self.rela_dyn_relative.items@
        &&& next.rela_dyn_general.items@ == self.rela_dyn_general.items@
        &&& next.rela_plt.items@ == self.rela_plt.items@
        &&& next.plt_got.items@ == self.plt_got.items@
    }

    /// `next` is this writer with `e` appended to its tables.
    pub open spec fn extended(&self, e: Emission, next: TableWriter) -> bool {
        &&& next.got.items@ == self.got.items@ + e.got
        &&& next.rela_dyn_relative.items@ == self.rela_dyn_relative.items@ + e.relative
        &&& next.rela_dyn_general.items@ == self.rela_dyn_general.items@ + e.general
        &&& next.rela_plt.items@ == self.rela_plt.items@ + e.plt_rela
        &&& next.plt_got.items@ == self.plt_got.items@ + e.stubs
        &&& self.others_same(next)
    }

    /// `next` differs from this writer at most in what the GOT, PLT and
    /// relocation cursors hold.
    pub open spec fn others_same(&self, next: TableWriter) -> bool {
        &&& next.output_kind == self.output_kind
        &&& next.tls_start == self.tls_start
        &&& next.tls_end == self.tls_end
        &&& next.got.capacity == self.got.capacity
        &&& next.plt_got.capacity == self.plt_got.capacity
        &&& next.rela_plt.capacity == self.rela_plt.capacity
        &&& next.rela_dyn_relative.capacity == self.rela_dyn_relative.capacity
        &&& next.rela_dyn_general.capacity == self.rela_dyn_general.capacity
        &&& next.dynsym_writer == self.dynsym_writer
        &&& next.debug_symbol_writer == self.debug_symbol_writer
        &&& next.eh_frame_start_address == self.eh_frame_start_address
        &&& next.eh_frame == self.eh_frame
        &&& next.eh_frame_hdr == self.eh_frame_hdr
        &&& next.dynamic == self.dynamic
        &&& next.version_writer == self.version_writer
    }

    pub open spec fn emission_of(&self, res: Resolution) -> Emission {
        resolution_emission(res, self.output_kind, self.tls_start, self.tls_end)
    }
}

/// Room for `a` then `b` is room for both in turn, and appending composes.
pub proof fn lemma_cat(s: TableWriter, a: Emission, b: Emission, m: TableWriter)
    requires
        s.extended(a, m),
        s.wf(),
    ensures
        s.fits(cat(a, b)) == (s.fits(a) && m.fits(b)),
        forall|n: TableWriter| m.extended(b, n) ==> s.extended(cat(a, b), n),
{
    assert forall|n: TableWriter| m.extended(b, n) implies s.extended(cat(a, b), n) by {
        assert(n.got.items@ =~= s.got.items@ + cat(a, b).got);
        assert(n.rela_dyn_relative.items@ =~= s.rela_dyn_relative.items@ + cat(a, b).relative);
        assert(n.rela_dyn_general.items@ =~= s.rela_dyn_general.items@ + cat(a, b).general);
        assert(n.rela_plt.items@ =~= s.rela_plt.items@ + cat(a, b).plt_rela);
        assert(n.plt_got.items@ =~= s.plt_got.items@ + cat(a, b).stubs);
    }
}

/// Appending nothing leaves the writer as it is.
pub proof fn lemma_none(s: TableWriter)
    requires
        s.wf(),
    ensures
        s.extended(e_none(), s),
        s.fits(e_none()),
{
    assert(s.got.items@ =~= s.got.items@ + e_none().got);
    assert(s.rela_dyn_relative.items@ =~= s.rela_dyn_relative.items@ + e_none().relative);
    assert(s.rela_dyn_general.items@ =~= s.rela_dyn_general.items@ + e_none().general);
    assert(s.rela_plt.items@ =~= s.rela_plt.items@ + e_none().plt_rela);
    assert(s.plt_got.items@ =~= s.plt_got.items@ + e_none().stubs);
}

/// `n` is what handling `e` from `s` left, with outcome `r`: success exactly
/// when the tables have room and `e` succeeds, and then `e` appended.
pub open spec fn did(s: TableWriter, e: Emission, n: TableWriter, r: Result<(), WriteError>) -> bool {
    &&& n.wf()
    &&& s.others_same(n)
    &&& r.is_ok() == s.fits(e)
    &&& r.is_ok() ==> s.extended(e, n)
}

/// `a` then `b` from `s0` is `cat(a, b)`.
pub proof fn lemma_seq(
    s0: TableWriter,
    a: Emission,
    b: Emission,
    s1: TableWriter,
    s2: TableWriter,
    r: Result<(), WriteError>,
)
    requires
        s0.wf(),
        did(s0, a, s1, Ok(())),
        did(s1, b, s2, r),
    ensures
        did(s0, cat(a, b), s2, r),
{
    lemma_cat(s0, a, b, s1);
}

/// A first step that fails fails `cat(a, b)`.
pub proof fn lemma_seq_err(s0: TableWriter, a: Emission, b: Emission, s1: TableWriter, r: Result<(), WriteError>)
    requires
        s0.wf(),
        did(s0, a, s1, r),
        r.is_err(),
    ensures
        did(s0, cat(a, b), s1, r),
{
}

/// A step that fails after `a` succeeded leaves `cat(a, e_fail())` failed.
pub proof fn lemma_fail_after(s0: TableWriter, a: Emission, s1: TableWriter, e: WriteError)
    requires
        s0.wf(),
        did(s0, a, s1, Ok(())),
    ensures
        did(s0, cat(a, e_fail()), s1, Err::<(), WriteError>(e)),
{
}

proof fn lemma_skip(s: TableWriter)
    requires
        s.wf(),
    ensures
        did(s, e_none(), s, Ok(())),
{
    lemma_none(s);
}

proof fn lemma_cat_none(e: Emission)
    ensures
        cat(e, e_none()) == e,
        cat(e_none(), e) == e,
{
    assert(cat(e, e_none()).got =~= e.got);
    assert(cat(e, e_none()).relative =~= e.relative);
    assert(cat(e, e_none()).general =~= e.general);
    assert(cat(e, e_none()).plt_rela =~= e.plt_rela);
    assert(cat(e, e_none()).stubs =~= e.stubs);
    assert(cat(e_none(), e).got =~= e.got);
    assert(cat(e_none(), e).relative =~= e.relative);
    assert(cat(e_none(), e).general =~= e.general);
    assert(cat(e_none(), e).plt_rela =~= e.plt_rela);
    assert(cat(e_none(), e).stubs =~= e.stubs);
}

impl TableWriter {
    /// Fails without writing anything.
    fn fail(&self, e: WriteError) -> (r: Result<(), WriteError>)
        requires
            self.wf(),
        ensures
            did(*self, e_fail(), *self, r),
            r == Err::<(), WriteError>(e),
    {
        Err(e)
    }

    /// Takes the next GOT entry and stores `value` in it.
    pub fn take_next_got_entry(&mut self, value: u64) -> (r: Result<(), WriteError>)
        requires
            old(self).wf(),
        ensures
            r.is_err() ==> final(self).got.items@ == old(self).got.items@,
            r.is_err() ==> r == Err::<(), WriteError>(WriteError::InsufficientAllocation { table: Table::Got }),
            did(*old(self), e_got(value), *final(self), r),
    {
        let r = self.got.take(value, Table::Got);
        proof {
            if r.is_ok() {
                assert(self.got.items@ =~= old(self).got.items@ + e_got(value).got);
                assert(self.rela_dyn_relative.items@ =~= old(self).rela_dyn_relative.items@ + e_got(value).relative);
                assert(self.rela_dyn_general.items@ =~= old(self).rela_dyn_general.items@ + e_got(value).general);
                assert(self.rela_plt.items@ =~= old(self).rela_plt.items@ + e_got(value).plt_rela);
                assert(self.plt_got.items@ =~= old(self).plt_got.items@ + e_got(value).stubs);
            }
        }
        r
    }

    /// Writes the next general dynamic relocation.
    pub fn write_rela_dyn_general(&mut self, place: u64, dynamic_symbol_index: u32, r_type: u32, addend: i64) -> (r:
        Result<(), WriteError>)
        requires
            old(self).wf(),
        ensures
            did(*old(self), e_general(rela(place, dynamic_symbol_index, r_type, addend)), *final(self), r),
    {
        let rel = make_rela(place, dynamic_symbol_index, r_type, addend);
        let r = self.rela_dyn_general.take(rel, Table::RelaDynGeneral);
        proof {
            let e = e_general(rel);
            if r.is_ok() {
                assert(self.rela_dyn_general.items@ =~= old(self).rela_dyn_general.items@ + e.general);
                assert(self.got.items@ =~= old(self).got.items@ + e.got);
                assert(self.rela_dyn_relative.items@ =~= old(self).rela_dyn_relative.items@ + e.relative);
                assert(self.rela_plt.items@ =~= old(self).rela_plt.items@ + e.plt_rela);
                assert(self.plt_got.items@ =~= old(self).plt_got.items@ + e.stubs);
            }
        }
        r
    }

    /// Writes the next relative dynamic relocation: the loader adds the load
    /// base to `relative_address` and stores it at `place`.
    pub fn write_address_relocation(&mut self, place: u64, relative_address: i64) -> (r: Result<(), WriteError>)
        requires
            old(self).wf(),
        ensures
            did(*old(self), e_relative(rela(place, 0, R_X86_64_RELATIVE, relative_address)), *final(self), r),
    {
        let rel = make_rela(place, 0, R_X86_64_RELATIVE, relative_address);
        let r = self.rela_dyn_relative.take(rel, Table::RelaDynRelative);
        proof {
            let e = e_relative(rel);
            if r.is_ok() {
                assert(self.rela_dyn_relative.items@ =~= old(self).rela_dyn_relative.items@ + e.relative);
                assert(self.got.items@ =~= old(self).got.items@ + e.got);
                assert(self.rela_dyn_general.items@ =~= old(self).rela_dyn_general.items@ + e.general);
                assert(self.rela_plt.items@ =~= old(self).rela_plt.items@ + e.plt_rela);
                assert(self.plt_got.items@ =~= old(self).plt_got.items@ + e.stubs);
            }
        }
        r
    }

    /// Writes an IRELATIVE relocation for an ifunc's GOT entry into
    /// `.rela.plt`.
    pub fn write_ifunc_relocation(&mut self, res: &Resolution) -> (r: Result<(), WriteError>)
        requires
            old(self).wf(),
        ensures
            did(
                *old(self),
                match res.got_address {
                    Some(g) => e_plt_rela(rela(g, 0, R_X86_64_IRELATIVE, res.raw_value as i64)),
                    None => e_fail(),
                },
                *final(self),
                r,
            ),
    {
        let g = match res.got_address {
            Some(g) => g,
            None => {
                return self.fail(WriteError::ExpectedAddress);
            },
        };
        let rel = make_rela(g, 0, R_X86_64_IRELATIVE, res.raw_value as i64);
        let r = self.rela_plt.take(rel, Table::RelaPlt);
        proof {
            let e = e_plt_rela(rel);
            if r.is_ok() {
                assert(self.rela_plt.items@ =~= old(self).rela_plt.items@ + e.plt_rela);
                assert(self.got.items@ =~= old(self).got.items@ + e.got);
                assert(self.rela_dyn_general.items@ =~= old(self).rela_dyn_general.items@ + e.general);
                assert(self.rela_dyn_relative.items@ =~= old(self).rela_dyn_relative.items@ + e.relative);
                assert(self.plt_got.items@ =~= old(self).plt_got.items@ + e.stubs);
            }
        }
        r
    }

    /// Writes the next PLT stub.
    pub fn take_plt_got_entry(&mut self, stub: &[u8]) -> (r: Result<(), WriteError>)
        requires
            old(self).wf(),
        ensures
            r.is_err() ==> final(self).plt_got.items@ == old(self).plt_got.items@,
            r.is_err() ==> r == Err::<(), WriteError>(WriteError::InsufficientAllocation { table: Table::PltGot }),
            did(*old(self), e_stub(stub@), *final(self), r),
    {
        let r = self.plt_got.take_bytes(stub, Table::PltGot);
        proof {
            let e = e_stub(stub@);
            if r.is_ok() {
                assert(self.got.items@ =~= old(self).got.items@ + e.got);
                assert(self.rela_dyn_general.items@ =~= old(self).rela_dyn_general.items@ + e.general);
                assert(self.rela_dyn_relative.items@ =~= old(self).rela_dyn_relative.items@ + e.relative);
                assert(self.rela_plt.items@ =~= old(self).rela_plt.items@ + e.plt_rela);
            }
        }
        r
    }

    /// Writes a PLT stub at `plt_address` that jumps through the GOT entry at
    /// `got_address`.
    pub fn write_plt_entry(&mut self, got_address: u64, plt_address: u64) -> (r: Result<(), WriteError>)
        requires
            old(self).wf(),
        ensures
            did(
                *old(self),
                if fits_i32(plt_displacement(got_address, plt_address)) {
                    e_stub(plt_stub(got_address, plt_address))
                } else {
                    e_fail()
                },
                *final(self),
                r,
            ),
    {
        let d: i128 = got_address as i128 - (plt_address as i128 + 11);
        if d < -0x8000_0000 || d >= 0x8000_0000 {
            return self.fail(WriteError::PltTooFarFromGot);
        }
        let bits: u32 = if d >= 0 {
            d as u32
        } else {
            (d + 0x1_0000_0000) as u32
        };
        let mut stub: Vec<u8> = vec![0xf3u8, 0x0f, 0x1e, 0xfa, 0xf2, 0xff, 0x25];
        crate::bytes::push_u32(&mut stub, bits);
        stub.push(0x0f);
        stub.push(0x1f);
        stub.push(0x44);
        stub.push(0x00);
        stub.push(0x00);
        assert(stub@ =~= plt_stub(got_address, plt_address));
        self.take_plt_got_entry(stub.as_slice())
    }
}

impl TableWriter {
    /// Writes a general dynamic relocation against the resolution's dynamic
    /// symbol, failing when it has none.
    fn write_symbol_rela(&mut self, res: &Resolution, place: u64, r_type: u32, addend: i64) -> (r: Result<(), WriteError>)
        requires
            old(self).wf(),
        ensures
            did(*old(self), e_symbol_rela(*res, place, r_type, addend), *final(self), r),
    {
        match res.dynamic_symbol_index {
            Some(i) => self.write_rela_dyn_general(place, i, r_type, addend),
            None => self.fail(WriteError::MissingDynamicSymbolIndex),
        }
    }

    /// Handles the GOT entry that holds a TLS variable's offset from the
    /// thread pointer.
    pub fn process_got_tls_offset(&mut self, res: &Resolution, got_address: u64) -> (r: Result<(), WriteError>)
        requires
            old(self).wf(),
        ensures
            did(
                *old(self),
                tls_offset_emission(*res, old(self).output_kind, old(self).tls_start, old(self).tls_end, got_address),
                *final(self),
                r,
            ),
    {
        let ghost s0 = *self;
        if res.value_flags.dynamic || (res.resolution_flags.export_dynamic && !res.value_flags.can_bypass_got) {
            let ghost b = e_symbol_rela(*res, got_address, R_X86_64_TPOFF64, 0);
            let r = self.take_next_got_entry(0);
            if r.is_err() {
                proof { lemma_seq_err(s0, e_got(0), b, *self, r); }
                return r;
            }
            let ghost s1 = *self;
            let r = self.write_symbol_rela(res, got_address, R_X86_64_TPOFF64, 0);
            proof { lemma_seq(s0, e_got(0), b, s1, *self, r); }
            return r;
        }
        let address = res.raw_value;
        if address == 0 {
            // The symbol is undefined.
            return self.take_next_got_entry(0);
        }
        // TLS_MODULE_BASE may sit at the very end of the TLS segment.
        if !(self.tls_start <= address && address <= self.tls_end) {
            let r = self.take_next_got_entry(0);
            if r.is_err() {
                proof { lemma_seq_err(s0, e_got(0), e_fail(), *self, r); }
                return r;
            }
            let ghost s1 = *self;
            let r = self.fail(WriteError::TlsOutOfRange { address });
            proof { lemma_seq(s0, e_got(0), e_fail(), s1, *self, r); }
            return r;
        }
        if self.output_kind.is_executable() {
            // An offset from the thread control block, which is at the end of
            // the TLS segment.
            return self.take_next_got_entry(address.wrapping_sub(self.tls_end));
        }
        let addend = (address - self.tls_start) as i64;
        let ghost b = e_general(rela(got_address, 0, R_X86_64_TPOFF64, addend));
        let r = self.take_next_got_entry(0);
        if r.is_err() {
            proof { lemma_seq_err(s0, e_got(0), b, *self, r); }
            return r;
        }
        let ghost s1 = *self;
        let r = self.write_rela_dyn_general(got_address, 0, R_X86_64_TPOFF64, addend);
        proof { lemma_seq(s0, e_got(0), b, s1, *self, r); }
        r
    }

    fn tls_module_id(&mut self, res: &Resolution, got_address: u64) -> (r: Result<(), WriteError>)
        requires
            old(self).wf(),
        ensures
            did(*old(self), tls_module_id_emission(*res, old(self).output_kind, got_address), *final(self), r),
    {
        if self.output_kind.is_executable() {
            return self.take_next_got_entry(CURRENT_EXE_TLS_MOD);
        }
        let ghost s0 = *self;
        let dynamic_symbol_index = match res.dynamic_symbol_index {
            Some(i) => i,
            None => 0,
        };
        let ghost b = e_general(rela(got_address, dynamic_symbol_index, R_X86_64_DTPMOD64, 0));
        let r = self.take_next_got_entry(0);
        if r.is_err() {
            proof { lemma_seq_err(s0, e_got(0), b, *self, r); }
            return r;
        }
        let ghost s1 = *self;
        let r = self.write_rela_dyn_general(got_address, dynamic_symbol_index, R_X86_64_DTPMOD64, 0);
        proof { lemma_seq(s0, e_got(0), b, s1, *self, r); }
        r
    }

    fn tls_module_offset(&mut self, res: &Resolution, got_address: u64) -> (r: Result<(), WriteError>)
        requires
            old(self).wf(),
        ensures
            did(*old(self), tls_module_offset_emission(*res, old(self).tls_start, got_address), *final(self), r),
    {
        let ghost s0 = *self;
        match res.dynamic_symbol_index {
            Some(i) => {
                if res.value_flags.can_bypass_got {
                    return self.take_next_got_entry(0);
                }
                let place = got_address.wrapping_add(GOT_ENTRY_SIZE);
                let ghost b = e_general(rela(place, i, R_X86_64_DTPOFF64, 0));
                let r = self.take_next_got_entry(0);
                if r.is_err() {
                    proof { lemma_seq_err(s0, e_got(0), b, *self, r); }
                    return r;
                }
                let ghost s1 = *self;
                let r = self.write_rela_dyn_general(place, i, R_X86_64_DTPOFF64, 0);
                proof { lemma_seq(s0, e_got(0), b, s1, *self, r); }
                r
            },
            None => {
                if res.value_flags.address {
                    // An offset within the TLS segment.
                    return self.take_next_got_entry(res.raw_value.wrapping_sub(self.tls_start));
                }
                let r = self.take_next_got_entry(0);
                if r.is_err() {
                    proof { lemma_seq_err(s0, e_got(0), e_fail(), *self, r); }
                    return r;
                }
                let ghost s1 = *self;
                let r = self.fail(WriteError::ExpectedAddress);
                proof { lemma_seq(s0, e_got(0), e_fail(), s1, *self, r); }
                r
            },
        }
    }

    /// Handles the pair of GOT entries that hold a TLS variable's module id
    /// and its offset within the module.
    pub fn process_got_tls_mod(&mut self, res: &Resolution, got_address: u64) -> (r: Result<(), WriteError>)
        requires
            old(self).wf(),
        ensures
            did(
                *old(self),
                tls_module_emission(*res, old(self).output_kind, old(self).tls_start, got_address),
                *final(self),
                r,
            ),
    {
        let ghost s0 = *self;
        let ghost a = tls_module_id_emission(*res, self.output_kind, got_address);
        let ghost b = tls_module_offset_emission(*res, self.tls_start, got_address);
        let r = self.tls_module_id(res, got_address);
        if r.is_err() {
            proof { lemma_seq_err(s0, a, b, *self, r); }
            return r;
        }
        let ghost s1 = *self;
        let r = self.tls_module_offset(res, got_address);
        proof { lemma_seq(s0, a, b, s1, *self, r); }
        r
    }

    /// Handles the pair of GOT entries of a TLS descriptor, which the
    /// dynamic loader fills; a static executable has no loader to do so.
    pub fn process_got_tls_descriptor(&mut self, res: &Resolution, got_address: u64) -> (r: Result<(), WriteError>)
        requires
            old(self).wf(),
        ensures
            old(self).output_kind.static_executable() && old(self).got.room() >= 2 ==> {
                &&& r == Err::<(), WriteError>(WriteError::TlsDescInStaticExecutable)
                &&& final(self).got.items@ == old(self).got.items@ + seq![0u64, 0u64]
                &&& final(self).rela_dyn_general.items@ == old(self).rela_dyn_general.items@
            },
            did(
                *old(self),
                tls_descriptor_emission(*res, old(self).output_kind, old(self).tls_start, got_address),
                *final(self),
                r,
            ),
    {
        let ghost s0 = *self;
        let dynamic_symbol_index = match res.dynamic_symbol_index {
            Some(i) => i,
            None => 0,
        };
        let addend: i64 = if res.dynamic_symbol_index.is_none() {
            res.raw_value.wrapping_sub(self.tls_start) as i64
        } else {
            0
        };
        let ghost last = if self.output_kind.static_executable() {
            e_fail()
        } else {
            e_general(rela(got_address, dynamic_symbol_index, R_X86_64_TLSDESC, addend))
        };
        let r = self.take_next_got_entry(0);
        if r.is_err() {
            proof {
                lemma_seq_err(s0, e_got(0), e_got(0), *self, r);
                lemma_seq_err(s0, cat(e_got(0), e_got(0)), last, *self, r);
            }
            return r;
        }
        let ghost s1 = *self;
        let r = self.take_next_got_entry(0);
        if r.is_err() {
            proof {
                lemma_seq(s0, e_got(0), e_got(0), s1, *self, r);
                lemma_seq_err(s0, cat(e_got(0), e_got(0)), last, *self, r);
            }
            return r;
        }
        proof { lemma_seq(s0, e_got(0), e_got(0), s1, *self, r); }
        let ghost s2 = *self;
        let r = if self.output_kind.is_static_executable() {
            self.fail(WriteError::TlsDescInStaticExecutable)
        } else {
            self.write_rela_dyn_general(got_address, dynamic_symbol_index, R_X86_64_TLSDESC, addend)
        };
        proof { lemma_seq(s0, cat(e_got(0), e_got(0)), last, s2, *self, r); }
        r
    }

    fn process_got_entry(&mut self, res: &Resolution, got_address: u64) -> (r: Result<(), WriteError>)
        requires
            old(self).wf(),
            res.got_address == Some(got_address),
        ensures
            did(*old(self), got_emission(*res, old(self).output_kind, got_address), *final(self), r),
    {
        let ghost s0 = *self;
        let vf = res.value_flags;
        if vf.dynamic || (res.resolution_flags.export_dynamic && !vf.can_bypass_got && !vf.ifunc) {
            let ghost b = e_symbol_rela(*res, got_address, R_X86_64_GLOB_DAT, 0);
            let r = self.take_next_got_entry(0);
            if r.is_err() {
                proof { lemma_seq_err(s0, e_got(0), b, *self, r); }
                return r;
            }
            let ghost s1 = *self;
            let r = self.write_symbol_rela(res, got_address, R_X86_64_GLOB_DAT, 0);
            proof { lemma_seq(s0, e_got(0), b, s1, *self, r); }
            r
        } else if vf.ifunc {
            let ghost b = e_plt_rela(rela(got_address, 0, R_X86_64_IRELATIVE, res.raw_value as i64));
            let r = self.take_next_got_entry(0);
            if r.is_err() {
                proof { lemma_seq_err(s0, e_got(0), b, *self, r); }
                return r;
            }
            let ghost s1 = *self;
            let r = self.write_ifunc_relocation(res);
            proof { lemma_seq(s0, e_got(0), b, s1, *self, r); }
            r
        } else if vf.address && self.output_kind.is_relocatable() {
            let ghost b = e_relative(rela(got_address, 0, R_X86_64_RELATIVE, res.raw_value as i64));
            let r = self.take_next_got_entry(res.raw_value);
            if r.is_err() {
                proof { lemma_seq_err(s0, e_got(res.raw_value), b, *self, r); }
                return r;
            }
            let ghost s1 = *self;
            let r = self.write_address_relocation(got_address, res.raw_value as i64);
            proof { lemma_seq(s0, e_got(res.raw_value), b, s1, *self, r); }
            r
        } else {
            self.take_next_got_entry(res.raw_value)
        }
    }

    /// Writes the GOT entries, PLT stub and dynamic relocations that a
    /// resolution asks for.
    pub fn process_resolution(&mut self, res: &Resolution) -> (r: Result<(), WriteError>)
        requires
            old(self).wf(),
        ensures
            did(*old(self), old(self).emission_of(*res), *final(self), r),
    {
        let ghost s0 = *self;
        let got_address = match res.got_address {
            Some(g) => g,
            None => {
                proof { lemma_skip(s0); }
                return Ok(());
            },
        };
        let f = res.resolution_flags;
        if f.got_tls_offset || f.got_tls_module || f.got_tls_descriptor {
            let g1 = if f.got_tls_offset {
                got_address.wrapping_add(GOT_ENTRY_SIZE)
            } else {
                got_address
            };
            let g2 = if f.got_tls_module {
                g1.wrapping_add(16)
            } else {
                g1
            };
            let ghost x = if f.got_tls_offset {
                tls_offset_emission(*res, self.output_kind, self.tls_start, self.tls_end, got_address)
            } else {
                e_none()
            };
            let ghost y = if f.got_tls_module {
                tls_module_emission(*res, self.output_kind, self.tls_start, g1)
            } else {
                e_none()
            };
            let ghost z = if f.got_tls_descriptor {
                tls_descriptor_emission(*res, self.output_kind, self.tls_start, g2)
            } else {
                e_none()
            };
            let r = if f.got_tls_offset {
                self.process_got_tls_offset(res, got_address)
            } else {
                proof { lemma_skip(s0); }
                Ok(())
            };
            if r.is_err() {
                proof {
                    lemma_seq_err(s0, x, y, *self, r);
                    lemma_seq_err(s0, cat(x, y), z, *self, r);
                }
                return r;
            }
            let ghost s1 = *self;
            let r = if f.got_tls_module {
                self.process_got_tls_mod(res, g1)
            } else {
                proof { lemma_skip(s1); }
                Ok(())
            };
            proof { lemma_seq(s0, x, y, s1, *self, r); }
            if r.is_err() {
                proof { lemma_seq_err(s0, cat(x, y), z, *self, r); }
                return r;
            }
            let ghost s2 = *self;
            let r = if f.got_tls_descriptor {
                self.process_got_tls_descriptor(res, g2)
            } else {
                proof { lemma_skip(s2); }
                Ok(())
            };
            proof { lemma_seq(s0, cat(x, y), z, s2, *self, r); }
            return r;
        }
        let ghost a = got_emission(*res, self.output_kind, got_address);
        let ghost b = plt_emission(*res, got_address);
        let r = self.process_got_entry(res, got_address);
        if r.is_err() {
            proof { lemma_seq_err(s0, a, b, *self, r); }
            return r;
        }
        let ghost s1 = *self;
        let r = match res.plt_address {
            Some(plt_address) => self.write_plt_entry(got_address, plt_address),
            None => {
                proof { lemma_skip(s1); }
                Ok(())
            },
        };
        proof { lemma_seq(s0, a, b, s1, *self, r); }
        r
    }
}

/// The writer that `TableWriter::new` builds.
pub open spec fn fresh_writer(
    w: TableWriter,
    output_kind: OutputKind,
    tls_start: u64,
    tls_end: u64,
    sizes: GroupSizes,
    eh_frame_start_address: u64,
) -> bool {
    &&& w.wf()
    &&& w.output_kind == output_kind
    &&& w.tls_start == tls_start
    &&& w.tls_end == tls_end
    &&& w.eh_frame_start_address == eh_frame_start_address
    &&& w.got.items@.len() == 0 && w.got.capacity == sizes.got / 8
    &&& w.plt_got.items@.len() == 0 && w.plt_got.capacity == sizes.plt_got
    &&& w.rela_plt.items@.len() == 0 && w.rela_plt.capacity == sizes.rela_plt / 24
    &&& w.rela_dyn_relative.items@.len() == 0 && w.rela_dyn_relative.capacity
        == sizes.rela_dyn_relative / 24
    &&& w.rela_dyn_general.items@.len() == 0 && w.rela_dyn_general.capacity
        == sizes.rela_dyn_general / 24
    &&& w.eh_frame.items@.len() == 0 && w.eh_frame.capacity == sizes.eh_frame
    &&& w.eh_frame_hdr.items@.len() == 0 && w.eh_frame_hdr.capacity == sizes.eh_frame_hdr
    &&& w.dynamic.out.items@.len() == 0 && w.dynamic.out.capacity == sizes.dynamic / 16
    &&& w.version_writer.version_d.items@.len() == 0
    &&& w.version_writer.version_d.capacity == sizes.gnu_version_d
    &&& w.version_writer.version_r.items@.len() == 0
    &&& w.version_writer.version_r.capacity == sizes.gnu_version_r
    &&& w.version_writer.versym is Some == (sizes.gnu_version / 2 > 0)
    &&& w.version_writer.versym is Some ==> w.version_writer.versym->Some_0.items@.len() == 0
        && w.version_writer.versym->Some_0.capacity == sizes.gnu_version / 2
}

impl TableWriter {
    /// Cursors over the parts of one group, whose byte sizes are `sizes`.
    pub fn new(
        output_kind: OutputKind,
        tls_start: u64,
        tls_end: u64,
        sizes: &GroupSizes,
        dynsym_writer: SymbolTableWriter,
        debug_symbol_writer: SymbolTableWriter,
        eh_frame_start_address: u64,
    ) -> (r: TableWriter)
        requires
            dynsym_writer.wf(),
            debug_symbol_writer.wf(),
        ensures
            fresh_writer(r, output_kind, tls_start, tls_end, *sizes, eh_frame_start_address),
            r.dynsym_writer == dynsym_writer,
            r.debug_symbol_writer == debug_symbol_writer,
    {
        TableWriter {
            output_kind,
            tls_start,
            tls_end,
            got: Slots::new(sizes.got / 8),
            plt_got: Slots::new(sizes.plt_got),
            rela_plt: Slots::new(sizes.rela_plt / 24),
            rela_dyn_relative: Slots::new(sizes.rela_dyn_relative / 24),
            rela_dyn_general: Slots::new(sizes.rela_dyn_general / 24),
            dynsym_writer,
            debug_symbol_writer,
            eh_frame_start_address,
            eh_frame: Slots::new(sizes.eh_frame),
            eh_frame_hdr: Slots::new(sizes.eh_frame_hdr),
            dynamic: DynamicEntriesWriter::new(sizes.dynamic / 16),
            version_writer: VersionWriter::new(sizes.gnu_version_d, sizes.gnu_version_r, sizes.gnu_version / 2),
        }
    }

    /// The writer for a group whose `.dynstr` and `.strtab` strings start at
    /// the given offsets and whose `.eh_frame` starts at the given address.
    pub fn from_layout(
        output_kind: OutputKind,
        tls_start: u64,
        tls_end: u64,
        dynstr_start_offset: u32,
        strtab_start_offset: u32,
        sizes: &GroupSizes,
        eh_frame_start_address: u64,
    ) -> (r: TableWriter)
        ensures
            fresh_writer(r, output_kind, tls_start, tls_end, *sizes, eh_frame_start_address),
            r.dynsym_writer.is_dynamic,
            r.dynsym_writer.contents() == (Seq::<crate::symtab::SymtabEntry>::empty(), Seq::<crate::symtab::SymtabEntry>::empty(), Seq::<u8>::empty(), dynstr_start_offset),
            r.dynsym_writer.global_entries.capacity == sizes.dynsym / 24,
            r.dynsym_writer.local_entries.capacity == 0,
            r.dynsym_writer.strtab_writer.out.capacity == sizes.dynstr,
            !r.debug_symbol_writer.is_dynamic,
            r.debug_symbol_writer.contents() == (Seq::<crate::symtab::SymtabEntry>::empty(), Seq::<crate::symtab::SymtabEntry>::empty(), Seq::<u8>::empty(), strtab_start_offset),
            r.debug_symbol_writer.local_entries.capacity == sizes.symtab_local / 24,
            r.debug_symbol_writer.global_entries.capacity == sizes.symtab_global / 24,
            r.debug_symbol_writer.strtab_writer.out.capacity == sizes.strtab,
    {
        let dynsym_writer = SymbolTableWriter::new_dynamic(dynstr_start_offset, sizes.dynsym / 24, sizes.dynstr);
        let debug_symbol_writer = SymbolTableWriter::new(
            strtab_start_offset,
            sizes.symtab_local / 24,
            sizes.symtab_global / 24,
            sizes.strtab,
        );
        TableWriter::new(
            output_kind,
            tls_start,
            tls_end,
            sizes,
            dynsym_writer,
            debug_symbol_writer,
            eh_frame_start_address,
        )
    }

    /// Checks that every entry that layout allocated to this group was
    /// written.
    pub fn validate_empty(&self, mem_sizes: &MemSizes) -> (r: Result<(), WriteError>)
        requires
            self.wf(),
        ensures
            r.is_ok() == self.exhausted(),
            r.is_err() ==> r->Err_0 is ExcessiveAllocation,
    {
        if !self.rela_dyn_relative.is_exhausted() {
            return Err(
                WriteError::ExcessiveAllocation {
                    table: Table::RelaDynRelative,
                    remaining: self.rela_dyn_relative.remaining() as u64 * RELA_SIZE,
                    allocated: mem_sizes.rela_dyn_relative,
                },
            );
        }
        if !self.rela_dyn_general.is_exhausted() {
            return Err(
                WriteError::ExcessiveAllocation {
                    table: Table::RelaDynGeneral,
                    remaining: self.rela_dyn_general.remaining() as u64 * RELA_SIZE,
                    allocated: mem_sizes.rela_dyn_general,
                },
            );
        }
        self.dynsym_writer.check_exhausted()?;
        self.debug_symbol_writer.check_exhausted()?;
        self.version_writer.check_exhausted(mem_sizes)?;
        if !self.eh_frame.is_exhausted() {
            return Err(
                WriteError::ExcessiveAllocation {
                    table: Table::EhFrame,
                    remaining: self.eh_frame.remaining() as u64,
                    allocated: mem_sizes.eh_frame,
                },
            );
        }
        if !self.eh_frame_hdr.is_exhausted() {
            return Err(
                WriteError::ExcessiveAllocation {
                    table: Table::EhFrameHdr,
                    remaining: self.eh_frame_hdr.remaining() as u64,
                    allocated: mem_sizes.eh_frame_hdr,
                },
            );
        }
        if !self.got.is_exhausted() {
            return Err(
                WriteError::ExcessiveAllocation {
                    table: Table::Got,
                    remaining: self.got.remaining() as u64 * GOT_ENTRY_SIZE,
                    allocated: mem_sizes.got,
                },
            );
        }
        if !self.plt_got.is_exhausted() {
            return Err(
                WriteError::ExcessiveAllocation {
                    table: Table::PltGot,
                    remaining: self.plt_got.remaining() as u64,
                    allocated: mem_sizes.plt_got,
                },
            );
        }
        if !self.rela_plt.is_exhausted() {
            return Err(
                WriteError::ExcessiveAllocation {
                    table: Table::RelaPlt,
                    remaining: self.rela_plt.remaining() as u64 * RELA_SIZE,
                    allocated: mem_sizes.rela_plt,
                },
            );
        }
        if !self.dynamic.out.is_exhausted() {
            return Err(
                WriteError::ExcessiveAllocation {
                    table: Table::Dynamic,
                    remaining: self.dynamic.out.remaining() as u64 * 16,
                    allocated: mem_sizes.dynamic,
                },
            );
        }
        Ok(())
    }

    /// Copies `data` into the next bytes of `.eh_frame`.
    pub fn take_eh_frame_data(&mut self, data: &[u8]) -> (r: Result<(), WriteError>)
        requires
            old(self).wf(),
        ensures
            r.is_err() ==> final(self).eh_frame.items@ == old(self).eh_frame.items@,
            r.is_err() ==> r == Err::<(), WriteError>(WriteError::InsufficientAllocation { table: Table::EhFrame }),
            final(self).wf(),
            r.is_ok() == (data@.len() <= old(self).eh_frame.room()),
            *final(self) == (TableWriter { eh_frame: final(self).eh_frame, ..*old(self) }),
            r.is_ok() ==> final(self).eh_frame.items@ == old(self).eh_frame.items@ + data@,
            final(self).eh_frame.capacity == old(self).eh_frame.capacity,
    {
        self.eh_frame.take_bytes(data, Table::EhFrame)
    }

    /// Writes the next `.eh_frame_hdr` entry, when there is room for one;
    /// returns whether it did.
    pub fn take_eh_frame_hdr_entry(&mut self, frame_ptr: i32, frame_info_ptr: i32) -> (r: bool)
        requires
            old(self).wf(),
        ensures
            final(self).wf(),
            r == (old(self).eh_frame_hdr.room() >= 8),
            *final(self) == (TableWriter { eh_frame_hdr: final(self).eh_frame_hdr, ..*old(self) }),
            final(self).eh_frame_hdr.capacity == old(self).eh_frame_hdr.capacity,
            final(self).eh_frame_hdr.items@ == if r {
                old(self).eh_frame_hdr.items@ + crate::bytes::le32(frame_ptr as u32)
                    + crate::bytes::le32(frame_info_ptr as u32)
            } else {
                old(self).eh_frame_hdr.items@
            },
    {
        if self.eh_frame_hdr.remaining() < 8 {
            return false;
        }
        let mut entry: Vec<u8> = Vec::new();
        crate::bytes::push_u32(&mut entry, frame_ptr as u32);
        crate::bytes::push_u32(&mut entry, frame_info_ptr as u32);
        let _ = self.eh_frame_hdr.take_bytes(entry.as_slice(), Table::EhFrameHdr);
        assert(entry@ =~= crate::bytes::le32(frame_ptr as u32) + crate::bytes::le32(frame_info_ptr as u32));
        assert(self.eh_frame_hdr.items@ =~= old(self).eh_frame_hdr.items@ + crate::bytes::le32(frame_ptr as u32)
                    + crate::bytes::le32(frame_info_ptr as u32));
        true
    }
}

/// Whether `b` holds at least what `a` asks of the tables, and fails if
/// `a` does.
pub open spec fn e_le(a: Emission, b: Emission) -> bool {
    &&& a.got.len() <= b.got.len()
    &&& a.relative.len() <= b.relative.len()
    &&& a.general.len() <= b.general.len()
    &&& a.plt_rela.len() <= b.plt_rela.len()
    &&& a.stubs.len() <= b.stubs.len()
    &&& (b.ok ==> a.ok)
}

/// Room for `cat(a, b)` is room for `a`.
pub proof fn lemma_fits_cat_first(s: TableWriter, a: Emission, b: Emission)
    requires
        s.fits(cat(a, b)),
    ensures
        s.fits(a),
{
}

/// Room for more is room for less.
pub proof fn lemma_e_le_fits(s: TableWriter, a: Emission, b: Emission)
    requires
        e_le(a, b),
        s.fits(b),
        s.wf(),
    ensures
        s.fits(a),
{
}

/// With only the tables changed, room for `a` then `b` is room for both in
/// turn.
pub proof fn lemma_cat_tables(s: TableWriter, a: Emission, b: Emission, m: TableWriter)
    requires
        s.tables_extended(a, m),
        s.wf(),
        m.got.capacity == s.got.capacity,
        m.plt_got.capacity == s.plt_got.capacity,
        m.rela_plt.capacity == s.rela_plt.capacity,
        m.rela_dyn_relative.capacity == s.rela_dyn_relative.capacity,
        m.rela_dyn_general.capacity == s.rela_dyn_general.capacity,
    ensures
        s.fits(cat(a, b)) == (s.fits(a) && m.fits(b)),
{
}

/// Appending `a` and then `b` to the tables appends `cat(a, b)`.
pub proof fn lemma_tables_cat(s0: TableWriter, a: Emission, s1: TableWriter, b: Emission, s2: TableWriter)
    requires
        s0.tables_extended(a, s1),
        s1.tables_extended(b, s2),
    ensures
        s0.tables_extended(cat(a, b), s2),
{
    assert(s2.got.items@ =~= s0.got.items@ + cat(a, b).got);
    assert(s2.rela_dyn_relative.items@ =~= s0.rela_dyn_relative.items@ + cat(a, b).relative);
    assert(s2.rela_dyn_general.items@ =~= s0.rela_dyn_general.items@ + cat(a, b).general);
    assert(s2.rela_plt.items@ =~= s0.rela_plt.items@ + cat(a, b).plt_rela);
    assert(s2.plt_got.items@ =~= s0.plt_got.items@ + cat(a, b).stubs);
}

/// Handling the same resolution from the same writer twice gives the same
/// tables: the GOT, PLT and relocation entries depend on the writer and the
/// resolution alone.
pub proof fn lemma_process_resolution_deterministic(
    s: TableWriter,
    res: Resolution,
    n1: TableWriter,
    n2: TableWriter,
    r1: Result<(), WriteError>,
    r2: Result<(), WriteError>,
)
    requires
        did(s, s.emission_of(res), n1, r1),
        did(s, s.emission_of(res), n2, r2),
    ensures
        r1.is_ok() == r2.is_ok(),
        r1.is_ok() ==> {
            &&& n1.got.items@ == n2.got.items@
            &&& n1.plt_got.items@ == n2.plt_got.items@
            &&& n1.rela_plt.items@ == n2.rela_plt.items@
            &&& n1.rela_dyn_relative.items@ == n2.rela_dyn_relative.items@
            &&& n1.rela_dyn_general.items@ == n2.rela_dyn_general.items@
        },
{
}

/// Whether the space that `sizes` allocates is exactly what `e` uses, with
/// nothing allocated anywhere else.
pub open spec fn allocation_matches(sizes: GroupSizes, e: Emission) -> bool {
    &&& e.ok
    &&& e.got.len() == sizes.got / 8
    &&& e.plt_rela.len() == sizes.rela_plt / 24
    &&& e.relative.len() == sizes.rela_dyn_relative / 24
    &&& e.general.len() == sizes.rela_dyn_general / 24
    &&& e.stubs.len() == sizes.plt_got
    &&& sizes.dynsym / 24 == 0 && sizes.dynstr == 0
    &&& sizes.symtab_local / 24 == 0 && sizes.symtab_global / 24 == 0 && sizes.strtab == 0
    &&& sizes.eh_frame == 0 && sizes.eh_frame_hdr == 0 && sizes.dynamic / 16 == 0
    &&& sizes.gnu_version / 2 == 0 && sizes.gnu_version_d == 0 && sizes.gnu_version_r == 0
}

/// Checks that the space layout allocates for one resolution is exactly
/// what handling it uses: a writer over just that space handles the
/// resolution and ends with every cursor used up.
pub fn verify_resolution_allocation(
    output_kind: OutputKind,
    sizes: &GroupSizes,
    mem_sizes: &MemSizes,
    resolution: &Resolution,
) -> (r: Result<(), WriteError>)
    ensures
        r.is_ok() == allocation_matches(*sizes, resolution_emission(*resolution, output_kind, 0, 100)),
{
    let mut w = TableWriter::from_layout(output_kind, 0, 100, 0, 0, sizes, 0);
    let ghost w0 = w;
    w.process_resolution(resolution)?;
    let r = w.validate_empty(mem_sizes);
    proof {
        let e = resolution_emission(*resolution, output_kind, 0, 100);
        assert(w0.emission_of(*resolution) == e);
        assert(w.exhausted() == allocation_matches(*sizes, e));
    }
    r
}

} // verus!
