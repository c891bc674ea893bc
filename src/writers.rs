use crate::cursor::Slots;
use crate::dynamic::{DT_RUNPATH, DT_SONAME};
use crate::error::{Table, WriteError};
use crate::files::resolutions_emission;
use crate::model::{rela, OutputKind, Resolution, CURRENT_EXE_TLS_MOD, R_X86_64_DTPMOD64};
use crate::symtab::{SymbolTableWriter, STB_GLOBAL, STT_NOTYPE, STT_TLS};
use crate::table_writer::{cat, did, e_general, e_got, e_none, Emission, TableWriter};
use vstd::prelude::*;

verus! {

/// Handles the resolutions of the linker's own symbols.
pub fn write_internal_symbols_plt_got_entries(
    table_writer: &mut TableWriter,
    resolutions: &Vec<Option<Resolution>>,
) -> (r: Result<(), WriteError>)
    requires
        old(table_writer).wf(),
    ensures
        final(table_writer).output_kind == old(table_writer).output_kind,
        did(
            *old(table_writer),
            resolutions_emission(
                resolutions@,
                old(table_writer).output_kind,
                old(table_writer).tls_start,
                old(table_writer).tls_end,
            ),
            *final(table_writer),
            r,
        ),
{
    let ghost kind = table_writer.output_kind;
    let ghost tls_start = table_writer.tls_start;
    let ghost tls_end = table_writer.tls_end;
    let mut i: usize = 0;
    proof {
        crate::table_writer::lemma_none(*table_writer);
        assert(resolutions@.subrange(0, 0) =~= Seq::<Option<Resolution>>::empty());
    }
    while i < resolutions.len()
        invariant
            i <= resolutions@.len(),
            table_writer.wf(),
            table_writer.output_kind == old(table_writer).output_kind,
            old(table_writer).wf(),
            old(table_writer).others_same(*table_writer),
            table_writer.output_kind == kind,
            table_writer.tls_start == tls_start,
            table_writer.tls_end == tls_end,
            kind == old(table_writer).output_kind,
            tls_start == old(table_writer).tls_start,
            tls_end == old(table_writer).tls_end,
            did(
                *old(table_writer),
                resolutions_emission(resolutions@.subrange(0, i as int), kind, tls_start, tls_end),
                *table_writer,
                Ok(()),
            ),
        decreases resolutions@.len() - i,
    {
        assert(resolutions@.subrange(0, i + 1).drop_last() =~= resolutions@.subrange(0, i as int));
        let ghost s1 = *table_writer;
        let ghost prev = resolutions_emission(resolutions@.subrange(0, i as int), kind, tls_start, tls_end);
        assert(resolutions_emission(resolutions@.subrange(0, i + 1), kind, tls_start, tls_end) == cat(
            prev,
            match resolutions@[i as int] {
                Some(r) => crate::table_writer::resolution_emission(r, kind, tls_start, tls_end),
                None => e_none(),
            },
        ));
        match resolutions[i] {
            Some(res) => {
                let r = table_writer.process_resolution(&res);
                proof {
                    crate::table_writer::lemma_seq(*old(table_writer), prev, s1.emission_of(res), s1, *table_writer, r);
                }
                if r.is_err() {
                    proof {
                        if old(table_writer).fits(resolutions_emission(resolutions@, kind, tls_start, tls_end)) {
                            crate::files::lemma_resolutions_prefix(*old(table_writer), resolutions@, i + 1, kind, tls_start, tls_end);
                        }
                    }
                    return r;
                }
            },
            None => {
                proof {
                    crate::table_writer::lemma_none(s1);
                    crate::table_writer::lemma_cat(*old(table_writer), prev, e_none(), s1);
                }
            },
        }
        i = i + 1;
    }
    assert(resolutions@.subrange(0, i as int) =~= resolutions@);
    Ok(())
}

/// A symbol that the linker itself defines.
pub struct InternalSymbol {
    pub name: Vec<u8>,
    /// Output index of its section; 0 for one in the file header.
    pub shndx: u16,
    pub value: u64,
}

/// The name of the symbol at the end of the TLS segment.
pub open spec fn tls_module_base_name() -> Seq<u8> {
    seq![0x5fu8, 0x54, 0x4c, 0x53, 0x5f, 0x4d, 0x4f, 0x44, 0x55, 0x4c, 0x45, 0x5f, 0x42, 0x41, 0x53, 0x45, 0x5f]
}

/// The file header, program headers, section headers and the linker's own
/// symbols, as the first file of the first group writes them.
pub struct PreludeLayout {
    /// The pair of GOT entries shared by local-dynamic TLS accesses.
    pub tlsld_got_entry: Option<u64>,
    pub internal_resolutions: Vec<Option<Resolution>>,
    pub internal_symbols: Vec<InternalSymbol>,
    /// The dynamic linker's path, terminator included.
    pub dynamic_linker: Option<Vec<u8>>,
    /// The linker identity written to `.comment`.
    pub identity: Vec<u8>,
}

/// The resolution of the first TLSLD GOT entry in an executable: module 1.
pub open spec fn tlsld_module_resolution(g: u64) -> Resolution {
    Resolution {
        raw_value: CURRENT_EXE_TLS_MOD,
        dynamic_symbol_index: None,
        got_address: Some(g),
        plt_address: None,
        resolution_flags: crate::model::ResolutionFlags {
            got: true,
            plt: false,
            export_dynamic: false,
            got_tls_offset: false,
            got_tls_module: false,
            got_tls_descriptor: false,
            copy_relocation: false,
        },
        value_flags: crate::model::ValueFlags {
            absolute: true,
            address: false,
            dynamic: false,
            ifunc: false,
            can_bypass_got: false,
        },
    }
}

/// The resolution of the second TLSLD GOT entry: offset 0.
pub open spec fn tlsld_offset_resolution(g: u64) -> Resolution {
    Resolution {
        raw_value: 0,
        got_address: Some(if g <= u64::MAX - 8 { (g + 8) as u64 } else { u64::MAX }),
        ..tlsld_module_resolution(g)
    }
}

/// What the TLSLD pair of GOT entries appends to the tables.
pub open spec fn tlsld_emission(g: u64, kind: OutputKind, tls_start: u64, tls_end: u64) -> Emission {
    cat(
        if kind.executable() {
            crate::table_writer::resolution_emission(tlsld_module_resolution(g), kind, tls_start, tls_end)
        } else {
            cat(e_got(0), e_general(rela(g, 0, R_X86_64_DTPMOD64, 0)))
        },
        crate::table_writer::resolution_emission(tlsld_offset_resolution(g), kind, tls_start, tls_end),
    )
}

fn got_resolution(g: u64, raw_value: u64) -> (r: Resolution)
    ensures
        r == (Resolution { raw_value, got_address: Some(g), ..tlsld_module_resolution(g) }),
{
    Resolution {
        raw_value,
        dynamic_symbol_index: None,
        got_address: Some(g),
        plt_address: None,
        resolution_flags: crate::model::ResolutionFlags {
            got: true,
            plt: false,
            export_dynamic: false,
            got_tls_offset: false,
            got_tls_module: false,
            got_tls_descriptor: false,
            copy_relocation: false,
        },
        value_flags: crate::model::ValueFlags {
            absolute: true,
            address: false,
            dynamic: false,
            ifunc: false,
            can_bypass_got: false,
        },
    }
}

proof fn lemma_flatten_prefix(s: Seq<Seq<u8>>, k: int)
requires
    0 <= k <= s.len(),
ensures
    s.subrange(0, k).flatten().len() <= s.flatten().len(),
decreases s.len() - k,
{
if k < s.len() {
    lemma_flatten_prefix(s, k + 1);
    assert(s.subrange(0, k + 1) =~= s.subrange(0, k).push(s[k]));
    s.subrange(0, k).lemma_flatten_push(s[k]);
} else {
    assert(s.subrange(0, k) =~= s);
}
}

impl PreludeLayout {
    /// Writes the TLSLD pair of GOT entries (module id and offset 0, or a
    /// DTPMOD relocation and 0 outside executables), then the GOT and PLT
    /// entries of the linker's own symbols.
    pub fn write_plt_got_entries(&self, table_writer: &mut TableWriter) -> (r: Result<(), WriteError>)
        requires
            old(table_writer).wf(),
        ensures
            final(table_writer).output_kind == old(table_writer).output_kind,
            ({
                let t = *old(table_writer);
                let k = t.output_kind;
                let e = cat(
                    match self.tlsld_got_entry {
                        Some(g) => tlsld_emission(g, k, t.tls_start, t.tls_end),
                        None => e_none(),
                    },
                    resolutions_emission(self.internal_resolutions@, k, t.tls_start, t.tls_end),
                );
                did(t, e, *final(table_writer), r)
            }),
    {
        let ghost s0 = *table_writer;
        let ghost k = table_writer.output_kind;
        let ghost b = resolutions_emission(self.internal_resolutions@, k, s0.tls_start, s0.tls_end);
        let ghost a = match self.tlsld_got_entry {
            Some(g) => tlsld_emission(g, k, s0.tls_start, s0.tls_end),
            None => e_none(),
        };
        if let Some(g) = self.tlsld_got_entry {
            let first = got_resolution(g, CURRENT_EXE_TLS_MOD);
            let second_got = if g <= u64::MAX - 8 {
                g + 8
            } else {
                u64::MAX
            };
            let second = got_resolution(second_got, 0);
            assert(second == tlsld_offset_resolution(g));
            let ghost y = s0.emission_of(second);
            let ghost x = if k.executable() {
                crate::table_writer::resolution_emission(tlsld_module_resolution(g), k, s0.tls_start, s0.tls_end)
            } else {
                cat(e_got(0), e_general(rela(g, 0, R_X86_64_DTPMOD64, 0)))
            };
            let r = if table_writer.output_kind.is_executable() {
                table_writer.process_resolution(&first)
            } else {
                let r = table_writer.take_next_got_entry(0);
                if r.is_err() {
                    proof {
                        crate::table_writer::lemma_seq_err(s0, e_got(0), e_general(rela(g, 0, R_X86_64_DTPMOD64, 0)), *table_writer, r);
                    }
                    r
                } else {
                    let ghost m = *table_writer;
                    let r = table_writer.write_rela_dyn_general(g, 0, R_X86_64_DTPMOD64, 0);
                    proof {
                        crate::table_writer::lemma_seq(s0, e_got(0), e_general(rela(g, 0, R_X86_64_DTPMOD64, 0)), m, *table_writer, r);
                    }
                    r
                }
            };
            if r.is_err() {
                proof {
                    crate::table_writer::lemma_seq_err(s0, x, y, *table_writer, r);
                    crate::table_writer::lemma_seq_err(s0, cat(x, y), b, *table_writer, r);
                }
                return r;
            }
            let ghost s1 = *table_writer;
            let r = table_writer.process_resolution(&second);
            proof {
                crate::table_writer::lemma_seq(s0, x, y, s1, *table_writer, r);
            }
            if r.is_err() {
                proof {
                    crate::table_writer::lemma_seq_err(s0, cat(x, y), b, *table_writer, r);
                }
                return r;
            }
        } else {
            proof {
                crate::table_writer::lemma_none(s0);
            }
        }
        let ghost s2 = *table_writer;
        let r = write_internal_symbols_plt_got_entries(table_writer, &self.internal_resolutions);
        proof {
            crate::table_writer::lemma_seq(s0, a, b, s2, *table_writer, r);
        }
        r
    }

    /// Writes `.interp`, when there is a dynamic linker.
    pub fn write_interp(&self, interp: &mut Slots<u8>) -> (r: Result<(), WriteError>)
        requires
            old(interp).wf(),
        ensures
            final(interp).wf(),
            self.dynamic_linker is None ==> r.is_ok() && final(interp).items@ == old(interp).items@,
            self.dynamic_linker is Some ==> r.is_ok() == (self.dynamic_linker->Some_0@.len()
                <= old(interp).room()),
            self.dynamic_linker is Some && r.is_ok() ==> final(interp).items@ == old(interp).items@
                + self.dynamic_linker->Some_0@,
    {
        match &self.dynamic_linker {
            Some(path) => interp.take_bytes(path.as_slice(), Table::Section),
            None => Ok(()),
        }
    }

    /// Writes the strings of each merged-string bucket, in order, and the
    /// linker identity into `.comment`.
    pub fn write_merged_strings(
        &self,
        strings: &Vec<Vec<u8>>,
        merged: &mut Slots<u8>,
        comment: &mut Slots<u8>,
    ) -> (r: Result<(), WriteError>)
        requires
            old(merged).wf(),
            old(comment).wf(),
        ensures
            final(merged).wf(),
            final(comment).wf(),
            r.is_ok() == (strings@.map_values(|s: Vec<u8>| s@).flatten().len() <= old(merged).room()
                && self.identity@.len() <= old(comment).room()),
            r.is_ok() ==> final(merged).items@ == old(merged).items@ + strings@.map_values(
                |s: Vec<u8>| s@,
            ).flatten(),
            r.is_ok() ==> final(comment).items@ == old(comment).items@ + self.identity@,
    {
        let mut i: usize = 0;
        assert(strings@.subrange(0, 0).map_values(|s: Vec<u8>| s@).flatten() =~= Seq::<u8>::empty());
        while i < strings.len()
            invariant
                i <= strings@.len(),
                merged.wf(),
                merged.capacity == old(merged).capacity,
                *comment == *old(comment),
                comment.wf(),
                merged.items@ == old(merged).items@ + strings@.subrange(0, i as int).map_values(
                    |s: Vec<u8>| s@,
                ).flatten(),
            decreases strings@.len() - i,
        {
            let r = merged.take_bytes(strings[i].as_slice(), Table::Section);
            if r.is_err() {
                proof {
                    let q = strings@.subrange(0, i + 1).map_values(|s: Vec<u8>| s@);
                    let p = strings@.subrange(0, i as int).map_values(|s: Vec<u8>| s@);
                    p.lemma_flatten_push(strings@[i as int]@);
                    assert(q =~= p.push(strings@[i as int]@));
                    lemma_flatten_prefix(strings@.map_values(|s: Vec<u8>| s@), i + 1);
                    assert(strings@.map_values(|s: Vec<u8>| s@).subrange(0, i + 1) =~= q);
                }
                return r;
            }
            proof {
                let p = strings@.subrange(0, i as int).map_values(|s: Vec<u8>| s@);
                let q = strings@.subrange(0, i + 1).map_values(|s: Vec<u8>| s@);
                assert(q =~= p.push(strings@[i as int]@));
                p.lemma_flatten_push(strings@[i as int]@);
            }
            i = i + 1;
        }
        assert(strings@.subrange(0, i as int) =~= strings@);
        comment.take_bytes(self.identity.as_slice(), Table::Section)
    }

    /// Writes the null symbol 0 and the linker's own symbols to `.symtab`.
    pub fn write_symbol_table_entries(&self, symbol_writer: &mut SymbolTableWriter) -> (r: Result<(), WriteError>)
        requires
            old(symbol_writer).wf(),
        ensures
            final(symbol_writer).wf(),
            final(symbol_writer).same_shape(*old(symbol_writer)),
            ({
                let w = *old(symbol_writer);
                let c1 = crate::symtab::contents_with_symbol(
                    w.contents(),
                    true,
                    crate::symtab::symbol_entry(w.strtab_writer.next_offset, 0, 0, 0, 0, 0),
                    Seq::empty(),
                );
                let f = internal_written(w, c1, self.internal_symbols@);
                &&& r.is_ok() == (crate::symtab::symbol_fits(w, true, 0) && f is Some)
                &&& r.is_ok() ==> final(symbol_writer).contents() == f->Some_0
            }),
    {
        let empty: Vec<u8> = Vec::new();
        let ghost w = *symbol_writer;
        symbol_writer.define_symbol(true, 0, 0, 0, empty.as_slice(), 0, 0)?;
        assert(symbol_writer.contents() == crate::symtab::contents_with_symbol(
            w.contents(),
            true,
            crate::symtab::symbol_entry(w.strtab_writer.next_offset, 0, 0, 0, 0, 0),
            Seq::empty(),
        )) by {
            assert(empty@ =~= Seq::<u8>::empty());
        }
        let ghost w1 = *symbol_writer;
        let r = write_internal_symbols(&self.internal_symbols, symbol_writer);
        proof {
            lemma_internal_same_shape(w, w1, w1.contents(), self.internal_symbols@);
        }
        r
    }
}

fn is_tls_module_base(name: &[u8]) -> (r: bool)
    ensures
        r == (name@ == tls_module_base_name()),
{
    let base: Vec<u8> = vec![0x5fu8, 0x54, 0x4c, 0x53, 0x5f, 0x4d, 0x4f, 0x44, 0x55, 0x4c, 0x45, 0x5f, 0x42, 0x41, 0x53, 0x45, 0x5f];
    assert(base@ =~= tls_module_base_name());
    crate::files::bytes_eq(name, base.as_slice())
}

/// The binding and type of an internal symbol: global, thread-local for
/// `_TLS_MODULE_BASE_`.
pub open spec fn internal_info(name: Seq<u8>) -> u8 {
    if name == tls_module_base_name() {
        (STB_GLOBAL * 16 + STT_TLS) as u8
    } else {
        (STB_GLOBAL * 16 + STT_NOTYPE) as u8
    }
}

/// The symbol table after writing the linker's own symbols into a writer
/// shaped like `w` and holding `c`; `None` when one does not fit.
pub open spec fn internal_written(
    w: SymbolTableWriter,
    c: crate::symtab::SymtabContents,
    syms: Seq<InternalSymbol>,
) -> Option<crate::symtab::SymtabContents>
    decreases syms.len(),
{
    if syms.len() == 0 {
        Some(c)
    } else {
        match internal_written(w, c, syms.drop_last()) {
            None => None,
            Some(prev) => {
                let s = syms.last();
                if crate::symtab::contents_fit(w, prev, false, s.name@.len()) {
                    Some(
                        crate::symtab::contents_with_symbol(
                            prev,
                            false,
                            crate::symtab::symbol_entry(
                                prev.3,
                                internal_info(s.name@),
                                0,
                                if s.shndx == 0 {
                                    1
                                } else {
                                    s.shndx
                                },
                                s.value,
                                0,
                            ),
                            s.name@,
                        ),
                    )
                } else {
                    None
                }
            },
        }
    }
}

/// Writers of the same shape fill alike.
proof fn lemma_internal_same_shape(
    w: SymbolTableWriter,
    v: SymbolTableWriter,
    c: crate::symtab::SymtabContents,
    syms: Seq<InternalSymbol>,
)
    requires
        v.same_shape(w),
    ensures
        internal_written(w, c, syms) == internal_written(v, c, syms),
    decreases syms.len(),
{
    if syms.len() > 0 {
        lemma_internal_same_shape(w, v, c, syms.drop_last());
    }
}

proof fn lemma_internal_none(w: SymbolTableWriter, c: crate::symtab::SymtabContents, syms: Seq<InternalSymbol>, k: int)
    requires
        0 <= k <= syms.len(),
        internal_written(w, c, syms.subrange(0, k)) is None,
    ensures
        internal_written(w, c, syms) is None,
    decreases syms.len() - k,
{
    if k < syms.len() {
        assert(syms.subrange(0, k + 1).drop_last() =~= syms.subrange(0, k));
        lemma_internal_none(w, c, syms, k + 1);
    } else {
        assert(syms.subrange(0, k) =~= syms);
    }
}

/// Writes the linker's own symbols as global symbols; one in the file
/// header moves to section 1, and `_TLS_MODULE_BASE_` is thread-local.
pub fn write_internal_symbols(symbols: &Vec<InternalSymbol>, symbol_writer: &mut SymbolTableWriter) -> (r: Result<(), WriteError>)
    requires
        old(symbol_writer).wf(),
    ensures
        final(symbol_writer).wf(),
        final(symbol_writer).same_shape(*old(symbol_writer)),
        ({
            let f = internal_written(*old(symbol_writer), old(symbol_writer).contents(), symbols@);
            &&& r.is_ok() == f is Some
            &&& r.is_ok() ==> final(symbol_writer).contents() == f->Some_0
        }),
{
    let mut i: usize = 0;
    while i < symbols.len()
        invariant
            i <= symbols@.len(),
            symbol_writer.wf(),
            symbol_writer.same_shape(*old(symbol_writer)),
            internal_written(*old(symbol_writer), old(symbol_writer).contents(), symbols@.subrange(0, i as int))
                == Some(symbol_writer.contents()),
        decreases symbols@.len() - i,
    {
        assert(symbols@.subrange(0, i + 1).drop_last() =~= symbols@.subrange(0, i as int));
        let s = &symbols[i];
        let shndx = if s.shndx == 0 {
            1
        } else {
            s.shndx
        };
        let st_type = if is_tls_module_base(s.name.as_slice()) {
            STT_TLS
        } else {
            STT_NOTYPE
        };
        let info = STB_GLOBAL * 16 + st_type;
        let r = symbol_writer.define_symbol(false, shndx, s.value, 0, s.name.as_slice(), info, 0);
        if r.is_err() {
            proof {
                lemma_internal_none(*old(symbol_writer), old(symbol_writer).contents(), symbols@, i + 1);
            }
            return r;
        }
        i = i + 1;
    }
    assert(symbols@.subrange(0, i as int) =~= symbols@);
    Ok(())
}

/// The `.dynstr` bytes that `strings` take, terminators included.
pub open spec fn strings_size(strings: Seq<Vec<u8>>) -> int
    decreases strings.len(),
{
    if strings.len() == 0 {
        0
    } else {
        strings_size(strings.drop_last()) + strings.last()@.len() + 1
    }
}

proof fn lemma_strings_size_prefix(s: Seq<Vec<u8>>, k: int)
    requires
        0 <= k <= s.len(),
    ensures
        0 <= strings_size(s.subrange(0, k)) <= strings_size(s),
    decreases s.len() - k,
{
    lemma_strings_size_nonneg(s.subrange(0, k));
    if k < s.len() {
        lemma_strings_size_prefix(s, k + 1);
        assert(s.subrange(0, k + 1).drop_last() =~= s.subrange(0, k));
    } else {
        assert(s.subrange(0, k) =~= s);
        lemma_strings_size_nonneg(s);
    }
}

proof fn lemma_strings_size_nonneg(s: Seq<Vec<u8>>)
    ensures
        strings_size(s) >= 0,
    decreases s.len(),
{
    if s.len() > 0 {
        lemma_strings_size_nonneg(s.drop_last());
    }
}

/// A `DT_RUNPATH` entry for each run path, whose strings start at `start`.
pub open spec fn runpath_entries(start: u32, rpaths: Seq<Vec<u8>>) -> Seq<crate::dynamic::DynamicEntry>
    decreases rpaths.len(),
{
    if rpaths.len() == 0 {
        seq![]
    } else {
        runpath_entries(start, rpaths.drop_last()).push(
            crate::dynamic::DynamicEntry {
                d_tag: DT_RUNPATH as u64,
                d_val: (start + strings_size(rpaths.drop_last())) as u32 as u64,
            },
        )
    }
}

/// Writes `DT_RUNPATH` for each run path and `DT_SONAME`, their strings to
/// `.dynstr`, and returns the offset of the soname string.
pub fn write_rpath_and_soname_entries(
    table_writer: &mut TableWriter,
    rpaths: &Vec<Vec<u8>>,
    soname: &Option<Vec<u8>>,
) -> (r: Result<Option<u32>, WriteError>)
    requires
        old(table_writer).wf(),
    ensures
        final(table_writer).wf(),
        final(table_writer).output_kind == old(table_writer).output_kind,
        old(table_writer).tables_unchanged(*final(table_writer)),
        final(table_writer).tls_start == old(table_writer).tls_start,
        final(table_writer).tls_end == old(table_writer).tls_end,
        ({
            let w = old(table_writer);
            let total = strings_size(rpaths@) + match soname {
                Some(s) => s@.len() + 1,
                None => 0,
            };
            let count = rpaths@.len() + if soname is Some { 1int } else { 0 };
            r.is_ok() == (total <= w.dynsym_writer.strtab_writer.out.room() && w.dynsym_writer.strtab_writer.next_offset
                + total <= u32::MAX && count <= w.dynamic.out.room())
        }),
        r.is_ok() ==> ({
            let start = old(table_writer).dynsym_writer.strtab_writer.next_offset;
            let soname_offset = (start + strings_size(rpaths@)) as u32;
            &&& final(table_writer).dynamic.out.items@ == old(table_writer).dynamic.out.items@
                + runpath_entries(start, rpaths@) + match soname {
                Some(_) => seq![
                    crate::dynamic::DynamicEntry { d_tag: DT_SONAME as u64, d_val: soname_offset as u64 },
                ],
                None => Seq::<crate::dynamic::DynamicEntry>::empty(),
            }
            &&& r->Ok_0 == if soname is Some { Some(soname_offset) } else { None::<u32> }
        }),
{
    let mut i: usize = 0;
    while i < rpaths.len()
        invariant
            i <= rpaths@.len(),
            table_writer.wf(),
            table_writer.output_kind == old(table_writer).output_kind,
            table_writer.dynamic.out.items@ == old(table_writer).dynamic.out.items@ + runpath_entries(
                old(table_writer).dynsym_writer.strtab_writer.next_offset,
                rpaths@.subrange(0, i as int),
            ),
            table_writer.dynsym_writer.strtab_writer.next_offset == old(
                table_writer,
            ).dynsym_writer.strtab_writer.next_offset + strings_size(rpaths@.subrange(0, i as int)),
            old(table_writer).tables_unchanged(*table_writer),
            table_writer.tls_start == old(table_writer).tls_start,
            table_writer.tls_end == old(table_writer).tls_end,
            table_writer.dynsym_writer.strtab_writer.out.items@.len() == old(table_writer).dynsym_writer.strtab_writer.out.items@.len()
                + strings_size(rpaths@.subrange(0, i as int)),
            table_writer.dynsym_writer.strtab_writer.out.capacity == old(table_writer).dynsym_writer.strtab_writer.out.capacity,
            table_writer.dynamic.out.capacity == old(table_writer).dynamic.out.capacity,
            table_writer.dynamic.out.items@.len() == old(table_writer).dynamic.out.items@.len() + i,
            strings_size(rpaths@.subrange(0, i as int)) >= 0,
        decreases rpaths@.len() - i,
    {
        assert(rpaths@.subrange(0, i + 1).drop_last() =~= rpaths@.subrange(0, i as int));
        let r = table_writer.dynsym_writer.strtab_writer.write_str(rpaths[i].as_slice());
        let offset = match r {
            Ok(o) => o,
            Err(e) => {
                proof { lemma_strings_size_prefix(rpaths@, i + 1); }
                return Err(e);
            },
        };
        let r = table_writer.dynamic.write(DT_RUNPATH, offset as u64);
        if r.is_err() {
            proof { lemma_strings_size_prefix(rpaths@, i + 1); }
            return Err(WriteError::InsufficientAllocation { table: crate::error::Table::Dynamic });
        }
        i = i + 1;
    }
    assert(rpaths@.subrange(0, i as int) =~= rpaths@);
    match soname {
        Some(name) => {
            proof { lemma_strings_size_nonneg(rpaths@); }
            let offset = table_writer.dynsym_writer.strtab_writer.write_str(name.as_slice())?;
            table_writer.dynamic.write(DT_SONAME, offset as u64)?;
            Ok(Some(offset))
        },
        None => {
            assert(table_writer.dynamic.out.items@ =~= table_writer.dynamic.out.items@ + Seq::<
                crate::dynamic::DynamicEntry,
            >::empty());
            Ok(None)
        },
    }
}

} // verus!
