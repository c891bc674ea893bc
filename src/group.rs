use crate::cursor::Slots;
use crate::dynamic::{epilogue_dynamic_entry_writers, write_dynamic_entries, DynamicEntryInputs};
use crate::error::{Table, WriteError};
use crate::files::ObjectLayout;
use crate::gnu_hash::{write_gnu_hash_tables, GnuHashLayout};
use crate::notes::{write_gnu_property_notes, GnuProperty};
use crate::reloc::RelocationContext;
use crate::symtab::{InputSymbol, OutputSections};
use crate::table_writer::{GroupSizes, TableWriter};
use crate::version::MemSizes;
use crate::version_tables::{write_symbol_version, write_verdef, DynamicLayout, VersionDef, VER_NDX_GLOBAL};
use crate::writers::{
    write_internal_symbols, write_internal_symbols_plt_got_entries, write_rpath_and_soname_entries,
    InternalSymbol, PreludeLayout,
};
use crate::model::Resolution;
use crate::table_writer::e_none;
use crate::headers::{
    populate_file_header, push_program_header, push_section_header, write_program_headers,
    write_section_header_strings, write_section_headers, HeaderInfo, OutputSectionInfo,
    ProgramHeaderWriter, SegmentLayout,
};
use vstd::prelude::*;

verus! {

/// A value shown in hexadecimal in diagnostics.
#[derive(Clone, Copy, Debug, PartialEq, Eq, Structural)]
pub struct HexU64 {
    pub value: u64,
}

impl HexU64 {
    pub fn new(value: u64) -> (r: HexU64)
        ensures
            r.value == value,
    {
        HexU64 { value }
    }
}

/// What a diagnostic about a relocation names: its type and symbol.
#[derive(Clone, Copy, Debug, PartialEq, Eq, Structural)]
pub struct DisplayRelocation {
    pub r_type: u32,
    pub symbol: usize,
}

impl ObjectLayout {
    /// What a diagnostic about relocation `rel` names.
    pub fn display_relocation(&self, rel: &crate::files::InputRelocation) -> (r: DisplayRelocation)
        ensures
            r == (DisplayRelocation { r_type: rel.rel.r_type, symbol: rel.symbol }),
    {
        DisplayRelocation { r_type: rel.rel.r_type, symbol: rel.symbol }
    }
}

/// A symbol that the output defines in `.dynsym`, in `.gnu.hash` order.
pub struct DynamicSymbolDefinition {
    pub sym: InputSymbol,
    pub name: Vec<u8>,
    pub shndx: u16,
    pub value: u64,
    pub hash: u32,
    pub version: u16,
}

/// The definition a copy-relocated symbol of a shared object gets in
/// `.dynsym`: in `.bss`, at the address of its copy.
pub open spec fn copy_definition_of(
    sym: InputSymbol,
    res: Option<Resolution>,
    output_sections: OutputSections,
    bss_section: usize,
) -> Option<(u16, u64)> {
    let idx = if bss_section < output_sections.output_index@.len() {
        output_sections.output_index@[bss_section as int]
    } else {
        None
    };
    match res {
        Some(r) => if r.resolution_flags.copy_relocation && idx is Some {
            Some((idx->Some_0, r.raw_value))
        } else {
            None
        },
        None => None,
    }
}

/// Builds the `.dynsym` definition of a symbol that a shared object
/// defines and the output copies into `.bss`. Fails for a symbol without a
/// resolution or without a copy relocation, or when `.bss` is not output.
pub fn write_copy_relocation_dynamic_symbol_definition(
    sym: InputSymbol,
    name: Vec<u8>,
    hash: u32,
    version: u16,
    res: &Option<Resolution>,
    output_sections: &OutputSections,
    bss_section: usize,
) -> (r: Result<DynamicSymbolDefinition, WriteError>)
    ensures
        ({
            let d = copy_definition_of(sym, *res, *output_sections, bss_section);
            &&& r.is_ok() == d is Some
            &&& r.is_ok() ==> r->Ok_0.sym == sym && r->Ok_0.name@ == name@ && r->Ok_0.hash == hash
                && r->Ok_0.version == version && (r->Ok_0.shndx, r->Ok_0.value) == d->Some_0
        }),
{
    let res = match res {
        Some(r) => r,
        None => {
            return Err(WriteError::ExpectedAddress);
        },
    };
    if !res.resolution_flags.copy_relocation {
        return Err(WriteError::UnsupportedRelocation);
    }
    if bss_section >= output_sections.output_index.len() {
        return Err(WriteError::SectionNotOutput);
    }
    let shndx = match output_sections.output_index[bss_section] {
        Some(i) => i,
        None => {
            return Err(WriteError::SectionNotOutput);
        },
    };
    Ok(DynamicSymbolDefinition { sym, name, shndx, value: res.raw_value, hash, version })
}

/// Where a symbol of a regular object is defined: undefined, or in a loaded
/// section that is output.
#[derive(Clone, Copy, Debug, PartialEq, Eq, Structural)]
pub enum DefinedIn {
    Undefined,
    /// A loaded section of this output section id.
    Section(usize),
    /// A section that is not loaded.
    NotLoaded,
}

/// The section index and value a regular object's symbol gets in
/// `.dynsym`: nothing for an undefined one; else its section's output index
/// and its resolution's value, made relative to the TLS segment for a
/// thread-local symbol.
pub open spec fn regular_definition_of(
    sym: InputSymbol,
    defined_in: DefinedIn,
    res: Option<Resolution>,
    output_sections: OutputSections,
    tls_start: Option<u64>,
) -> Option<(u16, u64)> {
    match defined_in {
        DefinedIn::Undefined => Some((0u16, 0u64)),
        DefinedIn::NotLoaded => None,
        DefinedIn::Section(id) => {
            let idx = if id < output_sections.output_index@.len() {
                output_sections.output_index@[id as int]
            } else {
                None
            };
            let tls = sym.st_info % 16 == crate::symtab::STT_TLS;
            if res is None || idx is None || (tls && tls_start is None) {
                None
            } else {
                let v = res->Some_0.raw_value;
                Some((idx->Some_0, if tls { vstd::wrapping::u64_specs::wrapping_sub(v, tls_start->Some_0) } else { v }))
            }
        },
    }
}

/// Builds the `.dynsym` definition of a symbol that a regular object
/// defines (or leaves undefined).
pub fn write_regular_object_dynamic_symbol_definition(
    sym: InputSymbol,
    name: Vec<u8>,
    hash: u32,
    version: u16,
    defined_in: DefinedIn,
    res: &Option<Resolution>,
    output_sections: &OutputSections,
    tls_start: Option<u64>,
) -> (r: Result<DynamicSymbolDefinition, WriteError>)
    ensures
        ({
            let d = regular_definition_of(sym, defined_in, *res, *output_sections, tls_start);
            &&& r.is_ok() == d is Some
            &&& r.is_ok() ==> r->Ok_0.sym == sym && r->Ok_0.name@ == name@ && r->Ok_0.hash == hash
                && r->Ok_0.version == version && (r->Ok_0.shndx, r->Ok_0.value) == d->Some_0
        }),
{
    let id = match defined_in {
        DefinedIn::Undefined => {
            return Ok(DynamicSymbolDefinition { sym, name, shndx: 0, value: 0, hash, version });
        },
        DefinedIn::NotLoaded => {
            return Err(WriteError::SectionNotOutput);
        },
        DefinedIn::Section(id) => id,
    };
    let res = match res {
        Some(r) => r,
        None => {
            return Err(WriteError::ExpectedAddress);
        },
    };
    if id >= output_sections.output_index.len() {
        return Err(WriteError::SectionNotOutput);
    }
    let shndx = match output_sections.output_index[id] {
        Some(i) => i,
        None => {
            return Err(WriteError::SectionNotOutput);
        },
    };
    let mut value = res.raw_value;
    if sym.st_info % 16 == crate::symtab::STT_TLS {
        match tls_start {
            Some(t) => {
                value = value.wrapping_sub(t);
            },
            None => {
                return Err(WriteError::TlsOutOfRange { address: value });
            },
        }
    }
    Ok(DynamicSymbolDefinition { sym, name, shndx, value, hash, version })
}

/// The hashes of the dynamic-symbol definitions, in order.
pub open spec fn definition_hashes(defs: Seq<DynamicSymbolDefinition>) -> Seq<u32> {
    defs.map_values(|d: DynamicSymbolDefinition| d.hash)
}

/// What the last file of the last group writes: the linker's own symbols,
/// `.dynamic`, `.gnu.hash`, the dynamic-symbol definitions, GNU property
/// notes and the version definitions.
pub struct EpilogueLayout {
    pub internal_resolutions: Vec<Option<Resolution>>,
    pub internal_symbols: Vec<InternalSymbol>,
    pub gnu_hash_layout: Option<GnuHashLayout>,
    pub dynamic_symbol_definitions: Vec<DynamicSymbolDefinition>,
    pub gnu_property_notes: Vec<GnuProperty>,
    pub verdefs: Option<Vec<VersionDef>>,
    pub rpaths: Vec<Vec<u8>>,
    pub soname: Option<Vec<u8>>,
    pub dynamic_inputs: DynamicEntryInputs,
}

/// The binding and type of a dynamic symbol: global, with the input type.
pub open spec fn dynamic_info(sym: InputSymbol) -> u8 {
    if sym.local() {
        (crate::symtab::STB_GLOBAL * 16 + sym.st_info % 16) as u8
    } else {
        sym.st_info
    }
}

/// `.dynsym` after writing `defs` in order into a writer shaped like `w`
/// and holding `c`; `None` when one does not fit.
pub open spec fn definitions_written(
    w: crate::symtab::SymbolTableWriter,
    c: crate::symtab::SymtabContents,
    defs: Seq<DynamicSymbolDefinition>,
) -> Option<crate::symtab::SymtabContents>
    decreases defs.len(),
{
    if defs.len() == 0 {
        Some(c)
    } else {
        match definitions_written(w, c, defs.drop_last()) {
            None => None,
            Some(prev) => {
                let d = defs.last();
                if crate::symtab::contents_fit(w, prev, false, d.name@.len()) {
                    Some(
                        crate::symtab::contents_with_symbol(
                            prev,
                            false,
                            crate::symtab::symbol_entry(
                                prev.3,
                                dynamic_info(d.sym),
                                d.sym.st_other,
                                d.shndx,
                                d.value,
                                d.sym.st_size,
                            ),
                            d.name@,
                        ),
                    )
                } else {
                    None
                }
            },
        }
    }
}

proof fn lemma_definitions_none(
    w: crate::symtab::SymbolTableWriter,
    c: crate::symtab::SymtabContents,
    defs: Seq<DynamicSymbolDefinition>,
    k: int,
)
    requires
        0 <= k <= defs.len(),
        definitions_written(w, c, defs.subrange(0, k)) is None,
    ensures
        definitions_written(w, c, defs) is None,
    decreases defs.len() - k,
{
    if k < defs.len() {
        assert(defs.subrange(0, k + 1).drop_last() =~= defs.subrange(0, k));
        lemma_definitions_none(w, c, defs, k + 1);
    } else {
        assert(defs.subrange(0, k) =~= defs);
    }
}

/// Writes each dynamic-symbol definition to `.dynsym` with its version.
pub fn write_dynamic_symbol_definitions(
    defs: &Vec<DynamicSymbolDefinition>,
    table_writer: &mut TableWriter,
) -> (r: Result<(), WriteError>)
    requires
        old(table_writer).wf(),
    ensures
        final(table_writer).wf(),
        final(table_writer).output_kind == old(table_writer).output_kind,
        old(table_writer).tables_unchanged(*final(table_writer)),
        final(table_writer).dynamic == old(table_writer).dynamic,
        final(table_writer).tls_start == old(table_writer).tls_start,
        final(table_writer).tls_end == old(table_writer).tls_end,
        ({
            let f = definitions_written(old(table_writer).dynsym_writer, old(table_writer).dynsym_writer.contents(), defs@);
            let v = old(table_writer).version_writer.versym;
            &&& r.is_ok() == (f is Some && (v is Some ==> defs@.len() <= v->Some_0.room()))
            &&& r.is_ok() ==> final(table_writer).dynsym_writer.contents() == f->Some_0
        }),
        r.is_ok() && old(table_writer).version_writer.versym is Some ==> final(table_writer).version_writer.versym->Some_0.items@ == old(table_writer).version_writer.versym->Some_0.items@
            + defs@.map_values(|d: DynamicSymbolDefinition| d.version),
{
    let mut i: usize = 0;
    while i < defs.len()
        invariant
            i <= defs@.len(),
            table_writer.wf(),
            table_writer.output_kind == old(table_writer).output_kind,
            definitions_written(
                old(table_writer).dynsym_writer,
                old(table_writer).dynsym_writer.contents(),
                defs@.subrange(0, i as int),
            ) == Some(table_writer.dynsym_writer.contents()),
            table_writer.dynsym_writer.same_shape(old(table_writer).dynsym_writer),
            table_writer.version_writer.versym is Some ==> table_writer.version_writer.versym->Some_0.capacity
                == old(table_writer).version_writer.versym->Some_0.capacity,
            table_writer.version_writer.versym is Some == old(table_writer).version_writer.versym is Some,
            old(table_writer).version_writer.versym is Some ==> table_writer.version_writer.versym->Some_0.items@
                == old(table_writer).version_writer.versym->Some_0.items@ + defs@.subrange(0, i as int).map_values(
                |d: DynamicSymbolDefinition| d.version,
            ),
            old(table_writer).tables_unchanged(*table_writer),
            table_writer.dynamic == old(table_writer).dynamic,
            table_writer.tls_start == old(table_writer).tls_start,
            table_writer.tls_end == old(table_writer).tls_end,
            table_writer.dynsym_writer.local_entries.capacity == old(table_writer).dynsym_writer.local_entries.capacity,
            old(table_writer).dynsym_writer.local_entries.capacity == 0 ==> table_writer.dynsym_writer.local_entries.capacity == 0,
        decreases defs@.len() - i,
    {
        let d = &defs[i];
        assert(defs@.subrange(0, i + 1).drop_last() =~= defs@.subrange(0, i as int));
        let mut sym = d.sym;
        // Dynamic symbols are all in the global part of `.dynsym`.
        if sym.is_local() {
            sym.st_info = crate::symtab::STB_GLOBAL * 16 + sym.st_info % 16;
        }
        assert(!sym.local());
        let r = table_writer.dynsym_writer.copy_symbol_shndx(&sym, d.name.as_slice(), d.shndx, d.value);
        if r.is_err() {
            proof {
                lemma_definitions_none(
                    old(table_writer).dynsym_writer,
                    old(table_writer).dynsym_writer.contents(),
                    defs@,
                    i + 1,
                );
            }
            return r;
        }
        let r = table_writer.version_writer.set_next_symbol_version(d.version);
        if r.is_err() {
            return r;
        }
        i = i + 1;
        assert(defs@.subrange(0, i as int).map_values(|d: DynamicSymbolDefinition| d.version) =~= defs@.subrange(
            0,
            i - 1,
        ).map_values(|d: DynamicSymbolDefinition| d.version).push(d.version));
    }
    assert(defs@.subrange(0, i as int) =~= defs@);
    Ok(())
}

impl EpilogueLayout {
    /// Writes everything of the epilogue; `.gnu.hash` and the GNU property
    /// note go to their parts.
    pub fn write_file(
        &self,
        table_writer: &mut TableWriter,
        gnu_hash: &mut Slots<u8>,
        gnu_property: &mut Slots<u8>,
        needs_dynamic: bool,
        strip_all: bool,
    ) -> (r: Result<(), WriteError>)
        requires
            old(table_writer).wf(),
            old(gnu_hash).wf(),
            old(gnu_property).wf(),
            self.gnu_hash_layout is Some ==> ({
                let l = self.gnu_hash_layout->Some_0;
                l.bucket_count > 0 && l.bloom_count > 0 && l.bloom_shift < 32
                    && self.dynamic_symbol_definitions@.len() + l.symbol_base <= u32::MAX
            }),
        ensures
            final(table_writer).wf(),
            final(table_writer).output_kind == old(table_writer).output_kind,
            final(gnu_hash).wf(),
            final(gnu_property).wf(),
            r.is_ok() ==> old(table_writer).tables_extended(
                crate::files::resolutions_emission(
                    self.internal_resolutions@,
                    old(table_writer).output_kind,
                    old(table_writer).tls_start,
                    old(table_writer).tls_end,
                ),
                *final(table_writer),
            ),
            r.is_ok() && self.gnu_hash_layout is Some ==> exists|t: crate::gnu_hash::GnuHashTable|
                crate::gnu_hash::is_gnu_hash_table(
                    t,
                    definition_hashes(self.dynamic_symbol_definitions@),
                    self.gnu_hash_layout->Some_0,
                ) && final(gnu_hash).items@ == old(gnu_hash).items@ + crate::gnu_hash::gnu_hash_bytes(
                    t,
                    self.gnu_hash_layout->Some_0,
                ),
            self.gnu_hash_layout is None ==> final(gnu_hash).items@ == old(gnu_hash).items@,
            !needs_dynamic ==> final(table_writer).dynamic == old(table_writer).dynamic,
            r.is_ok() && needs_dynamic ==> ({
                let start = old(table_writer).dynsym_writer.strtab_writer.next_offset;
                let soname_offset = (start + crate::writers::strings_size(self.rpaths@)) as u32;
                final(table_writer).dynamic.out.items@ == old(table_writer).dynamic.out.items@
                    + crate::writers::runpath_entries(start, self.rpaths@) + match self.soname {
                    Some(_) => seq![
                        crate::dynamic::DynamicEntry {
                            d_tag: crate::dynamic::DT_SONAME as u64,
                            d_val: soname_offset as u64,
                        },
                    ],
                    None => Seq::<crate::dynamic::DynamicEntry>::empty(),
                } + crate::dynamic::emitted(crate::dynamic::epilogue_table(), self.dynamic_inputs)
            }),
    {
        write_internal_symbols_plt_got_entries(table_writer, &self.internal_resolutions)?;
        let ghost s1 = *table_writer;
        if !strip_all {
            write_internal_symbols(&self.internal_symbols, &mut table_writer.debug_symbol_writer)?;
        }
        let mut soname_offset: Option<u32> = None;
        if needs_dynamic {
            soname_offset = write_rpath_and_soname_entries(table_writer, &self.rpaths, &self.soname)?;
            let writers = epilogue_dynamic_entry_writers();
            write_dynamic_entries(&writers, &mut table_writer.dynamic, &self.dynamic_inputs)?;
        }
        let mut hashes: Vec<u32> = Vec::new();
        let mut i: usize = 0;
        while i < self.dynamic_symbol_definitions.len()
            invariant
                i <= self.dynamic_symbol_definitions@.len(),
                hashes@ == definition_hashes(self.dynamic_symbol_definitions@).subrange(0, i as int),
            decreases self.dynamic_symbol_definitions@.len() - i,
        {
            hashes.push(self.dynamic_symbol_definitions[i].hash);
            i = i + 1;
            assert(hashes@ =~= definition_hashes(self.dynamic_symbol_definitions@).subrange(0, i as int));
        }
        assert(hashes@ =~= definition_hashes(self.dynamic_symbol_definitions@));
        if self.gnu_hash_layout.is_some() {
            let bytes = write_gnu_hash_tables(&self.gnu_hash_layout, &hashes, gnu_hash.remaining())?;
            gnu_hash.take_bytes(bytes.as_slice(), Table::GnuHash)?;
        }
        write_dynamic_symbol_definitions(&self.dynamic_symbol_definitions, table_writer)?;
        if self.gnu_property_notes.len() > 0 {
            let bytes = write_gnu_property_notes(&self.gnu_property_notes, gnu_property.remaining())?;
            gnu_property.take_bytes(bytes.as_slice(), Table::NoteGnuProperty)?;
        }
        if let Some(verdefs) = &self.verdefs {
            if verdefs.len() >= 0x1_0000 {
                return Err(WriteError::InvalidVersion);
            }
            if self.soname.is_some() && soname_offset.is_none() {
                return Err(WriteError::InvalidVersion);
            }
            write_verdef(verdefs, table_writer, &self.soname, soname_offset)?;
        }
        assert(s1.tables_unchanged(*table_writer));
        Ok(())
    }
}

/// The resolutions of a shared object's symbols, in order.
pub open spec fn shared_resolutions(symbols: Seq<crate::version_tables::SharedSymbol>) -> Seq<Option<Resolution>> {
    symbols.map_values(|s: crate::version_tables::SharedSymbol| s.resolution)
}

/// A shared object's symbols written so far: `.symtab`, `.dynsym` and
/// `.gnu.version` contents.
pub struct SharedState {
    pub debug: crate::symtab::SymtabContents,
    pub dynsym: crate::symtab::SymtabContents,
    pub versym: Seq<u16>,
}

/// Writing the entries of a shared object's referenced symbols in order,
/// from `st`, into a writer shaped like `w`: a copy-relocated symbol gets a
/// `.symtab` entry in `.bss` with its resolution's value (its `.dynsym`
/// entry is the epilogue's); any other gets an undefined `.dynsym` entry
/// and, when versions are on, its version. `None` when an entry does not
/// fit, `.bss` is not output or a version is unknown.
pub open spec fn shared_fold(
    w: TableWriter,
    st: SharedState,
    syms: Seq<crate::version_tables::SharedSymbol>,
    versym_in: Seq<u16>,
    mapping: Seq<u16>,
    os: OutputSections,
    bss: usize,
) -> Option<SharedState>
    decreases syms.len(),
{
    if syms.len() == 0 {
        Some(st)
    } else {
        let i = syms.len() - 1;
        match shared_fold(w, st, syms.drop_last(), versym_in, mapping, os, bss) {
            None => None,
            Some(p) => {
                let sy = syms[i];
                let local = sy.sym.local();
                let len = sy.name@.len();
                match sy.resolution {
                    None => Some(p),
                    Some(res) => if res.resolution_flags.copy_relocation {
                        let idx = if bss < os.output_index@.len() {
                            os.output_index@[bss as int]
                        } else {
                            None
                        };
                        if idx is None || !crate::symtab::contents_fit(w.debug_symbol_writer, p.debug, local, len) {
                            None
                        } else {
                            Some(
                                SharedState {
                                    debug: crate::symtab::contents_with_symbol(
                                        p.debug,
                                        local,
                                        crate::symtab::symbol_entry(
                                            p.debug.3,
                                            sy.sym.st_info,
                                            sy.sym.st_other,
                                            idx->Some_0,
                                            res.raw_value,
                                            sy.sym.st_size,
                                        ),
                                        sy.name@,
                                    ),
                                    ..p
                                },
                            )
                        }
                    } else if !crate::symtab::contents_fit(w.dynsym_writer, p.dynsym, local, len) {
                        None
                    } else {
                        let d = crate::symtab::contents_with_symbol(
                            p.dynsym,
                            local,
                            crate::symtab::symbol_entry(p.dynsym.3, sy.sym.st_info, sy.sym.st_other, 0, 0, sy.sym.st_size),
                            sy.name@,
                        );
                        if w.version_writer.versym is Some {
                            let v = crate::version_tables::output_version(versym_in, i as usize, mapping);
                            if v is None || p.versym.len() >= w.version_writer.versym->Some_0.capacity {
                                None
                            } else {
                                Some(SharedState { dynsym: d, versym: p.versym.push(v->Some_0), ..p })
                            }
                        } else {
                            Some(SharedState { dynsym: d, ..p })
                        }
                    },
                }
            },
        }
    }
}

proof fn lemma_shared_none(
    w: TableWriter,
    st: SharedState,
    syms: Seq<crate::version_tables::SharedSymbol>,
    versym_in: Seq<u16>,
    mapping: Seq<u16>,
    os: OutputSections,
    bss: usize,
    k: int,
)
    requires
        0 <= k <= syms.len(),
        shared_fold(w, st, syms.subrange(0, k), versym_in, mapping, os, bss) is None,
    ensures
        shared_fold(w, st, syms, versym_in, mapping, os, bss) is None,
    decreases syms.len() - k,
{
    if k < syms.len() {
        assert(syms.subrange(0, k + 1).drop_last() =~= syms.subrange(0, k));
        lemma_shared_none(w, st, syms, versym_in, mapping, os, bss, k + 1);
    } else {
        assert(syms.subrange(0, k) =~= syms);
    }
}

/// The `.dynsym` contents after the shared object's name is added to
/// `.dynstr`.
pub open spec fn after_name(c: crate::symtab::SymtabContents, name: Seq<u8>) -> crate::symtab::SymtabContents {
    (c.0, c.1, c.2 + name + seq![0u8], (c.3 + name.len() + 1) as u32)
}

impl DynamicLayout {
    /// Writes everything of one shared object: `DT_NEEDED`, its COPY
    /// relocations, an entry for each symbol the output refers to (in
    /// `.symtab` for a copy-relocated one, else an undefined `.dynsym` entry
    /// with its version), their GOT and PLT entries, and its version needs.
    #[verifier::rlimit(100)]
    pub fn write_file(&self, table_writer: &mut TableWriter, output_sections: &OutputSections, bss_section: usize) -> (r:
        Result<(), WriteError>)
        requires
            old(table_writer).wf(),
        ensures
            final(table_writer).wf(),
            final(table_writer).output_kind == old(table_writer).output_kind,
            ({
                let w = *old(table_writer);
                let t = crate::table_writer::cat(
                    crate::version_tables::copies_emission(self.copy_relocation_symbols@),
                    crate::files::resolutions_emission(shared_resolutions(self.symbols@), w.output_kind, w.tls_start, w.tls_end),
                );
                let st0 = SharedState {
                    debug: w.debug_symbol_writer.contents(),
                    dynsym: after_name(w.dynsym_writer.contents(), self.lib_name@),
                    versym: crate::files::versym_items(w),
                };
                let f = shared_fold(
                    w,
                    st0,
                    self.symbols@,
                    self.input_symbol_versions@,
                    self.version_mapping@,
                    *output_sections,
                    bss_section,
                );
                &&& r.is_ok() == (crate::symtab::str_fits(w.dynsym_writer.strtab_writer, self.lib_name@.len())
                    && w.dynamic.out.room() > 0 && w.fits(t) && f is Some && self.verneed_fits(
                    f->Some_0.dynsym.2.len() as int,
                    f->Some_0.dynsym.3 as int,
                    w.dynsym_writer.strtab_writer.out.capacity as int,
                    w.version_writer.version_r.room(),
                ))
                &&& r.is_ok() ==> {
                    &&& w.tables_extended(t, *final(table_writer))
                    &&& final(table_writer).debug_symbol_writer.contents() == f->Some_0.debug
                    &&& final(table_writer).dynsym_writer.global_entries.items@ == f->Some_0.dynsym.1
                    &&& crate::files::versym_items(*final(table_writer)) == f->Some_0.versym
                    &&& final(table_writer).dynamic.out.items@ == w.dynamic.out.items@.push(
                        crate::dynamic::DynamicEntry {
                            d_tag: crate::dynamic::DT_NEEDED as u64,
                            d_val: w.dynsym_writer.strtab_writer.next_offset as u64,
                        },
                    )
                }
            }),
    {
        let ghost kind = table_writer.output_kind;
        let ghost tls_start = table_writer.tls_start;
        let ghost tls_end = table_writer.tls_end;
        let ghost w0 = *table_writer;
        self.write_so_name(table_writer)?;
        let ghost s0 = *table_writer;
        let ghost dynamic_after = table_writer.dynamic;
        let r = self.write_copy_relocations(table_writer);
        let ghost copies = crate::version_tables::copies_emission(self.copy_relocation_symbols@);
        let ghost all = shared_resolutions(self.symbols@);
        let ghost t = crate::table_writer::cat(copies, crate::files::resolutions_emission(all, kind, tls_start, tls_end));
        if r.is_err() {
            proof {
                if w0.fits(t) {
                    crate::table_writer::lemma_fits_cat_first(w0, copies, crate::files::resolutions_emission(all, kind, tls_start, tls_end));
                }
            }
            return r;
        }
        let ghost s1 = *table_writer;
        let ghost st0 = SharedState {
            debug: w0.debug_symbol_writer.contents(),
            dynsym: after_name(w0.dynsym_writer.contents(), self.lib_name@),
            versym: crate::files::versym_items(w0),
        };
        let mut i: usize = 0;
        proof {
            crate::table_writer::lemma_none(s1);
            assert(all.subrange(0, 0) =~= Seq::<Option<Resolution>>::empty());
            assert(self.symbols@.subrange(0, 0) =~= Seq::<crate::version_tables::SharedSymbol>::empty());
            assert(s1.dynsym_writer.strtab_writer.out.items@ =~= w0.dynsym_writer.strtab_writer.out.items@ + self.lib_name@ + seq![0u8]);
        }
        while i < self.symbols.len()
            invariant
                i <= self.symbols@.len(),
                all == shared_resolutions(self.symbols@),
                w0 == *old(table_writer),
                w0.wf(),
                s1.wf(),
                table_writer.wf(),
                kind == old(table_writer).output_kind,
                table_writer.output_kind == kind,
                table_writer.tls_start == tls_start,
                table_writer.tls_end == tls_end,
                s1.tls_start == tls_start && s1.tls_end == tls_end && s1.output_kind == kind,
                w0.tables_extended(copies, s1),
                copies == crate::version_tables::copies_emission(self.copy_relocation_symbols@),
                w0.fits(copies),
                t == crate::table_writer::cat(copies, crate::files::resolutions_emission(all, kind, tls_start, tls_end)),
                kind == w0.output_kind && tls_start == w0.tls_start && tls_end == w0.tls_end,
                s1.got.capacity == w0.got.capacity,
                s1.plt_got.capacity == w0.plt_got.capacity,
                s1.rela_plt.capacity == w0.rela_plt.capacity,
                s1.rela_dyn_relative.capacity == w0.rela_dyn_relative.capacity,
                s1.rela_dyn_general.capacity == w0.rela_dyn_general.capacity,
                st0 == (SharedState {
                    debug: w0.debug_symbol_writer.contents(),
                    dynsym: after_name(w0.dynsym_writer.contents(), self.lib_name@),
                    versym: crate::files::versym_items(w0),
                }),
                table_writer.dynamic == dynamic_after,
                table_writer.version_writer.version_r == w0.version_writer.version_r,
                table_writer.got.capacity == s1.got.capacity,
                table_writer.plt_got.capacity == s1.plt_got.capacity,
                table_writer.rela_plt.capacity == s1.rela_plt.capacity,
                table_writer.rela_dyn_relative.capacity == s1.rela_dyn_relative.capacity,
                table_writer.rela_dyn_general.capacity == s1.rela_dyn_general.capacity,
                table_writer.dynsym_writer.same_shape(w0.dynsym_writer),
                table_writer.debug_symbol_writer.same_shape(w0.debug_symbol_writer),
                table_writer.version_writer.versym is Some == w0.version_writer.versym is Some,
                w0.version_writer.versym is Some ==> table_writer.version_writer.versym->Some_0.capacity
                    == w0.version_writer.versym->Some_0.capacity,
                s1.tables_extended(
                    crate::files::resolutions_emission(all.subrange(0, i as int), kind, tls_start, tls_end),
                    *table_writer,
                ),
                s1.fits(crate::files::resolutions_emission(all.subrange(0, i as int), kind, tls_start, tls_end)),
                shared_fold(w0, st0, self.symbols@.subrange(0, i as int), self.input_symbol_versions@, self.version_mapping@, *output_sections, bss_section)
                    == Some(SharedState {
                        debug: table_writer.debug_symbol_writer.contents(),
                        dynsym: table_writer.dynsym_writer.contents(),
                        versym: crate::files::versym_items(*table_writer),
                    }),
            decreases self.symbols@.len() - i,
        {
            assert(all.subrange(0, i + 1).drop_last() =~= all.subrange(0, i as int));
            assert(self.symbols@.subrange(0, i + 1).drop_last() =~= self.symbols@.subrange(0, i as int));
            let ghost before = *table_writer;
            let ghost prev = crate::files::resolutions_emission(all.subrange(0, i as int), kind, tls_start, tls_end);
            let s = &self.symbols[i];
            if let Some(res) = s.resolution {
                let r = if res.resolution_flags.copy_relocation {
                    // The epilogue writes the `.dynsym` entry.
                    table_writer.debug_symbol_writer.copy_symbol(
                        &s.sym,
                        s.name.as_slice(),
                        output_sections,
                        bss_section,
                        res.raw_value,
                    )
                } else {
                    let r = table_writer.dynsym_writer.copy_symbol_shndx(&s.sym, s.name.as_slice(), 0, 0);
                    if r.is_err() {
                        r
                    } else {
                        match &mut table_writer.version_writer.versym {
                            Some(versym) => write_symbol_version(&self.input_symbol_versions, i, &self.version_mapping, versym),
                            None => Ok(()),
                        }
                    }
                };
                if r.is_err() {
                    proof {
                        lemma_shared_none(w0, st0, self.symbols@, self.input_symbol_versions@, self.version_mapping@, *output_sections, bss_section, i + 1);
                    }
                    return r;
                }
                let ghost mid = *table_writer;
                assert(before.tables_unchanged(mid));
                assert(all[i as int] == Some(res));
                assert(crate::files::resolutions_emission(all.subrange(0, i + 1), kind, tls_start, tls_end) == crate::table_writer::cat(
                    prev,
                    crate::table_writer::resolution_emission(res, kind, tls_start, tls_end),
                ));
                let r = table_writer.process_resolution(&res);
                proof {
                    crate::table_writer::lemma_cat_tables(s1, prev, mid.emission_of(res), mid);
                }
                if r.is_err() {
                    proof {
                        crate::table_writer::lemma_cat_tables(w0, copies, crate::files::resolutions_emission(all, kind, tls_start, tls_end), s1);
                        if s1.fits(crate::files::resolutions_emission(all, kind, tls_start, tls_end)) {
                            crate::files::lemma_resolutions_prefix(s1, all, i + 1, kind, tls_start, tls_end);
                        }
                    }
                    return r;
                }
                proof {
                    crate::table_writer::lemma_tables_cat(s1, prev, mid, mid.emission_of(res), *table_writer);
                }
            } else {
                proof {
                    crate::table_writer::lemma_none(before);
                    crate::table_writer::lemma_tables_cat(s1, prev, before, e_none(), before);
                }
            }
            i = i + 1;
        }
        assert(all.subrange(0, i as int) =~= all);
        assert(self.symbols@.subrange(0, i as int) =~= self.symbols@);
        let ghost s2 = *table_writer;
        proof {
            crate::table_writer::lemma_cat_tables(w0, copies, crate::files::resolutions_emission(all, kind, tls_start, tls_end), s1);
        }
        self.write_verneed(table_writer)?;
        proof {
            crate::table_writer::lemma_tables_cat(
                w0,
                copies,
                s1,
                crate::files::resolutions_emission(all, kind, tls_start, tls_end),
                s2,
            );
        }
        Ok(())
    }
}

/// The input files of a group, by kind.
pub enum FileLayout {
    Object(ObjectLayout),
    Prelude(PreludeLayout),
    Epilogue(EpilogueLayout),
    Dynamic(DynamicLayout),
    NotLoaded,
}

/// Where a group's writes go, besides its table writer.
pub struct GroupOutput {
    /// The group's cursor for each output part.
    pub parts: Vec<Slots<u8>>,
    pub gnu_hash: Slots<u8>,
    pub gnu_property: Slots<u8>,
}

/// What every file of the output needs to know.
pub struct OutputSettings {
    pub ctx: RelocationContext,
    pub output_sections: OutputSections,
    pub bss_section: usize,
    pub tls_segment_start: Option<u64>,
    pub gnu_version_enabled: bool,
    pub needs_dynamic: bool,
    pub needs_dynsym: bool,
    pub strip_all: bool,
}

/// The prelude's inputs besides its own symbols.
pub struct PreludeInputs {
    pub header_info: HeaderInfo,
    pub segments: Vec<SegmentLayout>,
    pub execstack: bool,
    pub min_load_alignment: u64,
    pub sections: Vec<OutputSectionInfo>,
    pub section_count: usize,
    /// `.eh_frame` address, `.eh_frame_hdr` address and size, when the
    /// output has `.eh_frame_hdr`.
    pub eh_frame_hdr: Option<(u64, u64, u64)>,
    pub merged_strings: Vec<Vec<u8>>,
    pub file_header_part: usize,
    pub program_headers_part: usize,
    pub section_headers_part: usize,
    pub shstrtab_part: usize,
    pub merged_strings_part: usize,
    pub comment_part: usize,
    pub interp_part: usize,
}

/// Appends `bytes` to the cursor of part `index`.
fn write_part(parts: &mut Vec<Slots<u8>>, index: usize, bytes: &[u8]) -> (r: Result<(), WriteError>)
    requires
        forall|p: int| 0 <= p < old(parts)@.len() ==> (#[trigger] old(parts)@[p]).wf(),
    ensures
        final(parts)@.len() == old(parts)@.len(),
        forall|p: int| 0 <= p < final(parts)@.len() ==> (#[trigger] final(parts)@[p]).wf(),
        r.is_ok() ==> index < old(parts)@.len() && final(parts)@[index as int].items@ == old(
            parts,
        )@[index as int].items@ + bytes@,
{
    if index >= parts.len() {
        return Err(WriteError::InsufficientAllocation { table: Table::Section });
    }
    let mut part = parts.remove(index);
    let r = part.take_bytes(bytes, Table::Section);
    parts.insert(index, part);
    r
}

impl PreludeLayout {
    /// Writes everything of the prelude: the file header, program headers,
    /// section headers and `.shstrtab`, the TLSLD and internal GOT entries,
    /// symbol 0 and the internal symbols of `.symtab`, the `.eh_frame_hdr`
    /// header, merged strings and `.comment`, `.interp`, and the null
    /// `.dynsym` entry with its version.
    pub fn write_file(
        &self,
        table_writer: &mut TableWriter,
        parts: &mut Vec<Slots<u8>>,
        inputs: &PreludeInputs,
        settings: &OutputSettings,
    ) -> (r: Result<(), WriteError>)
        requires
            old(table_writer).wf(),
            forall|p: int| 0 <= p < old(parts)@.len() ==> (#[trigger] old(parts)@[p]).wf(),
            inputs.header_info.program_headers_size <= u64::MAX - 64,
            inputs.eh_frame_hdr is Some ==> inputs.eh_frame_hdr->Some_0.2 >= 12,
        ensures
            final(table_writer).wf(),
            final(table_writer).output_kind == old(table_writer).output_kind,
            final(parts)@.len() == old(parts)@.len(),
            forall|p: int| 0 <= p < final(parts)@.len() ==> (#[trigger] final(parts)@[p]).wf(),
            ({
                let t = *old(table_writer);
                r.is_ok() ==> t.tables_extended(
                    crate::table_writer::cat(
                        match self.tlsld_got_entry {
                            Some(g) => crate::writers::tlsld_emission(g, t.output_kind, t.tls_start, t.tls_end),
                            None => crate::table_writer::e_none(),
                        },
                        crate::files::resolutions_emission(
                            self.internal_resolutions@,
                            t.output_kind,
                            t.tls_start,
                            t.tls_end,
                        ),
                    ),
                    *final(table_writer),
                )
            }),
    {
        let header = populate_file_header(&inputs.header_info)?;
        write_part(parts, inputs.file_header_part, header.as_slice())?;

        let mut program_headers = ProgramHeaderWriter::new(inputs.segments.len());
        write_program_headers(&mut program_headers, &inputs.segments, inputs.execstack, inputs.min_load_alignment)?;
        let mut bytes: Vec<u8> = Vec::new();
        let mut i: usize = 0;
        while i < program_headers.headers.items.len()
            decreases program_headers.headers.items@.len() - i,
        {
            push_program_header(&mut bytes, &program_headers.headers.items[i]);
            i = i + 1;
        }
        write_part(parts, inputs.program_headers_part, bytes.as_slice())?;

        let section_headers = write_section_headers(&inputs.sections, inputs.section_count)?;
        let mut bytes: Vec<u8> = Vec::new();
        let mut i: usize = 0;
        while i < section_headers.len()
            decreases section_headers@.len() - i,
        {
            push_section_header(&mut bytes, &section_headers[i]);
            i = i + 1;
        }
        write_part(parts, inputs.section_headers_part, bytes.as_slice())?;

        let names = write_section_header_strings(&inputs.sections);
        write_part(parts, inputs.shstrtab_part, names.as_slice())?;

        self.write_plt_got_entries(table_writer)?;
        let ghost s1 = *table_writer;

        if !settings.strip_all {
            self.write_symbol_table_entries(&mut table_writer.debug_symbol_writer)?;
        }

        if let Some((eh_frame_address, eh_frame_hdr_address, size)) = inputs.eh_frame_hdr {
            crate::eh_frame_hdr::write_eh_frame_hdr(table_writer, eh_frame_address, eh_frame_hdr_address, size)?;
        }

        let mut i: usize = 0;
        while i < inputs.merged_strings.len()
            invariant
                table_writer.wf(),
                table_writer.output_kind == old(table_writer).output_kind,
                s1.tables_unchanged(*table_writer),
                parts@.len() == old(parts)@.len(),
                forall|p: int| 0 <= p < parts@.len() ==> (#[trigger] parts@[p]).wf(),
            decreases inputs.merged_strings@.len() - i,
        {
            write_part(parts, inputs.merged_strings_part, inputs.merged_strings[i].as_slice())?;
            i = i + 1;
        }
        write_part(parts, inputs.comment_part, self.identity.as_slice())?;

        if self.dynamic_linker.is_some() {
            if inputs.interp_part >= parts.len() {
                return Err(WriteError::InsufficientAllocation { table: Table::Section });
            }
            let mut interp = parts.remove(inputs.interp_part);
            let r = self.write_interp(&mut interp);
            parts.insert(inputs.interp_part, interp);
            r?;
        }

        // Symbol 0 is the only symbol whose version the prelude writes.
        if settings.gnu_version_enabled {
            table_writer.version_writer.set_next_symbol_version(VER_NDX_GLOBAL)?;
        }
        if settings.needs_dynsym {
            let empty: Vec<u8> = Vec::new();
            table_writer.dynsym_writer.define_symbol(false, 0, 0, 0, empty.as_slice(), 0, 0)?;
        }
        assert(s1.tables_unchanged(*table_writer));
        Ok(())
    }
}

impl FileLayout {
    /// Writes one input file of a group.
    pub fn write(
        &self,
        table_writer: &mut TableWriter,
        out: &mut GroupOutput,
        settings: &OutputSettings,
        prelude_inputs: &PreludeInputs,
    ) -> (r: Result<(), WriteError>)
        requires
            old(table_writer).wf(),
            old(table_writer).output_kind == settings.ctx.output_kind,
            forall|p: int| 0 <= p < old(out).parts@.len() ==> (#[trigger] old(out).parts@[p]).wf(),
            old(out).gnu_hash.wf(),
            old(out).gnu_property.wf(),
            prelude_inputs.header_info.program_headers_size <= u64::MAX - 64,
            prelude_inputs.eh_frame_hdr is Some ==> prelude_inputs.eh_frame_hdr->Some_0.2 >= 12,
        ensures
            final(table_writer).wf(),
            final(table_writer).output_kind == old(table_writer).output_kind,
            final(out).parts@.len() == old(out).parts@.len(),
            forall|p: int| 0 <= p < final(out).parts@.len() ==> (#[trigger] final(out).parts@[p]).wf(),
            final(out).gnu_hash.wf(),
            final(out).gnu_property.wf(),
    {
        match self {
            FileLayout::Object(o) => o.write_file(
                table_writer,
                &mut out.parts,
                &settings.ctx,
                &settings.output_sections,
                settings.bss_section,
                settings.tls_segment_start,
                settings.gnu_version_enabled,
                settings.strip_all,
            ),
            FileLayout::Prelude(p) => p.write_file(table_writer, &mut out.parts, prelude_inputs, settings),
            FileLayout::Epilogue(e) => {
                if let Some(l) = e.gnu_hash_layout {
                    if l.bucket_count == 0 || l.bloom_count == 0 || l.bloom_shift >= 32
                        || e.dynamic_symbol_definitions.len() as u128 + l.symbol_base as u128 > u32::MAX as u128 {
                        return Err(WriteError::InvalidGnuHashLayout);
                    }
                }
                e.write_file(table_writer, &mut out.gnu_hash, &mut out.gnu_property, settings.needs_dynamic, settings.strip_all)
            },
            FileLayout::Dynamic(d) => d.write_file(table_writer, &settings.output_sections, settings.bss_section),
            FileLayout::NotLoaded => Ok(()),
        }
    }
}

/// Writes one group: a table writer over its parts, each of its files in
/// turn, then the check that every cursor was used up.
pub fn write_group(
    files: &Vec<FileLayout>,
    sizes: &GroupSizes,
    mem_sizes: &MemSizes,
    dynstr_start_offset: u32,
    strtab_start_offset: u32,
    eh_frame_start_address: u64,
    out: &mut GroupOutput,
    settings: &OutputSettings,
    prelude_inputs: &PreludeInputs,
) -> (r: Result<TableWriter, WriteError>)
    requires
        forall|p: int| 0 <= p < old(out).parts@.len() ==> (#[trigger] old(out).parts@[p]).wf(),
        old(out).gnu_hash.wf(),
        old(out).gnu_property.wf(),
        prelude_inputs.header_info.program_headers_size <= u64::MAX - 64,
        prelude_inputs.eh_frame_hdr is Some ==> prelude_inputs.eh_frame_hdr->Some_0.2 >= 12,
    ensures
        r.is_ok() ==> r->Ok_0.wf() && r->Ok_0.exhausted(),
{
    let mut table_writer = TableWriter::from_layout(
        settings.ctx.output_kind,
        settings.ctx.tls_start,
        settings.ctx.tls_end,
        dynstr_start_offset,
        strtab_start_offset,
        sizes,
        eh_frame_start_address,
    );
    let mut i: usize = 0;
    while i < files.len()
        invariant
            table_writer.wf(),
            table_writer.output_kind == settings.ctx.output_kind,
            forall|p: int| 0 <= p < out.parts@.len() ==> (#[trigger] out.parts@[p]).wf(),
            out.gnu_hash.wf(),
            out.gnu_property.wf(),
            prelude_inputs.header_info.program_headers_size <= u64::MAX - 64,
            prelude_inputs.eh_frame_hdr is Some ==> prelude_inputs.eh_frame_hdr->Some_0.2 >= 12,
        decreases files@.len() - i,
    {
        files[i].write(&mut table_writer, out, settings, prelude_inputs)?;
        i = i + 1;
    }
    table_writer.validate_empty(mem_sizes)?;
    Ok(table_writer)
}

} // verus!
