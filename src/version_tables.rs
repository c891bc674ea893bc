use crate::bytes::{le16, le32};
use crate::cursor::Slots;
use crate::dynamic::DT_NEEDED;
use crate::error::{Table, WriteError};
use crate::model::{Resolution, R_X86_64_COPY};
use crate::symtab::InputSymbol;
use crate::table_writer::{cat, did, e_fail, e_none, e_symbol_rela, Emission, TableWriter};
use vstd::prelude::*;

verus! {

pub const VER_NDX_GLOBAL: u16 = 1;
pub const VER_FLG_BASE: u16 = 1;
pub const VERSYM_VERSION: u16 = 0x7fff;
pub const VERDEF_SIZE: u32 = 20;
pub const VERDAUX_SIZE: u32 = 8;
pub const VERNEED_SIZE: u32 = 16;
pub const VERNAUX_SIZE: u32 = 16;

/// The System V ELF hash of a name.
pub uninterp spec fn sysv_hash_of(name: Seq<u8>) -> u32;

/// Relies on `object::elf::hash`: the System V ELF hash of the name, which
/// depends on the name alone and keeps only its low 28 bits.
#[verifier::external_body]
fn elf_hash(name: &[u8]) -> (r: u32)
    ensures
        r == sysv_hash_of(name@),
        r < 0x1000_0000,
{
    object::elf::hash(name)
}

/// The output version of a symbol of a shared object: local and global
/// stay as they are, and a defined version goes through the object's
/// input-to-output mapping. A symbol without a version entry is global.
pub open spec fn output_version(versym_in: Seq<u16>, index: usize, mapping: Seq<u16>) -> Option<u16> {
    if index < versym_in.len() {
        let v = versym_in[index as int] & VERSYM_VERSION;
        if v <= VER_NDX_GLOBAL {
            Some(v)
        } else if v - 1 < mapping.len() {
            Some(mapping[v - 1])
        } else {
            None
        }
    } else {
        Some(VER_NDX_GLOBAL)
    }
}

/// Writes the `.gnu.version` entry of a symbol of a shared object.
pub fn write_symbol_version(
    versym_in: &Vec<u16>,
    local_symbol_index: usize,
    version_mapping: &Vec<u16>,
    versym_out: &mut Slots<u16>,
) -> (r: Result<(), WriteError>)
    requires
        old(versym_out).wf(),
    ensures
        final(versym_out).wf(),
        final(versym_out).capacity == old(versym_out).capacity,
        ({
            let v = output_version(versym_in@, local_symbol_index, version_mapping@);
            &&& r.is_ok() == (v is Some && old(versym_out).room() > 0)
            &&& r.is_ok() ==> final(versym_out).items@ == old(versym_out).items@.push(v->Some_0)
        }),
{
    let version = if local_symbol_index < versym_in.len() {
        let v = versym_in[local_symbol_index] & VERSYM_VERSION;
        if v <= VER_NDX_GLOBAL {
            v
        } else if ((v - 1) as usize) < version_mapping.len() {
            version_mapping[(v - 1) as usize]
        } else {
            return Err(WriteError::InvalidVersion);
        }
    } else {
        VER_NDX_GLOBAL
    };
    versym_out.take(version, Table::GnuVersion)
}

/// A version that the output defines.
pub struct VersionDef {
    pub name: Vec<u8>,
    /// Index of its parent version among the definitions, if it has one.
    pub parent_index: Option<u16>,
}

/// The number of auxiliary entries of a version definition.
pub open spec fn aux_count(d: VersionDef) -> u16 {
    if d.parent_index is Some {
        2
    } else {
        1
    }
}

/// The bytes of `.gnu.version_d` that the definitions take.
pub open spec fn verdefs_size(defs: Seq<VersionDef>) -> int
    decreases defs.len(),
{
    if defs.len() == 0 {
        0
    } else {
        verdefs_size(defs.drop_last()) + VERDEF_SIZE + VERDAUX_SIZE * aux_count(defs.last())
    }
}

/// A `Verdef` record.
pub open spec fn verdef_bytes(index: u16, is_base: bool, aux: u16, hash: u32, next: u32) -> Seq<u8> {
    le16(1) + le16(if is_base { VER_FLG_BASE } else { 0 }) + le16(index) + le16(aux) + le32(hash)
        + le32(VERDEF_SIZE) + le32(next)
}

/// Builds a `Verdef` record for version `index` whose name hashes to `hash`.
pub fn verdef_record(index: u16, is_base: bool, aux: u16, hash: u32, next: u32) -> (r: Vec<u8>)
    ensures
        r@ == verdef_bytes(index, is_base, aux, hash, next),
{
    let mut record: Vec<u8> = Vec::new();
    crate::bytes::push_u16(&mut record, 1);
    crate::bytes::push_u16(&mut record, if is_base { VER_FLG_BASE } else { 0 });
    crate::bytes::push_u16(&mut record, index);
    crate::bytes::push_u16(&mut record, aux);
    crate::bytes::push_u32(&mut record, hash);
    crate::bytes::push_u32(&mut record, VERDEF_SIZE);
    crate::bytes::push_u32(&mut record, next);
    assert(record@ =~= verdef_bytes(index, is_base, aux, hash, next));
    record
}

/// The name of the base version: the soname when there is one.
pub open spec fn base_version_name(defs: Seq<VersionDef>, soname: Option<Vec<u8>>) -> Seq<u8> {
    match soname {
        Some(s) => s@,
        None => defs[0].name@,
    }
}

/// What writing version definitions has produced so far: the bytes of
/// `.gnu.version_d`, the `.dynstr` bytes and next offset, and the string
/// offsets of the non-base versions.
pub struct VerdefState {
    pub d: Seq<u8>,
    pub strings: Seq<u8>,
    pub next: u32,
    pub offsets: Seq<u32>,
}

/// The `Verdef` record of version `i` and its one or two `Verdaux` records.
pub open spec fn verdef_entry(
    i: int,
    n: int,
    d: VersionDef,
    hash: u32,
    name_offset: u32,
    parent_offset: Option<u32>,
) -> Seq<u8> {
    let aux = aux_count(d);
    let next: u32 = if i + 1 < n {
        (VERDEF_SIZE + VERDAUX_SIZE * aux) as u32
    } else {
        0
    };
    verdef_bytes((i + 1) as u16, i == 0, aux, hash, next) + le32(name_offset) + le32(
        if d.parent_index is Some {
            VERDAUX_SIZE
        } else {
            0
        },
    ) + match parent_offset {
        Some(p) => le32(p) + le32(0),
        None => Seq::<u8>::empty(),
    }
}

/// Writing definition `i` from state `st`: its name goes to `.dynstr`
/// (the base version reuses the soname's string when there is one), its
/// records to `.gnu.version_d`. `None` when a string or record does not fit
/// or a parent index names no earlier version.
pub open spec fn verdef_step(
    defs: Seq<VersionDef>,
    i: int,
    soname: Option<Vec<u8>>,
    soname_offset: Option<u32>,
    d_cap: nat,
    s_cap: nat,
    st: VerdefState,
) -> Option<VerdefState> {
    let d = defs[i];
    let uses_soname = i == 0 && soname is Some;
    let len = d.name@.len();
    if !uses_soname && !(st.strings.len() + len + 1 <= s_cap && st.next + len + 1 <= u32::MAX) {
        None
    } else {
        let name_offset = if uses_soname {
            soname_offset->Some_0
        } else {
            st.next
        };
        let strings = if uses_soname {
            st.strings
        } else {
            st.strings + d.name@ + seq![0u8]
        };
        let next = if uses_soname {
            st.next
        } else {
            (st.next + len + 1) as u32
        };
        let offsets = if !uses_soname && i > 0 {
            st.offsets.push(name_offset)
        } else {
            st.offsets
        };
        let hash = if uses_soname {
            sysv_hash_of(soname->Some_0@)
        } else {
            sysv_hash_of(d.name@)
        };
        let parent_ok = match d.parent_index {
            Some(p) => p != 0 && p - 1 < offsets.len(),
            None => true,
        };
        let parent_offset = match d.parent_index {
            Some(p) => Some(offsets[p - 1]),
            None => None,
        };
        let record = verdef_entry(i, defs.len() as int, d, hash, name_offset, parent_offset);
        if !parent_ok || st.d.len() + record.len() > d_cap {
            None
        } else {
            Some(VerdefState { d: st.d + record, strings, next, offsets })
        }
    }
}

/// The state after writing the first `k` definitions.
pub open spec fn verdef_fold(
    defs: Seq<VersionDef>,
    k: int,
    soname: Option<Vec<u8>>,
    soname_offset: Option<u32>,
    d_cap: nat,
    s_cap: nat,
    st: VerdefState,
) -> Option<VerdefState>
    decreases k,
{
    if k <= 0 {
        Some(st)
    } else {
        match verdef_fold(defs, k - 1, soname, soname_offset, d_cap, s_cap, st) {
            None => None,
            Some(prev) => verdef_step(defs, k - 1, soname, soname_offset, d_cap, s_cap, prev),
        }
    }
}

proof fn lemma_verdef_none(
    defs: Seq<VersionDef>,
    k: int,
    m: int,
    soname: Option<Vec<u8>>,
    soname_offset: Option<u32>,
    d_cap: nat,
    s_cap: nat,
    st: VerdefState,
)
    requires
        0 <= k <= m,
        verdef_fold(defs, k, soname, soname_offset, d_cap, s_cap, st) is None,
    ensures
        verdef_fold(defs, m, soname, soname_offset, d_cap, s_cap, st) is None,
    decreases m - k,
{
    if k < m {
        lemma_verdef_none(defs, k + 1, m, soname, soname_offset, d_cap, s_cap, st);
    }
}

/// The state of a table writer as `write_verdef` sees it.
pub open spec fn verdef_state_of(w: TableWriter, offsets: Seq<u32>) -> VerdefState {
    VerdefState {
        d: w.version_writer.version_d.items@,
        strings: w.dynsym_writer.strtab_writer.out.items@,
        next: w.dynsym_writer.strtab_writer.next_offset,
        offsets,
    }
}

/// Writes `.gnu.version_d`: a `Verdef` for each version and one `Verdaux`
/// naming it (two when it has a parent). Entry 0 is the base version, named
/// by the soname when there is one, whose string is already in `.dynstr` at
/// `soname_offset`. Each `vd_next` is the distance to the next record, zero
/// for the last.
#[verifier::rlimit(100)]
pub fn write_verdef(
    verdefs: &Vec<VersionDef>,
    table_writer: &mut TableWriter,
    soname: &Option<Vec<u8>>,
    soname_offset: Option<u32>,
) -> (r: Result<(), WriteError>)
    requires
        old(table_writer).wf(),
        soname is Some ==> soname_offset is Some,
        verdefs@.len() < 0x1_0000,
    ensures
        final(table_writer).wf(),
        old(table_writer).tables_unchanged(*final(table_writer)),
        final(table_writer).dynamic == old(table_writer).dynamic,
        final(table_writer).tls_start == old(table_writer).tls_start,
        final(table_writer).tls_end == old(table_writer).tls_end,
        final(table_writer).output_kind == old(table_writer).output_kind,
        ({
            let w = *old(table_writer);
            let f = verdef_fold(
                verdefs@,
                verdefs@.len() as int,
                *soname,
                soname_offset,
                w.version_writer.version_d.capacity as nat,
                w.dynsym_writer.strtab_writer.out.capacity as nat,
                verdef_state_of(w, Seq::empty()),
            );
            &&& r.is_ok() == f is Some
            &&& r.is_ok() ==> final(table_writer).version_writer.version_d.items@ == f->Some_0.d
            &&& r.is_ok() ==> final(table_writer).dynsym_writer.strtab_writer.out.items@ == f->Some_0.strings
            &&& r.is_ok() ==> final(table_writer).dynsym_writer.strtab_writer.next_offset == f->Some_0.next
        }),
{
    let n = verdefs.len();
    let ghost w0 = *table_writer;
    let ghost d_cap = w0.version_writer.version_d.capacity as nat;
    let ghost s_cap = w0.dynsym_writer.strtab_writer.out.capacity as nat;
    let ghost st0 = verdef_state_of(w0, Seq::empty());
    let mut version_string_offsets: Vec<u32> = Vec::new();
    let mut i: usize = 0;
    while i < n
        invariant
            n == verdefs@.len(),
            n < 0x1_0000,
            i <= n,
            table_writer.wf(),
            old(table_writer).tables_unchanged(*table_writer),
            table_writer.dynamic == old(table_writer).dynamic,
            table_writer.tls_start == old(table_writer).tls_start,
            table_writer.tls_end == old(table_writer).tls_end,
            table_writer.output_kind == old(table_writer).output_kind,
            soname is Some ==> soname_offset is Some,
            w0 == *old(table_writer),
            d_cap == w0.version_writer.version_d.capacity,
            s_cap == w0.dynsym_writer.strtab_writer.out.capacity,
            st0 == verdef_state_of(w0, Seq::empty()),
            table_writer.version_writer.version_d.capacity == d_cap,
            table_writer.dynsym_writer.strtab_writer.out.capacity == s_cap,
            verdef_fold(verdefs@, i as int, *soname, soname_offset, d_cap, s_cap, st0) == Some(
                verdef_state_of(*table_writer, version_string_offsets@),
            ),
        decreases n - i,
    {
        let ghost st = verdef_state_of(*table_writer, version_string_offsets@);
        let def = &verdefs[i];
        let uses_soname = i == 0 && soname.is_some();
        let name_offset = if uses_soname {
            match soname_offset {
                Some(o) => o,
                None => 0,
            }
        } else {
            let r = table_writer.dynsym_writer.strtab_writer.write_str(def.name.as_slice());
            match r {
                Ok(o) => {
                    if i > 0 {
                        version_string_offsets.push(o);
                    }
                    o
                },
                Err(e) => {
                    proof {
                        lemma_verdef_none(verdefs@, i + 1, n as int, *soname, soname_offset, d_cap, s_cap, st0);
                    }
                    return Err(e);
                },
            }
        };
        let hash = if uses_soname {
            match soname {
                Some(s) => elf_hash(s.as_slice()),
                None => 0,
            }
        } else {
            elf_hash(def.name.as_slice())
        };
        let aux: u16 = if def.parent_index.is_some() {
            2
        } else {
            1
        };
        let next: u32 = if i + 1 < n {
            VERDEF_SIZE + VERDAUX_SIZE * aux as u32
        } else {
            0
        };
        let mut record = verdef_record(i as u16 + VER_NDX_GLOBAL, i == 0, aux, hash, next);
        crate::bytes::push_u32(&mut record, name_offset);
        crate::bytes::push_u32(&mut record, if def.parent_index.is_some() { VERDAUX_SIZE } else { 0 });
        let mut parent_offset: Option<u32> = None;
        if let Some(parent) = def.parent_index {
            if parent == 0 || (parent - 1) as usize >= version_string_offsets.len() {
                proof {
                    lemma_verdef_none(verdefs@, i + 1, n as int, *soname, soname_offset, d_cap, s_cap, st0);
                }
                return Err(WriteError::InvalidVersion);
            }
            let p = version_string_offsets[(parent - 1) as usize];
            parent_offset = Some(p);
            crate::bytes::push_u32(&mut record, p);
            crate::bytes::push_u32(&mut record, 0);
        }
        assert(record@ =~= verdef_entry(i as int, n as int, *def, hash, name_offset, parent_offset));
        let r = table_writer.version_writer.take_bytes_d(record.as_slice());
        if r.is_err() {
            proof {
                lemma_verdef_none(verdefs@, i + 1, n as int, *soname, soname_offset, d_cap, s_cap, st0);
            }
            return r;
        }
        i = i + 1;
        assert(verdef_state_of(*table_writer, version_string_offsets@).d =~= st.d + record@);
    }
    Ok(())
}

/// A version that a shared object defines and that output symbols use.
pub struct NeededVersion {
    pub name: Vec<u8>,
    pub output_version: u16,
}

/// What `.gnu.version_r` records of one shared object.
pub struct VerneedInfo {
    /// The name of its base version.
    pub file_name: Vec<u8>,
    pub versions: Vec<NeededVersion>,
    /// Whether this is the last shared object with version needs.
    pub is_last: bool,
}

/// A symbol of a shared object that the output refers to.
pub struct SharedSymbol {
    pub sym: InputSymbol,
    pub name: Vec<u8>,
    pub resolution: Option<Resolution>,
}

/// The `.dynstr` bytes that the version names take, terminators included.
pub open spec fn needed_size(s: Seq<NeededVersion>) -> int
    decreases s.len(),
{
    if s.len() == 0 {
        0
    } else {
        needed_size(s.drop_last()) + s.last().name@.len() + 1
    }
}

proof fn lemma_needed_size_prefix(s: Seq<NeededVersion>, k: int)
    requires
        0 <= k <= s.len(),
    ensures
        0 <= needed_size(s.subrange(0, k)) <= needed_size(s),
    decreases s.len() - k,
{
    if k < s.len() {
        lemma_needed_size_prefix(s, k + 1);
        assert(s.subrange(0, k + 1).drop_last() =~= s.subrange(0, k));
    } else {
        assert(s.subrange(0, k) =~= s);
    }
    lemma_needed_size_nonneg(s.subrange(0, k));
}

proof fn lemma_needed_size_nonneg(s: Seq<NeededVersion>)
    ensures
        needed_size(s) >= 0,
    decreases s.len(),
{
    if s.len() > 0 {
        lemma_needed_size_nonneg(s.drop_last());
    }
}

/// A shared object that the output links against.
pub struct DynamicLayout {
    pub lib_name: Vec<u8>,
    /// Resolutions of the symbols that get copy relocations.
    pub copy_relocation_symbols: Vec<Option<Resolution>>,
    pub symbols: Vec<SharedSymbol>,
    /// The `.gnu.version` entry of each of its symbols.
    pub input_symbol_versions: Vec<u16>,
    /// Input version index minus one to output version index.
    pub version_mapping: Vec<u16>,
    pub verneed_info: Option<VerneedInfo>,
    /// The output index of `.bss`.
    pub bss_index: u16,
}

/// The COPY relocation of a copy-relocated symbol.
pub open spec fn copy_emission(res: Option<Resolution>) -> Emission {
    match res {
        Some(r) => e_symbol_rela(r, r.raw_value, R_X86_64_COPY, 0),
        None => e_fail(),
    }
}

pub open spec fn copies_emission(s: Seq<Option<Resolution>>) -> Emission
    decreases s.len(),
{
    if s.len() == 0 {
        e_none()
    } else {
        cat(copies_emission(s.drop_last()), copy_emission(s.last()))
    }
}

proof fn lemma_copies_prefix(t: TableWriter, s: Seq<Option<Resolution>>, k: int)
    requires
        0 <= k <= s.len(),
        t.fits(copies_emission(s)),
    ensures
        t.fits(copies_emission(s.subrange(0, k))),
    decreases s.len() - k,
{
    if k == s.len() {
        assert(s.subrange(0, k) =~= s);
    } else {
        crate::table_writer::lemma_fits_cat_first(t, copies_emission(s.drop_last()), copy_emission(s.last()));
        assert(s.drop_last().subrange(0, k) =~= s.subrange(0, k));
        lemma_copies_prefix(t, s.drop_last(), k);
    }
}

/// Writes the COPY relocation of a symbol.
pub fn write_copy_relocation_for_symbol(res: &Option<Resolution>, table_writer: &mut TableWriter) -> (r: Result<(), WriteError>)
    requires
        old(table_writer).wf(),
    ensures
        did(*old(table_writer), copy_emission(*res), *final(table_writer), r),
{
    match res {
        Some(res) => match res.dynamic_symbol_index {
            Some(i) => table_writer.write_rela_dyn_general(res.raw_value, i, R_X86_64_COPY, 0),
            None => Err(WriteError::MissingDynamicSymbolIndex),
        },
        None => Err(WriteError::MissingDynamicSymbolIndex),
    }
}

impl DynamicLayout {
    /// Whether `.dynstr` (holding `strings_len` of `strings_cap` bytes, next
    /// offset `next`) and `.gnu.version_r` (with `r_room` bytes left) have
    /// room for this object's version needs.
    pub open spec fn verneed_fits(&self, strings_len: int, next: int, strings_cap: int, r_room: int) -> bool {
        match self.verneed_info {
            None => true,
            Some(info) => {
                let total = info.file_name@.len() + 1 + needed_size(info.versions@);
                &&& info.versions@.len() < 0x1_0000
                &&& strings_len + total <= strings_cap
                &&& next + total <= u32::MAX
                &&& VERNEED_SIZE + VERNAUX_SIZE * info.versions@.len() <= r_room
            },
        }
    }

    /// Writes the `DT_NEEDED` entry naming this shared object.
    pub fn write_so_name(&self, table_writer: &mut TableWriter) -> (r: Result<(), WriteError>)
        requires
            old(table_writer).wf(),
        ensures
            final(table_writer).wf(),
            final(table_writer).output_kind == old(table_writer).output_kind,
            old(table_writer).tables_unchanged(*final(table_writer)),
            final(table_writer).tls_start == old(table_writer).tls_start,
            final(table_writer).tls_end == old(table_writer).tls_end,
            *final(table_writer) == (TableWriter {
                dynsym_writer: final(table_writer).dynsym_writer,
                dynamic: final(table_writer).dynamic,
                ..*old(table_writer)
            }),
            final(table_writer).dynsym_writer.strtab_writer.out.capacity == old(table_writer).dynsym_writer.strtab_writer.out.capacity,
            final(table_writer).dynsym_writer.strtab_writer.table == old(table_writer).dynsym_writer.strtab_writer.table,
            r.is_ok() ==> final(table_writer).dynsym_writer.strtab_writer.next_offset == old(table_writer).dynsym_writer.strtab_writer.next_offset
                + self.lib_name@.len() + 1,
            final(table_writer).dynsym_writer == (crate::symtab::SymbolTableWriter {
                strtab_writer: final(table_writer).dynsym_writer.strtab_writer,
                ..old(table_writer).dynsym_writer
            }),
            r.is_ok() == (crate::symtab::str_fits(old(table_writer).dynsym_writer.strtab_writer, self.lib_name@.len())
                && old(table_writer).dynamic.out.room() > 0),
            r.is_ok() ==> final(table_writer).dynamic.out.items@ == old(table_writer).dynamic.out.items@.push(
                crate::dynamic::DynamicEntry {
                    d_tag: DT_NEEDED as u64,
                    d_val: old(table_writer).dynsym_writer.strtab_writer.next_offset as u64,
                },
            ),
            r.is_ok() ==> final(table_writer).dynsym_writer.strtab_writer.out.items@
                == old(table_writer).dynsym_writer.strtab_writer.out.items@ + self.lib_name@ + seq![0u8],
    {
        let offset = table_writer.dynsym_writer.strtab_writer.write_str(self.lib_name.as_slice())?;
        table_writer.dynamic.write(DT_NEEDED, offset as u64)
    }

    /// Writes the COPY relocations of the symbols that need them.
    pub fn write_copy_relocations(&self, table_writer: &mut TableWriter) -> (r: Result<(), WriteError>)
        requires
            old(table_writer).wf(),
        ensures
            final(table_writer).wf(),
            final(table_writer).output_kind == old(table_writer).output_kind,
            did(*old(table_writer), copies_emission(self.copy_relocation_symbols@), *final(table_writer), r),
    {
        let s = &self.copy_relocation_symbols;
        let mut i: usize = 0;
        proof {
            crate::table_writer::lemma_none(*table_writer);
            assert(s@.subrange(0, 0) =~= Seq::<Option<Resolution>>::empty());
        }
        while i < s.len()
            invariant
                i <= s@.len(),
                s@ == self.copy_relocation_symbols@,
                old(table_writer).wf(),
                did(*old(table_writer), copies_emission(s@.subrange(0, i as int)), *table_writer, Ok(())),
            decreases s@.len() - i,
        {
            assert(s@.subrange(0, i + 1).drop_last() =~= s@.subrange(0, i as int));
            let ghost s1 = *table_writer;
            assert(copies_emission(s@.subrange(0, i + 1)) == cat(
                copies_emission(s@.subrange(0, i as int)),
                copy_emission(s@[i as int]),
            ));
            let r = write_copy_relocation_for_symbol(&s[i], table_writer);
            proof {
                crate::table_writer::lemma_seq(
                    *old(table_writer),
                    copies_emission(s@.subrange(0, i as int)),
                    copy_emission(s@[i as int]),
                    s1,
                    *table_writer,
                    r,
                );
            }
            if r.is_err() {
                proof {
                    if old(table_writer).fits(copies_emission(s@)) {
                        lemma_copies_prefix(*old(table_writer), s@, i + 1);
                    }
                }
                return r;
            }
            i = i + 1;
        }
        assert(s@.subrange(0, i as int) =~= s@);
        Ok(())
    }

    /// Writes `.gnu.version_r` for this shared object: one `Verneed` and a
    /// `Vernaux` for each version that output symbols use.
    pub fn write_verneed(&self, table_writer: &mut TableWriter) -> (r: Result<(), WriteError>)
        requires
            old(table_writer).wf(),
        ensures
            final(table_writer).debug_symbol_writer == old(table_writer).debug_symbol_writer,
            final(table_writer).dynsym_writer.global_entries == old(table_writer).dynsym_writer.global_entries,
            final(table_writer).dynsym_writer.local_entries == old(table_writer).dynsym_writer.local_entries,
            final(table_writer).version_writer.versym == old(table_writer).version_writer.versym,
            final(table_writer).wf(),
            final(table_writer).output_kind == old(table_writer).output_kind,
            old(table_writer).tables_unchanged(*final(table_writer)),
            final(table_writer).dynamic == old(table_writer).dynamic,
            self.verneed_info is None ==> r.is_ok() && final(table_writer).version_writer
                == old(table_writer).version_writer,
            self.verneed_info is Some ==> r.is_ok() == self.verneed_fits(
                old(table_writer).dynsym_writer.strtab_writer.out.items@.len() as int,
                old(table_writer).dynsym_writer.strtab_writer.next_offset as int,
                old(table_writer).dynsym_writer.strtab_writer.out.capacity as int,
                old(table_writer).version_writer.version_r.room(),
            ),
            self.verneed_info is Some && r.is_ok() ==> final(table_writer).version_writer.version_r.items@.len()
                == old(table_writer).version_writer.version_r.items@.len() + VERNEED_SIZE + VERNAUX_SIZE
                * self.verneed_info->Some_0.versions@.len(),
    {
        let info = match &self.verneed_info {
            Some(info) => info,
            None => {
                return Ok(());
            },
        };
        let count = info.versions.len();
        if count >= 0x1_0000 {
            return Err(WriteError::InvalidVersion);
        }
        proof {
            lemma_needed_size_prefix(info.versions@, 0);
            assert(info.versions@.subrange(0, 0) =~= Seq::<NeededVersion>::empty());
        }
        let file_offset = table_writer.dynsym_writer.strtab_writer.write_str(info.file_name.as_slice())?;
        assert(info.versions@ == self.verneed_info->Some_0.versions@);
        let mut out: Vec<u8> = Vec::new();
        crate::bytes::push_u16(&mut out, 1);
        crate::bytes::push_u16(&mut out, count as u16);
        crate::bytes::push_u32(&mut out, file_offset);
        crate::bytes::push_u32(&mut out, VERNEED_SIZE);
        crate::bytes::push_u32(
            &mut out,
            if info.is_last {
                0
            } else {
                VERNEED_SIZE + VERNAUX_SIZE * count as u32
            },
        );
        let mut k: usize = 0;
        while k < count
            invariant
                table_writer.debug_symbol_writer == old(table_writer).debug_symbol_writer,
                table_writer.dynsym_writer.global_entries == old(table_writer).dynsym_writer.global_entries,
                table_writer.dynsym_writer.local_entries == old(table_writer).dynsym_writer.local_entries,
                k <= count,
                count == info.versions@.len(),
                count < 0x1_0000,
                table_writer.wf(),
                table_writer.output_kind == old(table_writer).output_kind,
                self.verneed_info is Some,
                table_writer.version_writer == old(table_writer).version_writer,
                old(table_writer).tables_unchanged(*table_writer),
                table_writer.dynamic == old(table_writer).dynamic,
                out@.len() == VERNEED_SIZE + VERNAUX_SIZE * k,
                info.versions@ == self.verneed_info->Some_0.versions@,
                *info == self.verneed_info->Some_0,
                table_writer.dynsym_writer.strtab_writer.out.capacity == old(table_writer).dynsym_writer.strtab_writer.out.capacity,
                table_writer.dynsym_writer.strtab_writer.out.items@.len() == old(table_writer).dynsym_writer.strtab_writer.out.items@.len()
                    + info.file_name@.len() + 1 + needed_size(info.versions@.subrange(0, k as int)),
                table_writer.dynsym_writer.strtab_writer.next_offset == old(table_writer).dynsym_writer.strtab_writer.next_offset
                    + info.file_name@.len() + 1 + needed_size(info.versions@.subrange(0, k as int)),
            decreases count - k,
        {
            let v = &info.versions[k];
            assert(info.versions@.subrange(0, k + 1).drop_last() =~= info.versions@.subrange(0, k as int));
            proof { lemma_needed_size_prefix(info.versions@, k + 1); }
            let name_offset = table_writer.dynsym_writer.strtab_writer.write_str(v.name.as_slice())?;
            crate::bytes::push_u32(&mut out, elf_hash(v.name.as_slice()));
            crate::bytes::push_u16(&mut out, 0);
            crate::bytes::push_u16(&mut out, v.output_version);
            crate::bytes::push_u32(&mut out, name_offset);
            crate::bytes::push_u32(
                &mut out,
                if k + 1 == count {
                    0
                } else {
                    VERNAUX_SIZE
                },
            );
            k = k + 1;
        }
        assert(info.versions@.subrange(0, k as int) =~= info.versions@);
        table_writer.version_writer.take_bytes(out.as_slice())
    }
}

} // verus!
