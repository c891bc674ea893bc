use crate::cursor::Slots;
use crate::error::{Table, WriteError};
use crate::model::OutputKind;
use vstd::prelude::*;

verus! {

pub const DT_NULL: u32 = 0;
pub const DT_NEEDED: u32 = 1;
pub const DT_PLTRELSZ: u32 = 2;
pub const DT_PLTGOT: u32 = 3;
pub const DT_STRTAB: u32 = 5;
pub const DT_SYMTAB: u32 = 6;
pub const DT_RELA: u32 = 7;
pub const DT_RELASZ: u32 = 8;
pub const DT_RELAENT: u32 = 9;
pub const DT_STRSZ: u32 = 10;
pub const DT_SYMENT: u32 = 11;
pub const DT_INIT: u32 = 12;
pub const DT_FINI: u32 = 13;
pub const DT_SONAME: u32 = 14;
pub const DT_PLTREL: u32 = 20;
pub const DT_DEBUG: u32 = 21;
pub const DT_JMPREL: u32 = 23;
pub const DT_INIT_ARRAY: u32 = 25;
pub const DT_FINI_ARRAY: u32 = 26;
pub const DT_INIT_ARRAYSZ: u32 = 27;
pub const DT_FINI_ARRAYSZ: u32 = 28;
pub const DT_RUNPATH: u32 = 29;
pub const DT_FLAGS: u32 = 30;
pub const DT_GNU_HASH: u32 = 0x6fff_fef5;
pub const DT_VERSYM: u32 = 0x6fff_fff0;
pub const DT_RELACOUNT: u32 = 0x6fff_fff9;
pub const DT_FLAGS_1: u32 = 0x6fff_fffb;
pub const DT_VERDEF: u32 = 0x6fff_fffc;
pub const DT_VERDEFNUM: u32 = 0x6fff_fffd;
pub const DT_VERNEED: u32 = 0x6fff_fffe;
pub const DT_VERNEEDNUM: u32 = 0x6fff_ffff;

pub const DF_BIND_NOW: u64 = 0x8;
pub const DF_STATIC_TLS: u64 = 0x10;
pub const DF_1_NOW: u64 = 0x1;
pub const DF_1_PIE: u64 = 0x0800_0000;

pub const SYMTAB_ENTRY_SIZE: u64 = 24;
pub const RELA_ENTRY_SIZE: u64 = 24;

/// The number of `.dynamic` slots that the epilogue's entry table needs.
pub const NUM_EPILOGUE_DYNAMIC_ENTRIES: usize = 28;

/// A `Elf64_Dyn` record.
#[derive(Clone, Copy, Debug, PartialEq, Eq, Structural)]
pub struct DynamicEntry {
    pub d_tag: u64,
    pub d_val: u64,
}

/// Address and sizes of an output section or part.
#[derive(Clone, Copy, Debug, PartialEq, Eq, Structural)]
pub struct OutputRecordLayout {
    pub file_size: usize,
    pub mem_size: u64,
    pub alignment: u64,
    pub file_offset: usize,
    pub mem_offset: u64,
}

/// The output sections that `.dynamic` entries refer to.
#[derive(Clone, Copy, Debug, PartialEq, Eq, Structural)]
pub enum DynSection {
    Init,
    Fini,
    InitArray,
    FiniArray,
    Dynstr,
    Dynsym,
    GnuVersionD,
    GnuVersionR,
    GnuVersion,
    RelaPlt,
    Got,
    RelaDyn,
    GnuHash,
}

/// The section parts whose sizes `.dynamic` entries depend on.
#[derive(Clone, Copy, Debug, PartialEq, Eq, Structural)]
pub enum DynPart {
    GnuVersionD,
    GnuVersionR,
    GnuVersion,
    RelaPlt,
    RelaDynRelative,
    RelaDynGeneral,
}

/// Layouts of the sections that `.dynamic` describes.
#[derive(Clone, Copy, Debug, PartialEq, Eq, Structural)]
pub struct DynamicSectionLayouts {
    pub init: OutputRecordLayout,
    pub fini: OutputRecordLayout,
    pub init_array: OutputRecordLayout,
    pub fini_array: OutputRecordLayout,
    pub dynstr: OutputRecordLayout,
    pub dynsym: OutputRecordLayout,
    pub gnu_version_d: OutputRecordLayout,
    pub gnu_version_r: OutputRecordLayout,
    pub gnu_version: OutputRecordLayout,
    pub rela_plt: OutputRecordLayout,
    pub got: OutputRecordLayout,
    pub rela_dyn: OutputRecordLayout,
    pub gnu_hash: OutputRecordLayout,
}

/// Memory sizes of the parts that `.dynamic` entries depend on.
#[derive(Clone, Copy, Debug, PartialEq, Eq, Structural)]
pub struct DynamicPartSizes {
    pub gnu_version_d: u64,
    pub gnu_version_r: u64,
    pub gnu_version: u64,
    pub rela_plt: u64,
    pub rela_dyn_relative: u64,
    pub rela_dyn_general: u64,
}

/// Everything the `.dynamic` entries are computed from.
#[derive(Clone, Copy, Debug, PartialEq, Eq, Structural)]
pub struct DynamicEntryInputs {
    pub output_kind: OutputKind,
    pub needs_dynamic: bool,
    pub has_static_tls: bool,
    pub section_layouts: DynamicSectionLayouts,
    pub part_sizes: DynamicPartSizes,
    pub verdef_count: u16,
    pub verneed_count: u64,
}

pub open spec fn section_layout(inputs: DynamicEntryInputs, s: DynSection) -> OutputRecordLayout {
    let l = inputs.section_layouts;
    match s {
        DynSection::Init => l.init,
        DynSection::Fini => l.fini,
        DynSection::InitArray => l.init_array,
        DynSection::FiniArray => l.fini_array,
        DynSection::Dynstr => l.dynstr,
        DynSection::Dynsym => l.dynsym,
        DynSection::GnuVersionD => l.gnu_version_d,
        DynSection::GnuVersionR => l.gnu_version_r,
        DynSection::GnuVersion => l.gnu_version,
        DynSection::RelaPlt => l.rela_plt,
        DynSection::Got => l.got,
        DynSection::RelaDyn => l.rela_dyn,
        DynSection::GnuHash => l.gnu_hash,
    }
}

pub open spec fn part_size(inputs: DynamicEntryInputs, p: DynPart) -> u64 {
    let s = inputs.part_sizes;
    match p {
        DynPart::GnuVersionD => s.gnu_version_d,
        DynPart::GnuVersionR => s.gnu_version_r,
        DynPart::GnuVersion => s.gnu_version,
        DynPart::RelaPlt => s.rela_plt,
        DynPart::RelaDynRelative => s.rela_dyn_relative,
        DynPart::RelaDynGeneral => s.rela_dyn_general,
    }
}

pub open spec fn flags_value(inputs: DynamicEntryInputs) -> u64 {
    if !inputs.output_kind.executable() && inputs.has_static_tls {
        DF_BIND_NOW | DF_STATIC_TLS
    } else {
        DF_BIND_NOW
    }
}

pub open spec fn flags_1_value(inputs: DynamicEntryInputs) -> u64 {
    if inputs.output_kind.executable() && inputs.output_kind.relocatable() {
        DF_1_NOW | DF_1_PIE
    } else {
        DF_1_NOW
    }
}

impl DynamicEntryInputs {
    /// `DT_FLAGS`: bind-now always, static TLS for a shared object that uses
    /// it.
    pub fn dt_flags(&self) -> (r: u64)
        ensures
            r == flags_value(*self),
    {
        let mut flags: u64 = DF_BIND_NOW;
        if !self.output_kind.is_executable() && self.has_static_tls {
            flags = flags | DF_STATIC_TLS;
        }
        flags
    }

    /// `DT_FLAGS_1`: now always, PIE for a relocatable executable.
    pub fn dt_flags_1(&self) -> (r: u64)
        ensures
            r == flags_1_value(*self),
    {
        let mut flags: u64 = DF_1_NOW;
        if self.output_kind.is_executable() && self.output_kind.is_relocatable() {
            flags = flags | DF_1_PIE;
        }
        flags
    }

    fn layout_of(&self, section: DynSection) -> (r: OutputRecordLayout)
        ensures
            r == section_layout(*self, section),
    {
        let l = &self.section_layouts;
        match section {
            DynSection::Init => l.init,
            DynSection::Fini => l.fini,
            DynSection::InitArray => l.init_array,
            DynSection::FiniArray => l.fini_array,
            DynSection::Dynstr => l.dynstr,
            DynSection::Dynsym => l.dynsym,
            DynSection::GnuVersionD => l.gnu_version_d,
            DynSection::GnuVersionR => l.gnu_version_r,
            DynSection::GnuVersion => l.gnu_version,
            DynSection::RelaPlt => l.rela_plt,
            DynSection::Got => l.got,
            DynSection::RelaDyn => l.rela_dyn,
            DynSection::GnuHash => l.gnu_hash,
        }
    }

    fn size_of_part(&self, part: DynPart) -> (r: u64)
        ensures
            r == part_size(*self, part),
    {
        let s = &self.part_sizes;
        match part {
            DynPart::GnuVersionD => s.gnu_version_d,
            DynPart::GnuVersionR => s.gnu_version_r,
            DynPart::GnuVersion => s.gnu_version,
            DynPart::RelaPlt => s.rela_plt,
            DynPart::RelaDynRelative => s.rela_dyn_relative,
            DynPart::RelaDynGeneral => s.rela_dyn_general,
        }
    }

    /// The address of a section.
    pub fn vma_of_section(&self, section: DynSection) -> (r: u64)
        ensures
            r == section_layout(*self, section).mem_offset,
    {
        self.layout_of(section).mem_offset
    }

    /// The size of a section in the file.
    pub fn size_of_section(&self, section: DynSection) -> (r: u64)
        ensures
            r == section_layout(*self, section).file_size,
    {
        self.layout_of(section).file_size as u64
    }

    /// Whether a section has bytes in the file.
    pub fn has_data_in_section(&self, section: DynSection) -> (r: bool)
        ensures
            r == (section_layout(*self, section).file_size > 0),
    {
        self.size_of_section(section) > 0
    }
}

/// Whether there are dynamic relocations other than those of `.rela.plt`.
pub open spec fn rela_dyn_present(inputs: DynamicEntryInputs) -> bool {
    inputs.part_sizes.rela_dyn_relative > 0 || inputs.part_sizes.rela_dyn_general > 0
}

/// Whether there are dynamic relocations other than those of `.rela.plt`.
pub fn has_rela_dyn(inputs: &DynamicEntryInputs) -> (r: bool)
    ensures
        r == rela_dyn_present(*inputs),
{
    inputs.part_sizes.rela_dyn_relative > 0 || inputs.part_sizes.rela_dyn_general > 0
}

/// When a `.dynamic` entry is written.
#[derive(Clone, Copy, Debug, PartialEq, Eq, Structural)]
pub enum Presence {
    Always,
    HasData(DynSection),
    PartNonEmpty(DynPart),
    NotSharedObject,
    NeedsDynamic,
    HasRelaDyn,
    FlagsNonZero,
    Flags1NonZero,
}

/// What a `.dynamic` entry holds.
#[derive(Clone, Copy, Debug, PartialEq, Eq, Structural)]
pub enum EntryValue {
    Vma(DynSection),
    Size(DynSection),
    PartSize(DynPart),
    Constant(u64),
    VerdefCount,
    VerneedCount,
    RelativeCount,
    Flags,
    Flags1,
}

/// One entry of the `.dynamic` table: its tag, when it is present, and
/// what it holds.
#[derive(Clone, Copy, Debug, PartialEq, Eq, Structural)]
pub struct DynamicEntryWriter {
    pub tag: u32,
    pub presence: Presence,
    pub value: EntryValue,
}

pub open spec fn present(p: Presence, inputs: DynamicEntryInputs) -> bool {
    match p {
        Presence::Always => true,
        Presence::HasData(s) => section_layout(inputs, s).file_size > 0,
        Presence::PartNonEmpty(part) => part_size(inputs, part) > 0,
        Presence::NotSharedObject => !(inputs.output_kind is SharedObject),
        Presence::NeedsDynamic => inputs.needs_dynamic,
        Presence::HasRelaDyn => rela_dyn_present(inputs),
        Presence::FlagsNonZero => flags_value(inputs) != 0,
        Presence::Flags1NonZero => flags_1_value(inputs) != 0,
    }
}

pub open spec fn entry_value(v: EntryValue, inputs: DynamicEntryInputs) -> u64 {
    match v {
        EntryValue::Vma(s) => section_layout(inputs, s).mem_offset,
        EntryValue::Size(s) => section_layout(inputs, s).file_size as u64,
        EntryValue::PartSize(part) => part_size(inputs, part),
        EntryValue::Constant(c) => c,
        EntryValue::VerdefCount => inputs.verdef_count as u64,
        EntryValue::VerneedCount => inputs.verneed_count,
        EntryValue::RelativeCount => inputs.part_sizes.rela_dyn_relative / RELA_ENTRY_SIZE,
        EntryValue::Flags => flags_value(inputs),
        EntryValue::Flags1 => flags_1_value(inputs),
    }
}

impl DynamicEntryWriter {
    /// An entry that is always written.
    pub fn new(tag: u32, value: EntryValue) -> (r: DynamicEntryWriter)
        ensures
            r == (DynamicEntryWriter { tag, presence: Presence::Always, value }),
    {
        DynamicEntryWriter { tag, presence: Presence::Always, value }
    }

    /// An entry that is written only when `presence` holds.
    pub fn optional(tag: u32, presence: Presence, value: EntryValue) -> (r: DynamicEntryWriter)
        ensures
            r == (DynamicEntryWriter { tag, presence, value }),
    {
        DynamicEntryWriter { tag, presence, value }
    }

    /// Whether this entry is written for `inputs`.
    pub fn is_present(&self, inputs: &DynamicEntryInputs) -> (r: bool)
        ensures
            r == present(self.presence, *inputs),
    {
        match self.presence {
            Presence::Always => true,
            Presence::HasData(s) => inputs.has_data_in_section(s),
            Presence::PartNonEmpty(part) => inputs.size_of_part(part) > 0,
            Presence::NotSharedObject => !matches!(inputs.output_kind, OutputKind::SharedObject),
            Presence::NeedsDynamic => inputs.needs_dynamic,
            Presence::HasRelaDyn => has_rela_dyn(inputs),
            Presence::FlagsNonZero => inputs.dt_flags() != 0,
            Presence::Flags1NonZero => inputs.dt_flags_1() != 0,
        }
    }

    /// What this entry holds for `inputs`.
    pub fn value_for(&self, inputs: &DynamicEntryInputs) -> (r: u64)
        ensures
            r == entry_value(self.value, *inputs),
    {
        match self.value {
            EntryValue::Vma(s) => inputs.vma_of_section(s),
            EntryValue::Size(s) => inputs.size_of_section(s),
            EntryValue::PartSize(part) => inputs.size_of_part(part),
            EntryValue::Constant(c) => c,
            EntryValue::VerdefCount => inputs.verdef_count as u64,
            EntryValue::VerneedCount => inputs.verneed_count,
            EntryValue::RelativeCount => inputs.part_sizes.rela_dyn_relative / RELA_ENTRY_SIZE,
            EntryValue::Flags => inputs.dt_flags(),
            EntryValue::Flags1 => inputs.dt_flags_1(),
        }
    }

    /// Writes this entry when it is present.
    pub fn write(&self, out: &mut DynamicEntriesWriter, inputs: &DynamicEntryInputs) -> (r: Result<(), WriteError>)
        requires
            old(out).out.wf(),
        ensures
            final(out).out.wf(),
            final(out).out.capacity == old(out).out.capacity,
            r.is_ok() == (!present(self.presence, *inputs) || old(out).out.room() > 0),
            r.is_ok() ==> final(out).out.items@ == old(out).out.items@ + emitted_one(*self, *inputs),
            r.is_err() ==> final(out).out.items@ == old(out).out.items@ && r == Err::<(), WriteError>(
                WriteError::InsufficientAllocation { table: Table::Dynamic },
            ),
    {
        if !self.is_present(inputs) {
            assert(emitted_one(*self, *inputs) =~= Seq::<DynamicEntry>::empty());
            assert(out.out.items@ =~= old(out).out.items@ + emitted_one(*self, *inputs));
            return Ok(());
        }
        let value = self.value_for(inputs);
        let r = out.write(self.tag, value);
        assert(r.is_ok() ==> out.out.items@ =~= old(out).out.items@ + emitted_one(*self, *inputs));
        r
    }
}

/// The record that `w` contributes for `inputs`: none when it is absent.
pub open spec fn emitted_one(w: DynamicEntryWriter, inputs: DynamicEntryInputs) -> Seq<DynamicEntry> {
    if present(w.presence, inputs) {
        seq![DynamicEntry { d_tag: w.tag as u64, d_val: entry_value(w.value, inputs) }]
    } else {
        seq![]
    }
}

/// The records that a table of entries contributes, in table order.
pub open spec fn emitted(ws: Seq<DynamicEntryWriter>, inputs: DynamicEntryInputs) -> Seq<DynamicEntry>
    decreases ws.len(),
{
    if ws.len() == 0 {
        seq![]
    } else {
        emitted(ws.drop_last(), inputs) + emitted_one(ws.last(), inputs)
    }
}

/// A cursor over `.dynamic`.
pub struct DynamicEntriesWriter {
    pub out: Slots<DynamicEntry>,
}

impl DynamicEntriesWriter {
    /// A cursor over `count` entries.
    pub fn new(count: usize) -> (r: DynamicEntriesWriter)
        ensures
            r.out.wf(),
            r.out.items@.len() == 0,
            r.out.capacity == count,
    {
        DynamicEntriesWriter { out: Slots::new(count) }
    }

    /// Writes the next entry.
    pub fn write(&mut self, tag: u32, value: u64) -> (r: Result<(), WriteError>)
        requires
            old(self).out.wf(),
        ensures
            final(self).out.wf(),
            final(self).out.capacity == old(self).out.capacity,
            r.is_ok() == (old(self).out.room() > 0),
            r.is_ok() ==> final(self).out.items@ == old(self).out.items@.push(
                DynamicEntry { d_tag: tag as u64, d_val: value },
            ),
            r.is_err() ==> final(self).out.items@ == old(self).out.items@ && r == Err::<(), WriteError>(
                WriteError::InsufficientAllocation { table: Table::Dynamic },
            ),
    {
        self.out.take(DynamicEntry { d_tag: tag as u64, d_val: value }, Table::Dynamic)
    }
}

/// The `.dynamic` entries that the epilogue writes, in order. Layout
/// allocates one slot for each.
pub open spec fn epilogue_table() -> Seq<DynamicEntryWriter> {
    seq![
        DynamicEntryWriter { tag: DT_INIT, presence: Presence::HasData(DynSection::Init), value: EntryValue::Vma(DynSection::Init) },
        DynamicEntryWriter { tag: DT_FINI, presence: Presence::HasData(DynSection::Fini), value: EntryValue::Vma(DynSection::Fini) },
        DynamicEntryWriter { tag: DT_INIT_ARRAY, presence: Presence::HasData(DynSection::InitArray), value: EntryValue::Vma(DynSection::InitArray) },
        DynamicEntryWriter { tag: DT_INIT_ARRAYSZ, presence: Presence::HasData(DynSection::InitArray), value: EntryValue::Size(DynSection::InitArray) },
        DynamicEntryWriter { tag: DT_FINI_ARRAY, presence: Presence::HasData(DynSection::FiniArray), value: EntryValue::Vma(DynSection::FiniArray) },
        DynamicEntryWriter { tag: DT_FINI_ARRAYSZ, presence: Presence::HasData(DynSection::FiniArray), value: EntryValue::Size(DynSection::FiniArray) },
        DynamicEntryWriter { tag: DT_STRTAB, presence: Presence::Always, value: EntryValue::Vma(DynSection::Dynstr) },
        DynamicEntryWriter { tag: DT_STRSZ, presence: Presence::Always, value: EntryValue::Size(DynSection::Dynstr) },
        DynamicEntryWriter { tag: DT_SYMTAB, presence: Presence::Always, value: EntryValue::Vma(DynSection::Dynsym) },
        DynamicEntryWriter { tag: DT_SYMENT, presence: Presence::Always, value: EntryValue::Constant(SYMTAB_ENTRY_SIZE) },
        DynamicEntryWriter { tag: DT_VERDEF, presence: Presence::PartNonEmpty(DynPart::GnuVersionD), value: EntryValue::Vma(DynSection::GnuVersionD) },
        DynamicEntryWriter { tag: DT_VERDEFNUM, presence: Presence::PartNonEmpty(DynPart::GnuVersionD), value: EntryValue::VerdefCount },
        DynamicEntryWriter { tag: DT_VERNEED, presence: Presence::PartNonEmpty(DynPart::GnuVersionR), value: EntryValue::Vma(DynSection::GnuVersionR) },
        DynamicEntryWriter { tag: DT_VERNEEDNUM, presence: Presence::PartNonEmpty(DynPart::GnuVersionR), value: EntryValue::VerneedCount },
        DynamicEntryWriter { tag: DT_VERSYM, presence: Presence::PartNonEmpty(DynPart::GnuVersion), value: EntryValue::Vma(DynSection::GnuVersion) },
        DynamicEntryWriter { tag: DT_DEBUG, presence: Presence::NotSharedObject, value: EntryValue::Constant(0) },
        DynamicEntryWriter { tag: DT_JMPREL, presence: Presence::PartNonEmpty(DynPart::RelaPlt), value: EntryValue::Vma(DynSection::RelaPlt) },
        DynamicEntryWriter { tag: DT_PLTGOT, presence: Presence::NeedsDynamic, value: EntryValue::Vma(DynSection::Got) },
        DynamicEntryWriter { tag: DT_PLTREL, presence: Presence::PartNonEmpty(DynPart::RelaPlt), value: EntryValue::Constant(DT_RELA as u64) },
        DynamicEntryWriter { tag: DT_PLTRELSZ, presence: Presence::PartNonEmpty(DynPart::RelaPlt), value: EntryValue::PartSize(DynPart::RelaPlt) },
        DynamicEntryWriter { tag: DT_RELA, presence: Presence::HasRelaDyn, value: EntryValue::Vma(DynSection::RelaDyn) },
        DynamicEntryWriter { tag: DT_RELASZ, presence: Presence::HasRelaDyn, value: EntryValue::Size(DynSection::RelaDyn) },
        DynamicEntryWriter { tag: DT_RELAENT, presence: Presence::HasRelaDyn, value: EntryValue::Constant(RELA_ENTRY_SIZE) },
        DynamicEntryWriter { tag: DT_RELACOUNT, presence: Presence::Always, value: EntryValue::RelativeCount },
        DynamicEntryWriter { tag: DT_GNU_HASH, presence: Presence::Always, value: EntryValue::Vma(DynSection::GnuHash) },
        DynamicEntryWriter { tag: DT_FLAGS, presence: Presence::FlagsNonZero, value: EntryValue::Flags },
        DynamicEntryWriter { tag: DT_FLAGS_1, presence: Presence::Flags1NonZero, value: EntryValue::Flags1 },
        DynamicEntryWriter { tag: DT_NULL, presence: Presence::Always, value: EntryValue::Constant(0) },
    ]
}

/// The `.dynamic` entries that the epilogue writes, in order.
pub fn epilogue_dynamic_entry_writers() -> (r: Vec<DynamicEntryWriter>)
    ensures
        r@ == epilogue_table(),
{
    let r = vec![
        DynamicEntryWriter::optional(DT_INIT, Presence::HasData(DynSection::Init), EntryValue::Vma(DynSection::Init)),
        DynamicEntryWriter::optional(DT_FINI, Presence::HasData(DynSection::Fini), EntryValue::Vma(DynSection::Fini)),
        DynamicEntryWriter::optional(DT_INIT_ARRAY, Presence::HasData(DynSection::InitArray), EntryValue::Vma(DynSection::InitArray)),
        DynamicEntryWriter::optional(DT_INIT_ARRAYSZ, Presence::HasData(DynSection::InitArray), EntryValue::Size(DynSection::InitArray)),
        DynamicEntryWriter::optional(DT_FINI_ARRAY, Presence::HasData(DynSection::FiniArray), EntryValue::Vma(DynSection::FiniArray)),
        DynamicEntryWriter::optional(DT_FINI_ARRAYSZ, Presence::HasData(DynSection::FiniArray), EntryValue::Size(DynSection::FiniArray)),
        DynamicEntryWriter::new(DT_STRTAB, EntryValue::Vma(DynSection::Dynstr)),
        DynamicEntryWriter::new(DT_STRSZ, EntryValue::Size(DynSection::Dynstr)),
        DynamicEntryWriter::new(DT_SYMTAB, EntryValue::Vma(DynSection::Dynsym)),
        DynamicEntryWriter::new(DT_SYMENT, EntryValue::Constant(SYMTAB_ENTRY_SIZE)),
        DynamicEntryWriter::optional(DT_VERDEF, Presence::PartNonEmpty(DynPart::GnuVersionD), EntryValue::Vma(DynSection::GnuVersionD)),
        DynamicEntryWriter::optional(DT_VERDEFNUM, Presence::PartNonEmpty(DynPart::GnuVersionD), EntryValue::VerdefCount),
        DynamicEntryWriter::optional(DT_VERNEED, Presence::PartNonEmpty(DynPart::GnuVersionR), EntryValue::Vma(DynSection::GnuVersionR)),
        DynamicEntryWriter::optional(DT_VERNEEDNUM, Presence::PartNonEmpty(DynPart::GnuVersionR), EntryValue::VerneedCount),
        DynamicEntryWriter::optional(DT_VERSYM, Presence::PartNonEmpty(DynPart::GnuVersion), EntryValue::Vma(DynSection::GnuVersion)),
        DynamicEntryWriter::optional(DT_DEBUG, Presence::NotSharedObject, EntryValue::Constant(0)),
        DynamicEntryWriter::optional(DT_JMPREL, Presence::PartNonEmpty(DynPart::RelaPlt), EntryValue::Vma(DynSection::RelaPlt)),
        DynamicEntryWriter::optional(DT_PLTGOT, Presence::NeedsDynamic, EntryValue::Vma(DynSection::Got)),
        DynamicEntryWriter::optional(DT_PLTREL, Presence::PartNonEmpty(DynPart::RelaPlt), EntryValue::Constant(DT_RELA as u64)),
        DynamicEntryWriter::optional(DT_PLTRELSZ, Presence::PartNonEmpty(DynPart::RelaPlt), EntryValue::PartSize(DynPart::RelaPlt)),
        DynamicEntryWriter::optional(DT_RELA, Presence::HasRelaDyn, EntryValue::Vma(DynSection::RelaDyn)),
        DynamicEntryWriter::optional(DT_RELASZ, Presence::HasRelaDyn, EntryValue::Size(DynSection::RelaDyn)),
        DynamicEntryWriter::optional(DT_RELAENT, Presence::HasRelaDyn, EntryValue::Constant(RELA_ENTRY_SIZE)),
        DynamicEntryWriter::new(DT_RELACOUNT, EntryValue::RelativeCount),
        DynamicEntryWriter::new(DT_GNU_HASH, EntryValue::Vma(DynSection::GnuHash)),
        DynamicEntryWriter::optional(DT_FLAGS, Presence::FlagsNonZero, EntryValue::Flags),
        DynamicEntryWriter::optional(DT_FLAGS_1, Presence::Flags1NonZero, EntryValue::Flags1),
        DynamicEntryWriter::new(DT_NULL, EntryValue::Constant(0)),
    ];
    assert(r@ =~= epilogue_table());
    r
}

proof fn lemma_emitted_prefix(ws: Seq<DynamicEntryWriter>, i: int, inputs: DynamicEntryInputs)
    requires
        0 <= i < ws.len(),
    ensures
        emitted(ws.subrange(0, i + 1), inputs) == emitted(ws.subrange(0, i), inputs) + emitted_one(
            ws[i],
            inputs,
        ),
{
    assert(ws.subrange(0, i + 1).drop_last() =~= ws.subrange(0, i));
}

/// A table contributes at most one record per entry, and never fewer
/// records than any prefix of it.
pub proof fn lemma_emitted_len(ws: Seq<DynamicEntryWriter>, i: int, inputs: DynamicEntryInputs)
    requires
        0 <= i <= ws.len(),
    ensures
        emitted(ws.subrange(0, i), inputs).len() <= emitted(ws, inputs).len() <= ws.len(),
    decreases ws.len(),
{
    if ws.len() > 0 {
        if i == ws.len() {
            assert(ws.subrange(0, i) =~= ws);
            lemma_emitted_len(ws.drop_last(), 0, inputs);
        } else {
            assert(ws.drop_last().subrange(0, i) =~= ws.subrange(0, i));
            lemma_emitted_len(ws.drop_last(), i, inputs);
        }
    } else {
        assert(ws.subrange(0, i) =~= ws);
    }
}

/// Writes each present entry of `writers`, in order.
pub fn write_dynamic_entries(
    writers: &Vec<DynamicEntryWriter>,
    out: &mut DynamicEntriesWriter,
    inputs: &DynamicEntryInputs,
) -> (r: Result<(), WriteError>)
    requires
        old(out).out.wf(),
    ensures
        final(out).out.wf(),
        final(out).out.capacity == old(out).out.capacity,
        r.is_ok() == (emitted(writers@, *inputs).len() <= old(out).out.room()),
        r.is_ok() ==> final(out).out.items@ == old(out).out.items@ + emitted(writers@, *inputs),
{
    let mut i: usize = 0;
    assert(writers@.subrange(0, 0) =~= Seq::<DynamicEntryWriter>::empty());
    assert(out.out.items@ =~= old(out).out.items@ + emitted(writers@.subrange(0, 0), *inputs));
    while i < writers.len()
        invariant
            0 <= i <= writers@.len(),
            out.out.wf(),
            out.out.capacity == old(out).out.capacity,
            out.out.items@ == old(out).out.items@ + emitted(writers@.subrange(0, i as int), *inputs),
        decreases writers@.len() - i,
    {
        proof {
            lemma_emitted_prefix(writers@, i as int, *inputs);
        }
        let r = writers[i].write(out, inputs);
        if r.is_err() {
            proof {
                lemma_emitted_len(writers@, i as int + 1, *inputs);
            }
            return r;
        }
        i = i + 1;
        assert(out.out.items@ =~= old(out).out.items@ + emitted(writers@.subrange(0, i as int), *inputs));
    }
    assert(writers@.subrange(0, i as int) =~= writers@);
    Ok(())
}

/// The epilogue's `.dynamic` records keep the table's order, skip absent
/// entries, fit the slots that layout allocates (one per table entry), and
/// end with `DT_NULL`, which appears nowhere else.
pub proof fn lemma_dynamic_table_order(inputs: DynamicEntryInputs)
    ensures
        emitted(epilogue_table(), inputs).len() <= NUM_EPILOGUE_DYNAMIC_ENTRIES,
        emitted(epilogue_table(), inputs).len() > 0,
        emitted(epilogue_table(), inputs).last() == (DynamicEntry { d_tag: DT_NULL as u64, d_val: 0 }),
        forall|i: int|
            0 <= i < emitted(epilogue_table(), inputs).len() - 1 ==> #[trigger] emitted(
                epilogue_table(),
                inputs,
            )[i].d_tag != DT_NULL as u64,
{
    let t = epilogue_table();
    lemma_emitted_len(t, 0, inputs);
    reveal_with_fuel(emitted, 30);
    let e = emitted(t, inputs);
    let p = emitted(t.drop_last(), inputs);
    assert(e == p + seq![DynamicEntry { d_tag: DT_NULL as u64, d_val: 0 }]);
    assert forall|i: int| 0 <= i < p.len() implies #[trigger] p[i].d_tag != DT_NULL as u64 by {
        lemma_no_null(t.drop_last(), inputs, i);
    }
    assert forall|i: int| 0 <= i < e.len() - 1 implies #[trigger] e[i].d_tag != DT_NULL as u64 by {
        assert(e[i] == p[i]);
    }
}

proof fn lemma_no_null(ws: Seq<DynamicEntryWriter>, inputs: DynamicEntryInputs, i: int)
    requires
        forall|j: int| 0 <= j < ws.len() ==> #[trigger] ws[j].tag != DT_NULL,
        0 <= i < emitted(ws, inputs).len(),
    ensures
        emitted(ws, inputs)[i].d_tag != DT_NULL as u64,
    decreases ws.len(),
{
    let p = emitted(ws.drop_last(), inputs);
    if i < p.len() {
        assert(emitted(ws, inputs)[i] == p[i]);
        lemma_no_null(ws.drop_last(), inputs, i);
    } else {
        assert(ws[ws.len() - 1].tag != DT_NULL);
    }
}

} // verus!
