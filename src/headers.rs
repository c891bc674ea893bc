use crate::bytes::{le16, le32, le64};
use crate::cursor::Slots;
use crate::error::{Table, WriteError};
use crate::model::OutputKind;
use vstd::prelude::*;

verus! {

pub const FILE_HEADER_SIZE: u16 = 64;
pub const PROGRAM_HEADER_SIZE: u16 = 56;
pub const SECTION_HEADER_SIZE: u16 = 64;
pub const ET_EXEC: u16 = 2;
pub const ET_DYN: u16 = 3;
pub const EM_X86_64: u16 = 62;
pub const PT_LOAD: u32 = 1;
pub const PT_GNU_STACK: u32 = 0x6474_e551;
pub const PF_X: u32 = 1;
pub const SHT_NULL: u32 = 0;
pub const SHF_COMPRESSED: u64 = 0x800;

/// What the ELF file header records about the output.
#[derive(Clone, Copy, Debug, PartialEq, Eq, Structural)]
pub struct HeaderInfo {
    pub output_kind: OutputKind,
    pub machine: u16,
    /// The entry symbol's address; `None` when it is unresolved.
    pub entry_address: Option<u64>,
    pub program_headers_size: u64,
    pub num_segments: u16,
    pub num_sections: u16,
    pub shstrtab_index: u16,
}

/// The ELF64 little-endian file header.
pub open spec fn file_header_bytes(h: HeaderInfo) -> Seq<u8> {
    let ty = if h.output_kind.relocatable() {
        ET_DYN
    } else {
        ET_EXEC
    };
    seq![0x7fu8, 0x45, 0x4c, 0x46, 2, 1, 1, 0, 0, 0, 0, 0, 0, 0, 0, 0] + le16(ty) + le16(h.machine)
        + le32(1) + le64(h.entry_address->Some_0) + le64(64) + le64(
        (64 + h.program_headers_size) as u64,
    ) + le32(0) + le16(FILE_HEADER_SIZE) + le16(PROGRAM_HEADER_SIZE) + le16(h.num_segments) + le16(
        SECTION_HEADER_SIZE,
    ) + le16(h.num_sections) + le16(h.shstrtab_index)
}

/// Writes the file header: class 64, little endian, no OS ABI, `ET_DYN`
/// for relocatable output and `ET_EXEC` otherwise, program headers right
/// after it and section headers right after those.
pub fn populate_file_header(h: &HeaderInfo) -> (r: Result<Vec<u8>, WriteError>)
    requires
        h.program_headers_size <= u64::MAX - 64,
    ensures
        r.is_ok() == (h.entry_address is Some),
        r is Err ==> r == Err::<Vec<u8>, WriteError>(WriteError::MissingEntrySymbol),
        r.is_ok() ==> r->Ok_0@ == file_header_bytes(*h) && r->Ok_0@.len() == 64,
{
    let entry = match h.entry_address {
        Some(a) => a,
        None => {
            return Err(WriteError::MissingEntrySymbol);
        },
    };
    let ty = if h.output_kind.is_relocatable() {
        ET_DYN
    } else {
        ET_EXEC
    };
    let mut r: Vec<u8> = vec![0x7fu8, 0x45, 0x4c, 0x46, 2, 1, 1, 0, 0, 0, 0, 0, 0, 0, 0, 0];
    crate::bytes::push_u16(&mut r, ty);
    crate::bytes::push_u16(&mut r, h.machine);
    crate::bytes::push_u32(&mut r, 1);
    crate::bytes::push_u64(&mut r, entry);
    crate::bytes::push_u64(&mut r, 64);
    crate::bytes::push_u64(&mut r, 64 + h.program_headers_size);
    crate::bytes::push_u32(&mut r, 0);
    crate::bytes::push_u16(&mut r, FILE_HEADER_SIZE);
    crate::bytes::push_u16(&mut r, PROGRAM_HEADER_SIZE);
    crate::bytes::push_u16(&mut r, h.num_segments);
    crate::bytes::push_u16(&mut r, SECTION_HEADER_SIZE);
    crate::bytes::push_u16(&mut r, h.num_sections);
    crate::bytes::push_u16(&mut r, h.shstrtab_index);
    assert(r@ =~= file_header_bytes(*h));
    Ok(r)
}

/// Where layout placed a segment.
#[derive(Clone, Copy, Debug, PartialEq, Eq, Structural)]
pub struct SegmentLayout {
    pub segment_type: u32,
    pub segment_flags: u32,
    pub file_offset: usize,
    pub file_size: usize,
    pub mem_offset: u64,
    pub mem_size: u64,
    pub alignment: u64,
}

/// A `Elf64_Phdr` record.
#[derive(Clone, Copy, Debug, PartialEq, Eq, Structural)]
pub struct ProgramHeader {
    pub p_type: u32,
    pub p_flags: u32,
    pub p_offset: u64,
    pub p_vaddr: u64,
    pub p_paddr: u64,
    pub p_filesz: u64,
    pub p_memsz: u64,
    pub p_align: u64,
}

/// The program header of a segment: loadable segments aligned to at least
/// `min_load_alignment`, and the stack executable only when asked for.
pub open spec fn program_header(s: SegmentLayout, execstack: bool, min_load_alignment: u64) -> ProgramHeader {
    ProgramHeader {
        p_type: s.segment_type,
        p_flags: if s.segment_type == PT_GNU_STACK && execstack {
            s.segment_flags | PF_X
        } else {
            s.segment_flags
        },
        p_offset: s.file_offset as u64,
        p_vaddr: s.mem_offset,
        p_paddr: s.mem_offset,
        p_filesz: s.file_size as u64,
        p_memsz: s.mem_size,
        p_align: if s.segment_type == PT_LOAD && s.alignment < min_load_alignment {
            min_load_alignment
        } else {
            s.alignment
        },
    }
}

/// A cursor over the program-header table.
pub struct ProgramHeaderWriter {
    pub headers: Slots<ProgramHeader>,
}

impl ProgramHeaderWriter {
    /// A writer over `count` program headers.
    pub fn new(count: usize) -> (r: ProgramHeaderWriter)
        ensures
            r.headers.wf(),
            r.headers.items@.len() == 0,
            r.headers.capacity == count,
    {
        ProgramHeaderWriter { headers: Slots::new(count) }
    }

    /// Writes the next program header.
    pub fn take_header(&mut self, header: ProgramHeader) -> (r: Result<(), WriteError>)
        requires
            old(self).headers.wf(),
        ensures
            final(self).headers.wf(),
            final(self).headers.capacity == old(self).headers.capacity,
            r.is_ok() == (old(self).headers.room() > 0),
            r.is_ok() ==> final(self).headers.items@ == old(self).headers.items@.push(header),
    {
        self.headers.take(header, Table::ProgramHeaders)
    }
}

/// Writes a program header for each segment, in order.
pub fn write_program_headers(
    out: &mut ProgramHeaderWriter,
    segments: &Vec<SegmentLayout>,
    execstack: bool,
    min_load_alignment: u64,
) -> (r: Result<(), WriteError>)
    requires
        old(out).headers.wf(),
    ensures
        final(out).headers.wf(),
        final(out).headers.capacity == old(out).headers.capacity,
        r.is_ok() == (segments@.len() <= old(out).headers.room()),
        r.is_err() ==> r == Err::<(), WriteError>(WriteError::InsufficientAllocation { table: Table::ProgramHeaders }),
        r.is_ok() ==> final(out).headers.items@ == old(out).headers.items@ + segments@.map_values(
            |s: SegmentLayout| program_header(s, execstack, min_load_alignment),
        ),
{
    let mut i: usize = 0;
    while i < segments.len()
        invariant
            i <= segments@.len(),
            out.headers.wf(),
            out.headers.capacity == old(out).headers.capacity,
            out.headers.items@ == old(out).headers.items@ + segments@.subrange(0, i as int).map_values(
                |s: SegmentLayout| program_header(s, execstack, min_load_alignment),
            ),
        decreases segments@.len() - i,
    {
        let s = segments[i];
        let mut flags = s.segment_flags;
        if s.segment_type == PT_GNU_STACK && execstack {
            flags = flags | PF_X;
        }
        let mut alignment = s.alignment;
        if s.segment_type == PT_LOAD && alignment < min_load_alignment {
            alignment = min_load_alignment;
        }
        let header = ProgramHeader {
            p_type: s.segment_type,
            p_flags: flags,
            p_offset: s.file_offset as u64,
            p_vaddr: s.mem_offset,
            p_paddr: s.mem_offset,
            p_filesz: s.file_size as u64,
            p_memsz: s.mem_size,
            p_align: alignment,
        };
        assert(header == program_header(s, execstack, min_load_alignment));
        if out.take_header(header).is_err() {
            return Err(WriteError::InsufficientAllocation { table: Table::ProgramHeaders });
        }
        i = i + 1;
        assert(out.headers.items@ =~= old(out).headers.items@ + segments@.subrange(0, i as int).map_values(
                |s: SegmentLayout| program_header(s, execstack, min_load_alignment),
            ));
    }
    assert(segments@.subrange(0, i as int) =~= segments@);
    Ok(())
}

/// An output section as the section-header table describes it, in output
/// order.
#[derive(Clone, Debug, PartialEq, Eq)]
pub struct OutputSectionInfo {
    pub name: Vec<u8>,
    /// Whether the section gets a header.
    pub is_output: bool,
    pub sh_type: u32,
    pub sh_flags: u64,
    pub mem_offset: u64,
    pub file_offset: usize,
    pub mem_size: u64,
    pub alignment: u64,
    /// The output index of the section this one links to, or 0.
    pub link: u32,
    pub info: u32,
    pub entsize: u64,
}

/// A `Elf64_Shdr` record.
#[derive(Clone, Copy, Debug, PartialEq, Eq, Structural)]
pub struct SectionHeader {
    pub sh_name: u32,
    pub sh_type: u32,
    pub sh_flags: u64,
    pub sh_addr: u64,
    pub sh_offset: u64,
    pub sh_size: u64,
    pub sh_link: u32,
    pub sh_info: u32,
    pub sh_addralign: u64,
    pub sh_entsize: u64,
}

/// The sections that get a header, in order.
pub open spec fn output_sections_of(s: Seq<OutputSectionInfo>) -> Seq<OutputSectionInfo> {
    s.filter(|i: OutputSectionInfo| i.is_output)
}

/// The `.shstrtab` contents: each output section's name and a terminator.
pub open spec fn shstrtab(s: Seq<OutputSectionInfo>) -> Seq<u8>
    decreases s.len(),
{
    if s.len() == 0 {
        seq![]
    } else if s.last().is_output {
        shstrtab(s.drop_last()) + s.last().name@ + seq![0u8]
    } else {
        shstrtab(s.drop_last())
    }
}

/// Writes `.shstrtab`: the names of the output sections, in order, each
/// followed by a terminator.
pub fn write_section_header_strings(sections: &Vec<OutputSectionInfo>) -> (r: Vec<u8>)
    ensures
        r@ == shstrtab(sections@),
{
    let mut out: Vec<u8> = Vec::new();
    let mut i: usize = 0;
    assert(sections@.subrange(0, 0) =~= Seq::<OutputSectionInfo>::empty());
    while i < sections.len()
        invariant
            i <= sections@.len(),
            out@ == shstrtab(sections@.subrange(0, i as int)),
        decreases sections@.len() - i,
    {
        assert(sections@.subrange(0, i + 1).drop_last() =~= sections@.subrange(0, i as int));
        if sections[i].is_output {
            let name = &sections[i].name;
            let mut k: usize = 0;
            let ghost start = out@;
            while k < name.len()
                invariant
                    k <= name@.len(),
                    out@ == start + name@.subrange(0, k as int),
                decreases name@.len() - k,
            {
                out.push(name[k]);
                k = k + 1;
                assert(out@ =~= start + name@.subrange(0, k as int));
            }
            out.push(0);
            assert(name@.subrange(0, k as int) =~= name@);
            assert(out@ =~= start + name@ + seq![0u8]);
        }
        i = i + 1;
    }
    assert(sections@.subrange(0, i as int) =~= sections@);
    out
}

/// The header of an output section whose name starts at `name_offset` of
/// `.shstrtab`; the null section has no size or alignment, and no output
/// section is marked compressed.
pub open spec fn section_header(i: OutputSectionInfo, name_offset: u32) -> SectionHeader {
    SectionHeader {
        sh_name: name_offset,
        sh_type: i.sh_type,
        sh_flags: i.sh_flags & !SHF_COMPRESSED,
        sh_addr: i.mem_offset,
        sh_offset: i.file_offset as u64,
        sh_size: if i.sh_type == SHT_NULL {
            0
        } else {
            i.mem_size
        },
        sh_link: i.link,
        sh_info: i.info,
        sh_addralign: if i.sh_type == SHT_NULL {
            0
        } else {
            i.alignment
        },
        sh_entsize: i.entsize,
    }
}

/// The section-header table: one header per output section, in order,
/// naming it by its offset in `.shstrtab`.
pub open spec fn section_headers(s: Seq<OutputSectionInfo>) -> Seq<SectionHeader>
    decreases s.len(),
{
    if s.len() == 0 {
        seq![]
    } else if s.last().is_output {
        section_headers(s.drop_last()) + seq![
            section_header(s.last(), shstrtab(s.drop_last()).len() as u32),
        ]
    } else {
        section_headers(s.drop_last())
    }
}

proof fn lemma_shstrtab_grows(s: Seq<OutputSectionInfo>, i: int)
    requires
        0 <= i <= s.len(),
    ensures
        shstrtab(s.subrange(0, i)).len() <= shstrtab(s).len(),
    decreases s.len() - i,
{
    if i < s.len() {
        lemma_shstrtab_grows(s, i + 1);
        assert(s.subrange(0, i + 1).drop_last() =~= s.subrange(0, i));
    } else {
        assert(s.subrange(0, i) =~= s);
    }
}

/// Writes the section-header table, which layout sized for `count`
/// headers.
pub fn write_section_headers(sections: &Vec<OutputSectionInfo>, count: usize) -> (r: Result<
    Vec<SectionHeader>,
    WriteError,
>)
    ensures
        r.is_ok() ==> r->Ok_0@ == section_headers(sections@),
        r.is_ok() ==> section_headers(sections@).len() == count,
        shstrtab(sections@).len() <= u32::MAX && section_headers(sections@).len() == count ==> r.is_ok(),
{
    let mut out: Vec<SectionHeader> = Vec::new();
    let mut name_offset: u64 = 0;
    let mut i: usize = 0;
    assert(sections@.subrange(0, 0) =~= Seq::<OutputSectionInfo>::empty());
    while i < sections.len()
        invariant
            i <= sections@.len(),
            out@ == section_headers(sections@.subrange(0, i as int)),
            name_offset == shstrtab(sections@.subrange(0, i as int)).len(),
            name_offset <= u32::MAX,
        decreases sections@.len() - i,
    {
        let ghost prefix = sections@.subrange(0, i as int);
        assert(sections@.subrange(0, i + 1).drop_last() =~= prefix);
        let info = &sections[i];
        if info.is_output {
            let entry = SectionHeader {
                sh_name: name_offset as u32,
                sh_type: info.sh_type,
                sh_flags: info.sh_flags & !SHF_COMPRESSED,
                sh_addr: info.mem_offset,
                sh_offset: info.file_offset as u64,
                sh_size: if info.sh_type == SHT_NULL {
                    0
                } else {
                    info.mem_size
                },
                sh_link: info.link,
                sh_info: info.info,
                sh_addralign: if info.sh_type == SHT_NULL {
                    0
                } else {
                    info.alignment
                },
                sh_entsize: info.entsize,
            };
            out.push(entry);
            let step = info.name.len() as u64;
            if step >= u32::MAX as u64 - name_offset {
                proof {
                    lemma_shstrtab_grows(sections@, i + 1);
                }
                return Err(WriteError::StringOffsetOverflow);
            }
            name_offset = name_offset + step + 1;
        }
        i = i + 1;
        assert(out@ =~= section_headers(sections@.subrange(0, i as int)));
    }
    assert(sections@.subrange(0, i as int) =~= sections@);
    if out.len() != count {
        return Err(WriteError::InsufficientAllocation { table: Table::Section });
    }
    Ok(out)
}

/// The bytes of a program header.
pub open spec fn program_header_bytes(h: ProgramHeader) -> Seq<u8> {
    le32(h.p_type) + le32(h.p_flags) + le64(h.p_offset) + le64(h.p_vaddr) + le64(h.p_paddr) + le64(
        h.p_filesz,
    ) + le64(h.p_memsz) + le64(h.p_align)
}

/// Appends the bytes of a program header.
pub fn push_program_header(out: &mut Vec<u8>, h: &ProgramHeader)
    ensures
        final(out)@ == old(out)@ + program_header_bytes(*h),
{
    crate::bytes::push_u32(out, h.p_type);
    crate::bytes::push_u32(out, h.p_flags);
    crate::bytes::push_u64(out, h.p_offset);
    crate::bytes::push_u64(out, h.p_vaddr);
    crate::bytes::push_u64(out, h.p_paddr);
    crate::bytes::push_u64(out, h.p_filesz);
    crate::bytes::push_u64(out, h.p_memsz);
    crate::bytes::push_u64(out, h.p_align);
    assert(out@ =~= old(out)@ + program_header_bytes(*h));
}

/// The bytes of a section header.
pub open spec fn section_header_bytes(h: SectionHeader) -> Seq<u8> {
    le32(h.sh_name) + le32(h.sh_type) + le64(h.sh_flags) + le64(h.sh_addr) + le64(h.sh_offset) + le64(
        h.sh_size,
    ) + le32(h.sh_link) + le32(h.sh_info) + le64(h.sh_addralign) + le64(h.sh_entsize)
}

/// Appends the bytes of a section header.
pub fn push_section_header(out: &mut Vec<u8>, h: &SectionHeader)
    ensures
        final(out)@ == old(out)@ + section_header_bytes(*h),
{
    crate::bytes::push_u32(out, h.sh_name);
    crate::bytes::push_u32(out, h.sh_type);
    crate::bytes::push_u64(out, h.sh_flags);
    crate::bytes::push_u64(out, h.sh_addr);
    crate::bytes::push_u64(out, h.sh_offset);
    crate::bytes::push_u64(out, h.sh_size);
    crate::bytes::push_u32(out, h.sh_link);
    crate::bytes::push_u32(out, h.sh_info);
    crate::bytes::push_u64(out, h.sh_addralign);
    crate::bytes::push_u64(out, h.sh_entsize);
    assert(out@ =~= old(out)@ + section_header_bytes(*h));
}

} // verus!
