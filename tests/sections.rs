use elfout::cursor::Slots;
use elfout::eh_frame::{write_eh_frame_data, EhFrameRelocation};
use elfout::eh_frame_hdr::{eh_frame_ptr, sort_eh_frame_hdr_entries, write_eh_frame_hdr};
use elfout::error::{Table, WriteError};
use elfout::files::{
    apply_relocations, InputRelocation,
    apply_debug_relocations, tombstone_value, DebugRelocation, DebugTarget,
};
use elfout::gnu_hash::{build_gnu_hash_table, write_gnu_hash_tables, GnuHashLayout};
use elfout::headers::{
    populate_file_header, write_program_headers, write_section_header_strings, HeaderInfo,
    OutputSectionInfo, ProgramHeaderWriter, SegmentLayout, PF_X, PT_GNU_STACK, PT_LOAD,
};
use elfout::model::{OutputKind, Resolution, ResolutionFlags, ValueFlags, R_X86_64_RELATIVE};
use elfout::notes::{build_id_note, write_gnu_build_id_note, write_gnu_property_notes, BuildIdOption, GnuProperty};
use elfout::reloc::{apply_relocation, RelocationContext, RelocationRecord, SectionInfo};
use elfout::split::{
    split_buffers_by_alignment, split_output_by_group, split_output_into_sections, ByteRange,
    SectionAllocation,
};
use elfout::symtab::{InputSymbol, OutputSections, StrTabWriter, SymbolTableWriter};
use elfout::table_writer::{GroupSizes, TableWriter};
use elfout::version_tables::{write_symbol_version, write_verdef, VersionDef};

fn group_sizes() -> GroupSizes {
    GroupSizes {
        got: 0,
        plt_got: 0,
        rela_plt: 0,
        rela_dyn_relative: 24,
        rela_dyn_general: 0,
        dynsym: 0,
        dynstr: 64,
        symtab_local: 0,
        symtab_global: 0,
        strtab: 0,
        eh_frame: 64,
        eh_frame_hdr: 20,
        dynamic: 0,
        gnu_version: 0,
        gnu_version_d: 92,
        gnu_version_r: 0,
    }
}

fn resolution(raw_value: u64) -> Resolution {
    Resolution {
        raw_value,
        dynamic_symbol_index: None,
        got_address: None,
        plt_address: None,
        resolution_flags: ResolutionFlags {
            got: false,
            plt: false,
            export_dynamic: false,
            got_tls_offset: false,
            got_tls_module: false,
            got_tls_descriptor: false,
            copy_relocation: false,
        },
        value_flags: ValueFlags { absolute: false, address: true, dynamic: false, ifunc: false, can_bypass_got: true },
    }
}

fn ctx(kind: OutputKind) -> RelocationContext {
    RelocationContext {
        output_kind: kind,
        got_base: 0x4000,
        tls_start: 0x1000,
        tls_end: 0x1100,
        tls_start_aarch64: 0x1000,
        tlsld_got_entry: None,
    }
}

#[test]
fn sections_get_their_own_ranges() {
    let allocs = vec![
        SectionAllocation { offset: 64, size: 16 },
        SectionAllocation { offset: 0, size: 64 },
        SectionAllocation { offset: 96, size: 8 },
    ];
    let r = split_output_into_sections(&allocs, 128);
    assert_eq!(r, vec![
        ByteRange { start: 64, end: 80 },
        ByteRange { start: 0, end: 64 },
        ByteRange { start: 96, end: 104 },
    ]);
}

#[test]
fn parts_and_groups_take_prefixes() {
    let parts = split_buffers_by_alignment(ByteRange { start: 100, end: 140 }, &vec![16, 8, 16]).unwrap();
    assert_eq!(parts, vec![
        ByteRange { start: 100, end: 116 },
        ByteRange { start: 116, end: 124 },
        ByteRange { start: 124, end: 140 },
    ]);
    let groups = split_output_by_group(parts[0], &vec![10, 6]).unwrap();
    assert_eq!(groups, vec![ByteRange { start: 100, end: 110 }, ByteRange { start: 110, end: 116 }]);
    assert_eq!(
        split_output_by_group(parts[1], &vec![10]),
        Err(WriteError::InsufficientAllocation { table: Table::Section })
    );
}

#[test]
fn gnu_hash_lookup_finds_each_symbol() {
    let l = GnuHashLayout { bucket_count: 2, bloom_shift: 6, bloom_count: 1, symbol_base: 1 };
    // Grouped by bucket: even hashes, then odd ones.
    let hashes = vec![0x10u32, 0x22, 0x13, 0x35];
    let t = build_gnu_hash_table(&l, &hashes);
    assert_eq!(t.buckets, vec![1, 3]);
    assert_eq!(t.chains, vec![0x10, 0x23, 0x12, 0x35]);
    for (i, h) in hashes.iter().enumerate() {
        let mut j = (t.buckets[(h % 2) as usize] - 1) as usize;
        while t.chains[j] | 1 != h | 1 {
            assert_eq!(t.chains[j] & 1, 0);
            j += 1;
        }
        assert_eq!(j, i);
        let word = t.bloom[((h / 64) % 1) as usize];
        assert_ne!(word & (1u64 << (h % 64)), 0);
        assert_ne!(word & (1u64 << ((h >> 6) % 64)), 0);
    }
    let bytes = write_gnu_hash_tables(&Some(l), &hashes, 64).unwrap();
    assert_eq!(bytes.len(), 16 + 8 + 8 + 16);
    assert_eq!(&bytes[0..4], &[2, 0, 0, 0]);
    assert!(write_gnu_hash_tables(&Some(l), &hashes, 40).is_err());
}

#[test]
fn eh_frame_hdr_entries_are_sorted() {
    let mut hdr = vec![1u8, 0x1b, 0x03, 0x3b, 0, 0, 0, 0, 3, 0, 0, 0];
    for (fp, fip) in [(30i32, 1i32), (-5, 2), (10, 3)] {
        hdr.extend_from_slice(&fp.to_le_bytes());
        hdr.extend_from_slice(&fip.to_le_bytes());
    }
    sort_eh_frame_hdr_entries(&mut hdr);
    let mut expected = vec![1u8, 0x1b, 0x03, 0x3b, 0, 0, 0, 0, 3, 0, 0, 0];
    for (fp, fip) in [(-5i32, 2i32), (10, 3), (30, 1)] {
        expected.extend_from_slice(&fp.to_le_bytes());
        expected.extend_from_slice(&fip.to_le_bytes());
    }
    assert_eq!(hdr, expected);
}

#[test]
fn eh_frame_pointer_is_relative_to_field() {
    assert_eq!(eh_frame_ptr(0x2000, 0x1000), Ok(0xffc));
    assert_eq!(eh_frame_ptr(0x1_0000_0000, 0x1000), Err(WriteError::EhFrameHdrOverflow));
}

fn entry(length: u32, cie_id: u32, body: usize) -> Vec<u8> {
    let mut v = Vec::new();
    v.extend_from_slice(&length.to_le_bytes());
    v.extend_from_slice(&cie_id.to_le_bytes());
    v.extend(std::iter::repeat(0xaa).take(body));
    v
}

#[test]
fn eh_frame_keeps_live_fdes_only() {
    // One CIE (16 bytes) and two FDEs (16 bytes each): the first refers to
    // a live section, the second to a discarded one; then a terminator.
    let mut data = entry(12, 0, 8);
    data.extend(entry(12, 20, 8));
    data.extend(entry(12, 36, 8));
    data.extend_from_slice(&[0, 0, 0, 0]);
    let pc_begin = |offset: u64, live: Option<u64>| EhFrameRelocation {
        rel: RelocationRecord { r_offset: offset, r_type: 2, r_addend: 0 },
        resolution: resolution(0x9000),
        target_section_address: live,
        symbol_value: 0x10,
    };
    let relocs = vec![pc_begin(24, Some(0x9000)), pc_begin(40, None)];
    let mut w = TableWriter::from_layout(OutputKind::DynamicExecutable { relocatable: false }, 0, 0, 0, 0, &group_sizes(), 0x8000);
    w.eh_frame.capacity = 36;
    w.eh_frame_hdr.capacity = 8;
    write_eh_frame_data(&mut w, &data, &relocs, 0x7000, &ctx(OutputKind::DynamicExecutable { relocatable: false })).unwrap();
    let out = &w.eh_frame.items;
    assert_eq!(out.len(), 36);
    assert_eq!(&out[0..16], &data[0..16]);
    // The kept FDE points back 20 bytes, to the CIE at output offset 0.
    assert_eq!(&out[20..24], &20u32.to_le_bytes());
    // pc-begin: the symbol's 0x9000 minus its place, 0x8000 + 16 + 8.
    assert_eq!(&out[24..28], &(0x9000u32 - 0x8018).to_le_bytes());
    assert_eq!(&out[32..36], &[0, 0, 0, 0]);
    // One table entry: the function at 0x9010 and the FDE at 0x8010.
    let mut hdr_entry = Vec::new();
    hdr_entry.extend_from_slice(&(0x2010i32).to_le_bytes());
    hdr_entry.extend_from_slice(&(0x1010i32).to_le_bytes());
    assert_eq!(w.eh_frame_hdr.items, hdr_entry);
    assert_eq!(w.eh_frame_start_address, 0x8000 + 36);
}

#[test]
fn eh_frame_with_bad_length_fails() {
    let data = entry(100, 0, 4);
    let mut w = TableWriter::from_layout(OutputKind::SharedObject, 0, 0, 0, 0, &group_sizes(), 0);
    assert_eq!(
        write_eh_frame_data(&mut w, &data, &vec![], 0, &ctx(OutputKind::SharedObject)),
        Err(WriteError::InvalidEhFrame)
    );
}

#[test]
fn eh_frame_hdr_header_is_written() {
    let mut w = TableWriter::from_layout(OutputKind::SharedObject, 0, 0, 0, 0, &group_sizes(), 0);
    write_eh_frame_hdr(&mut w, 0x2000, 0x1000, 12 + 8 * 3).unwrap();
    assert_eq!(w.eh_frame_hdr.items, vec![1, 0x1b, 0x03, 0x3b, 0xfc, 0x0f, 0, 0, 3, 0, 0, 0]);
}

#[test]
fn build_id_note_from_hex() {
    let note = build_id_note(&[0xab, 0xcd], 18).unwrap();
    assert_eq!(note, vec![4, 0, 0, 0, 2, 0, 0, 0, 3, 0, 0, 0, b'G', b'N', b'U', 0, 0xab, 0xcd]);
    assert!(build_id_note(&[0xab], 18).is_err());
}

#[test]
fn fast_build_id_is_deterministic() {
    let mut a = vec![7u8; 100];
    a.extend(vec![0u8; 48]);
    let mut b = a.clone();
    let note = ByteRange { start: 100, end: 148 };
    write_gnu_build_id_note(&mut a, note, &BuildIdOption::Fast).unwrap();
    write_gnu_build_id_note(&mut b, note, &BuildIdOption::Fast).unwrap();
    assert_eq!(a, b);
    let mut input = vec![7u8; 100];
    input.extend(vec![0u8; 48]);
    assert_eq!(&a[116..148], blake3::hash(&input).as_bytes());
}

#[test]
fn uuid_build_id_is_sixteen_bytes() {
    let mut a = vec![0u8; 32];
    write_gnu_build_id_note(&mut a, ByteRange { start: 0, end: 32 }, &BuildIdOption::Uuid).unwrap();
    assert_eq!(&a[0..16], &[4, 0, 0, 0, 16, 0, 0, 0, 3, 0, 0, 0, b'G', b'N', b'U', 0]);
    let mut b = vec![0u8; 32];
    assert!(write_gnu_build_id_note(&mut b, ByteRange { start: 0, end: 20 }, &BuildIdOption::Uuid).is_err());
}

#[test]
fn property_note_layout() {
    let notes = vec![GnuProperty { ptype: 0xc000_0002, data: 3 }];
    let bytes = write_gnu_property_notes(&notes, 32).unwrap();
    assert_eq!(&bytes[0..12], &[4, 0, 0, 0, 16, 0, 0, 0, 5, 0, 0, 0]);
    assert_eq!(&bytes[16..32], &[2, 0, 0, 0xc0, 4, 0, 0, 0, 3, 0, 0, 0, 0, 0, 0, 0]);
}

#[test]
fn pc_relative_relocation_is_patched() {
    let mut w = TableWriter::from_layout(OutputKind::DynamicExecutable { relocatable: false }, 0, 0, 0, 0, &group_sizes(), 0);
    let mut out = vec![0u8; 8];
    let rel = RelocationRecord { r_offset: 2, r_type: 2, r_addend: -4 };
    let si = SectionInfo { section_address: 0x1000, is_writable: false };
    apply_relocation(&mut w, 2, &rel, &resolution(0x2000), si, &ctx(OutputKind::DynamicExecutable { relocatable: false }), &mut out).unwrap();
    let v = (0x2000i64 - 4 - 0x1002) as u32;
    assert_eq!(&out[2..6], &v.to_le_bytes());
    assert_eq!(&out[0..2], &[0, 0]);
}

#[test]
fn absolute_relocation_in_pie_becomes_relative() {
    let kind = OutputKind::DynamicExecutable { relocatable: true };
    let mut w = TableWriter::from_layout(kind, 0, 0, 0, 0, &group_sizes(), 0);
    let mut out = vec![0xffu8; 8];
    let rel = RelocationRecord { r_offset: 0, r_type: 1, r_addend: 8 };
    let si = SectionInfo { section_address: 0x3000, is_writable: true };
    apply_relocation(&mut w, 0, &rel, &resolution(0x2000), si, &ctx(kind), &mut out).unwrap();
    assert_eq!(out, vec![0u8; 8]);
    let r = w.rela_dyn_relative.items[0];
    assert_eq!(r.r_offset, 0x3000);
    assert_eq!(r.r_info, R_X86_64_RELATIVE as u64);
    assert_eq!(r.r_addend, 0x2008);
}

#[test]
fn relocation_overflow_is_reported() {
    let kind = OutputKind::StaticExecutable { relocatable: false };
    let mut w = TableWriter::from_layout(kind, 0, 0, 0, 0, &group_sizes(), 0);
    let mut out = vec![0u8; 8];
    let rel = RelocationRecord { r_offset: 0, r_type: 10, r_addend: 0 };
    let si = SectionInfo { section_address: 0, is_writable: false };
    assert_eq!(
        apply_relocation(&mut w, 0, &rel, &resolution(0x1_0000_0000), si, &ctx(kind), &mut out),
        Err(WriteError::RelocationOverflow)
    );
}

#[test]
fn debug_relocation_to_discarded_section_gets_tombstone() {
    assert_eq!(tombstone_value(b".debug_loc"), 1);
    assert_eq!(tombstone_value(b".debug_ranges"), 1);
    assert_eq!(tombstone_value(b".debug_info"), 0);
    let mut out = vec![0xffu8; 8];
    let relocs = vec![DebugRelocation {
        rel: RelocationRecord { r_offset: 0, r_type: 1, r_addend: 0 },
        target: DebugTarget::Discarded,
    }];
    apply_debug_relocations(&mut out, &relocs, b".debug_ranges", &ctx(OutputKind::SharedObject)).unwrap();
    assert_eq!(out, vec![1, 0, 0, 0, 0, 0, 0, 0]);
}

#[test]
fn string_table_offsets() {
    let mut w = StrTabWriter { next_offset: 10, out: Slots::new(8), table: Table::Strtab };
    assert_eq!(w.write_str(b"abc"), Ok(10));
    assert_eq!(w.write_str(b"de"), Ok(14));
    assert_eq!(w.out.items, b"abc\0de\0".to_vec());
    assert_eq!(w.write_str(b"xy"), Err(WriteError::InsufficientAllocation { table: Table::Strtab }));
}

#[test]
fn copied_symbol_goes_to_its_output_section() {
    let mut w = SymbolTableWriter::new(1, 0, 1, 8);
    let sections = OutputSections { output_index: vec![None, Some(7)] };
    let sym = InputSymbol { st_info: 0x11, st_other: 0, st_value: 0, st_size: 8 };
    w.copy_symbol(&sym, b"var", &sections, 1, 0x6000).unwrap();
    let e = w.global_entries.items[0];
    assert_eq!((e.st_name, e.st_shndx, e.st_value, e.st_size, e.st_info), (1, 7, 0x6000, 8, 0x11));
    assert!(w.check_exhausted().is_err());
    let mut v = SymbolTableWriter::new(1, 0, 1, 8);
    assert_eq!(v.copy_symbol(&sym, b"var", &sections, 0, 0), Err(WriteError::SectionNotOutput));
}

#[test]
fn static_pie_header() {
    let h = HeaderInfo {
        output_kind: OutputKind::StaticExecutable { relocatable: true },
        machine: 62,
        entry_address: Some(0x1040),
        program_headers_size: 56,
        num_segments: 1,
        num_sections: 5,
        shstrtab_index: 4,
    };
    let b = populate_file_header(&h).unwrap();
    assert_eq!(populate_file_header(&HeaderInfo { entry_address: None, ..h }), Err(WriteError::MissingEntrySymbol));
    assert_eq!(&b[0..8], &[0x7f, b'E', b'L', b'F', 2, 1, 1, 0]);
    assert_eq!(&b[16..18], &[3, 0]);
    assert_eq!(&b[24..32], &0x1040u64.to_le_bytes());
    assert_eq!(&b[32..40], &64u64.to_le_bytes());
    assert_eq!(&b[40..48], &120u64.to_le_bytes());
    assert_eq!(&b[62..64], &[4, 0]);
}

#[test]
fn program_headers_apply_alignment_and_execstack() {
    let segs = vec![
        SegmentLayout { segment_type: PT_LOAD, segment_flags: 5, file_offset: 0, file_size: 10, mem_offset: 0, mem_size: 10, alignment: 8 },
        SegmentLayout { segment_type: PT_GNU_STACK, segment_flags: 6, file_offset: 0, file_size: 0, mem_offset: 0, mem_size: 0, alignment: 16 },
    ];
    let mut w = ProgramHeaderWriter::new(2);
    write_program_headers(&mut w, &segs, true, 0x1000).unwrap();
    assert_eq!(w.headers.items[0].p_align, 0x1000);
    assert_eq!(w.headers.items[1].p_flags, 6 | PF_X);
    assert_eq!(w.headers.items[1].p_align, 16);
    let mut small = ProgramHeaderWriter::new(1);
    assert!(write_program_headers(&mut small, &segs, false, 0x1000).is_err());
}

fn section(name: &[u8], is_output: bool) -> OutputSectionInfo {
    OutputSectionInfo {
        name: name.to_vec(),
        is_output,
        sh_type: 1,
        sh_flags: 0,
        mem_offset: 0,
        file_offset: 0,
        mem_size: 0,
        alignment: 1,
        link: 0,
        info: 0,
        entsize: 0,
    }
}

#[test]
fn section_header_strings_skip_unwritten_sections() {
    let s = vec![section(b"", true), section(b".text", true), section(b".bss", false), section(b".data", true)];
    assert_eq!(write_section_header_strings(&s), b"\0.text\0.data\0".to_vec());
    let headers = elfout::headers::write_section_headers(&s, 3).unwrap();
    assert_eq!(headers.iter().map(|h| h.sh_name).collect::<Vec<_>>(), vec![0, 1, 7]);
    assert!(elfout::headers::write_section_headers(&s, 4).is_err());
}

#[test]
fn symbol_versions_go_through_mapping() {
    let mut out = Slots::new(4);
    let versym_in = vec![0u16, 1, 0x8003, 2];
    let mapping = vec![5u16, 6, 7];
    for i in 0..4 {
        write_symbol_version(&versym_in, i, &mapping, &mut out).unwrap();
    }
    assert_eq!(out.items, vec![0, 1, 7, 6]);
    let mut bad = Slots::new(1);
    assert_eq!(write_symbol_version(&vec![9u16], 0, &mapping, &mut bad), Err(WriteError::InvalidVersion));
}

#[test]
fn version_definitions_layout() {
    let mut w = TableWriter::from_layout(OutputKind::SharedObject, 0, 0, 0, 0, &group_sizes(), 0);
    let defs = vec![
        VersionDef { name: b"libx.so".to_vec(), parent_index: None },
        VersionDef { name: b"V1".to_vec(), parent_index: None },
        VersionDef { name: b"V2".to_vec(), parent_index: Some(1) },
    ];
    write_verdef(&defs, &mut w, &None, None).unwrap();
    let d = &w.version_writer.version_d.items;
    assert_eq!(d.len(), 28 + 28 + 36);
    assert_eq!(&d[0..8], &[1, 0, 1, 0, 1, 0, 1, 0]);
    assert_eq!(&d[8..12], &object::elf::hash(b"libx.so").to_le_bytes());
    assert_eq!(&d[16..20], &28u32.to_le_bytes());
    // The last record's next is 0; its second aux names V1.
    assert_eq!(&d[56 + 16..56 + 20], &[0, 0, 0, 0]);
    assert_eq!(&d[56 + 28..56 + 32], &8u32.to_le_bytes());
    assert_eq!(w.dynsym_writer.strtab_writer.out.items, b"libx.so\0V1\0V2\0".to_vec());
}

#[test]
fn got_load_of_local_symbol_becomes_lea() {
    let kind = OutputKind::StaticExecutable { relocatable: false };
    let mut w = TableWriter::from_layout(kind, 0, 0, 0, 0, &group_sizes(), 0);
    // mov 0(%rip),%rax with R_X86_64_REX_GOTPCRELX at offset 3.
    let mut out = vec![0x48u8, 0x8b, 0x05, 0, 0, 0, 0];
    let rel = RelocationRecord { r_offset: 3, r_type: 42, r_addend: -4 };
    let si = SectionInfo { section_address: 0x1000, is_writable: false };
    let m = apply_relocation(&mut w, 3, &rel, &resolution(0x2000), si, &ctx(kind), &mut out).unwrap();
    assert_eq!(m, elfout::reloc::RelocationModifier::Normal);
    let disp = (0x2000i64 - 4 - 0x1003) as u32;
    let mut expected = vec![0x48u8, 0x8d, 0x05];
    expected.extend_from_slice(&disp.to_le_bytes());
    assert_eq!(out, expected);
}

#[test]
fn tls_general_dynamic_becomes_local_exec_and_skips_call() {
    let kind = OutputKind::StaticExecutable { relocatable: false };
    let mut w = TableWriter::from_layout(kind, 0, 0, 0, 0, &group_sizes(), 0);
    // data16 lea x@tlsgd(%rip),%rdi; data16 data16 rex64 call __tls_get_addr
    let mut out = vec![0x66u8, 0x48, 0x8d, 0x3d, 0, 0, 0, 0, 0x66, 0x66, 0x48, 0xe8, 0, 0, 0, 0];
    let relocs = vec![
        InputRelocation { rel: RelocationRecord { r_offset: 4, r_type: 19, r_addend: -4 }, symbol: 0 },
        InputRelocation { rel: RelocationRecord { r_offset: 12, r_type: 4, r_addend: -4 }, symbol: 1 },
    ];
    // The second symbol has no resolution: applying its relocation would fail.
    let resolutions = vec![Some(resolution(0x10f0)), None];
    let si = SectionInfo { section_address: 0x1000, is_writable: false };
    apply_relocations(&mut w, &mut out, &relocs, &resolutions, si, &ctx(kind)).unwrap();
    let tpoff = (0x10f0i64 - 0x1100) as i32;
    let mut expected = vec![0x64u8, 0x48, 0x8b, 0x04, 0x25, 0, 0, 0, 0, 0x48, 0x8d, 0x80];
    expected.extend_from_slice(&tpoff.to_le_bytes());
    assert_eq!(out, expected);
}
