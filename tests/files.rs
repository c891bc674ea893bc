use elfout::group::{write_copy_relocation_dynamic_symbol_definition, write_regular_object_dynamic_symbol_definition, DefinedIn};
use elfout::cursor::Slots;
use elfout::dynamic::{DynamicEntryInputs, DynamicPartSizes, DynamicSectionLayouts, OutputRecordLayout};
use elfout::group::EpilogueLayout;
use elfout::files::{InputRelocation, ObjectLayout, ObjectSymbol, Section, SymbolPlacement};
use elfout::group::{write_group, FileLayout, GroupOutput, OutputSettings, PreludeInputs, HexU64};
use elfout::headers::HeaderInfo;
use elfout::model::{OutputKind, Resolution, ResolutionFlags, ValueFlags, R_X86_64_COPY, R_X86_64_DTPMOD64};
use elfout::reloc::{RelocationContext, RelocationRecord};
use elfout::symtab::{InputSymbol, OutputSections, SymbolTableWriter};
use elfout::table_writer::{GroupSizes, TableWriter};
use elfout::version::MemSizes;
use elfout::version_tables::{DynamicLayout, SharedSymbol};
use elfout::writers::{write_internal_symbols, InternalSymbol, PreludeLayout};

fn flags() -> ResolutionFlags {
    ResolutionFlags {
        got: false,
        plt: false,
        export_dynamic: false,
        got_tls_offset: false,
        got_tls_module: false,
        got_tls_descriptor: false,
        copy_relocation: false,
    }
}

fn resolution(raw_value: u64) -> Resolution {
    Resolution {
        raw_value,
        dynamic_symbol_index: None,
        got_address: None,
        plt_address: None,
        resolution_flags: flags(),
        value_flags: ValueFlags { absolute: false, address: true, dynamic: false, ifunc: false, can_bypass_got: true },
    }
}

fn sizes() -> GroupSizes {
    GroupSizes {
        got: 16,
        plt_got: 0,
        rela_plt: 0,
        rela_dyn_relative: 0,
        rela_dyn_general: 24,
        dynsym: 24,
        dynstr: 16,
        symtab_local: 0,
        symtab_global: 24,
        strtab: 8,
        eh_frame: 0,
        eh_frame_hdr: 0,
        dynamic: 16,
        gnu_version: 0,
        gnu_version_d: 0,
        gnu_version_r: 0,
    }
}

#[test]
fn copy_relocated_symbol_from_shared_object() {
    let kind = OutputKind::DynamicExecutable { relocatable: false };
    let mut w = TableWriter::from_layout(kind, 0, 0, 0, 0, &sizes(), 0);
    let mut res = resolution(0x6000);
    res.dynamic_symbol_index = Some(1);
    res.resolution_flags.copy_relocation = true;
    let sym = InputSymbol { st_info: 0x11, st_other: 0, st_value: 0, st_size: 4 };
    let layout = DynamicLayout {
        lib_name: b"libc.so.6".to_vec(),
        copy_relocation_symbols: vec![Some(res)],
        symbols: vec![SharedSymbol { sym, name: b"environ".to_vec(), resolution: Some(res) }],
        input_symbol_versions: vec![],
        version_mapping: vec![],
        verneed_info: None,
        bss_index: 9,
    };
    let sections = OutputSections { output_index: vec![None, Some(9)] };
    let mut w2 = TableWriter::from_layout(kind, 0, 0, 0, 0, &GroupSizes { dynsym: 0, dynstr: 10, ..sizes() }, 0);
    layout.write_file(&mut w2, &sections, 1).unwrap();
    assert_eq!(w2.dynamic.out.items[0].d_tag, 1);
    assert_eq!(w2.dynamic.out.items[0].d_val, 0);
    assert_eq!(w2.dynsym_writer.strtab_writer.out.items, b"libc.so.6\0".to_vec());
    let copy = w2.rela_dyn_general.items[0];
    assert_eq!(copy.r_offset, 0x6000);
    assert_eq!(copy.r_info, (1u64 << 32) | R_X86_64_COPY as u64);
    let e = w2.debug_symbol_writer.global_entries.items[0];
    assert_eq!((e.st_shndx, e.st_value), (9, 0x6000));
    assert!(w2.dynsym_writer.global_entries.items.is_empty());
    // A writer without room for the COPY relocation fails.
    w.rela_dyn_general.capacity = 0;
    assert!(layout.write_file(&mut w, &sections, 1).is_err());
}

fn prelude(tlsld: Option<u64>) -> PreludeLayout {
    PreludeLayout {
        tlsld_got_entry: tlsld,
        internal_resolutions: vec![],
        internal_symbols: vec![],
        dynamic_linker: None,
        identity: b"linker".to_vec(),
    }
}

#[test]
fn tlsld_pair_in_executable() {
    let mut w = TableWriter::from_layout(OutputKind::DynamicExecutable { relocatable: false }, 0, 0, 0, 0, &sizes(), 0);
    prelude(Some(0x3000)).write_plt_got_entries(&mut w).unwrap();
    assert_eq!(w.got.items, vec![1, 0]);
    assert!(w.rela_dyn_general.items.is_empty());
}

#[test]
fn tlsld_pair_in_shared_object() {
    let mut w = TableWriter::from_layout(OutputKind::SharedObject, 0, 0, 0, 0, &sizes(), 0);
    prelude(Some(0x3000)).write_plt_got_entries(&mut w).unwrap();
    assert_eq!(w.got.items, vec![0, 0]);
    let r = w.rela_dyn_general.items[0];
    assert_eq!(r.r_offset, 0x3000);
    assert_eq!(r.r_info, R_X86_64_DTPMOD64 as u64);
}

#[test]
fn tls_module_base_is_thread_local() {
    let mut w = SymbolTableWriter::new(0, 0, 2, 32);
    let symbols = vec![
        InternalSymbol { name: b"_TLS_MODULE_BASE_".to_vec(), shndx: 3, value: 0x1100 },
        InternalSymbol { name: b"_end".to_vec(), shndx: 0, value: 0x5000 },
    ];
    write_internal_symbols(&symbols, &mut w).unwrap();
    assert_eq!(w.global_entries.items[0].st_info, 0x16);
    assert_eq!(w.global_entries.items[1].st_info, 0x10);
    assert_eq!(w.global_entries.items[1].st_shndx, 1);
}

#[test]
fn handling_a_resolution_twice_gives_the_same_tables() {
    let kind = OutputKind::DynamicExecutable { relocatable: true };
    let mut res = resolution(0x4010);
    res.got_address = Some(0x2000);
    let s = GroupSizes { rela_dyn_relative: 24, ..sizes() };
    let mut a = TableWriter::from_layout(kind, 0, 0, 0, 0, &s, 0);
    let mut b = TableWriter::from_layout(kind, 0, 0, 0, 0, &s, 0);
    a.process_resolution(&res).unwrap();
    b.process_resolution(&res).unwrap();
    assert_eq!(a.got.items, b.got.items);
    assert_eq!(a.rela_dyn_relative.items, b.rela_dyn_relative.items);
}

#[test]
fn hex_value_keeps_its_value() {
    assert_eq!(HexU64::new(0xabc).value, 0xabc);
}

fn settings(kind: OutputKind) -> OutputSettings {
    OutputSettings {
        ctx: RelocationContext {
            output_kind: kind,
            got_base: 0x4000,
            tls_start: 0,
            tls_end: 0,
            tls_start_aarch64: 0,
            tlsld_got_entry: None,
        },
        output_sections: OutputSections { output_index: vec![None, Some(1)] },
        bss_section: 1,
        tls_segment_start: None,
        gnu_version_enabled: false,
        needs_dynamic: false,
        needs_dynsym: false,
        strip_all: false,
    }
}

fn prelude_inputs() -> PreludeInputs {
    PreludeInputs {
        header_info: HeaderInfo {
            output_kind: OutputKind::StaticExecutable { relocatable: false },
            machine: 62,
            entry_address: Some(0),
            program_headers_size: 0,
            num_segments: 0,
            num_sections: 0,
            shstrtab_index: 0,
        },
        segments: vec![],
        execstack: false,
        min_load_alignment: 0x1000,
        sections: vec![],
        section_count: 0,
        eh_frame_hdr: None,
        merged_strings: vec![],
        file_header_part: 0,
        program_headers_part: 0,
        section_headers_part: 0,
        shstrtab_part: 0,
        merged_strings_part: 0,
        comment_part: 0,
        interp_part: 0,
    }
}

fn mem_sizes() -> MemSizes {
    MemSizes {
        gnu_version: 0,
        gnu_version_r: 0,
        gnu_version_d: 0,
        rela_dyn_relative: 0,
        rela_dyn_general: 0,
        eh_frame: 0,
        eh_frame_hdr: 0,
        got: 8,
        plt_got: 0,
        rela_plt: 0,
        dynamic: 0,
    }
}

#[test]
fn group_with_one_object() {
    // `.text` calls `f` through the GOT; `f` lives at 0x1010.
    let kind = OutputKind::StaticExecutable { relocatable: false };
    let mut f = resolution(0x1010);
    f.got_address = Some(0x4000);
    let object = ObjectLayout {
        sections: vec![Section {
            data: vec![0xff, 0x15, 0, 0, 0, 0],
            capacity: 8,
            part: 0,
            address: 0x1000,
            is_writable: false,
            has_data_in_file: true,
            relocations: vec![InputRelocation {
                rel: RelocationRecord { r_offset: 2, r_type: 9, r_addend: -4 },
                symbol: 0,
            }],
            name: b".text".to_vec(),
        }],
        debug_sections: vec![],
        symbols: vec![ObjectSymbol {
            sym: InputSymbol { st_info: 0x12, st_other: 0, st_value: 0x10, st_size: 1 },
            name: b"f".to_vec(),
            placement: SymbolPlacement::Section(1),
        }],
        resolutions: vec![Some(f)],
        eh_frame: None,
    };
    let group_sizes = GroupSizes {
        got: 8,
        rela_dyn_general: 0,
        dynsym: 0,
        dynstr: 0,
        dynamic: 0,
        symtab_global: 24,
        strtab: 2,
        ..sizes()
    };
    let mut out = GroupOutput { parts: vec![Slots::new(8)], gnu_hash: Slots::new(0), gnu_property: Slots::new(0) };
    let w = write_group(
        &vec![FileLayout::Object(object)],
        &group_sizes,
        &mem_sizes(),
        0,
        1,
        0,
        &mut out,
        &settings(kind),
        &prelude_inputs(),
    )
    .unwrap();
    let disp = (0x4000i64 - 4 - 0x1002) as u32;
    let mut text = vec![0xff, 0x15];
    text.extend_from_slice(&disp.to_le_bytes());
    text.extend_from_slice(&[0, 0]);
    assert_eq!(out.parts[0].items, text);
    assert_eq!(w.got.items, vec![0x1010]);
    let sym = w.debug_symbol_writer.global_entries.items[0];
    assert_eq!((sym.st_name, sym.st_value, sym.st_shndx), (1, 0x1010, 1));
}

#[test]
fn group_with_unused_space_fails() {
    let kind = OutputKind::StaticExecutable { relocatable: false };
    let group_sizes = GroupSizes { got: 8, rela_dyn_general: 0, dynsym: 0, dynstr: 0, dynamic: 0, symtab_global: 0, strtab: 0, ..sizes() };
    let mut out = GroupOutput { parts: vec![], gnu_hash: Slots::new(0), gnu_property: Slots::new(0) };
    let r = write_group(&vec![FileLayout::NotLoaded], &group_sizes, &mem_sizes(), 0, 0, 0, &mut out, &settings(kind), &prelude_inputs());
    assert!(r.is_err());
}

#[test]
fn epilogue_writes_soname_then_table() {
    let record = OutputRecordLayout { file_size: 0, mem_size: 0, alignment: 1, file_offset: 0, mem_offset: 0 };
    let inputs = DynamicEntryInputs {
        output_kind: OutputKind::SharedObject,
        needs_dynamic: true,
        has_static_tls: false,
        section_layouts: DynamicSectionLayouts {
            init: record,
            fini: record,
            init_array: record,
            fini_array: record,
            dynstr: record,
            dynsym: record,
            gnu_version_d: record,
            gnu_version_r: record,
            gnu_version: record,
            rela_plt: record,
            got: record,
            rela_dyn: record,
            gnu_hash: record,
        },
        part_sizes: DynamicPartSizes {
            gnu_version_d: 0,
            gnu_version_r: 0,
            gnu_version: 0,
            rela_plt: 0,
            rela_dyn_relative: 0,
            rela_dyn_general: 0,
        },
        verdef_count: 0,
        verneed_count: 0,
    };
    let epilogue = EpilogueLayout {
        internal_resolutions: vec![],
        internal_symbols: vec![],
        gnu_hash_layout: None,
        dynamic_symbol_definitions: vec![],
        gnu_property_notes: vec![],
        verdefs: None,
        rpaths: vec![b"/opt".to_vec()],
        soname: Some(b"liby.so".to_vec()),
        dynamic_inputs: inputs,
    };
    let s = GroupSizes { dynstr: 13, dynamic: 16 * 30, ..sizes() };
    let mut w = TableWriter::from_layout(OutputKind::SharedObject, 0, 0, 0, 0, &s, 0);
    let mut gnu_hash = Slots::new(0);
    let mut property = Slots::new(0);
    epilogue.write_file(&mut w, &mut gnu_hash, &mut property, true, true).unwrap();
    let d = &w.dynamic.out.items;
    assert_eq!((d[0].d_tag, d[0].d_val), (29, 0));
    assert_eq!((d[1].d_tag, d[1].d_val), (14, 5));
    assert_eq!(d.last().unwrap().d_tag, 0);
    assert_eq!(w.dynsym_writer.strtab_writer.out.items, b"/opt\0liby.so\0".to_vec());
}

#[test]
fn run_path_strings_that_do_not_fit_fail() {
    let s = GroupSizes { dynstr: 4, dynamic: 16 * 4, ..sizes() };
    let mut w = TableWriter::from_layout(OutputKind::SharedObject, 0, 0, 0, 0, &s, 0);
    let r = elfout::writers::write_rpath_and_soname_entries(&mut w, &vec![b"/opt".to_vec()], &None);
    assert!(r.is_err());
    let s = GroupSizes { dynstr: 5, dynamic: 16 * 4, ..sizes() };
    let mut w = TableWriter::from_layout(OutputKind::SharedObject, 0, 0, 0, 0, &s, 0);
    assert_eq!(elfout::writers::write_rpath_and_soname_entries(&mut w, &vec![b"/opt".to_vec()], &None), Ok(None));
}

#[test]
fn internal_symbols_that_do_not_fit_fail() {
    let mut w = SymbolTableWriter::new(0, 0, 1, 32);
    let symbols = vec![
        InternalSymbol { name: b"a".to_vec(), shndx: 1, value: 1 },
        InternalSymbol { name: b"b".to_vec(), shndx: 1, value: 2 },
    ];
    assert!(write_internal_symbols(&symbols, &mut w).is_err());
}

#[test]
fn object_eh_frame_is_rewritten_in_its_group() {
    let kind = OutputKind::StaticExecutable { relocatable: false };
    // One CIE: length 12, CIE id 0, eight bytes of body.
    let mut cie = vec![12u8, 0, 0, 0, 0, 0, 0, 0];
    cie.extend(vec![0xaau8; 8]);
    let object = ObjectLayout {
        sections: vec![],
        debug_sections: vec![],
        symbols: vec![],
        resolutions: vec![],
        eh_frame: Some(elfout::eh_frame::EhFrameInput {
            data: cie.clone(),
            relocations: vec![],
            eh_frame_hdr_address: 0,
        }),
    };
    let group_sizes = GroupSizes {
        got: 0,
        rela_dyn_general: 0,
        dynsym: 0,
        dynstr: 0,
        dynamic: 0,
        symtab_global: 0,
        strtab: 0,
        eh_frame: 16,
        ..sizes()
    };
    let mut out = GroupOutput { parts: vec![], gnu_hash: Slots::new(0), gnu_property: Slots::new(0) };
    let w = write_group(
        &vec![FileLayout::Object(object)],
        &group_sizes,
        &MemSizes { got: 0, ..mem_sizes() },
        0,
        0,
        0x8000,
        &mut out,
        &settings(kind),
        &prelude_inputs(),
    )
    .unwrap();
    assert_eq!(w.eh_frame.items, cie);
    assert_eq!(w.eh_frame_start_address, 0x8010);
}

#[test]
fn copy_relocated_definition_goes_to_bss() {
    let sym = InputSymbol { st_info: 0x11, st_other: 0, st_value: 0, st_size: 8 };
    let sections = OutputSections { output_index: vec![None, Some(12)] };
    let mut res = resolution(0x7000);
    res.resolution_flags.copy_relocation = true;
    let d = write_copy_relocation_dynamic_symbol_definition(sym, b"environ".to_vec(), 5, 2, &Some(res), &sections, 1).unwrap();
    assert_eq!((d.shndx, d.value, d.hash, d.version), (12, 0x7000, 5, 2));
    res.resolution_flags.copy_relocation = false;
    assert!(write_copy_relocation_dynamic_symbol_definition(sym, b"environ".to_vec(), 5, 2, &Some(res), &sections, 1).is_err());
    assert!(write_copy_relocation_dynamic_symbol_definition(sym, b"environ".to_vec(), 5, 2, &None, &sections, 1).is_err());
}

#[test]
fn regular_definition_of_tls_symbol_is_segment_relative() {
    let sections = OutputSections { output_index: vec![None, Some(4)] };
    let tls = InputSymbol { st_info: 0x16, st_other: 0, st_value: 0, st_size: 4 };
    let d = write_regular_object_dynamic_symbol_definition(tls, b"x".to_vec(), 1, 1, DefinedIn::Section(1), &Some(resolution(0x1010)), &sections, Some(0x1000)).unwrap();
    assert_eq!((d.shndx, d.value), (4, 0x10));
    assert!(write_regular_object_dynamic_symbol_definition(tls, b"x".to_vec(), 1, 1, DefinedIn::Section(1), &Some(resolution(0x1010)), &sections, None).is_err());
    let u = write_regular_object_dynamic_symbol_definition(tls, b"y".to_vec(), 1, 1, DefinedIn::Undefined, &None, &sections, None).unwrap();
    assert_eq!((u.shndx, u.value), (0, 0));
}
