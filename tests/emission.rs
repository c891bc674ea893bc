use elfout::dynamic::{
    epilogue_dynamic_entry_writers, write_dynamic_entries, DynamicEntriesWriter, DynamicEntryInputs,
    DynamicPartSizes, DynamicSectionLayouts, OutputRecordLayout, DF_BIND_NOW, DF_STATIC_TLS, DT_NULL,
};
use elfout::error::{Table, WriteError};
use elfout::model::{
    OutputKind, Resolution, ResolutionFlags, ValueFlags, R_X86_64_COPY, R_X86_64_DTPMOD64,
    R_X86_64_DTPOFF64, R_X86_64_GLOB_DAT, R_X86_64_IRELATIVE, R_X86_64_RELATIVE,
};
use elfout::table_writer::{GroupSizes, TableWriter};
use elfout::version::MemSizes;

fn sizes(got: usize, general: usize, relative: usize, plt: usize) -> GroupSizes {
    GroupSizes {
        got: got * 8,
        plt_got: plt * 16,
        rela_plt: 24,
        rela_dyn_relative: relative * 24,
        rela_dyn_general: general * 24,
        dynsym: 0,
        dynstr: 0,
        symtab_local: 0,
        symtab_global: 0,
        strtab: 0,
        eh_frame: 0,
        eh_frame_hdr: 0,
        dynamic: 0,
        gnu_version: 0,
        gnu_version_d: 0,
        gnu_version_r: 0,
    }
}

fn writer(kind: OutputKind, s: GroupSizes) -> TableWriter {
    TableWriter::from_layout(kind, 0x1000, 0x1100, 0, 0, &s, 0)
}

fn no_flags() -> ResolutionFlags {
    ResolutionFlags {
        got: true,
        plt: false,
        export_dynamic: false,
        got_tls_offset: false,
        got_tls_module: false,
        got_tls_descriptor: false,
        copy_relocation: false,
    }
}

fn value_flags() -> ValueFlags {
    ValueFlags { absolute: false, address: true, dynamic: false, ifunc: false, can_bypass_got: true }
}

fn resolution(raw_value: u64, got: u64) -> Resolution {
    Resolution {
        raw_value,
        dynamic_symbol_index: None,
        got_address: Some(got),
        plt_address: None,
        resolution_flags: no_flags(),
        value_flags: value_flags(),
    }
}

const STATIC: OutputKind = OutputKind::StaticExecutable { relocatable: false };
const PIE: OutputKind = OutputKind::DynamicExecutable { relocatable: true };

#[test]
fn got_entry_holds_value_in_static_executable() {
    let mut w = writer(STATIC, sizes(1, 0, 0, 0));
    w.process_resolution(&resolution(0x4010, 0x2000)).unwrap();
    assert_eq!(w.got.items, vec![0x4010]);
    assert!(w.rela_dyn_relative.items.is_empty());
}

#[test]
fn resolution_without_got_is_ignored() {
    let mut w = writer(STATIC, sizes(0, 0, 0, 0));
    let mut r = resolution(5, 0);
    r.got_address = None;
    w.process_resolution(&r).unwrap();
    assert!(w.got.items.is_empty());
}

#[test]
fn dynamic_symbol_gets_glob_dat() {
    let mut w = writer(PIE, sizes(1, 1, 0, 0));
    let mut r = resolution(0, 0x2008);
    r.value_flags.dynamic = true;
    r.dynamic_symbol_index = Some(3);
    w.process_resolution(&r).unwrap();
    assert_eq!(w.got.items, vec![0]);
    let rel = w.rela_dyn_general.items[0];
    assert_eq!(rel.r_offset, 0x2008);
    assert_eq!(rel.r_info, (3u64 << 32) | R_X86_64_GLOB_DAT as u64);
    assert_eq!(rel.r_addend, 0);
}

#[test]
fn dynamic_symbol_without_index_fails() {
    let mut w = writer(PIE, sizes(1, 1, 0, 0));
    let mut r = resolution(0, 0x2008);
    r.value_flags.dynamic = true;
    assert_eq!(w.process_resolution(&r), Err(WriteError::MissingDynamicSymbolIndex));
}

#[test]
fn ifunc_gets_irelative_in_rela_plt() {
    let mut w = writer(STATIC, sizes(1, 0, 0, 0));
    let mut r = resolution(0x4444, 0x2010);
    r.value_flags.ifunc = true;
    w.process_resolution(&r).unwrap();
    assert_eq!(w.got.items, vec![0]);
    let rel = w.rela_plt.items[0];
    assert_eq!(rel.r_offset, 0x2010);
    assert_eq!(rel.r_info, R_X86_64_IRELATIVE as u64);
    assert_eq!(rel.r_addend, 0x4444);
}

#[test]
fn address_in_pie_gets_relative_relocation() {
    let mut w = writer(PIE, sizes(1, 0, 1, 0));
    w.process_resolution(&resolution(0x4010, 0x2000)).unwrap();
    assert_eq!(w.got.items, vec![0x4010]);
    let rel = w.rela_dyn_relative.items[0];
    assert_eq!(rel.r_info, R_X86_64_RELATIVE as u64);
    assert_eq!(rel.r_addend, 0x4010);
}

#[test]
fn plt_stub_jumps_through_got() {
    let mut w = writer(STATIC, sizes(1, 0, 0, 1));
    let mut r = resolution(0x4010, 0x3000);
    r.plt_address = Some(0x1000);
    w.process_resolution(&r).unwrap();
    assert_eq!(
        w.plt_got.items,
        vec![0xf3, 0x0f, 0x1e, 0xfa, 0xf2, 0xff, 0x25, 0xf5, 0x1f, 0x00, 0x00, 0x0f, 0x1f, 0x44, 0x00, 0x00]
    );
}

#[test]
fn plt_too_far_from_got_fails() {
    let mut w = writer(STATIC, sizes(1, 0, 0, 1));
    let mut r = resolution(0x4010, 0x1_0000_0000);
    r.plt_address = Some(0x1000);
    assert_eq!(w.process_resolution(&r), Err(WriteError::PltTooFarFromGot));
}

#[test]
fn insufficient_got_is_reported() {
    let mut w = writer(STATIC, sizes(0, 0, 0, 0));
    assert_eq!(
        w.process_resolution(&resolution(1, 0x2000)),
        Err(WriteError::InsufficientAllocation { table: Table::Got })
    );
}

#[test]
fn tls_module_pair_in_executable() {
    // A general-dynamic access in an executable: module 1 and the offset in
    // the TLS segment, no dynamic relocation.
    let mut w = writer(OutputKind::DynamicExecutable { relocatable: false }, sizes(2, 0, 0, 0));
    let mut r = resolution(0x1010, 0x2000);
    r.resolution_flags.got_tls_module = true;
    w.process_resolution(&r).unwrap();
    assert_eq!(w.got.items, vec![1, 0x10]);
    assert!(w.rela_dyn_general.items.is_empty());
}

#[test]
fn tls_module_pair_in_shared_object() {
    let mut w = writer(OutputKind::SharedObject, sizes(2, 2, 0, 0));
    let mut r = resolution(0x1010, 0x2000);
    r.resolution_flags.got_tls_module = true;
    r.dynamic_symbol_index = Some(5);
    r.value_flags.can_bypass_got = false;
    w.process_resolution(&r).unwrap();
    assert_eq!(w.got.items, vec![0, 0]);
    let g = &w.rela_dyn_general.items;
    assert_eq!(g[0].r_offset, 0x2000);
    assert_eq!(g[0].r_info, (5u64 << 32) | R_X86_64_DTPMOD64 as u64);
    assert_eq!(g[1].r_offset, 0x2008);
    assert_eq!(g[1].r_info, (5u64 << 32) | R_X86_64_DTPOFF64 as u64);
}

#[test]
fn tls_offset_in_executable_is_negative_from_tcb() {
    let mut w = writer(STATIC, sizes(1, 0, 0, 0));
    let mut r = resolution(0x1010, 0x2000);
    r.resolution_flags.got_tls_offset = true;
    w.process_resolution(&r).unwrap();
    assert_eq!(w.got.items, vec![0x1010u64.wrapping_sub(0x1100)]);
}

#[test]
fn tls_offset_outside_segment_fails() {
    let mut w = writer(STATIC, sizes(1, 0, 0, 0));
    let mut r = resolution(0x5000, 0x2000);
    r.resolution_flags.got_tls_offset = true;
    assert_eq!(w.process_resolution(&r), Err(WriteError::TlsOutOfRange { address: 0x5000 }));
}

#[test]
fn tls_descriptor_in_static_executable_fails() {
    let mut w = writer(STATIC, sizes(2, 1, 0, 0));
    let mut r = resolution(0x1010, 0x2000);
    r.resolution_flags.got_tls_descriptor = true;
    assert_eq!(w.process_resolution(&r), Err(WriteError::TlsDescInStaticExecutable));
}

#[test]
fn copy_relocation_is_written() {
    let mut w = writer(OutputKind::DynamicExecutable { relocatable: false }, sizes(0, 1, 0, 0));
    let mut r = resolution(0x6000, 0);
    r.got_address = None;
    r.dynamic_symbol_index = Some(2);
    elfout::version_tables::write_copy_relocation_for_symbol(&Some(r), &mut w).unwrap();
    let rel = w.rela_dyn_general.items[0];
    assert_eq!(rel.r_offset, 0x6000);
    assert_eq!(rel.r_info, (2u64 << 32) | R_X86_64_COPY as u64);
}

fn mem_sizes() -> MemSizes {
    MemSizes {
        gnu_version: 0,
        gnu_version_r: 0,
        gnu_version_d: 0,
        rela_dyn_relative: 48,
        rela_dyn_general: 0,
        eh_frame: 0,
        eh_frame_hdr: 0,
        got: 8,
        plt_got: 0,
        rela_plt: 24,
        dynamic: 0,
    }
}

#[test]
fn validate_empty_reports_leftovers() {
    let w = writer(PIE, sizes(1, 0, 2, 0));
    assert_eq!(
        w.validate_empty(&mem_sizes()),
        Err(WriteError::ExcessiveAllocation { table: Table::RelaDynRelative, remaining: 48, allocated: 48 })
    );
}

#[test]
fn validate_empty_accepts_used_up_writer() {
    let mut s = sizes(1, 0, 1, 0);
    s.rela_plt = 0;
    let mut w = writer(PIE, s);
    w.process_resolution(&resolution(0x4010, 0x2000)).unwrap();
    assert_eq!(w.validate_empty(&mem_sizes()), Ok(()));
}

fn record(file_size: usize, mem_offset: u64) -> OutputRecordLayout {
    OutputRecordLayout { file_size, mem_size: file_size as u64, alignment: 8, file_offset: 0, mem_offset }
}

fn dynamic_inputs(kind: OutputKind, has_static_tls: bool) -> DynamicEntryInputs {
    DynamicEntryInputs {
        output_kind: kind,
        needs_dynamic: true,
        has_static_tls,
        section_layouts: DynamicSectionLayouts {
            init: record(0, 0),
            fini: record(0, 0),
            init_array: record(16, 0x3000),
            fini_array: record(0, 0),
            dynstr: record(40, 0x400),
            dynsym: record(48, 0x300),
            gnu_version_d: record(0, 0),
            gnu_version_r: record(0, 0),
            gnu_version: record(0, 0),
            rela_plt: record(0, 0),
            got: record(16, 0x4000),
            rela_dyn: record(48, 0x500),
            gnu_hash: record(28, 0x280),
        },
        part_sizes: DynamicPartSizes {
            gnu_version_d: 0,
            gnu_version_r: 0,
            gnu_version: 0,
            rela_plt: 0,
            rela_dyn_relative: 48,
            rela_dyn_general: 0,
        },
        verdef_count: 0,
        verneed_count: 0,
    }
}

#[test]
fn dynamic_entries_follow_table_and_end_with_null() {
    let inputs = dynamic_inputs(PIE, false);
    let mut out = DynamicEntriesWriter::new(elfout::dynamic::NUM_EPILOGUE_DYNAMIC_ENTRIES);
    write_dynamic_entries(&epilogue_dynamic_entry_writers(), &mut out, &inputs).unwrap();
    let tags: Vec<u64> = out.out.items.iter().map(|e| e.d_tag).collect();
    assert_eq!(
        tags,
        vec![25, 27, 5, 10, 6, 11, 21, 3, 7, 8, 9, 0x6fff_fff9, 0x6fff_fef5, 30, 0x6fff_fffb, DT_NULL as u64]
    );
    let relacount = out.out.items[11];
    assert_eq!(relacount.d_val, 2);
    let flags_1 = out.out.items[14];
    assert_eq!(flags_1.d_val, 1 | 0x0800_0000);
}

#[test]
fn shared_object_flags() {
    let without = dynamic_inputs(OutputKind::SharedObject, false);
    assert_eq!(without.dt_flags(), DF_BIND_NOW);
    let with = dynamic_inputs(OutputKind::SharedObject, true);
    assert_eq!(with.dt_flags(), DF_BIND_NOW | DF_STATIC_TLS);
}

#[test]
fn dynamic_section_too_small_fails() {
    let inputs = dynamic_inputs(PIE, false);
    let mut out = DynamicEntriesWriter::new(3);
    assert!(write_dynamic_entries(&epilogue_dynamic_entry_writers(), &mut out, &inputs).is_err());
}

#[test]
fn allocation_check_matches_what_a_resolution_uses() {
    let r = resolution(0x4010, 0x2000);
    let exact = GroupSizes { rela_plt: 0, ..sizes(1, 0, 1, 0) };
    assert_eq!(elfout::table_writer::verify_resolution_allocation(PIE, &exact, &mem_sizes(), &r), Ok(()));
    let too_much = GroupSizes { rela_plt: 0, ..sizes(2, 0, 1, 0) };
    assert!(elfout::table_writer::verify_resolution_allocation(PIE, &too_much, &mem_sizes(), &r).is_err());
    let too_little = GroupSizes { rela_plt: 0, ..sizes(1, 0, 0, 0) };
    assert_eq!(
        elfout::table_writer::verify_resolution_allocation(PIE, &too_little, &mem_sizes(), &r),
        Err(WriteError::InsufficientAllocation { table: Table::RelaDynRelative })
    );
}
