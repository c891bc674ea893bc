use crate::bytes::{le64, splice};
use crate::error::WriteError;
use crate::model::{rela, OutputKind, Resolution, GOT_ENTRY_SIZE, R_X86_64_GLOB_DAT, R_X86_64_RELATIVE};
use crate::table_writer::{cat, did, e_fail, e_none, e_relative, e_symbol_rela, Emission, TableWriter};
use vstd::prelude::*;
use vstd::wrapping::u64_specs::{wrapping_add, wrapping_sub};

verus! {

/// How a relocation's value is computed.
#[derive(Clone, Copy, Debug, PartialEq, Eq, Structural)]
pub enum RelocationKind {
    Absolute,
    AbsoluteAArch64,
    Relative,
    GotRelative,
    GotRelGotBase,
    Got,
    SymRelGotBase,
    PltRelGotBase,
    PltRelative,
    TlsGd,
    TlsGdGot,
    TlsGdGotBase,
    TlsLd,
    TlsLdGot,
    TlsLdGotBase,
    DtpOff,
    GotTpOff,
    GotTpOffGot,
    GotTpOffGotBase,
    TpOff,
    TpOffAArch64,
    TlsDesc,
    TlsDescGot,
    TlsDescGotBase,
    NoValue,
    TlsDescCall,
}

/// Which values fit a relocation's field.
#[derive(Clone, Copy, Debug, PartialEq, Eq, Structural)]
pub enum ValueRange {
    Any,
    Signed,
    Unsigned,
}

/// How a relocation type is computed and stored.
#[derive(Clone, Copy, Debug, PartialEq, Eq, Structural)]
pub struct RelocationKindInfo {
    pub kind: RelocationKind,
    /// Field width in bytes: 0, 1, 2, 4 or 8.
    pub byte_size: usize,
    pub range: ValueRange,
}

pub open spec fn info(kind: RelocationKind, byte_size: usize, range: ValueRange) -> Option<RelocationKindInfo> {
    Some(RelocationKindInfo { kind, byte_size, range })
}

/// The x86-64 relocation types that input objects may hold.
pub open spec fn x86_64_rel_info(r_type: u32) -> Option<RelocationKindInfo> {
    if r_type == 0 {
        info(RelocationKind::NoValue, 0, ValueRange::Any)
    } else if r_type == 1 {
        info(RelocationKind::Absolute, 8, ValueRange::Any)
    } else if r_type == 2 {
        info(RelocationKind::Relative, 4, ValueRange::Signed)
    } else if r_type == 3 {
        info(RelocationKind::GotRelGotBase, 4, ValueRange::Signed)
    } else if r_type == 4 {
        info(RelocationKind::PltRelative, 4, ValueRange::Signed)
    } else if r_type == 9 || r_type == 41 || r_type == 42 {
        info(RelocationKind::GotRelative, 4, ValueRange::Signed)
    } else if r_type == 10 {
        info(RelocationKind::Absolute, 4, ValueRange::Unsigned)
    } else if r_type == 11 {
        info(RelocationKind::Absolute, 4, ValueRange::Signed)
    } else if r_type == 12 {
        info(RelocationKind::Absolute, 2, ValueRange::Unsigned)
    } else if r_type == 13 {
        info(RelocationKind::Relative, 2, ValueRange::Signed)
    } else if r_type == 14 {
        info(RelocationKind::Absolute, 1, ValueRange::Unsigned)
    } else if r_type == 15 {
        info(RelocationKind::Relative, 1, ValueRange::Signed)
    } else if r_type == 17 {
        info(RelocationKind::DtpOff, 8, ValueRange::Any)
    } else if r_type == 18 {
        info(RelocationKind::TpOff, 8, ValueRange::Any)
    } else if r_type == 19 {
        info(RelocationKind::TlsGd, 4, ValueRange::Signed)
    } else if r_type == 20 {
        info(RelocationKind::TlsLd, 4, ValueRange::Signed)
    } else if r_type == 21 {
        info(RelocationKind::DtpOff, 4, ValueRange::Signed)
    } else if r_type == 22 {
        info(RelocationKind::GotTpOff, 4, ValueRange::Signed)
    } else if r_type == 23 {
        info(RelocationKind::TpOff, 4, ValueRange::Signed)
    } else if r_type == 24 {
        info(RelocationKind::Relative, 8, ValueRange::Any)
    } else if r_type == 25 {
        info(RelocationKind::SymRelGotBase, 8, ValueRange::Any)
    } else if r_type == 34 {
        info(RelocationKind::TlsDesc, 4, ValueRange::Signed)
    } else if r_type == 35 {
        info(RelocationKind::TlsDescCall, 0, ValueRange::Any)
    } else {
        None
    }
}

/// Looks up how an x86-64 relocation type is computed and stored.
pub fn relocation_from_raw(r_type: u32) -> (r: Result<RelocationKindInfo, WriteError>)
    ensures
        r.is_ok() == (x86_64_rel_info(r_type) is Some),
        r.is_ok() ==> r->Ok_0 == x86_64_rel_info(r_type)->Some_0,
{
    let (kind, byte_size, range) = if r_type == 0 {
        (RelocationKind::NoValue, 0, ValueRange::Any)
    } else if r_type == 1 {
        (RelocationKind::Absolute, 8, ValueRange::Any)
    } else if r_type == 2 {
        (RelocationKind::Relative, 4, ValueRange::Signed)
    } else if r_type == 3 {
        (RelocationKind::GotRelGotBase, 4, ValueRange::Signed)
    } else if r_type == 4 {
        (RelocationKind::PltRelative, 4, ValueRange::Signed)
    } else if r_type == 9 || r_type == 41 || r_type == 42 {
        (RelocationKind::GotRelative, 4, ValueRange::Signed)
    } else if r_type == 10 {
        (RelocationKind::Absolute, 4, ValueRange::Unsigned)
    } else if r_type == 11 {
        (RelocationKind::Absolute, 4, ValueRange::Signed)
    } else if r_type == 12 {
        (RelocationKind::Absolute, 2, ValueRange::Unsigned)
    } else if r_type == 13 {
        (RelocationKind::Relative, 2, ValueRange::Signed)
    } else if r_type == 14 {
        (RelocationKind::Absolute, 1, ValueRange::Unsigned)
    } else if r_type == 15 {
        (RelocationKind::Relative, 1, ValueRange::Signed)
    } else if r_type == 17 {
        (RelocationKind::DtpOff, 8, ValueRange::Any)
    } else if r_type == 18 {
        (RelocationKind::TpOff, 8, ValueRange::Any)
    } else if r_type == 19 {
        (RelocationKind::TlsGd, 4, ValueRange::Signed)
    } else if r_type == 20 {
        (RelocationKind::TlsLd, 4, ValueRange::Signed)
    } else if r_type == 21 {
        (RelocationKind::DtpOff, 4, ValueRange::Signed)
    } else if r_type == 22 {
        (RelocationKind::GotTpOff, 4, ValueRange::Signed)
    } else if r_type == 23 {
        (RelocationKind::TpOff, 4, ValueRange::Signed)
    } else if r_type == 24 {
        (RelocationKind::Relative, 8, ValueRange::Any)
    } else if r_type == 25 {
        (RelocationKind::SymRelGotBase, 8, ValueRange::Any)
    } else if r_type == 34 {
        (RelocationKind::TlsDesc, 4, ValueRange::Signed)
    } else if r_type == 35 {
        (RelocationKind::TlsDescCall, 0, ValueRange::Any)
    } else {
        return Err(WriteError::UnsupportedRelocation);
    };
    Ok(RelocationKindInfo { kind, byte_size, range })
}

/// Addresses of the output that relocation values are computed from.
#[derive(Clone, Copy, Debug, PartialEq, Eq, Structural)]
pub struct RelocationContext {
    pub output_kind: OutputKind,
    pub got_base: u64,
    pub tls_start: u64,
    pub tls_end: u64,
    /// Where the TLS block starts as AArch64 addresses it.
    pub tls_start_aarch64: u64,
    /// The pair of GOT entries shared by local-dynamic TLS accesses.
    pub tlsld_got_entry: Option<u64>,
}

/// The resolution's value plus the addend.
pub open spec fn value_with_addend(res: Resolution, addend: i64) -> u64 {
    wrapping_add(res.raw_value, addend as u64)
}

/// The GOT entry of a general-dynamic TLS access: after the offset entry,
/// when there is one.
pub open spec fn tlsgd_got_address(res: Resolution) -> Option<u64> {
    match res.got_address {
        Some(g) => Some(
            if res.resolution_flags.got_tls_offset {
                wrapping_add(g, GOT_ENTRY_SIZE)
            } else {
                g
            },
        ),
        None => None,
    }
}

/// The GOT entry of a TLS descriptor: after the offset and module entries
/// that precede it.
pub open spec fn tls_descriptor_got_address(res: Resolution) -> Option<u64> {
    match tlsgd_got_address(res) {
        Some(g) => Some(
            if res.resolution_flags.got_tls_module {
                wrapping_add(g, 16)
            } else {
                g
            },
        ),
        None => None,
    }
}

pub open spec fn plus(base: Option<u64>, addend: i64) -> Option<u64> {
    match base {
        Some(b) => Some(wrapping_add(b, addend as u64)),
        None => None,
    }
}

pub open spec fn minus(base: Option<u64>, v: u64) -> Option<u64> {
    match base {
        Some(b) => Some(wrapping_sub(b, v)),
        None => None,
    }
}

/// The value of every relocation form but `Absolute`; `None` where the
/// form needs a GOT or PLT entry that the symbol does not have.
pub open spec fn relocation_value(
    kind: RelocationKind,
    res: Resolution,
    place: u64,
    addend: i64,
    ctx: RelocationContext,
) -> Option<u64> {
    let s = Some(res.raw_value);
    let got = res.got_address;
    let gd = tlsgd_got_address(res);
    let desc = tls_descriptor_got_address(res);
    let ld = ctx.tlsld_got_entry;
    match kind {
        RelocationKind::Absolute => None,
        RelocationKind::AbsoluteAArch64 => plus(s, addend),
        RelocationKind::Relative => minus(plus(s, addend), place),
        RelocationKind::GotRelative => minus(plus(got, addend), place),
        RelocationKind::GotRelGotBase => plus(minus(got, ctx.got_base), addend),
        RelocationKind::Got => plus(got, addend),
        RelocationKind::SymRelGotBase => minus(plus(s, addend), ctx.got_base),
        RelocationKind::PltRelGotBase => minus(res.plt_address, ctx.got_base),
        RelocationKind::PltRelative => minus(plus(res.plt_address, addend), place),
        RelocationKind::TlsGd => minus(plus(gd, addend), place),
        RelocationKind::TlsGdGot => plus(gd, addend),
        RelocationKind::TlsGdGotBase => minus(plus(gd, addend), ctx.got_base),
        RelocationKind::TlsLd => minus(plus(ld, addend), place),
        RelocationKind::TlsLdGot => plus(ld, addend),
        RelocationKind::TlsLdGotBase => minus(plus(ld, addend), ctx.got_base),
        RelocationKind::DtpOff => if ctx.output_kind is SharedObject {
            plus(minus(s, ctx.tls_start), addend)
        } else {
            plus(minus(s, ctx.tls_end), addend)
        },
        RelocationKind::GotTpOff => minus(plus(got, addend), place),
        RelocationKind::GotTpOffGot => plus(got, addend),
        RelocationKind::GotTpOffGotBase => minus(plus(got, addend), ctx.got_base),
        RelocationKind::TpOff => plus(minus(s, ctx.tls_end), addend),
        RelocationKind::TpOffAArch64 => plus(minus(s, ctx.tls_start_aarch64), addend),
        RelocationKind::TlsDesc => minus(plus(desc, addend), place),
        RelocationKind::TlsDescGot => plus(desc, addend),
        RelocationKind::TlsDescGotBase => minus(plus(desc, addend), ctx.got_base),
        RelocationKind::NoValue | RelocationKind::TlsDescCall => Some(0),
    }
}

fn add_addend(base: Option<u64>, addend: i64) -> (r: Option<u64>)
    ensures
        r == plus(base, addend),
{
    match base {
        Some(b) => Some(b.wrapping_add(addend as u64)),
        None => None,
    }
}

fn sub_from(base: Option<u64>, v: u64) -> (r: Option<u64>)
    ensures
        r == minus(base, v),
{
    match base {
        Some(b) => Some(b.wrapping_sub(v)),
        None => None,
    }
}

fn tlsgd_got(res: &Resolution) -> (r: Option<u64>)
    ensures
        r == tlsgd_got_address(*res),
{
    match res.got_address {
        Some(g) => Some(
            if res.resolution_flags.got_tls_offset {
                g.wrapping_add(GOT_ENTRY_SIZE)
            } else {
                g
            },
        ),
        None => None,
    }
}

fn tls_descriptor_got(res: &Resolution) -> (r: Option<u64>)
    ensures
        r == tls_descriptor_got_address(*res),
{
    match tlsgd_got(res) {
        Some(g) => Some(
            if res.resolution_flags.got_tls_module {
                g.wrapping_add(16)
            } else {
                g
            },
        ),
        None => None,
    }
}

/// Computes the value of a relocation of any form but `Absolute`.
pub fn compute_relocation_value(
    kind: RelocationKind,
    res: &Resolution,
    place: u64,
    addend: i64,
    ctx: &RelocationContext,
) -> (r: Option<u64>)
    ensures
        r == relocation_value(kind, *res, place, addend, *ctx),
{
    let s = Some(res.raw_value);
    let got = res.got_address;
    let gd = tlsgd_got(res);
    let desc = tls_descriptor_got(res);
    let ld = ctx.tlsld_got_entry;
    match kind {
        RelocationKind::Absolute => None,
        RelocationKind::AbsoluteAArch64 => add_addend(s, addend),
        RelocationKind::Relative => sub_from(add_addend(s, addend), place),
        RelocationKind::GotRelative => sub_from(add_addend(got, addend), place),
        RelocationKind::GotRelGotBase => add_addend(sub_from(got, ctx.got_base), addend),
        RelocationKind::Got => add_addend(got, addend),
        RelocationKind::SymRelGotBase => sub_from(add_addend(s, addend), ctx.got_base),
        RelocationKind::PltRelGotBase => sub_from(res.plt_address, ctx.got_base),
        RelocationKind::PltRelative => sub_from(add_addend(res.plt_address, addend), place),
        RelocationKind::TlsGd => sub_from(add_addend(gd, addend), place),
        RelocationKind::TlsGdGot => add_addend(gd, addend),
        RelocationKind::TlsGdGotBase => sub_from(add_addend(gd, addend), ctx.got_base),
        RelocationKind::TlsLd => sub_from(add_addend(ld, addend), place),
        RelocationKind::TlsLdGot => add_addend(ld, addend),
        RelocationKind::TlsLdGotBase => sub_from(add_addend(ld, addend), ctx.got_base),
        RelocationKind::DtpOff => if matches!(ctx.output_kind, OutputKind::SharedObject) {
            add_addend(sub_from(s, ctx.tls_start), addend)
        } else {
            add_addend(sub_from(s, ctx.tls_end), addend)
        },
        RelocationKind::GotTpOff => sub_from(add_addend(got, addend), place),
        RelocationKind::GotTpOffGot => add_addend(got, addend),
        RelocationKind::GotTpOffGotBase => sub_from(add_addend(got, addend), ctx.got_base),
        RelocationKind::TpOff => add_addend(sub_from(s, ctx.tls_end), addend),
        RelocationKind::TpOffAArch64 => add_addend(sub_from(s, ctx.tls_start_aarch64), addend),
        RelocationKind::TlsDesc => sub_from(add_addend(desc, addend), place),
        RelocationKind::TlsDescGot => add_addend(desc, addend),
        RelocationKind::TlsDescGotBase => sub_from(add_addend(desc, addend), ctx.got_base),
        RelocationKind::NoValue | RelocationKind::TlsDescCall => Some(0),
    }
}

/// Where and how the relocated section is written.
#[derive(Clone, Copy, Debug, PartialEq, Eq, Structural)]
pub struct SectionInfo {
    pub section_address: u64,
    pub is_writable: bool,
}

/// The dynamic relocations that an `Absolute` relocation at `place` asks for.
pub open spec fn absolute_emission(
    res: Resolution,
    place: u64,
    addend: i64,
    section_info: SectionInfo,
    kind: OutputKind,
) -> Emission {
    if res.value_flags.dynamic && section_info.is_writable {
        e_symbol_rela(res, place, R_X86_64_GLOB_DAT, addend)
    } else if kind.relocatable() && !res.value_flags.absolute {
        e_relative(rela(place, 0, R_X86_64_RELATIVE, value_with_addend(res, addend) as i64))
    } else if res.value_flags.ifunc && res.plt_address is None {
        e_fail()
    } else {
        e_none()
    }
}

/// The value that an `Absolute` relocation stores in place: zero where a
/// dynamic relocation supplies it, an ifunc's PLT stub, or the symbol's value.
pub open spec fn absolute_value(
    res: Resolution,
    addend: i64,
    section_info: SectionInfo,
    kind: OutputKind,
) -> u64 {
    if res.value_flags.dynamic && section_info.is_writable {
        0
    } else if kind.relocatable() && !res.value_flags.absolute {
        0
    } else if res.value_flags.ifunc {
        wrapping_add(res.plt_address->Some_0, addend as u64)
    } else {
        value_with_addend(res, addend)
    }
}

/// Handles an `Absolute` relocation: emits the dynamic relocation it needs
/// and returns the value to store in place.
pub fn write_absolute_relocation(
    table_writer: &mut TableWriter,
    res: &Resolution,
    place: u64,
    addend: i64,
    section_info: SectionInfo,
) -> (r: Result<u64, WriteError>)
    requires
        old(table_writer).wf(),
    ensures
        did(
            *old(table_writer),
            absolute_emission(*res, place, addend, section_info, old(table_writer).output_kind),
            *final(table_writer),
            match r {
                Ok(_) => Ok(()),
                Err(e) => Err(e),
            },
        ),
        r.is_ok() ==> r->Ok_0 == absolute_value(*res, addend, section_info, old(table_writer).output_kind),
{
    if res.value_flags.dynamic && section_info.is_writable {
        let r = match res.dynamic_symbol_index {
            Some(i) => table_writer.write_rela_dyn_general(place, i, R_X86_64_GLOB_DAT, addend),
            None => Err(WriteError::MissingDynamicSymbolIndex),
        };
        match r {
            Ok(()) => Ok(0),
            Err(e) => Err(e),
        }
    } else if table_writer.output_kind.is_relocatable() && !res.value_flags.absolute {
        let address = res.raw_value.wrapping_add(addend as u64);
        match table_writer.write_address_relocation(place, address as i64) {
            Ok(()) => Ok(0),
            Err(e) => Err(e),
        }
    } else if res.value_flags.ifunc {
        match res.plt_address {
            Some(p) => {
                proof { crate::table_writer::lemma_none(*table_writer); }
                Ok(p.wrapping_add(addend as u64))
            },
            None => Err(WriteError::MissingGotEntry),
        }
    } else {
        proof { crate::table_writer::lemma_none(*table_writer); }
        Ok(res.raw_value.wrapping_add(addend as u64))
    }
}

/// One past the largest unsigned value of a field of `byte_size` bytes.
pub open spec fn field_limit(byte_size: usize) -> int {
    if byte_size == 1 {
        0x100
    } else if byte_size == 2 {
        0x1_0000
    } else if byte_size == 4 {
        0x1_0000_0000
    } else {
        0x1_0000_0000_0000_0000
    }
}

/// Whether `v` fits a field of `byte_size` bytes, read as unsigned or as
/// two's complement.
pub open spec fn in_range(range: ValueRange, byte_size: usize, v: u64) -> bool {
    match range {
        ValueRange::Any => true,
        ValueRange::Unsigned => byte_size == 0 || v < field_limit(byte_size),
        ValueRange::Signed => byte_size == 0 || v < field_limit(byte_size) / 2 || v
            >= 0x1_0000_0000_0000_0000 - field_limit(byte_size) / 2,
    }
}

/// The first `n` bytes of the little-endian encoding of `v`.
pub open spec fn le_prefix(v: u64, n: usize) -> Seq<u8> {
    le64(v).subrange(0, n as int)
}

/// Stores `value` in the field of a relocation at `offset` of `out`.
pub fn write_relocation_to_buffer(rel_info: RelocationKindInfo, value: u64, out: &mut Vec<u8>, offset: u64) -> (r:
    Result<(), WriteError>)
    requires
        rel_info.byte_size <= 8,
    ensures
        r.is_ok() == (in_range(rel_info.range, rel_info.byte_size, value) && offset
            + rel_info.byte_size <= old(out)@.len()),
        r.is_ok() ==> final(out)@ == splice(old(out)@, offset as int, le_prefix(value, rel_info.byte_size)),
        r.is_err() ==> final(out)@ == old(out)@,
{
    let n = rel_info.byte_size;
    let limit: u128 = if n == 1 {
        0x100
    } else if n == 2 {
        0x1_0000
    } else if n == 4 {
        0x1_0000_0000
    } else {
        0x1_0000_0000_0000_0000
    };
    let ok = match rel_info.range {
        ValueRange::Any => true,
        ValueRange::Unsigned => n == 0 || (value as u128) < limit,
        ValueRange::Signed => n == 0 || (value as u128) < limit / 2 || (value as u128)
            >= 0x1_0000_0000_0000_0000u128 - limit / 2,
    };
    if !ok {
        return Err(WriteError::RelocationOverflow);
    }
    if offset > out.len() as u64 || (n as u64) > out.len() as u64 - offset {
        return Err(WriteError::RelocationOutOfBounds);
    }
    let mut bytes: Vec<u8> = Vec::new();
    crate::bytes::push_u64(&mut bytes, value);
    bytes.truncate(n);
    assert(bytes@ =~= le_prefix(value, n));
    crate::bytes::write_at(out, offset as usize, bytes.as_slice());
    Ok(())
}

/// A relocation record of an input section.
#[derive(Clone, Copy, Debug, PartialEq, Eq, Structural)]
pub struct RelocationRecord {
    pub r_offset: u64,
    pub r_type: u32,
    pub r_addend: i64,
}

/// Whether the next relocation is applied or consumed by a relaxation.
#[derive(Clone, Copy, Debug, PartialEq, Eq, Structural)]
pub enum RelocationModifier {
    Normal,
    SkipNextRelocation,
}

/// An instruction rewrite that replaces a relocated sequence with a cheaper
/// one: `bytes` go at `at`, and the relocation is then applied with `info`
/// at `offset` with `addend`.
pub struct Relaxation {
    pub info: RelocationKindInfo,
    pub offset: u64,
    pub addend: i64,
    pub at: u64,
    pub bytes: Seq<u8>,
    pub skip_next: bool,
}

pub const R_X86_64_TLSGD: u32 = 19;
pub const R_X86_64_GOTPCRELX: u32 = 41;
pub const R_X86_64_REX_GOTPCRELX: u32 = 42;

/// `data16 lea x@tlsgd(%rip),%rdi` up to its displacement, and the
/// `data16 data16 rex64 call` that follows it.
pub open spec fn tlsgd_lea() -> Seq<u8> {
    seq![0x66u8, 0x48, 0x8d, 0x3d]
}

pub open spec fn tlsgd_call() -> Seq<u8> {
    seq![0x66u8, 0x66, 0x48, 0xe8]
}

/// `mov %fs:0,%rax; lea x@tpoff(%rax),%rax`, the displacement left zero.
pub open spec fn tls_le_sequence() -> Seq<u8> {
    seq![0x64u8, 0x48, 0x8b, 0x04, 0x25, 0, 0, 0, 0, 0x48, 0x8d, 0x80, 0, 0, 0, 0]
}

/// The x86-64 relaxation of a relocation, if one applies:
/// - a GOT load `mov x@GOTPCREL(%rip),%reg` of a symbol that can bypass the
///   GOT becomes `lea x(%rip),%reg`;
/// - a general-dynamic TLS access to a non-dynamic symbol in an executable
///   becomes a local-exec access, which also consumes the next relocation
///   (the call to `__tls_get_addr`).
pub open spec fn relaxation(
    r_type: u32,
    bytes: Seq<u8>,
    offset: u64,
    addend: i64,
    value_flags: crate::model::ValueFlags,
    kind: OutputKind,
) -> Option<Relaxation> {
    let o = offset as int;
    if (r_type == R_X86_64_GOTPCRELX || r_type == R_X86_64_REX_GOTPCRELX) && value_flags.can_bypass_got
        && !value_flags.dynamic && !value_flags.ifunc && 2 <= o && o + 4 <= bytes.len() && bytes[o - 2]
        == 0x8b {
        Some(
            Relaxation {
                info: RelocationKindInfo { kind: RelocationKind::Relative, byte_size: 4, range: ValueRange::Signed },
                offset,
                addend,
                at: (offset - 2) as u64,
                bytes: seq![0x8du8],
                skip_next: false,
            },
        )
    } else if r_type == R_X86_64_TLSGD && kind.executable() && !value_flags.dynamic && 4 <= o && o + 12
        <= bytes.len() && bytes.subrange(o - 4, o) == tlsgd_lea() && bytes.subrange(o + 4, o + 8)
        == tlsgd_call() {
        Some(
            Relaxation {
                info: RelocationKindInfo { kind: RelocationKind::TpOff, byte_size: 4, range: ValueRange::Signed },
                offset: (offset + 8) as u64,
                addend: 0,
                at: (offset - 4) as u64,
                bytes: tls_le_sequence(),
                skip_next: true,
            },
        )
    } else {
        None
    }
}

/// How a relocation is applied after any relaxation: its info, offset,
/// addend, the section bytes after the rewrite, and whether the next
/// relocation is skipped. `None` for an unknown type.
pub struct Effective {
    pub info: RelocationKindInfo,
    pub offset: u64,
    pub addend: i64,
    pub bytes: Seq<u8>,
    pub skip_next: bool,
}

pub open spec fn effective(
    rel: RelocationRecord,
    offset: u64,
    bytes: Seq<u8>,
    res: Resolution,
    kind: OutputKind,
) -> Option<Effective> {
    match relaxation(rel.r_type, bytes, offset, rel.r_addend, res.value_flags, kind) {
        Some(x) => Some(
            Effective {
                info: x.info,
                offset: x.offset,
                addend: x.addend,
                bytes: splice(bytes, x.at as int, x.bytes),
                skip_next: x.skip_next,
            },
        ),
        None => match x86_64_rel_info(rel.r_type) {
            Some(i) => Some(Effective { info: i, offset, addend: rel.r_addend, bytes, skip_next: false }),
            None => None,
        },
    }
}

/// The value a relocation stores once relaxed, `None` where it cannot be
/// computed.
pub open spec fn effective_value(e: Effective, res: Resolution, si: SectionInfo, ctx: RelocationContext) -> Option<u64> {
    let place = wrapping_add(si.section_address, e.offset);
    if e.info.kind is Absolute {
        if res.value_flags.ifunc && res.plt_address is None && !(res.value_flags.dynamic && si.is_writable) && !(
        ctx.output_kind.relocatable() && !res.value_flags.absolute) {
            None
        } else {
            Some(absolute_value(res, e.addend, si, ctx.output_kind))
        }
    } else {
        relocation_value(e.info.kind, res, place, e.addend, ctx)
    }
}

/// What applying a relocation appends to the tables; it fails (`ok` false)
/// exactly when the relocation cannot be applied.
pub open spec fn step_emission(
    rel: RelocationRecord,
    offset: u64,
    bytes: Seq<u8>,
    res: Resolution,
    si: SectionInfo,
    ctx: RelocationContext,
) -> Emission {
    match effective(rel, offset, bytes, res, ctx.output_kind) {
        None => e_fail(),
        Some(e) => {
            let place = wrapping_add(si.section_address, e.offset);
            let v = effective_value(e, res, si, ctx);
            cat(
                if e.info.kind is Absolute {
                    absolute_emission(res, place, e.addend, si, ctx.output_kind)
                } else {
                    e_none()
                },
                if v is Some && in_range(e.info.range, e.info.byte_size, v->Some_0) && e.offset
                    + e.info.byte_size <= e.bytes.len() {
                    e_none()
                } else {
                    e_fail()
                },
            )
        },
    }
}

/// The section bytes after applying a relocation that succeeds.
pub open spec fn step_bytes(
    rel: RelocationRecord,
    offset: u64,
    bytes: Seq<u8>,
    res: Resolution,
    si: SectionInfo,
    ctx: RelocationContext,
) -> Seq<u8> {
    let e = effective(rel, offset, bytes, res, ctx.output_kind)->Some_0;
    splice(e.bytes, e.offset as int, le_prefix(effective_value(e, res, si, ctx)->Some_0, e.info.byte_size))
}

/// Whether a relocation that succeeds consumes the next one.
pub open spec fn step_skips(rel: RelocationRecord, offset: u64, bytes: Seq<u8>, res: Resolution, kind: OutputKind) -> bool {
    effective(rel, offset, bytes, res, kind)->Some_0.skip_next
}

fn bytes_match(out: &Vec<u8>, at: usize, expected: &[u8]) -> (r: bool)
    requires
        at + expected@.len() <= out@.len(),
    ensures
        r == (out@.subrange(at as int, at + expected@.len()) == expected@),
{
    let n = out.len();
    let mut i: usize = 0;
    while i < expected.len()
        invariant
            n == out@.len(),
            i <= expected@.len(),
            at + expected@.len() <= out@.len(),
            out@.subrange(at as int, at + i) == expected@.subrange(0, i as int),
        decreases expected@.len() - i,
    {
        if out[at + i] != expected[i] {
            assert(out@.subrange(at as int, at + expected@.len())[i as int] != expected@[i as int]);
            return false;
        }
        i = i + 1;
        assert(out@.subrange(at as int, at + i) =~= expected@.subrange(0, i as int));
    }
    assert(expected@.subrange(0, i as int) =~= expected@);
    true
}

/// Applies the relaxation of a relocation, if one applies: rewrites the
/// instruction bytes and returns the info, offset and addend to apply the
/// relocation with, and whether it consumes the next relocation.
pub fn relax(
    rel: &RelocationRecord,
    offset: u64,
    value_flags: crate::model::ValueFlags,
    kind: OutputKind,
    out: &mut Vec<u8>,
) -> (r: Option<(RelocationKindInfo, u64, i64, bool)>)
    ensures
        ({
            let x = relaxation(rel.r_type, old(out)@, offset, rel.r_addend, value_flags, kind);
            &&& r is Some == x is Some
            &&& x is Some ==> r->Some_0 == (x->Some_0.info, x->Some_0.offset, x->Some_0.addend, x->Some_0.skip_next)
            &&& x is Some ==> final(out)@ == splice(old(out)@, x->Some_0.at as int, x->Some_0.bytes)
            &&& x is None ==> final(out)@ == old(out)@
        }),
{
    let n = out.len() as u64;
    if (rel.r_type == R_X86_64_GOTPCRELX || rel.r_type == R_X86_64_REX_GOTPCRELX) && value_flags.can_bypass_got
        && !value_flags.dynamic && !value_flags.ifunc && 2 <= offset && offset <= n && n - offset >= 4
        && out[(offset - 2) as usize] == 0x8b {
        let lea: Vec<u8> = vec![0x8du8];
        crate::bytes::write_at(out, (offset - 2) as usize, lea.as_slice());
        assert(lea@ =~= seq![0x8du8]);
        return Some((RelocationKindInfo { kind: RelocationKind::Relative, byte_size: 4, range: ValueRange::Signed }, offset, rel.r_addend, false));
    }
    if rel.r_type == R_X86_64_TLSGD && kind.is_executable() && !value_flags.dynamic && 4 <= offset && offset <= n
        && n - offset >= 12 {
        let lea: Vec<u8> = vec![0x66u8, 0x48, 0x8d, 0x3d];
        let call: Vec<u8> = vec![0x66u8, 0x66, 0x48, 0xe8];
        assert(lea@ =~= tlsgd_lea());
        assert(call@ =~= tlsgd_call());
        if bytes_match(out, (offset - 4) as usize, lea.as_slice()) && bytes_match(out, (offset + 4) as usize, call.as_slice()) {
            let le: Vec<u8> = vec![0x64u8, 0x48, 0x8b, 0x04, 0x25, 0, 0, 0, 0, 0x48, 0x8d, 0x80, 0, 0, 0, 0];
            assert(le@ =~= tls_le_sequence());
            crate::bytes::write_at(out, (offset - 4) as usize, le.as_slice());
            return Some((RelocationKindInfo { kind: RelocationKind::TpOff, byte_size: 4, range: ValueRange::Signed }, offset + 8, 0, true));
        }
    }
    None
}

/// Applies relocation `rel`, resolved to `res`, at `offset_in_section` of
/// the section bytes `out`, after relaxing it where a relaxation applies.
/// Returns whether the next relocation is consumed.
pub fn apply_relocation(
    table_writer: &mut TableWriter,
    offset_in_section: u64,
    rel: &RelocationRecord,
    res: &Resolution,
    section_info: SectionInfo,
    ctx: &RelocationContext,
    out: &mut Vec<u8>,
) -> (r: Result<RelocationModifier, WriteError>)
    requires
        old(table_writer).wf(),
        old(table_writer).output_kind == ctx.output_kind,
    ensures
        did(
            *old(table_writer),
            step_emission(*rel, offset_in_section, old(out)@, *res, section_info, *ctx),
            *final(table_writer),
            match r {
                Ok(_) => Ok(()),
                Err(e) => Err(e),
            },
        ),
        final(out)@.len() == old(out)@.len(),
        r.is_ok() ==> final(out)@ == step_bytes(*rel, offset_in_section, old(out)@, *res, section_info, *ctx),
        r.is_ok() ==> (r->Ok_0 is SkipNextRelocation) == step_skips(
            *rel,
            offset_in_section,
            old(out)@,
            *res,
            ctx.output_kind,
        ),
{
    let ghost before = out@;
    let (rel_info, offset, addend, skip) = match relax(rel, offset_in_section, res.value_flags, ctx.output_kind, out) {
        Some(x) => x,
        None => match relocation_from_raw(rel.r_type) {
            Ok(i) => (i, offset_in_section, rel.r_addend, false),
            Err(e) => {
                proof { crate::table_writer::lemma_none(*table_writer); }
                return Err(e);
            },
        },
    };
    let ghost eff = effective(*rel, offset_in_section, before, *res, ctx.output_kind)->Some_0;
    assert(rel_info == eff.info && offset == eff.offset && out@ == eff.bytes && skip == eff.skip_next);
    assert(addend == eff.addend);
    let place = section_info.section_address.wrapping_add(offset);
    let ghost s0 = *table_writer;
    let ghost a = if rel_info.kind is Absolute {
        absolute_emission(*res, place, addend, section_info, ctx.output_kind)
    } else {
        e_none()
    };
    let value = if matches!(rel_info.kind, RelocationKind::Absolute) {
        match write_absolute_relocation(table_writer, res, place, addend, section_info) {
            Ok(v) => v,
            Err(e) => {
                proof {
                    let r: Result<(), WriteError> = Err(e);
                    crate::table_writer::lemma_seq_err(s0, a, e_fail(), *table_writer, r);
                }
                return Err(e);
            },
        }
    } else {
        proof { crate::table_writer::lemma_none(*table_writer); }
        match compute_relocation_value(rel_info.kind, res, place, addend, ctx) {
            Some(v) => v,
            None => {
                proof {
                    crate::table_writer::lemma_fail_after(s0, a, *table_writer, WriteError::MissingGotEntry);
                }
                return Err(WriteError::MissingGotEntry);
            },
        }
    };
    let ghost s1 = *table_writer;
    let r = write_relocation_to_buffer(rel_info, value, out, offset);
    proof {
        let b = if r.is_ok() { e_none() } else { e_fail() };
        if r.is_ok() {
            crate::table_writer::lemma_none(s1);
        }
        crate::table_writer::lemma_seq(s0, a, b, s1, s1, match r { Ok(_) => Ok(()), Err(e) => Err(e) });
    }
    match r {
        Ok(()) => Ok(if skip {
            RelocationModifier::SkipNextRelocation
        } else {
            RelocationModifier::Normal
        }),
        Err(e) => Err(e),
    }
}

} // verus!
