use vstd::prelude::*;

verus! {

/// What kind of file is being produced.
#[derive(Clone, Copy, Debug, PartialEq, Eq, Structural)]
pub enum OutputKind {
    /// A static executable; `relocatable` is true for a static PIE.
    StaticExecutable { relocatable: bool },
    /// An executable with an interpreter; `relocatable` is true for a PIE.
    DynamicExecutable { relocatable: bool },
    /// A shared object.
    SharedObject,
}

impl OutputKind {
    pub open spec fn executable(self) -> bool {
        !(self is SharedObject)
    }

    pub open spec fn relocatable(self) -> bool {
        match self {
            OutputKind::StaticExecutable { relocatable } => relocatable,
            OutputKind::DynamicExecutable { relocatable } => relocatable,
            OutputKind::SharedObject => true,
        }
    }

    pub open spec fn static_executable(self) -> bool {
        self is StaticExecutable
    }

    pub fn is_executable(self) -> (r: bool)
        ensures
            r == self.executable(),
    {
        !matches!(self, OutputKind::SharedObject)
    }

    pub fn is_relocatable(self) -> (r: bool)
        ensures
            r == self.relocatable(),
    {
        match self {
            OutputKind::StaticExecutable { relocatable } => relocatable,
            OutputKind::DynamicExecutable { relocatable } => relocatable,
            OutputKind::SharedObject => true,
        }
    }

    pub fn is_static_executable(self) -> (r: bool)
        ensures
            r == self.static_executable(),
    {
        matches!(self, OutputKind::StaticExecutable { .. })
    }
}

/// What a symbol's value is.
#[derive(Clone, Copy, Debug, PartialEq, Eq, Structural)]
pub struct ValueFlags {
    pub absolute: bool,
    pub address: bool,
    pub dynamic: bool,
    pub ifunc: bool,
    pub can_bypass_got: bool,
}

/// What a symbol needs from the output tables.
#[derive(Clone, Copy, Debug, PartialEq, Eq, Structural)]
pub struct ResolutionFlags {
    pub got: bool,
    pub plt: bool,
    pub export_dynamic: bool,
    pub got_tls_offset: bool,
    pub got_tls_module: bool,
    pub got_tls_descriptor: bool,
    pub copy_relocation: bool,
}

/// The final location and kind of a symbol.
#[derive(Clone, Copy, Debug, PartialEq, Eq, Structural)]
pub struct Resolution {
    pub raw_value: u64,
    pub dynamic_symbol_index: Option<u32>,
    pub got_address: Option<u64>,
    pub plt_address: Option<u64>,
    pub resolution_flags: ResolutionFlags,
    pub value_flags: ValueFlags,
}

/// A `Elf64_Rela` record.
#[derive(Clone, Copy, Debug, PartialEq, Eq, Structural)]
pub struct Rela {
    pub r_offset: u64,
    pub r_info: u64,
    pub r_addend: i64,
}

/// The dynamic relocation types of x86-64.
pub const R_X86_64_64: u32 = 1;
pub const R_X86_64_COPY: u32 = 5;
pub const R_X86_64_GLOB_DAT: u32 = 6;
pub const R_X86_64_JUMP_SLOT: u32 = 7;
pub const R_X86_64_RELATIVE: u32 = 8;
pub const R_X86_64_DTPMOD64: u32 = 16;
pub const R_X86_64_DTPOFF64: u32 = 17;
pub const R_X86_64_TPOFF64: u32 = 18;
pub const R_X86_64_TLSDESC: u32 = 36;
pub const R_X86_64_IRELATIVE: u32 = 37;

/// The size of a GOT entry.
pub const GOT_ENTRY_SIZE: u64 = 8;
/// The module id of the executable itself.
pub const CURRENT_EXE_TLS_MOD: u64 = 1;

/// `r_info` of a relocation against symbol `sym` of type `ty`.
pub open spec fn r_info(sym: u32, ty: u32) -> u64 {
    (sym as u64 * 0x1_0000_0000 + ty as u64) as u64
}

pub open spec fn rela(place: u64, sym: u32, ty: u32, addend: i64) -> Rela {
    Rela { r_offset: place, r_info: r_info(sym, ty), r_addend: addend }
}

/// Builds the `Elf64_Rela` record of a relocation.
pub fn make_rela(place: u64, sym: u32, ty: u32, addend: i64) -> (r: Rela)
    ensures
        r == rela(place, sym, ty, addend),
{
    Rela { r_offset: place, r_info: (sym as u64) * 0x1_0000_0000u64 + (ty as u64), r_addend: addend }
}

} // verus!
