use vstd::prelude::*;

verus! {

/// The output tables that a group's writer holds cursors into.
#[derive(Clone, Copy, Debug, PartialEq, Eq, Structural)]
pub enum Table {
    Got,
    PltGot,
    RelaPlt,
    RelaDynRelative,
    RelaDynGeneral,
    Dynsym,
    Dynstr,
    SymtabLocal,
    SymtabGlobal,
    Strtab,
    EhFrame,
    EhFrameHdr,
    Dynamic,
    GnuVersion,
    GnuVersionD,
    GnuVersionR,
    ProgramHeaders,
    NoteGnuBuildId,
    NoteGnuProperty,
    GnuHash,
    Section,
}

/// Everything that can make emission fail.
#[derive(Clone, Copy, Debug, PartialEq, Eq, Structural)]
pub enum WriteError {
    /// A cursor was asked for more than was allocated to it.
    InsufficientAllocation { table: Table },
    /// A cursor still had `remaining` of `allocated` bytes at the end of a group.
    ExcessiveAllocation { table: Table, remaining: u64, allocated: u64 },
    /// A resolution that needs a dynamic-symbol index has none.
    MissingDynamicSymbolIndex,
    /// A relocation needs a GOT or PLT entry that the symbol does not have.
    MissingGotEntry,
    /// A resolution that needs an address has none.
    ExpectedAddress,
    /// A GOT-relative TLS offset resolves outside the TLS segment.
    TlsOutOfRange { address: u64 },
    /// A TLS descriptor was requested in a static executable.
    TlsDescInStaticExecutable,
    /// A PLT stub would be more than 2GiB away from its GOT entry.
    PltTooFarFromGot,
    /// A relocation computes a value that does not fit its field.
    RelocationOverflow,
    /// A relocation refers to data outside its section.
    RelocationOutOfBounds,
    /// A relocation or resolution kind that does not apply here.
    UnsupportedRelocation,
    /// Malformed `.eh_frame` data.
    InvalidEhFrame,
    /// An `.eh_frame_hdr` pointer does not fit in 32 bits.
    EhFrameHdrOverflow,
    /// A string-table offset does not fit in 32 bits.
    StringOffsetOverflow,
    /// A symbol is in a section that is not written to the output.
    SectionNotOutput,
    /// Malformed version information.
    InvalidVersion,
    /// The entry symbol has no address.
    MissingEntrySymbol,
    /// A `.gnu.hash` shape with no buckets or bloom words, a bloom shift of
    /// 32 or more, or more symbols than 32-bit indexes allow.
    InvalidGnuHashLayout,
}

/// The error for a cursor consumed past its end.
pub fn insufficient_allocation(table: Table) -> (r: WriteError)
    ensures
        r == (WriteError::InsufficientAllocation { table }),
{
    WriteError::InsufficientAllocation { table }
}

/// The error for a cursor that still holds `remaining` of `allocated` bytes.
pub fn excessive_allocation(table: Table, remaining: u64, allocated: u64) -> (r: WriteError)
    ensures
        r == (WriteError::ExcessiveAllocation { table, remaining, allocated }),
{
    WriteError::ExcessiveAllocation { table, remaining, allocated }
}

} // verus!
