use crate::cursor::Slots;
use crate::error::{Table, WriteError};
use vstd::prelude::*;

verus! {

/// A string-table cursor: strings are appended with a terminator, and each
/// gets the offset at which it starts.
pub struct StrTabWriter {
    pub next_offset: u32,
    pub out: Slots<u8>,
    pub table: Table,
}

/// Whether a string of `len` bytes fits in the table, both in the bytes
/// allocated to it and in 32-bit offsets.
pub open spec fn str_fits(w: StrTabWriter, len: nat) -> bool {
    &&& len + 1 <= w.out.room()
    &&& w.next_offset + len + 1 <= u32::MAX
}

impl StrTabWriter {
    pub open spec fn wf(&self) -> bool {
        self.out.wf()
    }

    /// Writes a string to the string table. Returns the offset within the
    /// string table at which the string was written.
    pub fn write_str(&mut self, s: &[u8]) -> (r: Result<u32, WriteError>)
        requires
            old(self).wf(),
        ensures
            final(self).wf(),
            final(self).table == old(self).table,
            final(self).out.capacity == old(self).out.capacity,
            r.is_ok() == str_fits(*old(self), s@.len()),
            r.is_err() ==> final(self).out.items@ == old(self).out.items@ && final(self).next_offset == old(
                self,
            ).next_offset,
            r.is_ok() ==> {
                &&& r->Ok_0 == old(self).next_offset
                &&& final(self).out.items@ == old(self).out.items@ + s@ + seq![0u8]
                &&& final(self).next_offset == old(self).next_offset + s@.len() + 1
            },
            !(s@.len() + 1 <= old(self).out.room()) ==> r == Err::<u32, WriteError>(
                WriteError::InsufficientAllocation { table: old(self).table },
            ),
    {
        let room = self.out.remaining();
        if s.len() >= room {
            return Err(WriteError::InsufficientAllocation { table: self.table });
        }
        if s.len() >= (u32::MAX - self.next_offset) as usize {
            return Err(WriteError::StringOffsetOverflow);
        }
        let ghost before = self.out.items@;
        let _ = self.out.take_bytes(s, self.table);
        let _ = self.out.take(0u8, self.table);
        assert(self.out.items@ =~= before + s@ + seq![0u8]);
        let offset = self.next_offset;
        self.next_offset = self.next_offset + s.len() as u32 + 1;
        Ok(offset)
    }
}

/// A `Elf64_Sym` record.
#[derive(Clone, Copy, Debug, PartialEq, Eq, Structural)]
pub struct SymtabEntry {
    pub st_name: u32,
    pub st_info: u8,
    pub st_other: u8,
    pub st_shndx: u16,
    pub st_value: u64,
    pub st_size: u64,
}

/// A symbol of an input file, as far as writing it out needs.
#[derive(Clone, Copy, Debug, PartialEq, Eq, Structural)]
pub struct InputSymbol {
    pub st_info: u8,
    pub st_other: u8,
    pub st_value: u64,
    pub st_size: u64,
}

pub const STB_LOCAL: u8 = 0;
pub const STB_GLOBAL: u8 = 1;
pub const STT_NOTYPE: u8 = 0;
pub const STT_TLS: u8 = 6;
pub const SHN_ABS: u16 = 0xfff1;

impl InputSymbol {
    pub open spec fn local(&self) -> bool {
        self.st_info / 16 == STB_LOCAL
    }

    pub fn is_local(&self) -> (r: bool)
        ensures
            r == self.local(),
    {
        self.st_info / 16 == STB_LOCAL
    }
}

/// The output index of each output section, `None` for one that is not
/// written to the file.
pub struct OutputSections {
    pub output_index: Vec<Option<u16>>,
}

/// A cursor pair over a symbol table and its string table.
pub struct SymbolTableWriter {
    pub local_entries: Slots<SymtabEntry>,
    pub global_entries: Slots<SymtabEntry>,
    pub strtab_writer: StrTabWriter,
    pub is_dynamic: bool,
}

pub open spec fn symbol_entry(
    name: u32,
    info: u8,
    other: u8,
    shndx: u16,
    value: u64,
    size: u64,
) -> SymtabEntry {
    SymtabEntry {
        st_name: name,
        st_info: info,
        st_other: other,
        st_shndx: shndx,
        st_value: value,
        st_size: size,
    }
}

/// Whether `w` can take one more symbol named by `len` bytes.
pub open spec fn symbol_fits(w: SymbolTableWriter, is_local: bool, len: nat) -> bool {
    &&& if is_local {
        w.local_entries.room() > 0
    } else {
        w.global_entries.room() > 0
    }
    &&& str_fits(w.strtab_writer, len)
}

/// What a symbol-table writer holds: local entries, global entries, string
/// bytes, and the offset of the next string.
pub type SymtabContents = (Seq<SymtabEntry>, Seq<SymtabEntry>, Seq<u8>, u32);

/// `c` after writing the symbol entry `e` named `name`.
pub open spec fn contents_with_symbol(c: SymtabContents, is_local: bool, e: SymtabEntry, name: Seq<u8>) -> SymtabContents {
    (
        if is_local {
            c.0.push(e)
        } else {
            c.0
        },
        if is_local {
            c.1
        } else {
            c.1.push(e)
        },
        c.2 + name + seq![0u8],
        (c.3 + name.len() + 1) as u32,
    )
}

/// Whether a writer shaped like `w` and holding `c` has room for one more
/// symbol named by `len` bytes.
pub open spec fn contents_fit(w: SymbolTableWriter, c: SymtabContents, is_local: bool, len: nat) -> bool {
    &&& if is_local {
        c.0.len() < w.local_entries.capacity
    } else {
        c.1.len() < w.global_entries.capacity
    }
    &&& c.2.len() + len + 1 <= w.strtab_writer.out.capacity
    &&& c.3 + len + 1 <= u32::MAX
}

/// `w` after writing the symbol entry `e` named `name`.
pub open spec fn with_symbol(
    w: SymbolTableWriter,
    is_local: bool,
    e: SymtabEntry,
    name: Seq<u8>,
) -> SymtabContents {
    contents_with_symbol(w.contents(), is_local, e, name)
}

impl SymbolTableWriter {
    pub open spec fn wf(&self) -> bool {
        &&& self.local_entries.wf()
        &&& self.global_entries.wf()
        &&& self.strtab_writer.wf()
    }

    pub open spec fn contents(&self) -> (Seq<SymtabEntry>, Seq<SymtabEntry>, Seq<u8>, u32) {
        (
            self.local_entries.items@,
            self.global_entries.items@,
            self.strtab_writer.out.items@,
            self.strtab_writer.next_offset,
        )
    }

    pub open spec fn same_shape(&self, o: SymbolTableWriter) -> bool {
        &&& self.local_entries.capacity == o.local_entries.capacity
        &&& self.global_entries.capacity == o.global_entries.capacity
        &&& self.strtab_writer.out.capacity == o.strtab_writer.out.capacity
        &&& self.strtab_writer.table == o.strtab_writer.table
        &&& self.is_dynamic == o.is_dynamic
    }

    /// A writer for `.symtab` and `.strtab`, whose strings start at
    /// `start_string_offset`.
    pub fn new(
        start_string_offset: u32,
        local_count: usize,
        global_count: usize,
        string_bytes: usize,
    ) -> (r: SymbolTableWriter)
        ensures
            r.wf(),
            !r.is_dynamic,
            r.contents() == (Seq::<SymtabEntry>::empty(), Seq::<SymtabEntry>::empty(), Seq::<u8>::empty(), start_string_offset),
            r.local_entries.capacity == local_count,
            r.global_entries.capacity == global_count,
            r.strtab_writer.out.capacity == string_bytes,
            r.strtab_writer.table == Table::Strtab,
    {
        let r = SymbolTableWriter {
            local_entries: Slots::new(local_count),
            global_entries: Slots::new(global_count),
            strtab_writer: StrTabWriter {
                next_offset: start_string_offset,
                out: Slots::new(string_bytes),
                table: Table::Strtab,
            },
            is_dynamic: false,
        };
        assert(r.contents() =~= (Seq::<SymtabEntry>::empty(), Seq::<SymtabEntry>::empty(), Seq::<u8>::empty(), start_string_offset));
        r
    }

    /// A writer for `.dynsym` and `.dynstr`, whose strings start at
    /// `string_offset`. Dynamic symbols are all global.
    pub fn new_dynamic(string_offset: u32, global_count: usize, string_bytes: usize) -> (r:
        SymbolTableWriter)
        ensures
            r.wf(),
            r.is_dynamic,
            r.contents() == (Seq::<SymtabEntry>::empty(), Seq::<SymtabEntry>::empty(), Seq::<u8>::empty(), string_offset),
            r.local_entries.capacity == 0,
            r.global_entries.capacity == global_count,
            r.strtab_writer.out.capacity == string_bytes,
            r.strtab_writer.table == Table::Dynstr,
    {
        let r = SymbolTableWriter {
            local_entries: Slots::new(0),
            global_entries: Slots::new(global_count),
            strtab_writer: StrTabWriter {
                next_offset: string_offset,
                out: Slots::new(string_bytes),
                table: Table::Dynstr,
            },
            is_dynamic: true,
        };
        assert(r.contents() =~= (Seq::<SymtabEntry>::empty(), Seq::<SymtabEntry>::empty(), Seq::<u8>::empty(), string_offset));
        r
    }

    /// Writes a symbol entry and its name.
    pub fn define_symbol(
        &mut self,
        is_local: bool,
        shndx: u16,
        value: u64,
        size: u64,
        name: &[u8],
        info: u8,
        other: u8,
    ) -> (r: Result<(), WriteError>)
        requires
            old(self).wf(),
        ensures
            final(self).wf(),
            final(self).same_shape(*old(self)),
            r.is_ok() == symbol_fits(*old(self), is_local, name@.len()),
            r.is_ok() ==> final(self).contents() == with_symbol(
                *old(self),
                is_local,
                symbol_entry(old(self).strtab_writer.next_offset, info, other, shndx, value, size),
                name@,
            ),
    {
        let entry = SymtabEntry {
            st_name: self.strtab_writer.next_offset,
            st_info: info,
            st_other: other,
            st_shndx: shndx,
            st_value: value,
            st_size: size,
        };
        if is_local {
            if self.local_entries.remaining() == 0 {
                return Err(WriteError::InsufficientAllocation { table: Table::SymtabLocal });
            }
        } else if self.global_entries.remaining() == 0 {
            return Err(
                WriteError::InsufficientAllocation {
                    table: if self.is_dynamic {
                        Table::Dynsym
                    } else {
                        Table::SymtabGlobal
                    },
                },
            );
        }
        let offset = self.strtab_writer.write_str(name)?;
        if is_local {
            let _ = self.local_entries.take(entry, Table::SymtabLocal);
        } else {
            let _ = self.global_entries.take(entry, Table::SymtabGlobal);
        }
        Ok(())
    }

    /// Copies an input symbol into the table with the given output section
    /// index and value.
    pub fn copy_symbol_shndx(&mut self, sym: &InputSymbol, name: &[u8], shndx: u16, value: u64) -> (r:
        Result<(), WriteError>)
        requires
            old(self).wf(),
        ensures
            final(self).wf(),
            final(self).same_shape(*old(self)),
            r.is_ok() == symbol_fits(*old(self), sym.local(), name@.len()),
            r.is_ok() ==> final(self).contents() == with_symbol(
                *old(self),
                sym.local(),
                symbol_entry(
                    old(self).strtab_writer.next_offset,
                    sym.st_info,
                    sym.st_other,
                    shndx,
                    value,
                    sym.st_size,
                ),
                name@,
            ),
    {
        let is_local = sym.is_local();
        self.define_symbol(is_local, shndx, value, sym.st_size, name, sym.st_info, sym.st_other)
    }

    /// Copies an input symbol that lies in output section `section_id`.
    pub fn copy_symbol(
        &mut self,
        sym: &InputSymbol,
        name: &[u8],
        output_sections: &OutputSections,
        section_id: usize,
        value: u64,
    ) -> (r: Result<(), WriteError>)
        requires
            old(self).wf(),
        ensures
            final(self).wf(),
            final(self).same_shape(*old(self)),
            ({
                let idx = if section_id < output_sections.output_index@.len() {
                    output_sections.output_index@[section_id as int]
                } else {
                    None
                };
                &&& r.is_ok() == (idx is Some && symbol_fits(*old(self), sym.local(), name@.len()))
                &&& idx is None ==> r == Err::<(), WriteError>(WriteError::SectionNotOutput)
                &&& idx is None ==> final(self).contents() == old(self).contents()
                &&& r.is_ok() ==> final(self).contents() == with_symbol(
                    *old(self),
                    sym.local(),
                    symbol_entry(
                        old(self).strtab_writer.next_offset,
                        sym.st_info,
                        sym.st_other,
                        idx->Some_0,
                        value,
                        sym.st_size,
                    ),
                    name@,
                )
            }),
    {
        if section_id >= output_sections.output_index.len() {
            return Err(WriteError::SectionNotOutput);
        }
        match output_sections.output_index[section_id] {
            Some(shndx) => self.copy_symbol_shndx(sym, name, shndx, value),
            None => Err(WriteError::SectionNotOutput),
        }
    }

    /// Copies an absolute input symbol, keeping its value.
    pub fn copy_absolute_symbol(&mut self, sym: &InputSymbol, name: &[u8]) -> (r: Result<(), WriteError>)
        requires
            old(self).wf(),
        ensures
            final(self).wf(),
            final(self).same_shape(*old(self)),
            r.is_ok() == symbol_fits(*old(self), sym.local(), name@.len()),
            r.is_ok() ==> final(self).contents() == with_symbol(
                *old(self),
                sym.local(),
                symbol_entry(
                    old(self).strtab_writer.next_offset,
                    sym.st_info,
                    sym.st_other,
                    SHN_ABS,
                    sym.st_value,
                    sym.st_size,
                ),
                name@,
            ),
    {
        self.copy_symbol_shndx(sym, name, SHN_ABS, sym.st_value)
    }

    /// Whether every entry and string byte allocated to this writer was
    /// written.
    pub open spec fn exhausted(&self) -> bool {
        &&& self.local_entries.room() == 0
        &&& self.global_entries.room() == 0
        &&& self.strtab_writer.out.room() == 0
    }

    /// Checks that all the space allocated to this writer was used.
    pub fn check_exhausted(&self) -> (r: Result<(), WriteError>)
        requires
            self.wf(),
        ensures
            r.is_ok() == self.exhausted(),
            self.local_entries.room() > 0 ==> r == Err::<(), WriteError>(
                WriteError::ExcessiveAllocation {
                    table: Table::SymtabLocal,
                    remaining: self.local_entries.room() as u64,
                    allocated: self.local_entries.capacity as u64,
                },
            ),
            self.local_entries.room() == 0 && self.global_entries.room() > 0 ==> r == Err::<(), WriteError>(
                WriteError::ExcessiveAllocation {
                    table: if self.is_dynamic {
                        Table::Dynsym
                    } else {
                        Table::SymtabGlobal
                    },
                    remaining: self.global_entries.room() as u64,
                    allocated: self.global_entries.capacity as u64,
                },
            ),
            self.local_entries.room() == 0 && self.global_entries.room() == 0 && self.strtab_writer.out.room()
                > 0 ==> r == Err::<(), WriteError>(
                WriteError::ExcessiveAllocation {
                    table: self.strtab_writer.table,
                    remaining: self.strtab_writer.out.room() as u64,
                    allocated: self.strtab_writer.out.capacity as u64,
                },
            ),
    {
        if !self.local_entries.is_exhausted() {
            return Err(
                WriteError::ExcessiveAllocation {
                    table: Table::SymtabLocal,
                    remaining: self.local_entries.remaining() as u64,
                    allocated: self.local_entries.capacity as u64,
                },
            );
        }
        if !self.global_entries.is_exhausted() {
            return Err(
                WriteError::ExcessiveAllocation {
                    table: if self.is_dynamic {
                        Table::Dynsym
                    } else {
                        Table::SymtabGlobal
                    },
                    remaining: self.global_entries.remaining() as u64,
                    allocated: self.global_entries.capacity as u64,
                },
            );
        }
        if !self.strtab_writer.out.is_exhausted() {
            return Err(
                WriteError::ExcessiveAllocation {
                    table: self.strtab_writer.table,
                    remaining: self.strtab_writer.out.remaining() as u64,
                    allocated: self.strtab_writer.out.capacity as u64,
                },
            );
        }
        Ok(())
    }
}

} // verus!
