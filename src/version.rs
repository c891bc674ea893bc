use crate::cursor::Slots;
use crate::error::{Table, WriteError};
use vstd::prelude::*;

verus! {

/// Cursors into `.gnu.version_d`, `.gnu.version_r` and `.gnu.version`.
pub struct VersionWriter {
    pub version_d: Slots<u8>,
    pub version_r: Slots<u8>,
    /// None if versioning is disabled, which is the case when no symbol has
    /// a version.
    pub versym: Option<Slots<u16>>,
}

/// The allocated byte sizes of a group's parts, as layout computed them.
#[derive(Clone, Copy, Debug, PartialEq, Eq, Structural)]
pub struct MemSizes {
    pub gnu_version: u64,
    pub gnu_version_r: u64,
    pub gnu_version_d: u64,
    pub rela_dyn_relative: u64,
    pub rela_dyn_general: u64,
    pub eh_frame: u64,
    pub eh_frame_hdr: u64,
    pub got: u64,
    pub plt_got: u64,
    pub rela_plt: u64,
    pub dynamic: u64,
}

pub const GNU_VERSION_ENTRY_SIZE: u64 = 2;

impl VersionWriter {
    pub open spec fn wf(&self) -> bool {
        &&& self.version_d.wf()
        &&& self.version_r.wf()
        &&& self.versym is Some ==> self.versym->Some_0.wf()
    }

    pub open spec fn same_shape(&self, o: VersionWriter) -> bool {
        &&& self.version_d.capacity == o.version_d.capacity
        &&& self.version_r.capacity == o.version_r.capacity
        &&& self.versym is Some == o.versym is Some
        &&& self.versym is Some ==> self.versym->Some_0.capacity == o.versym->Some_0.capacity
    }

    /// A writer over `d_bytes` of version definitions and `r_bytes` of
    /// version needs; `.gnu.version` holds `versym_count` entries, and is
    /// disabled when that is zero.
    pub fn new(d_bytes: usize, r_bytes: usize, versym_count: usize) -> (r: VersionWriter)
        ensures
            r.wf(),
            r.version_d.items@.len() == 0,
            r.version_d.capacity == d_bytes,
            r.version_r.items@.len() == 0,
            r.version_r.capacity == r_bytes,
            r.versym is Some == (versym_count > 0),
            r.versym is Some ==> r.versym->Some_0.items@.len() == 0
                && r.versym->Some_0.capacity == versym_count,
    {
        VersionWriter {
            version_d: Slots::new(d_bytes),
            version_r: Slots::new(r_bytes),
            versym: if versym_count > 0 {
                Some(Slots::new(versym_count))
            } else {
                None
            },
        }
    }

    /// Writes the version index of the next symbol, when versioning is on.
    pub fn set_next_symbol_version(&mut self, index: u16) -> (r: Result<(), WriteError>)
        requires
            old(self).wf(),
        ensures
            final(self).wf(),
            final(self).same_shape(*old(self)),
            final(self).version_d == old(self).version_d,
            final(self).version_r == old(self).version_r,
            old(self).versym is None ==> r.is_ok() && final(self).versym == old(self).versym,
            old(self).versym is Some ==> {
                &&& r.is_ok() == (old(self).versym->Some_0.room() > 0)
                &&& r.is_ok() ==> final(self).versym->Some_0.items@
                    == old(self).versym->Some_0.items@.push(index)
            },
    {
        match &mut self.versym {
            Some(v) => v.take(index, Table::GnuVersion),
            None => Ok(()),
        }
    }

    /// Appends bytes to `.gnu.version_r`.
    pub fn take_bytes(&mut self, bytes: &[u8]) -> (r: Result<(), WriteError>)
        requires
            old(self).wf(),
        ensures
            final(self).wf(),
            final(self).same_shape(*old(self)),
            final(self).version_d == old(self).version_d,
            final(self).versym == old(self).versym,
            r.is_ok() == (bytes@.len() <= old(self).version_r.room()),
            r.is_ok() ==> final(self).version_r.items@ == old(self).version_r.items@ + bytes@,
    {
        self.version_r.take_bytes(bytes, Table::GnuVersionR)
    }

    /// Appends bytes to `.gnu.version_d`.
    pub fn take_bytes_d(&mut self, bytes: &[u8]) -> (r: Result<(), WriteError>)
        requires
            old(self).wf(),
        ensures
            final(self).wf(),
            final(self).same_shape(*old(self)),
            final(self).version_r == old(self).version_r,
            final(self).versym == old(self).versym,
            r.is_ok() == (bytes@.len() <= old(self).version_d.room()),
            r.is_ok() ==> final(self).version_d.items@ == old(self).version_d.items@ + bytes@,
    {
        self.version_d.take_bytes(bytes, Table::GnuVersionD)
    }

    pub open spec fn exhausted(&self) -> bool {
        &&& self.versym is Some ==> self.versym->Some_0.room() == 0
        &&& self.version_r.room() == 0
        &&& self.version_d.room() == 0
    }

    /// Checks that all the space allocated to the version tables was used.
    pub fn check_exhausted(&self, mem_sizes: &MemSizes) -> (r: Result<(), WriteError>)
        requires
            self.wf(),
            self.versym is Some ==> self.versym->Some_0.capacity * GNU_VERSION_ENTRY_SIZE
                <= u64::MAX,
        ensures
            r.is_ok() == self.exhausted(),
            self.versym is Some && self.versym->Some_0.room() > 0 ==> r == Err::<(), WriteError>(
                WriteError::ExcessiveAllocation {
                    table: Table::GnuVersion,
                    remaining: (self.versym->Some_0.room() * GNU_VERSION_ENTRY_SIZE) as u64,
                    allocated: mem_sizes.gnu_version,
                },
            ),
            !(self.versym is Some && self.versym->Some_0.room() > 0) && self.version_r.room() > 0 ==> r
                == Err::<(), WriteError>(
                WriteError::ExcessiveAllocation {
                    table: Table::GnuVersionR,
                    remaining: self.version_r.room() as u64,
                    allocated: mem_sizes.gnu_version_r,
                },
            ),
            !(self.versym is Some && self.versym->Some_0.room() > 0) && self.version_r.room() == 0
                && self.version_d.room() > 0 ==> r == Err::<(), WriteError>(
                WriteError::ExcessiveAllocation {
                    table: Table::GnuVersionD,
                    remaining: self.version_d.room() as u64,
                    allocated: mem_sizes.gnu_version_d,
                },
            ),
    {
        if let Some(versym) = &self.versym {
            if !versym.is_exhausted() {
                return Err(
                    WriteError::ExcessiveAllocation {
                        table: Table::GnuVersion,
                        remaining: versym.remaining() as u64 * GNU_VERSION_ENTRY_SIZE,
                        allocated: mem_sizes.gnu_version,
                    },
                );
            }
        }
        if !self.version_r.is_exhausted() {
            return Err(
                WriteError::ExcessiveAllocation {
                    table: Table::GnuVersionR,
                    remaining: self.version_r.remaining() as u64,
                    allocated: mem_sizes.gnu_version_r,
                },
            );
        }
        if !self.version_d.is_exhausted() {
            return Err(
                WriteError::ExcessiveAllocation {
                    table: Table::GnuVersionD,
                    remaining: self.version_d.remaining() as u64,
                    allocated: mem_sizes.gnu_version_d,
                },
            );
        }
        Ok(())
    }
}

} // verus!
