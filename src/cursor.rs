use crate::error::{Table, WriteError};
use vstd::prelude::*;

verus! {

/// A cursor over a pre-sized run of output records: `items` are the records
/// written so far, and `capacity` is how many were allocated.
pub struct Slots<T> {
    pub items: Vec<T>,
    pub capacity: usize,
}

impl<T> Slots<T> {
    pub open spec fn wf(&self) -> bool {
        self.items@.len() <= self.capacity
    }

    /// How many records can still be written.
    pub open spec fn room(&self) -> int {
        self.capacity - self.items@.len()
    }

    /// An empty cursor over `capacity` records.
    pub fn new(capacity: usize) -> (r: Slots<T>)
        ensures
            r.items@.len() == 0,
            r.capacity == capacity,
    {
        Slots { items: Vec::new(), capacity }
    }

    /// Whether every allocated record has been written.
    pub fn is_exhausted(&self) -> (r: bool)
        requires
            self.wf(),
        ensures
            r == (self.room() == 0),
    {
        self.items.len() == self.capacity
    }

    /// How many records are left.
    pub fn remaining(&self) -> (r: usize)
        requires
            self.wf(),
        ensures
            r == self.room(),
    {
        self.capacity - self.items.len()
    }

    /// Writes the next record, failing when none is left.
    pub fn take(&mut self, item: T, table: Table) -> (r: Result<(), WriteError>)
        requires
            old(self).wf(),
        ensures
            final(self).wf(),
            final(self).capacity == old(self).capacity,
            r.is_ok() == (old(self).room() > 0),
            r.is_ok() ==> final(self).items@ == old(self).items@.push(item),
            r.is_err() ==> final(self).items@ == old(self).items@,
            r.is_err() ==> r == Err::<(), WriteError>(WriteError::InsufficientAllocation { table }),
    {
        if self.items.len() < self.capacity {
            self.items.push(item);
            Ok(())
        } else {
            Err(WriteError::InsufficientAllocation { table })
        }
    }
}

impl Slots<u8> {
    /// Writes `bytes` as the next records, failing when fewer are left.
    pub fn take_bytes(&mut self, bytes: &[u8], table: Table) -> (r: Result<(), WriteError>)
        requires
            old(self).wf(),
        ensures
            final(self).wf(),
            final(self).capacity == old(self).capacity,
            r.is_ok() == (bytes@.len() <= old(self).room()),
            r.is_ok() ==> final(self).items@ == old(self).items@ + bytes@,
            r.is_err() ==> final(self).items@ == old(self).items@,
            r.is_err() ==> r == Err::<(), WriteError>(WriteError::InsufficientAllocation { table }),
    {
        if bytes.len() > self.capacity - self.items.len() {
            return Err(WriteError::InsufficientAllocation { table });
        }
        let mut i: usize = 0;
        while i < bytes.len()
            invariant
                0 <= i <= bytes@.len(),
                bytes@.len() <= old(self).room(),
                self.capacity == old(self).capacity,
                self.items@ == old(self).items@ + bytes@.subrange(0, i as int),
            decreases bytes@.len() - i,
        {
            self.items.push(bytes[i]);
            i = i + 1;
            assert(self.items@ =~= old(self).items@ + bytes@.subrange(0, i as int));
        }
        assert(bytes@.subrange(0, i as int) =~= bytes@);
        Ok(())
    }
}

impl Slots<u64> {
    /// Replaces the value of an already written record.
    pub fn set(&mut self, index: usize, value: u64)
        requires
            index < old(self).items@.len(),
        ensures
            final(self).capacity == old(self).capacity,
            final(self).items@ == old(self).items@.update(index as int, value),
    {
        self.items.set(index, value);
    }
}

} // verus!
