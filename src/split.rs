use crate::error::{Table, WriteError};
use vstd::prelude::*;

verus! {

/// Where layout placed an output section in the file.
#[derive(Clone, Copy, Debug, PartialEq, Eq, Structural)]
pub struct SectionAllocation {
    pub offset: usize,
    pub size: usize,
}

/// The bytes `start..end` of the output buffer.
#[derive(Clone, Copy, Debug, PartialEq, Eq, Structural)]
pub struct ByteRange {
    pub start: usize,
    pub end: usize,
}

pub open spec fn disjoint(a: ByteRange, b: ByteRange) -> bool {
    a.end <= b.start || b.end <= a.start
}

pub open spec fn alloc_range(a: SectionAllocation) -> ByteRange {
    ByteRange { start: a.offset, end: (a.offset + a.size) as usize }
}

/// The layout invariant on section allocations: each lies within the
/// buffer, and no two overlap.
pub open spec fn valid_allocations(allocs: Seq<SectionAllocation>, buffer_len: usize) -> bool {
    &&& forall|i: int| 0 <= i < allocs.len() ==> #[trigger] allocs[i].offset + allocs[i].size <= buffer_len
    &&& forall|i: int, j: int|
        0 <= i < allocs.len() && 0 <= j < allocs.len() && i != j ==> disjoint(
            alloc_range(#[trigger] allocs[i]),
            alloc_range(#[trigger] allocs[j]),
        )
}

/// Splits the output buffer into the byte range of each section, indexed
/// like `allocations`.
pub fn split_output_into_sections(allocations: &Vec<SectionAllocation>, buffer_len: usize) -> (r: Vec<
    ByteRange,
>)
    requires
        valid_allocations(allocations@, buffer_len),
    ensures
        r@.len() == allocations@.len(),
        forall|i: int| 0 <= i < r@.len() ==> #[trigger] r@[i] == alloc_range(allocations@[i]),
{
    let mut r: Vec<ByteRange> = Vec::new();
    let mut i: usize = 0;
    while i < allocations.len()
        invariant
            valid_allocations(allocations@, buffer_len),
            i <= allocations@.len(),
            r@.len() == i,
            forall|j: int| 0 <= j < i ==> #[trigger] r@[j] == alloc_range(allocations@[j]),
        decreases allocations@.len() - i,
    {
        let a = allocations[i];
        assert(allocations@[i as int].offset + allocations@[i as int].size <= buffer_len);
        r.push(ByteRange { start: a.offset, end: a.offset + a.size });
        i = i + 1;
    }
    r
}

/// The section ranges lie within the buffer and never overlap, so each
/// byte of the output has at most one writer.
pub proof fn lemma_sections_disjoint(
    allocations: Seq<SectionAllocation>,
    buffer_len: usize,
    ranges: Seq<ByteRange>,
)
    requires
        valid_allocations(allocations, buffer_len),
        ranges.len() == allocations.len(),
        forall|i: int| 0 <= i < ranges.len() ==> #[trigger] ranges[i] == alloc_range(allocations[i]),
    ensures
        forall|i: int| 0 <= i < ranges.len() ==> #[trigger] ranges[i].start <= ranges[i].end <= buffer_len,
        forall|i: int, j: int|
            0 <= i < ranges.len() && 0 <= j < ranges.len() && i != j ==> disjoint(
                #[trigger] ranges[i],
                #[trigger] ranges[j],
            ),
{
    assert forall|i: int| 0 <= i < ranges.len() implies #[trigger] ranges[i].start <= ranges[i].end
        <= buffer_len by {
        assert(allocations[i].offset + allocations[i].size <= buffer_len);
    }
    assert forall|i: int, j: int|
        0 <= i < ranges.len() && 0 <= j < ranges.len() && i != j implies disjoint(
            #[trigger] ranges[i],
            #[trigger] ranges[j],
        ) by {
        assert(disjoint(alloc_range(allocations[i]), alloc_range(allocations[j])));
    }
}

/// The sum of the first `k` sizes.
pub open spec fn prefix_sum(sizes: Seq<usize>, k: int) -> int
    decreases k,
{
    if k <= 0 {
        0
    } else {
        prefix_sum(sizes, k - 1) + sizes[k - 1]
    }
}

proof fn lemma_prefix_sum_mono(sizes: Seq<usize>, a: int, b: int)
    requires
        0 <= a <= b,
    ensures
        prefix_sum(sizes, a) <= prefix_sum(sizes, b),
    decreases b - a,
{
    if a < b {
        lemma_prefix_sum_mono(sizes, a, b - 1);
    }
}

/// `r` cut into consecutive pieces of the given sizes, from its start.
pub open spec fn pieces_of(r: ByteRange, sizes: Seq<usize>, pieces: Seq<ByteRange>) -> bool {
    &&& pieces.len() == sizes.len()
    &&& forall|k: int|
        0 <= k < pieces.len() ==> #[trigger] pieces[k] == (ByteRange {
            start: (r.start + prefix_sum(sizes, k)) as usize,
            end: (r.start + prefix_sum(sizes, k + 1)) as usize,
        })
}

/// Cuts `r` into consecutive pieces of the given sizes, taken from its start.
pub fn take_prefixes(r: ByteRange, sizes: &Vec<usize>, table: Table) -> (out: Result<Vec<ByteRange>, WriteError>)
    requires
        r.start <= r.end,
    ensures
        out.is_ok() == (prefix_sum(sizes@, sizes@.len() as int) <= r.end - r.start),
        out.is_ok() ==> pieces_of(r, sizes@, out->Ok_0@),
{
    let mut pieces: Vec<ByteRange> = Vec::new();
    let mut at: usize = r.start;
    let mut k: usize = 0;
    while k < sizes.len()
        invariant
            r.start <= r.end,
            k <= sizes@.len(),
            at == r.start + prefix_sum(sizes@, k as int),
            at <= r.end,
            pieces@.len() == k,
            forall|j: int|
                0 <= j < k ==> #[trigger] pieces@[j] == (ByteRange {
                    start: (r.start + prefix_sum(sizes@, j)) as usize,
                    end: (r.start + prefix_sum(sizes@, j + 1)) as usize,
                }),
        decreases sizes@.len() - k,
    {
        if sizes[k] > r.end - at {
            proof {
                lemma_prefix_sum_mono(sizes@, k as int + 1, sizes@.len() as int);
            }
            return Err(WriteError::InsufficientAllocation { table });
        }
        pieces.push(ByteRange { start: at, end: at + sizes[k] });
        at = at + sizes[k];
        k = k + 1;
    }
    Ok(pieces)
}

/// Consecutive pieces of a range lie within it and never overlap.
pub proof fn lemma_pieces_disjoint(r: ByteRange, sizes: Seq<usize>, pieces: Seq<ByteRange>)
    requires
        pieces_of(r, sizes, pieces),
        prefix_sum(sizes, sizes.len() as int) <= r.end - r.start,
    ensures
        forall|k: int|
            0 <= k < pieces.len() ==> r.start <= #[trigger] pieces[k].start <= pieces[k].end <= r.end,
        forall|i: int, j: int|
            0 <= i < pieces.len() && 0 <= j < pieces.len() && i != j ==> disjoint(
                #[trigger] pieces[i],
                #[trigger] pieces[j],
            ),
{
    assert forall|k: int| 0 <= k < pieces.len() implies r.start <= #[trigger] pieces[k].start
        <= pieces[k].end <= r.end by {
        lemma_prefix_sum_mono(sizes, 0, k);
        lemma_prefix_sum_mono(sizes, k, k + 1);
        lemma_prefix_sum_mono(sizes, k + 1, sizes.len() as int);
    }
    assert forall|i: int, j: int|
        0 <= i < pieces.len() && 0 <= j < pieces.len() && i != j implies disjoint(
            #[trigger] pieces[i],
            #[trigger] pieces[j],
        ) by {
        if i < j {
            lemma_prefix_sum_mono(sizes, i + 1, j);
        } else {
            lemma_prefix_sum_mono(sizes, j + 1, i);
        }
        lemma_prefix_sum_mono(sizes, 0, i);
        lemma_prefix_sum_mono(sizes, 0, j);
        lemma_prefix_sum_mono(sizes, i + 1, sizes.len() as int);
        lemma_prefix_sum_mono(sizes, j + 1, sizes.len() as int);
    }
}

/// Splits a section's range into its parts, in output order (descending
/// alignment), each of its file size.
pub fn split_buffers_by_alignment(section: ByteRange, part_sizes: &Vec<usize>) -> (out: Result<
    Vec<ByteRange>,
    WriteError,
>)
    requires
        section.start <= section.end,
    ensures
        out.is_ok() == (prefix_sum(part_sizes@, part_sizes@.len() as int) <= section.end - section.start),
        out.is_ok() ==> pieces_of(section, part_sizes@, out->Ok_0@),
{
    take_prefixes(section, part_sizes, Table::Section)
}

/// Splits a part's range among the groups, in group order, each taking a
/// prefix of its own size.
pub fn split_output_by_group(part: ByteRange, group_sizes: &Vec<usize>) -> (out: Result<
    Vec<ByteRange>,
    WriteError,
>)
    requires
        part.start <= part.end,
    ensures
        out.is_ok() == (prefix_sum(group_sizes@, group_sizes@.len() as int) <= part.end - part.start),
        out.is_ok() ==> pieces_of(part, group_sizes@, out->Ok_0@),
{
    take_prefixes(part, group_sizes, Table::Section)
}

} // verus!
