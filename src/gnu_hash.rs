use crate::bytes::{le32, le32s, le64s};
use crate::error::{Table, WriteError};
use vstd::prelude::*;

verus! {

/// The shape of `.gnu.hash` that layout chose.
#[derive(Clone, Copy, Debug, PartialEq, Eq, Structural)]
pub struct GnuHashLayout {
    pub bucket_count: u32,
    pub bloom_shift: u32,
    pub bloom_count: u32,
    /// The dynamic-symbol index of the first hashed symbol.
    pub symbol_base: u32,
}

/// The bloom filter words, buckets and chains of `.gnu.hash`.
pub struct GnuHashTable {
    pub bloom: Vec<u64>,
    pub buckets: Vec<u32>,
    pub chains: Vec<u32>,
}

pub open spec fn bucket_of(h: u32, l: GnuHashLayout) -> u32 {
    (h % l.bucket_count) as u32
}

/// Whether symbols of one bucket are adjacent, in bucket order.
pub open spec fn grouped_by_bucket(hashes: Seq<u32>, l: GnuHashLayout) -> bool {
    forall|i: int, j: int|
        0 <= i <= j < hashes.len() ==> bucket_of(#[trigger] hashes[i], l) <= bucket_of(
            #[trigger] hashes[j],
            l,
        )
}

/// Whether symbol `i` is the last of its bucket.
pub open spec fn last_in_chain(hashes: Seq<u32>, i: int, l: GnuHashLayout) -> bool {
    i + 1 == hashes.len() || bucket_of(hashes[i + 1], l) != bucket_of(hashes[i], l)
}

/// Whether symbol `i` is the first of its bucket.
pub open spec fn first_in_chain(hashes: Seq<u32>, i: int, l: GnuHashLayout) -> bool {
    i == 0 || bucket_of(hashes[i - 1], l) != bucket_of(hashes[i], l)
}

/// Whether symbol `i` starts a run of its bucket that no later run of the
/// same bucket, before `end`, follows.
pub open spec fn opens_bucket(hashes: Seq<u32>, i: int, end: int, l: GnuHashLayout) -> bool {
    &&& first_in_chain(hashes, i, l)
    &&& forall|k: int|
        i < k < end && #[trigger] first_in_chain(hashes, k, l) ==> bucket_of(hashes[k], l) != bucket_of(
            hashes[i],
            l,
        )
}

/// A chain slot: the hash with bit 0 marking the end of the bucket's chain.
#[verifier::opaque]
pub open spec fn chain_value(hashes: Seq<u32>, i: int, l: GnuHashLayout) -> u32 {
    if last_in_chain(hashes, i, l) {
        (hashes[i] & !1u32) | 1u32
    } else {
        hashes[i] & !1u32
    }
}

pub open spec fn bloom_word(h: u32, l: GnuHashLayout) -> int {
    ((h / 64) % l.bloom_count) as int
}

#[verifier::opaque]
pub open spec fn bloom_bits(h: u32, l: GnuHashLayout) -> u64 {
    (1u64 << ((h % 64) as u64)) | (1u64 << (((h >> l.bloom_shift) % 64) as u64))
}

/// `t` is the hash table of the symbols with `hashes`, in order: each
/// symbol's two bloom bits are set, each bucket points at its first symbol,
/// and each chain slot holds the symbol's hash and the end-of-chain mark.
pub open spec fn is_gnu_hash_table(t: GnuHashTable, hashes: Seq<u32>, l: GnuHashLayout) -> bool {
    &&& t.bloom@.len() == l.bloom_count
    &&& t.buckets@.len() == l.bucket_count
    &&& t.chains@.len() == hashes.len()
    &&& forall|i: int| 0 <= i < hashes.len() ==> #[trigger] t.chains@[i] == chain_value(hashes, i, l)
    &&& forall|i: int|
        0 <= i < hashes.len() && opens_bucket(hashes, i, hashes.len() as int, l) ==> t.buckets@[bucket_of(
            #[trigger] hashes[i],
            l,
        ) as int] == i + l.symbol_base
    &&& forall|i: int|
        0 <= i < hashes.len() ==> #[trigger] (t.bloom@[bloom_word(hashes[i], l)] & bloom_bits(
            hashes[i],
            l,
        )) == bloom_bits(hashes[i], l)
}

proof fn lemma_or_keeps(x: u64, y: u64, m: u64)
    ensures
        (x & m) == m ==> ((x | y) & m) == m,
        ((y | m) & m) == m,
{
    assert((x & m) == m ==> ((x | y) & m) == m) by (bit_vector);
    assert(((y | m) & m) == m) by (bit_vector);
}

fn chain_slot(hashes: &Vec<u32>, i: usize, l: &GnuHashLayout) -> (r: u32)
    requires
        i < hashes@.len(),
        l.bucket_count > 0,
    ensures
        r == chain_value(hashes@, i as int, *l),
{
    proof {
        reveal(chain_value);
    }
    let h = hashes[i];
    let last = i == hashes.len() - 1 || hashes[i + 1] % l.bucket_count != h % l.bucket_count;
    if last {
        (h & !1u32) | 1u32
    } else {
        h & !1u32
    }
}

/// Sets the two bloom-filter bits of a symbol with hash `h`.
fn set_bloom_bits(bloom: &mut Vec<u64>, h: u32, l: &GnuHashLayout)
    requires
        old(bloom)@.len() == l.bloom_count,
        l.bloom_count > 0,
        l.bloom_shift < 32,
    ensures
        final(bloom)@ == old(bloom)@.update(
            bloom_word(h, *l),
            old(bloom)@[bloom_word(h, *l)] | bloom_bits(h, *l),
        ),
        (final(bloom)@[bloom_word(h, *l)] & bloom_bits(h, *l)) == bloom_bits(h, *l),
{
    let word = ((h / 64) % l.bloom_count) as usize;
    let bits: u64 = (1u64 << ((h % 64) as u64)) | (1u64 << (((h >> l.bloom_shift) % 64) as u64));
    let old_word = bloom[word];
    bloom.set(word, old_word | bits);
    proof {
        reveal(bloom_bits);
        lemma_or_keeps(old_word, old_word, bits);
    }
}

proof fn lemma_bloom_step(before: Seq<u64>, after: Seq<u64>, hashes: Seq<u32>, i: int, l: GnuHashLayout)
    requires
        0 <= i < hashes.len(),
        before.len() == l.bloom_count,
        l.bloom_count > 0,
        after == before.update(
            bloom_word(hashes[i], l),
            before[bloom_word(hashes[i], l)] | bloom_bits(hashes[i], l),
        ),
        (after[bloom_word(hashes[i], l)] & bloom_bits(hashes[i], l)) == bloom_bits(hashes[i], l),
        forall|j: int|
            0 <= j < i ==> #[trigger] (before[bloom_word(hashes[j], l)] & bloom_bits(hashes[j], l))
                == bloom_bits(hashes[j], l),
    ensures
        forall|j: int|
            0 <= j <= i ==> #[trigger] (after[bloom_word(hashes[j], l)] & bloom_bits(hashes[j], l))
                == bloom_bits(hashes[j], l),
{
    assert forall|j: int| 0 <= j <= i implies #[trigger] (after[bloom_word(hashes[j], l)] & bloom_bits(
        hashes[j],
        l,
    )) == bloom_bits(hashes[j], l) by {
        if j < i {
            let w = bloom_word(hashes[j], l);
            if w == bloom_word(hashes[i], l) {
                lemma_or_keeps(before[w], bloom_bits(hashes[i], l), bloom_bits(hashes[j], l));
            }
        }
    }
}

proof fn lemma_bucket_step(
    before: Seq<u32>,
    after: Seq<u32>,
    hashes: Seq<u32>,
    i: int,
    first: bool,
    l: GnuHashLayout,
)
    requires
        0 <= i < hashes.len(),
        l.bucket_count > 0,
        before.len() == l.bucket_count,
        first == first_in_chain(hashes, i, l),
        first ==> after == before.update(bucket_of(hashes[i], l) as int, (i + l.symbol_base) as u32),
        !first ==> after == before,
        i + l.symbol_base <= u32::MAX,
        forall|j: int|
            0 <= j < i && #[trigger] opens_bucket(hashes, j, i, l) ==> before[bucket_of(hashes[j],
                l,
            ) as int] == j + l.symbol_base,
    ensures
        forall|j: int|
            0 <= j < i + 1 && #[trigger] opens_bucket(hashes, j, i + 1, l) ==> after[bucket_of(hashes[j],
                l,
            ) as int] == j + l.symbol_base,
{
    assert forall|j: int|
        0 <= j < i + 1 && #[trigger] opens_bucket(hashes, j, i + 1, l) implies after[bucket_of(hashes[j],
            l,
        ) as int] == j + l.symbol_base by {
        if j < i {
            assert(opens_bucket(hashes, j, i, l));
            if first {
                assert(bucket_of(hashes[i], l) != bucket_of(hashes[j], l));
            }
        }
    }
}

/// Builds the bloom filter, buckets and chains for `hashes`.
pub fn build_gnu_hash_table(l: &GnuHashLayout, hashes: &Vec<u32>) -> (t: GnuHashTable)
    requires
        l.bucket_count > 0,
        l.bloom_count > 0,
        l.bloom_shift < 32,
        hashes@.len() + l.symbol_base <= u32::MAX,
    ensures
        is_gnu_hash_table(t, hashes@, *l),
{
    let mut bloom: Vec<u64> = Vec::new();
    let mut k: u32 = 0;
    while k < l.bloom_count
        invariant
            k <= l.bloom_count,
            bloom@.len() == k,
        decreases l.bloom_count - k,
    {
        bloom.push(0);
        k = k + 1;
    }
    let mut buckets: Vec<u32> = Vec::new();
    let mut k: u32 = 0;
    while k < l.bucket_count
        invariant
            k <= l.bucket_count,
            buckets@.len() == k,
        decreases l.bucket_count - k,
    {
        buckets.push(0);
        k = k + 1;
    }
    let mut chains: Vec<u32> = Vec::new();
    let n = hashes.len();
    let mut i: usize = 0;
    while i < n
        invariant
            n == hashes@.len(),
            i <= n,
            l.bucket_count > 0,
            l.bloom_count > 0,
            l.bloom_shift < 32,
            n + l.symbol_base <= u32::MAX,
            bloom@.len() == l.bloom_count,
            buckets@.len() == l.bucket_count,
            chains@.len() == i,
            forall|j: int| 0 <= j < i ==> #[trigger] chains@[j] == chain_value(hashes@, j, *l),
            forall|j: int|
                0 <= j < i && #[trigger] opens_bucket(hashes@, j, i as int, *l) ==> buckets@[bucket_of(hashes@[j],
                    *l,
                ) as int] == j + l.symbol_base,
            forall|j: int|
                0 <= j < i ==> #[trigger] (bloom@[bloom_word(hashes@[j], *l)] & bloom_bits(
                    hashes@[j],
                    *l,
                )) == bloom_bits(hashes@[j], *l),
        decreases n - i,
    {
        let h = hashes[i];
        let ghost before = bloom@;
        set_bloom_bits(&mut bloom, h, l);
        proof {
            lemma_bloom_step(before, bloom@, hashes@, i as int, *l);
        }
        let bucket = h % l.bucket_count;
        let first = i == 0 || hashes[i - 1] % l.bucket_count != bucket;
        let ghost old_buckets = buckets@;
        if first {
            buckets.set(bucket as usize, i as u32 + l.symbol_base);
        }
        proof {
            lemma_bucket_step(old_buckets, buckets@, hashes@, i as int, first, *l);
        }
        chains.push(chain_slot(hashes, i, l));
        i = i + 1;
    }
    GnuHashTable { bloom, buckets, chains }
}

/// The first symbol of the run of bucket-mates that ends at `i`.
proof fn lemma_run_start(hashes: Seq<u32>, i: int, l: GnuHashLayout) -> (s: int)
    requires
        0 <= i < hashes.len(),
    ensures
        0 <= s <= i,
        first_in_chain(hashes, s, l),
        forall|j: int| s <= j <= i ==> bucket_of(#[trigger] hashes[j], l) == bucket_of(hashes[i], l),
    decreases i,
{
    if first_in_chain(hashes, i, l) {
        i
    } else {
        let s = lemma_run_start(hashes, i - 1, l);
        s
    }
}

proof fn lemma_chain_bits(h: u32)
    ensures
        ((h & !1u32) & 1u32) == 0,
        ((h & !1u32) | 1u32) | 1u32 == h | 1u32,
        (h & !1u32) | 1u32 == h | 1u32,
{
    assert(((h & !1u32) & 1u32) == 0) by (bit_vector);
    assert(((h & !1u32) | 1u32) | 1u32 == h | 1u32) by (bit_vector);
    assert((h & !1u32) | 1u32 == h | 1u32) by (bit_vector);
}

/// A dynamic loader's lookup finds every hashed symbol: the bucket of its
/// hash holds the index where the walk starts, no chain slot from there up
/// to the symbol marks the end of the chain, and the symbol's slot holds its
/// hash (bit 0 aside). Symbols must be grouped by bucket, as layout orders
/// them.
pub proof fn lemma_gnu_hash_lookup(t: GnuHashTable, hashes: Seq<u32>, l: GnuHashLayout, i: int)
    requires
        is_gnu_hash_table(t, hashes, l),
        grouped_by_bucket(hashes, l),
        l.bucket_count > 0,
        0 <= i < hashes.len(),
    ensures
        l.symbol_base <= t.buckets@[bucket_of(hashes[i], l) as int] <= i + l.symbol_base,
        forall|j: int|
            t.buckets@[bucket_of(hashes[i], l) as int] - l.symbol_base <= j < i ==> (
            #[trigger] t.chains@[j] & 1u32) == 0,
        t.chains@[i] | 1u32 == hashes[i] | 1u32,
{
    reveal(chain_value);
    let s = lemma_run_start(hashes, i, l);
    let n = hashes.len() as int;
    assert forall|k: int| s < k < n && #[trigger] first_in_chain(hashes, k, l) implies bucket_of(
        hashes[k],
        l,
    ) != bucket_of(hashes[s], l) by {
        assert(bucket_of(hashes[k - 1], l) <= bucket_of(hashes[k], l));
        assert(bucket_of(hashes[s], l) <= bucket_of(hashes[k - 1], l));
    }
    assert(opens_bucket(hashes, s, n, l));
    assert(t.buckets@[bucket_of(hashes[s], l) as int] == s + l.symbol_base);
    assert forall|j: int|
        t.buckets@[bucket_of(hashes[i], l) as int] - l.symbol_base <= j < i implies (
        #[trigger] t.chains@[j] & 1u32) == 0 by {
        assert(bucket_of(hashes[j], l) == bucket_of(hashes[i], l));
        assert(bucket_of(hashes[j + 1], l) == bucket_of(hashes[i], l));
        assert(!last_in_chain(hashes, j, l));
        lemma_chain_bits(hashes[j]);
    }
    lemma_chain_bits(hashes[i]);
}

/// The bytes of `.gnu.hash`: header, bloom filter, buckets, chains.
pub open spec fn gnu_hash_bytes(t: GnuHashTable, l: GnuHashLayout) -> Seq<u8> {
    le32(l.bucket_count) + le32(l.symbol_base) + le32(l.bloom_count) + le32(l.bloom_shift) + le64s(
        t.bloom@,
    ) + le32s(t.buckets@) + le32s(t.chains@)
}

/// Writes `.gnu.hash` for the dynamic symbols with `hashes`, when layout
/// gave the output one, into a part of `allocated` bytes.
pub fn write_gnu_hash_tables(
    layout: &Option<GnuHashLayout>,
    hashes: &Vec<u32>,
    allocated: usize,
) -> (r: Result<Vec<u8>, WriteError>)
    requires
        layout is Some ==> ({
            let l = layout->Some_0;
            l.bucket_count > 0 && l.bloom_count > 0 && l.bloom_shift < 32 && hashes@.len()
                + l.symbol_base <= u32::MAX
        }),
    ensures
        layout is None ==> r is Ok && r->Ok_0@.len() == 0,
        layout is Some ==> {
            let l = layout->Some_0;
            let size = 16 + 8 * l.bloom_count + 4 * l.bucket_count + 4 * hashes@.len();
            &&& r.is_ok() == (size <= allocated)
            &&& r.is_ok() ==> exists|t: GnuHashTable|
                is_gnu_hash_table(t, hashes@, l) && r->Ok_0@ == gnu_hash_bytes(t, l)
        },
{
    let l = match layout {
        Some(l) => l,
        None => {
            return Ok(Vec::new());
        },
    };
    let size: u128 = 16 + 8 * (l.bloom_count as u128) + 4 * (l.bucket_count as u128) + 4 * (hashes.len() as u128);
    if size > allocated as u128 {
        return Err(WriteError::InsufficientAllocation { table: Table::GnuHash });
    }
    let t = build_gnu_hash_table(l, hashes);
    let mut out: Vec<u8> = Vec::new();
    crate::bytes::push_u32(&mut out, l.bucket_count);
    crate::bytes::push_u32(&mut out, l.symbol_base);
    crate::bytes::push_u32(&mut out, l.bloom_count);
    crate::bytes::push_u32(&mut out, l.bloom_shift);
    crate::bytes::push_u64s(&mut out, &t.bloom);
    crate::bytes::push_u32s(&mut out, &t.buckets);
    crate::bytes::push_u32s(&mut out, &t.chains);
    assert(out@ =~= gnu_hash_bytes(t, *l));
    Ok(out)
}

} // verus!
