use crate::bytes::{le16, le32, le64, le64s};
use crate::dynamic::DynamicEntry;
use crate::model::Rela;
use crate::symtab::SymtabEntry;
use vstd::prelude::*;

verus! {

/// The bytes of an `Elf64_Rela` record.
pub open spec fn rela_bytes(r: Rela) -> Seq<u8> {
    le64(r.r_offset) + le64(r.r_info) + le64(r.r_addend as u64)
}

/// The bytes of an `Elf64_Sym` record.
pub open spec fn symbol_bytes(e: SymtabEntry) -> Seq<u8> {
    le32(e.st_name) + seq![e.st_info, e.st_other] + le16(e.st_shndx) + le64(e.st_value) + le64(e.st_size)
}

/// The bytes of an `Elf64_Dyn` record.
pub open spec fn dynamic_bytes(e: DynamicEntry) -> Seq<u8> {
    le64(e.d_tag) + le64(e.d_val)
}

pub open spec fn relas_bytes(s: Seq<Rela>) -> Seq<u8>
    decreases s.len(),
{
    if s.len() == 0 {
        seq![]
    } else {
        relas_bytes(s.drop_last()) + rela_bytes(s.last())
    }
}

pub open spec fn symbols_bytes(s: Seq<SymtabEntry>) -> Seq<u8>
    decreases s.len(),
{
    if s.len() == 0 {
        seq![]
    } else {
        symbols_bytes(s.drop_last()) + symbol_bytes(s.last())
    }
}

pub open spec fn dynamics_bytes(s: Seq<DynamicEntry>) -> Seq<u8>
    decreases s.len(),
{
    if s.len() == 0 {
        seq![]
    } else {
        dynamics_bytes(s.drop_last()) + dynamic_bytes(s.last())
    }
}

pub open spec fn u16s_bytes(s: Seq<u16>) -> Seq<u8>
    decreases s.len(),
{
    if s.len() == 0 {
        seq![]
    } else {
        u16s_bytes(s.drop_last()) + le16(s.last())
    }
}

/// The bytes of GOT entries.
pub fn encode_got(items: &Vec<u64>) -> (r: Vec<u8>)
    ensures
        r@ == le64s(items@),
{
    let mut out: Vec<u8> = Vec::new();
    crate::bytes::push_u64s(&mut out, items);
    out
}

/// The bytes of relocation records.
pub fn encode_relas(items: &Vec<Rela>) -> (r: Vec<u8>)
    ensures
        r@ == relas_bytes(items@),
{
    let mut out: Vec<u8> = Vec::new();
    let mut i: usize = 0;
    assert(items@.subrange(0, 0) =~= Seq::<Rela>::empty());
    while i < items.len()
        invariant
            i <= items@.len(),
            out@ == relas_bytes(items@.subrange(0, i as int)),
        decreases items@.len() - i,
    {
        let r = items[i];
        crate::bytes::push_u64(&mut out, r.r_offset);
        crate::bytes::push_u64(&mut out, r.r_info);
        crate::bytes::push_u64(&mut out, r.r_addend as u64);
        assert(items@.subrange(0, i + 1).drop_last() =~= items@.subrange(0, i as int));
        i = i + 1;
        assert(out@ =~= relas_bytes(items@.subrange(0, i as int)));
    }
    assert(items@.subrange(0, i as int) =~= items@);
    out
}

/// The bytes of symbol records.
pub fn encode_symbols(items: &Vec<SymtabEntry>) -> (r: Vec<u8>)
    ensures
        r@ == symbols_bytes(items@),
{
    let mut out: Vec<u8> = Vec::new();
    let mut i: usize = 0;
    assert(items@.subrange(0, 0) =~= Seq::<SymtabEntry>::empty());
    while i < items.len()
        invariant
            i <= items@.len(),
            out@ == symbols_bytes(items@.subrange(0, i as int)),
        decreases items@.len() - i,
    {
        let e = items[i];
        crate::bytes::push_u32(&mut out, e.st_name);
        out.push(e.st_info);
        out.push(e.st_other);
        crate::bytes::push_u16(&mut out, e.st_shndx);
        crate::bytes::push_u64(&mut out, e.st_value);
        crate::bytes::push_u64(&mut out, e.st_size);
        assert(items@.subrange(0, i + 1).drop_last() =~= items@.subrange(0, i as int));
        i = i + 1;
        assert(out@ =~= symbols_bytes(items@.subrange(0, i as int)));
    }
    assert(items@.subrange(0, i as int) =~= items@);
    out
}

/// The bytes of `.dynamic` records.
pub fn encode_dynamic(items: &Vec<DynamicEntry>) -> (r: Vec<u8>)
    ensures
        r@ == dynamics_bytes(items@),
{
    let mut out: Vec<u8> = Vec::new();
    let mut i: usize = 0;
    assert(items@.subrange(0, 0) =~= Seq::<DynamicEntry>::empty());
    while i < items.len()
        invariant
            i <= items@.len(),
            out@ == dynamics_bytes(items@.subrange(0, i as int)),
        decreases items@.len() - i,
    {
        let e = items[i];
        crate::bytes::push_u64(&mut out, e.d_tag);
        crate::bytes::push_u64(&mut out, e.d_val);
        assert(items@.subrange(0, i + 1).drop_last() =~= items@.subrange(0, i as int));
        i = i + 1;
        assert(out@ =~= dynamics_bytes(items@.subrange(0, i as int)));
    }
    assert(items@.subrange(0, i as int) =~= items@);
    out
}

/// The bytes of `.gnu.version` entries.
pub fn encode_versym(items: &Vec<u16>) -> (r: Vec<u8>)
    ensures
        r@ == u16s_bytes(items@),
{
    let mut out: Vec<u8> = Vec::new();
    let mut i: usize = 0;
    assert(items@.subrange(0, 0) =~= Seq::<u16>::empty());
    while i < items.len()
        invariant
            i <= items@.len(),
            out@ == u16s_bytes(items@.subrange(0, i as int)),
        decreases items@.len() - i,
    {
        crate::bytes::push_u16(&mut out, items[i]);
        assert(items@.subrange(0, i + 1).drop_last() =~= items@.subrange(0, i as int));
        i = i + 1;
        assert(out@ =~= u16s_bytes(items@.subrange(0, i as int)));
    }
    assert(items@.subrange(0, i as int) =~= items@);
    out
}

} // verus!
