use crate::bytes::{le32, splice};
use crate::error::{Table, WriteError};
use crate::split::ByteRange;
use vstd::prelude::*;

verus! {

pub const NT_GNU_BUILD_ID: u32 = 3;
pub const NT_GNU_PROPERTY_TYPE_0: u32 = 5;
/// The size of one `.note.gnu.property` entry.
pub const GNU_NOTE_PROPERTY_ENTRY_SIZE: usize = 16;

/// The BLAKE3 digest of `data`.
pub uninterp spec fn blake3_of(data: Seq<u8>) -> Seq<u8>;

/// Relies on `blake3::hash`: the 32-byte BLAKE3 digest of the input, which
/// depends on the input alone.
#[verifier::external_body]
fn blake3_digest(data: &[u8]) -> (r: Vec<u8>)
    ensures
        r@ == blake3_of(data@),
        r@.len() == 32,
{
    blake3::hash(data).as_bytes().to_vec()
}

/// Relies on `uuid::Uuid::new_v4`: a random version-4 UUID, 16 bytes.
#[verifier::external_body]
fn random_uuid() -> (r: Vec<u8>)
    ensures
        r@.len() == 16,
{
    uuid::Uuid::new_v4().as_bytes().to_vec()
}

/// How the build ID is chosen.
#[derive(Clone, Debug, PartialEq, Eq)]
pub enum BuildIdOption {
    /// A digest of the whole output.
    Fast,
    /// The given bytes.
    Hex(Vec<u8>),
    /// A random UUID.
    Uuid,
    /// No build-ID note.
    Disabled,
}

/// The note name `"GNU\0"`.
pub open spec fn gnu_note_name() -> Seq<u8> {
    seq![0x47u8, 0x4e, 0x55, 0x00]
}

/// A GNU note of type `ty` with payload `desc`.
pub open spec fn note_bytes(ty: u32, desc: Seq<u8>) -> Seq<u8> {
    le32(4) + le32(desc.len() as u32) + le32(ty) + gnu_note_name() + desc
}

fn push_note_header(out: &mut Vec<u8>, ty: u32, desc_len: u32)
    ensures
        final(out)@ == old(out)@ + le32(4) + le32(desc_len) + le32(ty) + gnu_note_name(),
{
    crate::bytes::push_u32(out, 4);
    crate::bytes::push_u32(out, desc_len);
    crate::bytes::push_u32(out, ty);
    out.push(0x47);
    out.push(0x4e);
    out.push(0x55);
    out.push(0x00);
    assert(out@ =~= old(out)@ + le32(4) + le32(desc_len) + le32(ty) + gnu_note_name());
}

/// The `.note.gnu.build-id` section for `payload`, which must fill the
/// `allocated` bytes exactly.
pub fn build_id_note(payload: &[u8], allocated: usize) -> (r: Result<Vec<u8>, WriteError>)
    ensures
        r.is_ok() == (allocated == 16 + payload@.len()),
        r.is_ok() ==> r->Ok_0@ == note_bytes(NT_GNU_BUILD_ID, payload@),
{
    if allocated < 16 || allocated - 16 != payload.len() {
        return Err(WriteError::InsufficientAllocation { table: Table::NoteGnuBuildId });
    }
    let mut out: Vec<u8> = Vec::new();
    push_note_header(&mut out, NT_GNU_BUILD_ID, payload.len() as u32);
    let mut i: usize = 0;
    while i < payload.len()
        invariant
            i <= payload@.len(),
            out@ == le32(4) + le32(payload@.len() as u32) + le32(NT_GNU_BUILD_ID) + gnu_note_name()
                + payload@.subrange(0, i as int),
        decreases payload@.len() - i,
    {
        out.push(payload[i]);
        i = i + 1;
        assert(out@ =~= le32(4) + le32(payload@.len() as u32) + le32(NT_GNU_BUILD_ID) + gnu_note_name()
                + payload@.subrange(0, i as int));
    }
    assert(payload@.subrange(0, i as int) =~= payload@);
    Ok(out)
}

/// The bytes of `output` that `range` covers.
pub open spec fn range_bytes(output: Seq<u8>, range: ByteRange) -> Seq<u8> {
    output.subrange(range.start as int, range.end as int)
}

/// Writes the build-ID note into the section at `note` of the finished
/// output. With `Fast`, the ID is the digest of the output as it stands
/// before the note is written; `Disabled` writes nothing.
pub fn write_gnu_build_id_note(output: &mut Vec<u8>, note: ByteRange, option: &BuildIdOption) -> (r: Result<(), WriteError>)
    requires
        note.start <= note.end <= old(output)@.len(),
    ensures
        final(output)@.len() == old(output)@.len(),
        *option is Disabled ==> r is Ok && final(output)@ == old(output)@,
        r.is_err() ==> final(output)@ == old(output)@,
        ({
            let size = note.end - note.start;
            &&& *option is Fast ==> r.is_ok() == (size == 48)
            &&& *option is Uuid ==> r.is_ok() == (size == 32)
            &&& *option is Hex ==> r.is_ok() == (size == 16 + option->Hex_0@.len())
        }),
        r.is_ok() && *option is Fast ==> final(output)@ == splice(
            old(output)@,
            note.start as int,
            note_bytes(NT_GNU_BUILD_ID, blake3_of(old(output)@)),
        ),
        r.is_ok() && *option is Hex ==> final(output)@ == splice(
            old(output)@,
            note.start as int,
            note_bytes(NT_GNU_BUILD_ID, option->Hex_0@),
        ),
        r.is_ok() && *option is Uuid ==> exists|id: Seq<u8>|
            id.len() == 16 && final(output)@ == splice(
                old(output)@,
                note.start as int,
                #[trigger] note_bytes(NT_GNU_BUILD_ID, id),
            ),
{
    let payload = match option {
        BuildIdOption::Fast => blake3_digest(output.as_slice()),
        BuildIdOption::Hex(hex) => hex.clone(),
        BuildIdOption::Uuid => random_uuid(),
        BuildIdOption::Disabled => {
            return Ok(());
        },
    };
    let bytes = build_id_note(payload.as_slice(), note.end - note.start)?;
    crate::bytes::write_at(output, note.start, bytes.as_slice());
    Ok(())
}

/// Two identical outputs get the same `Fast` build-ID note.
pub proof fn lemma_build_id_deterministic(a: Seq<u8>, b: Seq<u8>)
    requires
        a == b,
    ensures
        note_bytes(NT_GNU_BUILD_ID, blake3_of(a)) == note_bytes(NT_GNU_BUILD_ID, blake3_of(b)),
{
}

/// A `.note.gnu.property` entry: type and 4 bytes of data.
#[derive(Clone, Copy, Debug, PartialEq, Eq, Structural)]
pub struct GnuProperty {
    pub ptype: u32,
    pub data: u32,
}

/// The entries of a property note, each padded to 8-byte alignment.
pub open spec fn property_bytes(notes: Seq<GnuProperty>) -> Seq<u8>
    decreases notes.len(),
{
    if notes.len() == 0 {
        seq![]
    } else {
        property_bytes(notes.drop_last()) + le32(notes.last().ptype) + le32(4) + le32(
            notes.last().data,
        ) + le32(0)
    }
}

/// The `.note.gnu.property` section for `notes`, within `allocated` bytes.
pub fn write_gnu_property_notes(notes: &Vec<GnuProperty>, allocated: usize) -> (r: Result<Vec<u8>, WriteError>)
    ensures
        r.is_ok() == (16 + 16 * notes@.len() <= allocated),
        r.is_ok() ==> r->Ok_0@ == le32(4) + le32((16 * notes@.len()) as u32) + le32(
            NT_GNU_PROPERTY_TYPE_0,
        ) + gnu_note_name() + property_bytes(notes@),
{
    if notes.len() > (allocated / 16) || allocated - 16 * notes.len() < 16 {
        return Err(WriteError::InsufficientAllocation { table: Table::NoteGnuProperty });
    }
    let desc_len = (notes.len() * GNU_NOTE_PROPERTY_ENTRY_SIZE) as u32;
    let mut out: Vec<u8> = Vec::new();
    push_note_header(&mut out, NT_GNU_PROPERTY_TYPE_0, desc_len);
    let ghost head = out@;
    let mut i: usize = 0;
    assert(notes@.subrange(0, 0) =~= Seq::<GnuProperty>::empty());
    assert(out@ =~= head + property_bytes(notes@.subrange(0, 0)));
    while i < notes.len()
        invariant
            i <= notes@.len(),
            out@ == head + property_bytes(notes@.subrange(0, i as int)),
        decreases notes@.len() - i,
    {
        let p = notes[i];
        crate::bytes::push_u32(&mut out, p.ptype);
        crate::bytes::push_u32(&mut out, 4);
        crate::bytes::push_u32(&mut out, p.data);
        crate::bytes::push_u32(&mut out, 0);
        assert(notes@.subrange(0, i + 1).drop_last() =~= notes@.subrange(0, i as int));
        i = i + 1;
        assert(out@ =~= head + property_bytes(notes@.subrange(0, i as int)));
    }
    assert(notes@.subrange(0, i as int) =~= notes@);
    Ok(out)
}

} // verus!
