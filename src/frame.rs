//! The bytes of an upload command.
use vstd::prelude::*;

use vstd::slice::slice_to_vec;

use crate::outcome::UploadError;

verus! {

/// Longest name the device stores, and the width of the name field.
pub const NAME_FIELD_LEN: usize = 100;

/// `UPLOAD`, the command word that opens an upload.
pub open spec fn command_word() -> Seq<u8> {
    seq![85u8, 80, 76, 79, 65, 68]
}

/// `name` followed by zero bytes up to the width of the name field.
pub open spec fn padded_name(name: Seq<u8>) -> Seq<u8> {
    name + Seq::new((NAME_FIELD_LEN - name.len()) as nat, |i: int| 0u8)
}

/// Everything an upload of `payload` under `name` sends, in order: the
/// command word, the padded name, the payload's length and the payload.
pub open spec fn upload_bytes(name: Seq<u8>, payload: Seq<u8>) -> Seq<u8> {
    command_word() + padded_name(name) + le32(payload.len() as u32) + payload
}

/// The four little-endian bytes of `n`.
pub open spec fn le32(n: u32) -> Seq<u8> {
    seq![
        (n % 0x100) as u8,
        ((n / 0x100) % 0x100) as u8,
        ((n / 0x1_0000) % 0x100) as u8,
        ((n / 0x100_0000) % 0x100) as u8,
    ]
}

/// The number whose little-endian bytes are `b[0..4]`.
pub open spec fn le32_value(b: Seq<u8>) -> int {
    b[0] + 0x100 * b[1] + 0x1_0000 * b[2] + 0x100_0000 * b[3]
}

/// Writes `n` as four bytes, lowest first.
pub fn length_prefix(n: u32) -> (r: [u8; 4])
    ensures
        r@ == le32(n),
{
    let b0 = (n & 0xff) as u8;
    let b1 = ((n >> 8) & 0xff) as u8;
    let b2 = ((n >> 16) & 0xff) as u8;
    let b3 = ((n >> 24) & 0xff) as u8;
    assert(n & 0xff == n % 0x100) by (bit_vector);
    assert((n >> 8) & 0xff == (n / 0x100) % 0x100) by (bit_vector);
    assert((n >> 16) & 0xff == (n / 0x1_0000) % 0x100) by (bit_vector);
    assert((n >> 24) & 0xff == (n / 0x100_0000) % 0x100) by (bit_vector);
    let r = [b0, b1, b2, b3];
    assert(r@ =~= le32(n));
    r
}

/// Reading the length field back gives `n`.
pub proof fn lemma_le32_round_trip(n: u32)
    ensures
        le32_value(le32(n)) == n,
{
    let b = le32(n);
    assert(n == (n % 0x100) + 0x100 * ((n / 0x100) % 0x100) + 0x1_0000 * ((n / 0x1_0000) % 0x100)
        + 0x100_0000 * ((n / 0x100_0000) % 0x100)) by (nonlinear_arith);
}

/// An upload is laid out field by field: the command word, the name, zero
/// bytes up to offset 106, the payload's length in the next four bytes, and
/// then the payload itself, with nothing after it.
pub proof fn lemma_upload_layout(name: Seq<u8>, payload: Seq<u8>)
    requires
        name.len() <= NAME_FIELD_LEN,
        payload.len() <= u32::MAX,
    ensures
        upload_bytes(name, payload).len() == 110 + payload.len(),
        upload_bytes(name, payload).subrange(0, 6) == command_word(),
        upload_bytes(name, payload).subrange(6, 6 + name.len() as int) == name,
        forall|i: int|
            6 + name.len() <= i < 106 ==> #[trigger] upload_bytes(name, payload)[i] == 0,
        le32_value(upload_bytes(name, payload).subrange(106, 110)) == payload.len(),
        upload_bytes(name, payload).subrange(110, 110 + payload.len() as int) == payload,
{
    let b = upload_bytes(name, payload);
    assert(b.subrange(0, 6) =~= command_word());
    assert(b.subrange(6, 6 + name.len() as int) =~= name);
    assert(b.subrange(106, 110) =~= le32(payload.len() as u32));
    assert(b.subrange(110, 110 + payload.len() as int) =~= payload);
    lemma_le32_round_trip(payload.len() as u32);
}

/// The command word as bytes.
pub fn command_bytes() -> (r: Vec<u8>)
    ensures
        r@ == command_word(),
{
    let r: Vec<u8> = vec![85, 80, 76, 79, 65, 68];
    assert(r@ =~= command_word());
    r
}

/// The name field: `name` and then zero bytes, 100 in all.
pub fn name_field(name: &[u8]) -> (r: Vec<u8>)
    requires
        name@.len() <= NAME_FIELD_LEN,
    ensures
        r@ == padded_name(name@),
{
    let mut r: Vec<u8> = Vec::new();
    let mut i: usize = 0;
    while i < name.len()
        invariant
            i <= name@.len() <= NAME_FIELD_LEN,
            r@ == name@.subrange(0, i as int),
        decreases name@.len() - i,
    {
        r.push(name[i]);
        i = i + 1;
        assert(r@ =~= name@.subrange(0, i as int));
    }
    while r.len() < NAME_FIELD_LEN
        invariant
            name@.len() <= r@.len() <= NAME_FIELD_LEN,
            r@ == name@ + Seq::new((r@.len() - name@.len()) as nat, |k: int| 0u8),
        decreases NAME_FIELD_LEN - r@.len(),
    {
        r.push(0);
        assert(r@ =~= name@ + Seq::new((r@.len() - name@.len()) as nat, |k: int| 0u8));
    }
    r
}

/// The parts of an upload, each sent by a write of its own: the command
/// word, the name field, the payload's length and the payload.
///
/// A name over 100 bytes gives `InvalidName`; otherwise a payload whose
/// length does not fit in 32 bits gives `FailedConversion`.
pub fn upload_parts(name: &[u8], payload: &[u8]) -> (r: Result<Vec<Vec<u8>>, UploadError>)
    ensures
        (r == Err::<Vec<Vec<u8>>, UploadError>(UploadError::InvalidName)) <==> name@.len()
            > NAME_FIELD_LEN,
        (r == Err::<Vec<Vec<u8>>, UploadError>(UploadError::FailedConversion)) <==> (name@.len()
            <= NAME_FIELD_LEN && payload@.len() > u32::MAX),
        r is Ok <==> (name@.len() <= NAME_FIELD_LEN && payload@.len() <= u32::MAX),
        r matches Ok(parts) ==> {
            &&& parts@.len() == 4
            &&& parts@[0]@ == command_word()
            &&& parts@[1]@ == padded_name(name@)
            &&& parts@[2]@ == le32(payload@.len() as u32)
            &&& parts@[3]@ == payload@
            &&& parts@[0]@ + parts@[1]@ + parts@[2]@ + parts@[3]@ == upload_bytes(
                name@,
                payload@,
            )
        },
{
    if name.len() > NAME_FIELD_LEN {
        return Err(UploadError::InvalidName);
    }
    if payload.len() > 0xffff_ffff {
        return Err(UploadError::FailedConversion);
    }
    let length = length_prefix(payload.len() as u32);
    let mut parts: Vec<Vec<u8>> = Vec::new();
    parts.push(command_bytes());
    parts.push(name_field(name));
    parts.push(slice_to_vec(length.as_slice()));
    parts.push(slice_to_vec(payload));
    Ok(parts)
}

} // verus!
