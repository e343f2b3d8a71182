//! Reading device replies as UTF-8 text.
use vstd::prelude::*;
use vstd::utf8::valid_utf8;

verus! {

/// Every byte is below 0x80.
pub open spec fn all_ascii(b: Seq<u8>) -> bool {
    forall|i: int| 0 <= i < b.len() ==> b[i] < 0x80
}

/// Relies on std::str::from_utf8: it succeeds exactly on well-formed UTF-8.
#[verifier::external_body]
pub(crate) fn is_utf8(b: &[u8]) -> (r: bool)
    ensures
        r == valid_utf8(b@),
{
    std::str::from_utf8(b).is_ok()
}

/// ASCII bytes are well-formed UTF-8.
pub proof fn lemma_ascii_is_utf8(b: Seq<u8>)
    requires
        all_ascii(b),
    ensures
        valid_utf8(b),
    decreases b.len(),
{
    if b.len() != 0 {
        let rest = b.subrange(1, b.len() as int);
        assert(all_ascii(rest));
        lemma_ascii_is_utf8(rest);
        assert(vstd::utf8::pop_first_scalar(b) =~= rest);
    }
}

/// A byte of 0xf8 or more starts no UTF-8 sequence.
pub proof fn lemma_bad_lead_not_utf8(b: Seq<u8>)
    requires
        b.len() > 0,
        b[0] >= 0xf8,
    ensures
        !valid_utf8(b),
{
}

} // verus!
