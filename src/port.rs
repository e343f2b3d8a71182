//! The serial port, as the standard library's byte streams see it.
use vstd::prelude::*;

verus! {

/// The error that a port reports.
#[verifier::external_type_specification]
#[verifier::external_body]
pub struct ExIoError(std::io::Error);

/// The kinds of port error, read as plain values.
#[verifier::external_type_specification]
pub struct ExErrorKind(std::io::ErrorKind);

/// The kind of a port error, as `std::io::Error::kind` reports it.
pub uninterp spec fn error_kind(e: std::io::Error) -> std::io::ErrorKind;

/// Relies on std::io::Write::write_all: hands every byte of `bytes` to the
/// port, or reports the error that stopped it.
#[verifier::external_body]
pub(crate) fn send_all<P: std::io::Read + std::io::Write>(io: &mut P, bytes: &[u8]) -> (r: Result<
    (),
    std::io::Error,
>) {
    io.write_all(bytes)
}

/// Relies on std::io::Read::read: one read into `buf`, whose length stays
/// as it was; a count that it returns is at most that length.
#[verifier::external_body]
pub(crate) fn receive<P: std::io::Read + std::io::Write>(io: &mut P, buf: &mut Vec<u8>) -> (r:
    Result<usize, std::io::Error>)
    ensures
        final(buf)@.len() == old(buf)@.len(),
        r matches Ok(n) ==> n <= old(buf)@.len(),
{
    io.read(buf.as_mut_slice())
}

/// Relies on std::io::Error::from: an error whose kind is the one given,
/// here `ErrorKind::InvalidData`, for data that is not what was expected.
#[verifier::external_body]
pub(crate) fn invalid_data() -> (r: std::io::Error)
    ensures
        error_kind(r) == std::io::ErrorKind::InvalidData,
{
    std::io::Error::from(std::io::ErrorKind::InvalidData)
}

} // verus!
