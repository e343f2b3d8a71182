//! What an upload comes to.
use vstd::prelude::*;

verus! {

/// The device's answer to an upload, once the exchange itself went through.
#[derive(Debug, Clone, Copy, PartialEq, Eq, Structural)]
pub enum UploadResult {
    /// The device replied `ALL_GOOD`: the program was stored.
    AllGood,
    /// The device replied `OO_FLASH`: its flash memory has no room for the program.
    OutOfFlash,
    /// The device replied `OO_METADATA`: it already holds as many programs as it can.
    OutOfMetadata,
}

/// Why an upload failed.
#[derive(Debug, Clone, Copy, PartialEq, Eq, Structural)]
pub enum UploadError {
    /// The name is longer than 100 bytes.
    InvalidName,
    /// The program is too long for its length to be sent as a 32-bit count.
    FailedConversion,
    /// Writing to or reading from the port failed.
    IOError,
    /// The reply ended before any known answer appeared in it.
    NoResponse,
}

/// The error of bytes that are not UTF-8 text.
#[verifier::external_type_specification]
#[verifier::external_body]
pub struct ExUtf8Error(std::str::Utf8Error);

impl From<std::num::TryFromIntError> for UploadError {
    fn from(_value: std::num::TryFromIntError) -> Self {
        UploadError::FailedConversion
    }
}

impl vstd::std_specs::convert::FromSpecImpl<std::num::TryFromIntError> for UploadError {
    open spec fn obeys_from_spec() -> bool {
        true
    }

    open spec fn from_spec(v: std::num::TryFromIntError) -> Self {
        UploadError::FailedConversion
    }
}

impl From<std::str::Utf8Error> for UploadError {
    fn from(_value: std::str::Utf8Error) -> Self {
        UploadError::FailedConversion
    }
}

impl vstd::std_specs::convert::FromSpecImpl<std::str::Utf8Error> for UploadError {
    open spec fn obeys_from_spec() -> bool {
        true
    }

    open spec fn from_spec(v: std::str::Utf8Error) -> Self {
        UploadError::FailedConversion
    }
}

impl From<std::io::Error> for UploadError {
    fn from(_value: std::io::Error) -> Self {
        UploadError::IOError
    }
}

impl vstd::std_specs::convert::FromSpecImpl<std::io::Error> for UploadError {
    open spec fn obeys_from_spec() -> bool {
        true
    }

    open spec fn from_spec(v: std::io::Error) -> Self {
        UploadError::IOError
    }
}

} // verus!
