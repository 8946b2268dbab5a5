use std::io::Error;
use std::io::ErrorKind;
use vstd::prelude::*;

verus! {

#[verifier::external_type_specification]
#[verifier::external_body]
pub struct ExIoError(Error);

/// `io::Error::new(ErrorKind::InvalidInput, "Unknown UTP type code")`: an
/// I/O error of kind `InvalidInput` with that message. Nothing is claimed of
/// the value, as an I/O error is opaque here.
#[verifier::external_body]
pub(crate) fn unknown_type_code_error() -> Error {
    Error::new(ErrorKind::InvalidInput, "Unknown UTP type code")
}

} // verus!
