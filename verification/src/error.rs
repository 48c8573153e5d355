use vstd::prelude::*;

verus! {

/// The platform error value, kept opaque: the library stores only the raw
/// error code and turns it back into a `std::io::Error` to render a message.
#[verifier::external_type_specification]
#[verifier::external_body]
pub struct ExIoError(std::io::Error);

/// An error from a mount operation: either the kernel call failed (the
/// variant carries the OS error code captured right after the call), or a
/// supplied string held an interior nul byte (the variant carries the byte
/// index of the first one).
#[derive(Clone, Copy, Debug, PartialEq, Eq, Structural)]
pub enum LibMountError {
    IOError(i32),
    NulError(usize),
}

/// Relies on `std::io::Error::from_raw_os_error`: builds the platform error
/// value for an OS error code, so that its description can be rendered.
#[verifier::external_body]
fn os_error_from_code(code: i32) -> std::io::Error {
    std::io::Error::from_raw_os_error(code)
}

impl LibMountError {
    /// A human-readable description of the error: the platform's own text for
    /// an OS error code, or a fixed text for a rejected nul byte.
    pub fn message(&self) -> (r: String)
        ensures
            self matches LibMountError::NulError(_) ==> r@ == "nul byte found in provided data"@,
    {
        match self {
            LibMountError::IOError(code) => os_error_from_code(*code).to_string(),
            LibMountError::NulError(_) => "nul byte found in provided data".to_owned(),
        }
    }
}

} // verus!
