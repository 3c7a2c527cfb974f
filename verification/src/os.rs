//! Errors of the operating system, as the standard library and `rustix`
//! carry them. Nothing in this file is proved: it states what the rest of the
//! crate takes on trust.
use vstd::prelude::*;

verus! {

/// `std::io::Error`, carried through as it is.
#[verifier::external_type_specification]
#[verifier::external_body]
pub struct ExIoError(std::io::Error);

/// `rustix::io::Errno`, the error of a call on the kernel's event queue.
#[verifier::external_type_specification]
#[verifier::external_body]
pub struct ExErrno(rustix::io::Errno);

/// Whether `std::io::Error::kind` gives `ErrorKind::WouldBlock` for `error`.
pub uninterp spec fn would_block(error: std::io::Error) -> bool;

/// The `std::io::Error` that `rustix` makes of `errno` in its impl of
/// `From<Errno>`: the one built from the same raw code.
pub uninterp spec fn io_error_of(errno: rustix::io::Errno) -> std::io::Error;

/// Calls `std::io::Error::kind` and says whether the kind is
/// `ErrorKind::WouldBlock`. The contract only gives the answer its name.
#[verifier::external_body]
pub(crate) fn is_would_block(error: &std::io::Error) -> (blocked: bool)
    ensures
        blocked == would_block(*error),
{
    match error.kind() {
        std::io::ErrorKind::WouldBlock => true,
        _ => false,
    }
}

/// Calls `rustix`'s `From<Errno> for std::io::Error`. The contract only gives
/// the converted error its name.
#[verifier::external_body]
pub(crate) fn into_io_error(errno: rustix::io::Errno) -> (error: std::io::Error)
    ensures
        error == io_error_of(errno),
{
    std::io::Error::from(errno)
}

} // verus!
