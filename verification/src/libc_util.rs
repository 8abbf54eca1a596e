//! The error convention of the C library calls that Terms makes: a status of
//! `-1` means failure, and the reason is in `errno`.
use vstd::prelude::*;

verus! {

#[verifier::external_type_specification]
#[verifier::external_body]
pub struct ExIoError(std::io::Error);

/// `std::io::Error::last_os_error`: the error that `errno` holds now. What it
/// holds depends on the last failed system call of this thread, so nothing
/// is stated of the value.
#[verifier::external_body]
fn last_os_error() -> std::io::Error {
    std::io::Error::last_os_error()
}

/// Turns the status of a C library call into a `Result`: `-1` is a failure
/// that carries `errno`, any other status hands `item` back.
pub fn map_error<T>(status: i32, item: T) -> (r: std::io::Result<T>)
    ensures
        r is Err <==> status == -1,
        r matches Ok(v) ==> v == item,
{
    if status == -1 {
        Err(last_os_error())
    } else {
        Ok(item)
    }
}

} // verus!
