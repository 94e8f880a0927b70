//! The error type of libsensors calls.

use vstd::prelude::*;

verus! {

/// A libsensors call returned a status code that is not a success.
#[derive(Debug, Clone, Copy, PartialEq, Eq, Structural)]
pub struct Error {
    pub code: i32,
}

impl Error {
    /// Converts a status code into a result: a code above 0 is `Ok` with that code, any
    /// other code an `Err` carrying it.
    pub fn convert_cint(code: i32) -> (r: Result<u32, Error>)
        ensures
            code > 0 ==> r == Ok::<u32, Error>(code as u32),
            code <= 0 ==> r == Err::<u32, Error>(Error { code }),
    {
        if code > 0 {
            Ok(code as u32)
        } else {
            Err(Error { code })
        }
    }
}

} // verus!
