//! Reading GPU temperatures from the CSV that `nvidia-smi` prints.

use vstd::prelude::*;

use crate::text::{format_radix, radix_text};

verus! {

/// The arguments that make `nvidia-smi` print, per GPU, its UUID, name, core temperature,
/// core temperature limit and memory temperature as CSV.
pub const NVIDIA_SMI_QUERY: &'static str = "--query-gpu=uuid,name,temperature.gpu,temperature.gpu.tlimit,temperature.memory";
/// The name of the sensor for a GPU's core temperature.
pub const CORE_TEMPERATURE: &'static str = "core_temperature";
/// The name of the sensor for a GPU's memory temperature.
pub const MEMORY_TEMPERATURE: &'static str = "memory_temperature";
/// How many fields a record of the query has.
pub const RECORD_FIELDS: usize = 5;
/// The start of the error for a record with too few fields.
pub const RECORD_LENGTH_ERROR: &'static str = "Unexpected record length. Expected 5, found ";

/// A record of `len` fields can be read if it has all [`RECORD_FIELDS`] of them; otherwise
/// the error names the length found.
pub fn check_record_length(len: usize) -> (r: Result<(), String>)
    ensures
        len >= RECORD_FIELDS <==> r is Ok,
        r matches Err(e) ==> e@ == RECORD_LENGTH_ERROR@ + radix_text(len as nat, 10, false),
{
    if len >= RECORD_FIELDS {
        Ok(())
    } else {
        let mut e = String::from_str(RECORD_LENGTH_ERROR);
        let digits = format_radix(len as u64, 10, false);
        e.append(digits.as_str());
        Err(e)
    }
}

} // verus!
