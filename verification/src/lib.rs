//! Fan control for Linux: sensor bookkeeping, fan-curve evaluation helpers,
//! PWM controller discovery and the decision logic of the control service.

use vstd::prelude::*;

pub mod commands;
pub mod controllers;
pub mod curves;
pub mod fan_configuration;
pub mod fan_discovery;
pub mod groupie;
pub mod libsensors;
pub mod nvml_extensions;
pub mod ordering;
pub mod pattern;
pub mod pwms;
pub mod text;
pub mod utils;

use crate::text::concat_str;

verus! {

pub const APP_ID: &'static str = "fischys-fancontrol";
pub const CONFIG_PATH: &'static str = "/etc/fischys-fancontrol";
pub const CURVES_FILE: &'static str = "fan-curves.json";
pub const POLL_ENV: &'static str = "POLL_RATE";
pub const DEFAULT_POLL_RATE: u64 = 3;
pub const CHARACTERISTICS_FILE: &'static str = "fan-characteristics.json";
/// Where the fan associations found by discovery are stored, within the configuration directory.
pub const ASSOCIATIONS_FILE: &'static str = "fan-associations.json";

/// `base` with `sub` appended as a path component (as `PathBuf::push` does): an absolute
/// `sub` replaces `base`; otherwise a `/` separates them unless `base` already ends with one.
pub open spec fn push_path(base: Seq<char>, sub: Seq<char>) -> Seq<char> {
    if sub.len() > 0 && sub[0] == '/' {
        sub
    } else if base.len() > 0 && base.last() == '/' {
        base + sub
    } else {
        base + seq!['/'] + sub
    }
}

/// The path of a file (or path) `subpath` within the configuration directory.
pub fn path_to_config(subpath: &str) -> (r: String)
    ensures
        r@ == push_path(CONFIG_PATH@, subpath@),
{
    let sub = crate::text::chars_of(subpath);
    proof {
        reveal_strlit("/etc/fischys-fancontrol");
        reveal_strlit("/etc/fischys-fancontrol/");
    }
    if sub.len() > 0 && sub[0] == '/' {
        String::from_str(subpath)
    } else {
        concat_str("/etc/fischys-fancontrol/", subpath)
    }
}

} // verus!
