//! Starting a new configuration.

use vstd::prelude::*;
use vstd::string::StringExecFns;
use crate::text::{trim, trim_of};

verus! {

/// The name of a configuration that is given none.
pub const DEFAULT_NAME: &'static str = "basalt";

/// The name of the configuration to be written to a file whose name,
/// without its extension, is `stem`: the stem trimmed, or the default name
/// where there is no stem or nothing is left of it.
pub open spec fn config_name_of(stem: Option<Seq<char>>) -> Seq<char> {
    match stem {
        Some(stem) => if trim_of(stem).len() == 0 {
            DEFAULT_NAME@
        } else {
            trim_of(stem)
        },
        None => DEFAULT_NAME@,
    }
}

/// The name of the configuration to be written to a file whose name,
/// without its extension, is `stem`.
pub fn config_name(stem: Option<&str>) -> (name: String)
    ensures
        name@ == config_name_of(stem.deep_view()),
{
    match stem {
        Some(stem) => {
            let trimmed = trim(stem);
            if trimmed.as_str().is_empty() {
                String::from_str(DEFAULT_NAME)
            } else {
                trimmed
            }
        },
        None => String::from_str(DEFAULT_NAME),
    }
}

} // verus!
