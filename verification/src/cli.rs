//! Command-line settings that the program interprets itself.

use vstd::prelude::*;

use crate::text::str_eq;

verus! {

/// How often a new log file is started.
#[derive(Clone, Copy, Debug, PartialEq, Eq, Structural)]
pub enum LogRotation {
    Minutely,
    Hourly,
    Daily,
    Never,
}

/// The upper-case form that `str::to_uppercase` gives of a text (Unicode
/// case mapping, which does not depend on the locale).
pub uninterp spec fn spec_to_uppercase(text: Seq<char>) -> Seq<char>;

/// `str::to_uppercase`.
#[verifier::external_body]
fn to_uppercase(text: &str) -> (r: String)
    ensures
        r@ == spec_to_uppercase(text@),
{
    text.to_uppercase()
}

/// The rotation a log file rotation argument asks for: `MINUTELY`,
/// `HOURLY` and `NEVER` in any case, and daily for anything else.
pub open spec fn spec_rotation(arg: Seq<char>) -> LogRotation {
    let upper = spec_to_uppercase(arg);
    if upper == "MINUTELY"@ {
        LogRotation::Minutely
    } else if upper == "HOURLY"@ {
        LogRotation::Hourly
    } else if upper == "NEVER"@ {
        LogRotation::Never
    } else {
        LogRotation::Daily
    }
}

/// The log file rotation given on the command line.
#[derive(Clone, Copy, Debug, PartialEq, Eq, Structural)]
pub struct CliLogParametersFileRotation(pub LogRotation);

impl vstd::std_specs::convert::FromSpecImpl<String> for CliLogParametersFileRotation {
    open spec fn obeys_from_spec() -> bool {
        true
    }

    open spec fn from_spec(v: String) -> Self {
        CliLogParametersFileRotation(spec_rotation(v@))
    }
}

impl From<String> for CliLogParametersFileRotation {
    fn from(arg: String) -> (r: Self) {
        let upper = to_uppercase(arg.as_str());
        if str_eq(upper.as_str(), "MINUTELY") {
            CliLogParametersFileRotation(LogRotation::Minutely)
        } else if str_eq(upper.as_str(), "HOURLY") {
            CliLogParametersFileRotation(LogRotation::Hourly)
        } else if str_eq(upper.as_str(), "NEVER") {
            CliLogParametersFileRotation(LogRotation::Never)
        } else {
            CliLogParametersFileRotation(LogRotation::Daily)
        }
    }
}

} // verus!
