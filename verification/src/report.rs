//! Output formats of the findings report.

use vstd::prelude::*;
use crate::contract::labeled_message;
use crate::order::compare_str;

verus! {

/// The formats a findings report can be rendered in.
#[derive(Clone, Copy, Debug, PartialEq, Eq, Structural, Hash)]
pub enum OutputFormat {
    Text,
    Json,
    Sarif,
    Agent,
}

/// The name a format is selected by.
pub open spec fn format_name(f: OutputFormat) -> Seq<char> {
    match f {
        OutputFormat::Text => "text"@,
        OutputFormat::Json => "json"@,
        OutputFormat::Sarif => "sarif"@,
        OutputFormat::Agent => "agent"@,
    }
}

/// The format named `value`; any other name is refused with a message
/// that quotes it.
pub fn parse_output_format(value: &str) -> (r: Result<OutputFormat, String>)
    ensures
        r matches Ok(f) ==> format_name(f) == value@,
        r matches Err(m) ==> m@ == "unknown output format `"@ + value@ + "`"@ && forall|f: OutputFormat|
            format_name(f) != value@,
{
    proof {
        reveal_strlit("text");
        reveal_strlit("json");
        reveal_strlit("sarif");
        reveal_strlit("agent");
    }
    if compare_str(value, "text") == 0 {
        Ok(OutputFormat::Text)
    } else if compare_str(value, "json") == 0 {
        Ok(OutputFormat::Json)
    } else if compare_str(value, "sarif") == 0 {
        Ok(OutputFormat::Sarif)
    } else if compare_str(value, "agent") == 0 {
        Ok(OutputFormat::Agent)
    } else {
        let mut message = labeled_message("unknown output format `", value);
        crate::json::string_append(&mut message, "`");
        proof {
            assert forall|f: OutputFormat| format_name(f) != value@ by {
                match f {
                    OutputFormat::Text => {},
                    OutputFormat::Json => {},
                    OutputFormat::Sarif => {},
                    OutputFormat::Agent => {},
                }
            }
        }
        Err(message)
    }
}

impl std::str::FromStr for OutputFormat {
    type Err = String;

    fn from_str(value: &str) -> Result<Self, Self::Err> {
        parse_output_format(value)
    }
}

} // verus!
