//! The formats in which a result is put out.

use vstd::prelude::*;

use crate::error::{Error, ErrorView};
use crate::text::same_text;

verus! {

/// The format of the output.
#[derive(Debug, Clone, Copy, PartialEq, Eq, Structural)]
pub enum OutputFormat {
    /// Text for a reader.
    HumanReadable,
    /// A JSON document.
    Json,
    /// A YAML document.
    Yaml,
}

/// The format that a name stands for: `human` or `human-readable`, `json` or
/// `structured`, `yml` or `yaml`. Any other name stands for none.
pub open spec fn format_named(name: Seq<char>) -> Option<OutputFormat> {
    if name == "human"@ || name == "human-readable"@ {
        Some(OutputFormat::HumanReadable)
    } else if name == "json"@ || name == "structured"@ {
        Some(OutputFormat::Json)
    } else if name == "yml"@ || name == "yaml"@ {
        Some(OutputFormat::Yaml)
    } else {
        None
    }
}

impl OutputFormat {
    /// The format with the name given. A name that stands for no format is an
    /// error that holds the name.
    pub fn parse(s: &str) -> (res: Result<OutputFormat, Error>)
        ensures
            match res {
                Ok(format) => format_named(s@) == Some(format),
                Err(error) => format_named(s@) is None && error@ == ErrorView::UnknownOutputFormat(
                    s@,
                ),
            },
    {
        if same_text(s, "human") || same_text(s, "human-readable") {
            Ok(OutputFormat::HumanReadable)
        } else if same_text(s, "json") || same_text(s, "structured") {
            Ok(OutputFormat::Json)
        } else if same_text(s, "yml") || same_text(s, "yaml") {
            Ok(OutputFormat::Yaml)
        } else {
            Err(Error::UnknownOutputFormat(s.to_owned()))
        }
    }

    /// The format to use where none was asked for: text for a reader where
    /// the output goes to a terminal, JSON else.
    pub fn default_for(terminal: bool) -> (res: OutputFormat)
        ensures
            res == if terminal {
                OutputFormat::HumanReadable
            } else {
                OutputFormat::Json
            },
    {
        if terminal {
            OutputFormat::HumanReadable
        } else {
            OutputFormat::Json
        }
    }
}

impl std::str::FromStr for OutputFormat {
    type Err = Error;

    fn from_str(s: &str) -> (res: Result<OutputFormat, Error>)
        ensures
            match res {
                Ok(format) => format_named(s@) == Some(format),
                Err(error) => format_named(s@) is None && error@ == ErrorView::UnknownOutputFormat(
                    s@,
                ),
            },
    {
        OutputFormat::parse(s)
    }
}

} // verus!
