//! How results are shown.

use vstd::prelude::*;

verus! {

/// The output formats on offer.
#[derive(Debug, Clone, Copy, PartialEq, Eq, Structural)]
pub enum OutputFormat {
    Table,
    Json,
    JsonPretty,
}

impl Default for OutputFormat {
    fn default() -> (r: Self)
        ensures
            r == OutputFormat::Table,
    {
        OutputFormat::Table
    }
}

/// What is to be printed for a result.
#[derive(Debug, Clone, Copy, PartialEq, Eq, Structural)]
pub enum Rendering {
    /// A table of rows under headers.
    Table,
    /// JSON on one line.
    CompactJson,
    /// JSON over several lines, indented.
    PrettyJson,
}

impl OutputFormat {
    /// How a list of items is printed in this format.
    pub fn for_list(self) -> (r: Rendering)
        ensures
            r == match self {
                OutputFormat::Table => Rendering::Table,
                OutputFormat::Json => Rendering::CompactJson,
                OutputFormat::JsonPretty => Rendering::PrettyJson,
            },
    {
        match self {
            OutputFormat::Table => Rendering::Table,
            OutputFormat::Json => Rendering::CompactJson,
            OutputFormat::JsonPretty => Rendering::PrettyJson,
        }
    }

    /// How a single item is printed in this format: there is no table of
    /// one item, so the table format gives compact JSON.
    pub fn for_single(self) -> (r: Rendering)
        ensures
            r == match self {
                OutputFormat::Table => Rendering::CompactJson,
                OutputFormat::Json => Rendering::CompactJson,
                OutputFormat::JsonPretty => Rendering::PrettyJson,
            },
    {
        match self {
            OutputFormat::Table | OutputFormat::Json => Rendering::CompactJson,
            OutputFormat::JsonPretty => Rendering::PrettyJson,
        }
    }
}

} // verus!
