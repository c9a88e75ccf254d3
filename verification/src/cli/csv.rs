//! Arguments of the `csv` command.
use vstd::prelude::*;

use crate::cli::base64::FormatError;
use crate::text::{append_str, str_equals};

verus! {

/// Arguments of `csv`.
#[derive(Debug, PartialEq, Eq)]
pub struct CsvOpts {
    /// Input path.
    pub input: String,
    /// Output path; `output.<format>` when absent.
    pub output: Option<String>,
    /// Field delimiter.
    pub delimiter: char,
    /// Whether the input lacks a header row.
    pub no_header: bool,
    /// Output format.
    pub format: OutputFormat,
}

/// The formats a CSV file can be converted to.
#[derive(Debug, Clone, Copy, PartialEq, Eq, Structural)]
pub enum OutputFormat {
    /// Pretty-printed JSON.
    Json,
    /// YAML.
    Yaml,
}

/// The name under which the command line knows `format`; it is also the
/// extension of the default output file.
pub open spec fn output_format_name(format: OutputFormat) -> Seq<char> {
    match format {
        OutputFormat::Json => "json"@,
        OutputFormat::Yaml => "yaml"@,
    }
}

/// The output format that `name` designates, if any.
pub open spec fn output_format_named(name: Seq<char>) -> Option<OutputFormat> {
    if name == "json"@ {
        Some(OutputFormat::Json)
    } else if name == "yaml"@ {
        Some(OutputFormat::Yaml)
    } else {
        None
    }
}

impl OutputFormat {
    /// The name of this format.
    pub fn name(self) -> (s: &'static str)
        ensures
            s@ == output_format_name(self),
    {
        match self {
            OutputFormat::Json => "json",
            OutputFormat::Yaml => "yaml",
        }
    }

    /// The name of this format, as an owned string (what displaying the
    /// format shows).
    pub fn to_text(self) -> (s: String)
        ensures
            s@ == output_format_name(self),
    {
        String::from_str(self.name())
    }

    /// The format named `input`.
    pub fn parse(input: &str) -> (res: Result<OutputFormat, FormatError>)
        ensures
            res matches Ok(f) ==> output_format_named(input@) == Some(f),
            res is Err ==> output_format_named(input@) is None,
            res matches Err(e) ==> (e matches FormatError::UnsupportedOutputFormat(s) && s@
                == input@),
    {
        if str_equals(input, "json") {
            Ok(OutputFormat::Json)
        } else if str_equals(input, "yaml") {
            Ok(OutputFormat::Yaml)
        } else {
            Err(FormatError::UnsupportedOutputFormat(String::from_str(input)))
        }
    }
}

impl From<OutputFormat> for &'static str {
    fn from(format: OutputFormat) -> (s: &'static str) {
        match format {
            OutputFormat::Json => "json",
            OutputFormat::Yaml => "yaml",
        }
    }
}

impl vstd::std_specs::convert::FromSpecImpl<OutputFormat> for &'static str {
    open spec fn obeys_from_spec() -> bool {
        true
    }

    open spec fn from_spec(format: OutputFormat) -> &'static str {
        match format {
            OutputFormat::Json => "json",
            OutputFormat::Yaml => "yaml",
        }
    }
}

impl std::str::FromStr for OutputFormat {
    type Err = FormatError;

    fn from_str(input: &str) -> (res: Result<Self, Self::Err>)
        ensures
            res matches Ok(f) ==> output_format_named(input@) == Some(f),
            res is Err ==> output_format_named(input@) is None,
            res matches Err(e) ==> (e matches FormatError::UnsupportedOutputFormat(s) && s@
                == input@),
    {
        OutputFormat::parse(input)
    }
}

/// Parses the value of `--format` for the `csv` command.
pub fn parse_format(format: &str) -> (res: Result<OutputFormat, FormatError>)
    ensures
        res matches Ok(f) ==> output_format_named(format@) == Some(f),
        res is Err ==> output_format_named(format@) is None,
        res matches Err(e) ==> (e matches FormatError::UnsupportedOutputFormat(s) && s@ == format@),
{
    OutputFormat::parse(format)
}

/// Naming an output format and parsing the name gives the format back,
/// and a name is accepted only for the format it names.
pub proof fn lemma_output_format_names(format: OutputFormat, name: Seq<char>)
    ensures
        output_format_named(output_format_name(format)) == Some(format),
        output_format_named(name) == Some(format) ==> name == output_format_name(format),
{
    reveal_strlit("json");
    reveal_strlit("yaml");
    assert("json"@[0] != "yaml"@[0]);
}

/// The path the converted file is written to.
pub open spec fn csv_output_path(output: Option<Seq<char>>, format: OutputFormat) -> Seq<char> {
    match output {
        Some(path) => path,
        None => "output."@ + output_format_name(format),
    }
}

impl CsvOpts {
    /// Whether the input's first row is a header.
    pub fn with_header(&self) -> (r: bool)
        ensures
            r == !self.no_header,
    {
        !self.no_header
    }

    /// The output path: the one given, or `output.<format>`.
    pub fn output_path(&self) -> (path: String)
        ensures
            path@ == csv_output_path(
                match self.output {
                    Some(p) => Some(p@),
                    None => None,
                },
                self.format,
            ),
    {
        match &self.output {
            Some(p) => p.clone(),
            None => {
                let mut path = String::from_str("output.");
                append_str(&mut path, self.format.name());
                path
            },
        }
    }
}

} // verus!
