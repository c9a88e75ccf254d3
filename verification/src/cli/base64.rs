//! Arguments of the `base64` command.
use vstd::prelude::*;

use crate::text::{append_str, str_equals};

verus! {

/// The two operations of the `base64` command.
#[derive(Debug, PartialEq, Eq)]
pub enum Base64SubCommand {
    /// Encode a file (or standard input, `-`) to Base64.
    Encode(Base64EncodeOpts),
    /// Decode Base64 text from a file (or standard input, `-`).
    Decode(Base64DecodeOpts),
}

/// Arguments of `base64 encode`.
#[derive(Debug, PartialEq, Eq)]
pub struct Base64EncodeOpts {
    /// Input path, `-` for standard input.
    pub input: String,
    /// Alphabet and padding to use.
    pub format: Base64Format,
}

/// Arguments of `base64 decode`.
#[derive(Debug, PartialEq, Eq)]
pub struct Base64DecodeOpts {
    /// Input path, `-` for standard input.
    pub input: String,
    /// Alphabet and padding to expect.
    pub format: Base64Format,
}

/// Which Base64 variant to use.
#[derive(Debug, Clone, Copy, PartialEq, Eq, Structural)]
pub enum Base64Format {
    /// Standard alphabet with `=` padding.
    Standard,
    /// URL-safe alphabet without padding.
    UrlSafe,
}

/// The name under which the command line knows `format`.
pub open spec fn base64_format_name(format: Base64Format) -> Seq<char> {
    match format {
        Base64Format::Standard => "standard"@,
        Base64Format::UrlSafe => "urlsafe"@,
    }
}

/// The format that `name` designates, if any.
pub open spec fn base64_format_named(name: Seq<char>) -> Option<Base64Format> {
    if name == "standard"@ {
        Some(Base64Format::Standard)
    } else if name == "urlsafe"@ {
        Some(Base64Format::UrlSafe)
    } else {
        None
    }
}

/// An unknown name for a format.
#[derive(Debug, PartialEq, Eq)]
pub enum FormatError {
    /// Not a name of a Base64 format.
    InvalidBase64Format(String),
    /// Not a name of an output format.
    UnsupportedOutputFormat(String),
}

/// The text that describes a format error.
pub open spec fn format_error_text(e: FormatError) -> Seq<char> {
    match e {
        FormatError::InvalidBase64Format(s) => "Invalid format: "@ + s@,
        FormatError::UnsupportedOutputFormat(s) => "Unsupported format '"@ + s@
            + "' (supported: json/yaml)"@,
    }
}

impl FormatError {
    /// The text shown for this error.
    pub fn message(&self) -> (m: String)
        ensures
            m@ == format_error_text(*self),
    {
        match self {
            FormatError::InvalidBase64Format(s) => {
                let mut m = String::from_str("Invalid format: ");
                append_str(&mut m, s.as_str());
                m
            },
            FormatError::UnsupportedOutputFormat(s) => {
                let mut m = String::from_str("Unsupported format '");
                append_str(&mut m, s.as_str());
                append_str(&mut m, "' (supported: json/yaml)");
                m
            },
        }
    }
}

impl Base64Format {
    /// The name of this format.
    pub fn name(self) -> (s: &'static str)
        ensures
            s@ == base64_format_name(self),
    {
        match self {
            Base64Format::Standard => "standard",
            Base64Format::UrlSafe => "urlsafe",
        }
    }

    /// The format named `input`.
    pub fn parse(input: &str) -> (res: Result<Base64Format, FormatError>)
        ensures
            res matches Ok(f) ==> base64_format_named(input@) == Some(f),
            res is Err ==> base64_format_named(input@) is None,
            res matches Err(e) ==> (e matches FormatError::InvalidBase64Format(s) && s@ == input@),
    {
        if str_equals(input, "standard") {
            Ok(Base64Format::Standard)
        } else if str_equals(input, "urlsafe") {
            Ok(Base64Format::UrlSafe)
        } else {
            Err(FormatError::InvalidBase64Format(String::from_str(input)))
        }
    }
}

impl From<Base64Format> for &'static str {
    fn from(format: Base64Format) -> (s: &'static str) {
        match format {
            Base64Format::Standard => "standard",
            Base64Format::UrlSafe => "urlsafe",
        }
    }
}

impl vstd::std_specs::convert::FromSpecImpl<Base64Format> for &'static str {
    open spec fn obeys_from_spec() -> bool {
        true
    }

    open spec fn from_spec(format: Base64Format) -> &'static str {
        match format {
            Base64Format::Standard => "standard",
            Base64Format::UrlSafe => "urlsafe",
        }
    }
}

impl std::str::FromStr for Base64Format {
    type Err = FormatError;

    fn from_str(input: &str) -> (res: Result<Self, Self::Err>)
        ensures
            res matches Ok(f) ==> base64_format_named(input@) == Some(f),
            res is Err ==> base64_format_named(input@) is None,
            res matches Err(e) ==> (e matches FormatError::InvalidBase64Format(s) && s@ == input@),
    {
        Base64Format::parse(input)
    }
}

/// Parses the value of `--format` for the `base64` command.
pub fn parse_base64_format(format: &str) -> (res: Result<Base64Format, FormatError>)
    ensures
        res matches Ok(f) ==> base64_format_named(format@) == Some(f),
        res is Err ==> base64_format_named(format@) is None,
            res matches Err(e) ==> (e matches FormatError::InvalidBase64Format(s) && s@ == format@),
{
    Base64Format::parse(format)
}

/// Naming a format and parsing the name gives the format back, and a name
/// is accepted only for the format it names.
pub proof fn lemma_base64_format_names(format: Base64Format, name: Seq<char>)
    ensures
        base64_format_named(base64_format_name(format)) == Some(format),
        base64_format_named(name) == Some(format) ==> name == base64_format_name(format),
{
    reveal_strlit("standard");
    reveal_strlit("urlsafe");
    assert("standard"@.len() != "urlsafe"@.len());
}

/// An input path that names no existing file.
#[derive(Debug, PartialEq, Eq)]
pub struct MissingFileError {
    /// The path as given.
    pub path: String,
}

impl MissingFileError {
    /// The text shown for this error.
    pub fn message(&self) -> (m: String)
        ensures
            m@ == "File '"@ + self.path@ + "' does not exist"@,
    {
        let mut m = String::from_str("File '");
        append_str(&mut m, self.path.as_str());
        append_str(&mut m, "' does not exist");
        m
    }
}

/// Accepts an input argument that is `-` (standard input) or names an
/// existing file; `exists` says whether it does.
pub fn verify_file(input_file: &str, exists: bool) -> (res: Result<String, MissingFileError>)
    ensures
        res is Ok <==> (input_file@ == "-"@ || exists),
        res matches Ok(s) ==> s@ == input_file@,
        res matches Err(e) ==> e.path@ == input_file@,
{
    if str_equals(input_file, "-") || exists {
        Ok(String::from_str(input_file))
    } else {
        Err(MissingFileError { path: String::from_str(input_file) })
    }
}

} // verus!
