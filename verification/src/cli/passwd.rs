//! Arguments of the `passwd` command and the rules on them.
use vstd::prelude::*;

use crate::process::passwd::charset_count;
use crate::text::{append_str, decimal, decimal_string, path_debug, path_debug_text};

verus! {

/// Arguments of `passwd`.
#[derive(Debug, PartialEq, Eq)]
pub struct GenPasswdOpts {
    /// Length of each password.
    pub length: u8,
    /// Leave out upper-case letters.
    pub no_uppercase: bool,
    /// Leave out lower-case letters.
    pub no_lowercase: bool,
    /// Leave out digits.
    pub no_numeric: bool,
    /// Leave out symbols.
    pub no_symbolic: bool,
    /// How many passwords to generate.
    pub batch_count: u32,
    /// File to write the passwords to, instead of the console.
    pub output: Option<String>,
}

/// What the file system says about the output path of `passwd`.
#[derive(Debug, PartialEq, Eq)]
pub struct OutputLocation {
    /// The directory part of the path (`Path::parent`), if it has one.
    pub parent: Option<String>,
    /// Whether that directory exists.
    pub parent_exists: bool,
    /// Whether the current directory exists; a path whose directory part is
    /// empty lies there.
    pub current_dir_exists: bool,
    /// Whether the path itself is an existing directory.
    pub is_dir: bool,
}

/// Why the `passwd` arguments were refused.
#[derive(Debug, PartialEq, Eq)]
pub enum PasswdOptsError {
    /// The length is zero.
    ZeroLength,
    /// Every character set is excluded.
    NoCharacterSet,
    /// The length is below the number of enabled sets, which is held.
    LengthTooShort(u8),
    /// The batch count is zero.
    ZeroBatchCount,
    /// The directory of the output file, held here, does not exist.
    MissingOutputDirectory(String),
    /// The output path, held here, is a directory.
    OutputIsDirectory(String),
}

/// The text that describes an argument error.
pub open spec fn passwd_opts_error_text(e: PasswdOptsError) -> Seq<char> {
    match e {
        PasswdOptsError::ZeroLength => "Password length must be greater than 0"@,
        PasswdOptsError::NoCharacterSet => "At least one of character set must be enabled（uppercase/lowercase/numeric/symbolic）"@,
        PasswdOptsError::LengthTooShort(n) => "Length must be at least "@ + decimal(n as nat)
            + " character length"@,
        PasswdOptsError::ZeroBatchCount => "Batch count must be greater than 0"@,
        PasswdOptsError::MissingOutputDirectory(d) => "Output directory "@ + path_debug_text(d@)
            + " does not exist"@,
        PasswdOptsError::OutputIsDirectory(p) => "Output directory "@ + path_debug_text(p@)
            + " is a directory, not a file"@,
    }
}

impl PasswdOptsError {
    /// The text shown for this error.
    pub fn message(&self) -> (m: String)
        ensures
            m@ == passwd_opts_error_text(*self),
    {
        match self {
            PasswdOptsError::ZeroLength => String::from_str("Password length must be greater than 0"),
            PasswdOptsError::NoCharacterSet => String::from_str(
                "At least one of character set must be enabled（uppercase/lowercase/numeric/symbolic）",
            ),
            PasswdOptsError::LengthTooShort(n) => {
                let mut m = String::from_str("Length must be at least ");
                let digits = decimal_string(*n as u64);
                append_str(&mut m, digits.as_str());
                append_str(&mut m, " character length");
                m
            },
            PasswdOptsError::ZeroBatchCount => String::from_str("Batch count must be greater than 0"),
            PasswdOptsError::MissingOutputDirectory(d) => {
                let mut m = String::from_str("Output directory ");
                append_str(&mut m, path_debug(d.as_str()).as_str());
                append_str(&mut m, " does not exist");
                m
            },
            PasswdOptsError::OutputIsDirectory(p) => {
                let mut m = String::from_str("Output directory ");
                append_str(&mut m, path_debug(p.as_str()).as_str());
                append_str(&mut m, " is a directory, not a file");
                m
            },
        }
    }
}

impl GenPasswdOpts {
    /// How many character sets these arguments enable.
    pub open spec fn enabled_sets(self) -> nat {
        charset_count(!self.no_uppercase, !self.no_lowercase, !self.no_numeric, !self.no_symbolic)
    }

    /// Whether the numbers in these arguments are acceptable: a nonzero
    /// length no shorter than the number of enabled sets, of which there is
    /// at least one, and a nonzero batch count.
    pub open spec fn counts_valid(self) -> bool {
        &&& self.length > 0
        &&& self.enabled_sets() > 0
        &&& self.length >= self.enabled_sets()
        &&& self.batch_count > 0
    }

    /// Whether the output directory is known to be missing. A path with an
    /// empty directory part lies in the current directory.
    pub open spec fn parent_missing(location: OutputLocation) -> bool {
        location.parent matches Some(d) && (if d@.len() > 0 {
            !location.parent_exists
        } else {
            !location.current_dir_exists
        })
    }

    /// Checks the arguments in the order the command reports problems:
    /// length, character sets, length against sets, batch count, then the
    /// output path as `location` describes it.
    pub fn validate(&self, location: &OutputLocation) -> (res: Result<(), PasswdOptsError>)
        ensures
            res is Ok <==> self.counts_valid() && (self.output is Some ==> !Self::parent_missing(
                *location,
            ) && !location.is_dir),
            self.length == 0 ==> res == Err::<(), PasswdOptsError>(PasswdOptsError::ZeroLength),
            self.length > 0 && self.enabled_sets() == 0 ==> res == Err::<(), PasswdOptsError>(
                PasswdOptsError::NoCharacterSet,
            ),
            self.length > 0 && self.enabled_sets() > 0 && self.length < self.enabled_sets() ==> res
                == Err::<(), PasswdOptsError>(
                PasswdOptsError::LengthTooShort(self.enabled_sets() as u8),
            ),
            self.length > 0 && self.enabled_sets() > 0 && self.length >= self.enabled_sets()
                && self.batch_count == 0 ==> res == Err::<(), PasswdOptsError>(
                PasswdOptsError::ZeroBatchCount,
            ),
            self.counts_valid() && self.output is Some && Self::parent_missing(*location) ==> (res
                matches Err(PasswdOptsError::MissingOutputDirectory(d)) && Some(d@) == (
            match location.parent {
                Some(p) => Some(p@),
                None => None,
            })),
            self.counts_valid() && (self.output matches Some(o) && !Self::parent_missing(*location)
                && location.is_dir) ==> (res matches Err(PasswdOptsError::OutputIsDirectory(p))
                && Some(p@) == (match self.output {
                Some(o) => Some(o@),
                None => None,
            })),
    {
        if self.length == 0 {
            return Err(PasswdOptsError::ZeroLength);
        }
        let mut enabled: u8 = 0;
        if !self.no_uppercase {
            enabled = enabled + 1;
        }
        if !self.no_symbolic {
            enabled = enabled + 1;
        }
        if !self.no_lowercase {
            enabled = enabled + 1;
        }
        if !self.no_numeric {
            enabled = enabled + 1;
        }
        assert(enabled == self.enabled_sets());
        if enabled == 0 {
            return Err(PasswdOptsError::NoCharacterSet);
        }
        if self.length < enabled {
            return Err(PasswdOptsError::LengthTooShort(enabled));
        }
        if self.batch_count == 0 {
            return Err(PasswdOptsError::ZeroBatchCount);
        }
        if let Some(output) = &self.output {
            if let Some(parent) = &location.parent {
                let exists = if parent.as_str().is_empty() {
                    location.current_dir_exists
                } else {
                    location.parent_exists
                };
                if !exists {
                    return Err(PasswdOptsError::MissingOutputDirectory(parent.clone()));
                }
            }
            if location.is_dir {
                return Err(PasswdOptsError::OutputIsDirectory(output.clone()));
            }
        }
        Ok(())
    }
}

/// The numbers in the arguments are refused only for what the command
/// documents: a zero length, no character set, a length below the number of
/// enabled sets, or a zero batch count. Any other length, up to 255, passes.
pub proof fn lemma_counts_valid_exactly(opts: GenPasswdOpts)
    ensures
        opts.counts_valid() <==> (opts.length > 0 && charset_count(
            !opts.no_uppercase,
            !opts.no_lowercase,
            !opts.no_numeric,
            !opts.no_symbolic,
        ) > 0 && opts.length >= charset_count(
            !opts.no_uppercase,
            !opts.no_lowercase,
            !opts.no_numeric,
            !opts.no_symbolic,
        ) && opts.batch_count > 0),
{
}

/// Lengthening valid arguments keeps their numbers valid: every length from
/// one that is accepted up to 255 is accepted too.
pub proof fn lemma_longer_length_accepted(opts: GenPasswdOpts, length: u8)
    requires
        opts.counts_valid(),
        length >= opts.length,
    ensures
        (GenPasswdOpts { length, ..opts }).counts_valid(),
{
}

/// Arguments that pass [`GenPasswdOpts::validate`] always let passwords be
/// generated: the length covers one character of every enabled set, and
/// the generator finds a set to draw from.
pub proof fn lemma_valid_options_generate(opts: GenPasswdOpts)
    requires
        opts.counts_valid(),
    ensures
        charset_count(!opts.no_uppercase, !opts.no_lowercase, !opts.no_numeric, !opts.no_symbolic)
            <= opts.length,
        charset_count(!opts.no_uppercase, !opts.no_lowercase, !opts.no_numeric, !opts.no_symbolic)
            > 0,
        opts.batch_count > 0,
{
}

} // verus!
