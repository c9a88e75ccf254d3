//! The command line: subcommands, their arguments and the rules on them.
pub mod base64;
pub mod csv;
pub mod http;
pub mod passwd;

use vstd::prelude::*;

use self::base64::Base64SubCommand;
use self::csv::CsvOpts;
use self::http::HttpSubCommand;
use self::passwd::GenPasswdOpts;

verus! {

/// The parsed command line.
#[derive(Debug, PartialEq, Eq)]
pub struct Opts {
    /// The subcommand to run.
    pub cmd: SubCommand,
}

/// The subcommands of `rcli`.
#[derive(Debug, PartialEq, Eq)]
pub enum SubCommand {
    /// Show a CSV record, or convert CSV to other formats.
    Csv(CsvOpts),
    /// Generate passwords.
    Passwd(GenPasswdOpts),
    /// Serve files over HTTP.
    Http(HttpSubCommand),
    /// Base64 encode or decode.
    Base64(Base64SubCommand),
}

} // verus!
