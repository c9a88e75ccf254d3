//! Verified core of `rcli`: format and argument rules, password generation,
//! Base64 and CSV conversion, and the path rules of the static file server.
pub mod cli;
pub mod process;
pub mod text;

pub use cli::base64::{
    parse_base64_format, verify_file, Base64DecodeOpts, Base64EncodeOpts, Base64Format,
    Base64SubCommand, FormatError, MissingFileError,
};
pub use cli::csv::{parse_format, CsvOpts, OutputFormat};
pub use cli::http::{port_in_range, HttpServeOpts, HttpSubCommand};
pub use cli::passwd::{GenPasswdOpts, OutputLocation, PasswdOptsError};
pub use cli::{Opts, SubCommand};
pub use process::base64::{process_base64_decode, process_base64_encode, Base64Error};
pub use process::csv::{process_csv, validate_delimiter, CsvError, CsvStep};
pub use process::http_serve::{
    after_index, after_listing, after_open, directory_listing_html, html_content_type,
    starts_with_path, DirEntryInfo, FileFacts, FileReply, FileStep, HttpServeState, ServeError,
};
pub use process::passwd::{
    build_password, gen_single_passwd, passwd_console_report, passwd_file_text, process_gen_passwd,
    GenerateError,
};
pub use process::ReadError;
