//! What each command computes.
pub mod base64;
pub mod csv;
pub mod http_serve;
pub mod passwd;

use vstd::prelude::*;

verus! {

/// How reading an input failed.
#[derive(Debug, PartialEq, Eq)]
pub enum ReadError {
    /// The input could not be opened; the text is the reason the file
    /// system gave.
    Open(String),
    /// The input was opened but reading it failed: the bytes it gave before
    /// the failing read, and the text that describes why it failed.
    Read { read: Vec<u8>, cause: String },
}

} // verus!
