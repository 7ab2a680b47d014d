//! Interactive, per-match find-and-replace over text files.
//!
//! The library holds the verified core of the tool: the parser for the
//! `s<delim>pattern<delim>replacement<delim>flags` search specification,
//! the whitespace trimming applied to every line read from a file, the
//! literal-substring match and first-occurrence replacement, and the
//! state machine that drives the per-line accept/reject protocol and the
//! staging of output lines. File and terminal I/O live outside it.
use vstd::prelude::*;

pub mod rewrite;
pub mod search;
pub mod text;

pub use search::SpecParseError;
pub use search::VimSearch;
pub use text::trim_line;

verus! {

/// The resolved command-line configuration handed to a run: the raw search
/// specification, the files to process, and the flags that surround them.
pub struct Options {
    pub pattern: String,
    pub replacement: String,
    pub paths: Vec<String>,
    pub dry_run: bool,
    pub context: usize,
}

} // verus!
