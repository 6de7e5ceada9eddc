use std::io::Write;
use vstd::prelude::*;

verus! {

use vstd::string::StringExecFns;

/// The fatal failure conditions of a build.
///
/// Each variant carries the logical path or name that the failing operation
/// was working on, so that the top-level caller can report what was being
/// attempted.
#[derive(Clone, Debug, PartialEq, Eq)]
pub enum Error {
    /// A summary entry's backing file is missing or cannot be opened.
    ChapterNotFound(String),
    /// Any other read, write or directory-creation failure.
    IoFailure(String),
    /// A path cannot be represented as portable text.
    PathEncodingError(String),
    /// Two assets resolve to the same logical name.
    AssetNameCollision(String),
}

/// The mathematical shape of an [`Error`]: the same variants over character
/// sequences, so that contracts can speak about errors without naming a
/// particular heap-allocated `String`.
pub enum ErrorV {
    ChapterNotFound(Seq<char>),
    IoFailure(Seq<char>),
    PathEncodingError(Seq<char>),
    AssetNameCollision(Seq<char>),
}

impl View for Error {
    type V = ErrorV;

    open spec fn view(&self) -> ErrorV {
        match self {
            Error::ChapterNotFound(p) => ErrorV::ChapterNotFound(p@),
            Error::IoFailure(p) => ErrorV::IoFailure(p@),
            Error::PathEncodingError(p) => ErrorV::PathEncodingError(p@),
            Error::AssetNameCollision(p) => ErrorV::AssetNameCollision(p@),
        }
    }
}

/// The human-readable message of an error.
pub open spec fn spec_describe(e: ErrorV) -> Seq<char> {
    match e {
        ErrorV::ChapterNotFound(p) => "Chapter file not found, "@ + p,
        ErrorV::IoFailure(p) => "Unable to read or write, "@ + p,
        ErrorV::PathEncodingError(p) => "Path is not valid utf-8, "@ + p,
        ErrorV::AssetNameCollision(p) => "Two assets share the final name, "@ + p,
    }
}

impl Error {
    /// Render the error as one human-readable line.
    pub fn describe(&self) -> (r: String)
        ensures
            r@ == spec_describe(self@),
    {
        match self {
            Error::ChapterNotFound(p) => {
                let mut s = String::from_str("Chapter file not found, ");
                s.append(p.as_str());
                s
            },
            Error::IoFailure(p) => {
                let mut s = String::from_str("Unable to read or write, ");
                s.append(p.as_str());
                s
            },
            Error::PathEncodingError(p) => {
                let mut s = String::from_str("Path is not valid utf-8, ");
                s.append(p.as_str());
                s
            },
            Error::AssetNameCollision(p) => {
                let mut s = String::from_str("Two assets share the final name, ");
                s.append(p.as_str());
                s
            },
        }
    }
}

/// Writes one diagnostic line to the standard error stream.  Relies on
/// `std::io::Write::write_fmt` through the `writeln` macro; the text itself
/// is computed by verified callers.
#[verifier::external_body]
pub(crate) fn log_line(text: &str) {
    let mut err = std::io::stderr();
    let _ = writeln!(&mut err, "{}", text);
}

/// Prints a "backtrace" of some `Error` on the diagnostic channel.
pub fn log_backtrace(e: &Error) {
    let mut line = String::from_str("Error: ");
    line.append(e.describe().as_str());
    log_line(line.as_str());
}

} // verus!
