//! The error type shared by the whole library.

use vstd::prelude::*;
use vstd::string::*;

verus! {

/// What can go wrong. Failures that come from the operating system or from
/// another library arrive as text: the library records them, it does not
/// produce them.
#[derive(Debug)]
pub enum FsError {
    /// An input or output operation failed.
    Io { reason: String },
    /// A path could not be read or written.
    PathAccess { path: String, reason: String },
    /// A glob pattern was refused.
    InvalidGlob { pattern: String, reason: String },
    /// A regular expression was refused.
    InvalidRegex { pattern: String, reason: String },
    /// A size such as `10KB` could not be read.
    InvalidSize { input: String },
    /// A date could not be read.
    InvalidDate { input: String },
    /// A value has the wrong format; `format` says what was wrong.
    InvalidFormat { format: String },
    /// Writing comma-separated values failed.
    Csv { reason: String },
    /// Reading or writing JSON failed.
    Json { reason: String },
    /// Watching the file system failed.
    Watch { reason: String },
    /// A query selected nothing.
    NoEntriesFound,
    /// An input or output operation failed while doing `context`.
    IoError { context: String, reason: String },
}

/// Mathematical value of an [`FsError`]: the same cases over plain text.
pub enum FsErrorView {
    Io { reason: Seq<char> },
    PathAccess { path: Seq<char>, reason: Seq<char> },
    InvalidGlob { pattern: Seq<char>, reason: Seq<char> },
    InvalidRegex { pattern: Seq<char>, reason: Seq<char> },
    InvalidSize { input: Seq<char> },
    InvalidDate { input: Seq<char> },
    InvalidFormat { format: Seq<char> },
    Csv { reason: Seq<char> },
    Json { reason: Seq<char> },
    Watch { reason: Seq<char> },
    NoEntriesFound,
    IoError { context: Seq<char>, reason: Seq<char> },
}

impl View for FsError {
    type V = FsErrorView;

    open spec fn view(&self) -> FsErrorView {
        match *self {
            FsError::Io { reason } => FsErrorView::Io { reason: reason@ },
            FsError::PathAccess { path, reason } => FsErrorView::PathAccess {
                path: path@,
                reason: reason@,
            },
            FsError::InvalidGlob { pattern, reason } => FsErrorView::InvalidGlob {
                pattern: pattern@,
                reason: reason@,
            },
            FsError::InvalidRegex { pattern, reason } => FsErrorView::InvalidRegex {
                pattern: pattern@,
                reason: reason@,
            },
            FsError::InvalidSize { input } => FsErrorView::InvalidSize { input: input@ },
            FsError::InvalidDate { input } => FsErrorView::InvalidDate { input: input@ },
            FsError::InvalidFormat { format } => FsErrorView::InvalidFormat { format: format@ },
            FsError::Csv { reason } => FsErrorView::Csv { reason: reason@ },
            FsError::Json { reason } => FsErrorView::Json { reason: reason@ },
            FsError::Watch { reason } => FsErrorView::Watch { reason: reason@ },
            FsError::NoEntriesFound => FsErrorView::NoEntriesFound,
            FsError::IoError { context, reason } => FsErrorView::IoError {
                context: context@,
                reason: reason@,
            },
        }
    }
}

impl FsError {
    /// An `InvalidFormat` error whose text is `prefix` followed by `detail`.
    pub fn invalid_format(prefix: &str, detail: &str) -> (e: FsError)
        ensures
            e@ == (FsErrorView::InvalidFormat { format: prefix@ + detail@ }),
    {
        FsError::InvalidFormat { format: String::from_str(prefix).concat(detail) }
    }

    /// An `InvalidFormat` error whose text is `text`.
    pub fn format_error(text: &str) -> (e: FsError)
        ensures
            e@ == (FsErrorView::InvalidFormat { format: text@ }),
    {
        FsError::InvalidFormat { format: String::from_str(text) }
    }

    /// An `IoError` that records what was being done and why it failed.
    pub fn io_error(context: &str, reason: &str) -> (e: FsError)
        ensures
            e@ == (FsErrorView::IoError { context: context@, reason: reason@ }),
    {
        FsError::IoError { context: String::from_str(context), reason: String::from_str(reason) }
    }
}

} // verus!
