//! Why the process gives up, and the status it then exits with.
//!
//! No failure is recovered from: each one ends the process, and a supervisor that
//! restarts it tells by the status what kind of failure it was.

use vstd::prelude::*;

verus! {

/// A failure that ends the process.
#[derive(Debug, Clone, Copy, PartialEq, Eq, Structural)]
pub enum Fatal {
    /// An argument is missing from the command line.
    Usage,
    /// The base URL cannot be made into the address of the API.
    BadUrl,
    /// The file that holds the API key cannot be read.
    KeyUnreadable,
    /// The log file cannot be opened.
    LogUnopenable,
    /// The subscription to changes of the log file cannot be set up.
    WatchSetup,
    /// Reading from the log file failed.
    ReadFailed,
    /// Complete records in the log are not valid UTF-8.
    InvalidText,
    /// The request to the API failed, or its answer was no success.
    UploadFailed,
    /// The log file was removed while it was watched.
    LogRemoved,
    /// The subscription to changes of the log file reported an error.
    WatchFailed,
}

/// The kinds of failure that a supervisor tells apart.
#[derive(Debug, Clone, Copy, PartialEq, Eq, Structural)]
pub enum Category {
    /// The command line is wrong.
    Usage,
    /// What the command line names cannot be used: the key file, the base URL.
    Configuration,
    /// The log file cannot be opened or read.
    Io,
    /// The log holds records that are no text.
    Format,
    /// The request did not reach the API, or the API refused it.
    Transport,
    /// The file watching service failed.
    Watch,
    /// The log file disappeared.
    Removal,
}

/// Status for a wrong command line.
pub const EXIT_USAGE: u8 = 64;

/// Status for records in the log that are no text.
pub const EXIT_FORMAT: u8 = 65;

/// Status for a key file or a base URL that cannot be used.
pub const EXIT_CONFIGURATION: u8 = 66;

/// Status for a log file that was removed while it was watched.
pub const EXIT_REMOVAL: u8 = 69;

/// Status for a failure of the file watching service.
pub const EXIT_WATCH: u8 = 71;

/// Status for a log file that cannot be opened or read.
pub const EXIT_IO: u8 = 74;

/// Status for a request that failed.
pub const EXIT_TRANSPORT: u8 = 75;

/// The kind of failure that `fatal` is.
pub open spec fn category_of(fatal: Fatal) -> Category {
    match fatal {
        Fatal::Usage => Category::Usage,
        Fatal::BadUrl => Category::Configuration,
        Fatal::KeyUnreadable => Category::Configuration,
        Fatal::LogUnopenable => Category::Io,
        Fatal::ReadFailed => Category::Io,
        Fatal::InvalidText => Category::Format,
        Fatal::UploadFailed => Category::Transport,
        Fatal::WatchSetup => Category::Watch,
        Fatal::WatchFailed => Category::Watch,
        Fatal::LogRemoved => Category::Removal,
    }
}

/// The exit status of each kind of failure. No two kinds have the same.
pub open spec fn category_code(category: Category) -> u8 {
    match category {
        Category::Usage => EXIT_USAGE,
        Category::Configuration => EXIT_CONFIGURATION,
        Category::Io => EXIT_IO,
        Category::Format => EXIT_FORMAT,
        Category::Transport => EXIT_TRANSPORT,
        Category::Watch => EXIT_WATCH,
        Category::Removal => EXIT_REMOVAL,
    }
}

/// The exit status that goes with each failure: that of its kind.
///
/// Failures of one kind share a status, and only they do. An unusable base URL and an
/// unreadable key file are both faults of the configuration; a log that cannot be
/// opened and a read of it that fails are both faults of input and output; a watcher
/// that cannot be set up and one that reports an error are both faults of the file
/// watching service. Every other failure is the only one of its kind.
pub open spec fn exit_code(fatal: Fatal) -> u8 {
    category_code(category_of(fatal))
}

/// The kind of failure that `fatal` is.
pub fn category(fatal: Fatal) -> (kind: Category)
    ensures
        kind == category_of(fatal),
{
    match fatal {
        Fatal::Usage => Category::Usage,
        Fatal::BadUrl | Fatal::KeyUnreadable => Category::Configuration,
        Fatal::LogUnopenable | Fatal::ReadFailed => Category::Io,
        Fatal::InvalidText => Category::Format,
        Fatal::UploadFailed => Category::Transport,
        Fatal::WatchSetup | Fatal::WatchFailed => Category::Watch,
        Fatal::LogRemoved => Category::Removal,
    }
}

/// The status with which the process exits after `fatal`.
pub fn exit_status(fatal: Fatal) -> (code: u8)
    ensures
        code == exit_code(fatal),
{
    match category(fatal) {
        Category::Usage => EXIT_USAGE,
        Category::Configuration => EXIT_CONFIGURATION,
        Category::Io => EXIT_IO,
        Category::Format => EXIT_FORMAT,
        Category::Transport => EXIT_TRANSPORT,
        Category::Watch => EXIT_WATCH,
        Category::Removal => EXIT_REMOVAL,
    }
}

/// The status tells the kind of failure: two failures exit with the same status exactly
/// when they are of one kind. No failure exits with 0.
pub proof fn status_tells_the_category(a: Fatal, b: Fatal)
    ensures
        exit_code(a) == exit_code(b) <==> category_of(a) == category_of(b),
        exit_code(a) != 0,
{
}

/// The removal of the log has a status of its own: no other failure exits with it.
pub proof fn removal_has_its_own_status(other: Fatal)
    requires
        other != Fatal::LogRemoved,
    ensures
        exit_code(other) != exit_code(Fatal::LogRemoved),
        exit_code(Fatal::LogRemoved) == EXIT_REMOVAL,
{
}

} // verus!
