//! The failures that an operation on a profile can report.

use vstd::prelude::*;
use vstd::string::StringExecFns;
use crate::text::{decimal, decimal_string};

verus! {

/// Why an operation did not go through.
#[derive(Debug, Clone, PartialEq, Eq)]
pub enum Error {
    /// A confirmation was asked for and declined.
    UserAborted,
    /// No profile file at this path.
    NotFound(String),
    /// The path of the profile exists and is no file.
    NotAFile(String),
    /// The text of the profile at this path could not be read as a profile.
    MalformedProfile(String),
    /// The stored bytes could not be decrypted.
    DecryptionError,
    /// The stored bytes are no UTF-8 text.
    InvalidEncoding,
    /// The profile holds no note with this id.
    NoteNotFound(usize),
    /// An argument that no operation can work on; the text says which.
    InvalidArgument(String),
    /// The note with this id was copied, and then could not be removed from
    /// the profile it came from.
    TransferIncomplete(usize),
    /// A search pattern that does not compile; the text is the pattern.
    InvalidPattern(String),
    /// A note's time of last change that cannot be read; the text is what
    /// was found.
    InvalidTimestamp(String),
    /// A failure of the file system, with what is known of it.
    IoError(String),
}

/// An `Error` with each text taken as the sequence of its characters.
pub enum ErrorView {
    UserAborted,
    NotFound(Seq<char>),
    NotAFile(Seq<char>),
    MalformedProfile(Seq<char>),
    DecryptionError,
    InvalidEncoding,
    NoteNotFound(usize),
    InvalidArgument(Seq<char>),
    TransferIncomplete(usize),
    InvalidPattern(Seq<char>),
    InvalidTimestamp(Seq<char>),
    IoError(Seq<char>),
}

impl View for Error {
    type V = ErrorView;

    open spec fn view(&self) -> ErrorView {
        match self {
            Error::UserAborted => ErrorView::UserAborted,
            Error::NotFound(path) => ErrorView::NotFound(path@),
            Error::NotAFile(path) => ErrorView::NotAFile(path@),
            Error::MalformedProfile(path) => ErrorView::MalformedProfile(path@),
            Error::DecryptionError => ErrorView::DecryptionError,
            Error::InvalidEncoding => ErrorView::InvalidEncoding,
            Error::NoteNotFound(id) => ErrorView::NoteNotFound(*id),
            Error::InvalidArgument(what) => ErrorView::InvalidArgument(what@),
            Error::TransferIncomplete(id) => ErrorView::TransferIncomplete(*id),
            Error::InvalidPattern(pattern) => ErrorView::InvalidPattern(pattern@),
            Error::InvalidTimestamp(found) => ErrorView::InvalidTimestamp(found@),
            Error::IoError(what) => ErrorView::IoError(what@),
        }
    }
}

impl Error {
    /// The sentence that `message` returns.
    pub open spec fn text(self) -> Seq<char> {
        match self {
            Error::UserAborted => "ok bye"@,
            Error::NotFound(path) => path@ + " does not exist."@,
            Error::NotAFile(path) => path@ + " is not a file."@,
            Error::MalformedProfile(path) => "invalid JSON in "@ + path@,
            Error::DecryptionError => "the profile could not be decrypted"@,
            Error::InvalidEncoding => "the profile is not valid UTF-8"@,
            Error::NoteNotFound(id) => "note "@ + decimal(id as nat) + " doesn't exist"@,
            Error::InvalidArgument(what) => what@,
            Error::TransferIncomplete(id) => "couldn't remove note "@ + decimal(id as nat)
                + " after it was copied"@,
            Error::InvalidPattern(pattern) => "regex error: "@ + pattern@,
            Error::InvalidTimestamp(found) => "last_touched is not properly formated: "@ + found@,
            Error::IoError(what) => what@,
        }
    }

    /// A sentence for the user.
    pub fn message(&self) -> (r: String)
        ensures
            r@ == self.text(),
    {
        match self {
            Error::UserAborted => "ok bye".to_owned(),
            Error::NotFound(path) => {
                let mut out = path.clone();
                out.append(" does not exist.");
                out
            },
            Error::NotAFile(path) => {
                let mut out = path.clone();
                out.append(" is not a file.");
                out
            },
            Error::MalformedProfile(path) => {
                let mut out = "invalid JSON in ".to_owned();
                out.append(path.as_str());
                out
            },
            Error::DecryptionError => "the profile could not be decrypted".to_owned(),
            Error::InvalidEncoding => "the profile is not valid UTF-8".to_owned(),
            Error::NoteNotFound(id) => {
                let mut out = "note ".to_owned();
                out.append(decimal_string(*id).as_str());
                out.append(" doesn't exist");
                out
            },
            Error::InvalidArgument(what) => what.clone(),
            Error::TransferIncomplete(id) => {
                let mut out = "couldn't remove note ".to_owned();
                out.append(decimal_string(*id).as_str());
                out.append(" after it was copied");
                out
            },
            Error::InvalidPattern(pattern) => {
                let mut out = "regex error: ".to_owned();
                out.append(pattern.as_str());
                out
            },
            Error::InvalidTimestamp(found) => {
                let mut out = "last_touched is not properly formated: ".to_owned();
                out.append(found.as_str());
                out
            },
            Error::IoError(what) => what.clone(),
        }
    }
}

} // verus!
