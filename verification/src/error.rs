//! What can go wrong with a listing.

use vstd::prelude::*;
use vstd::string::*;

verus! {

/// Why a listing could not be made or shown. Attributes of a single entry
/// that cannot be read are no error: stand-ins take their place.
#[derive(Clone, Copy, Debug, PartialEq, Eq, Structural)]
pub enum Error {
    /// The path given leads to a file, not to a directory.
    InvalidInput,
    /// The width of the terminal is not known.
    TerminalSize,
    /// The entries of the directory could not be read at all.
    DirectoryRead,
    /// Reading the entries of the directory broke off at one of them.
    EntryRead,
    /// The lines for the hidden folders were asked of a listing that was
    /// made without them, so that the directory itself has no line.
    MissingCurrentDir,
    /// The output did not take what was written to it.
    Output,
}

/// The words for an error.
pub open spec fn message_text(e: Error) -> Seq<char> {
    match e {
        Error::InvalidInput => "The given argument is a file and not a directory"@,
        Error::TerminalSize => "Cannot get the terminal window size"@,
        Error::DirectoryRead => "Cannot read the items in the directory"@,
        Error::EntryRead => "Cannot read the item in the directory"@,
        Error::MissingCurrentDir => "Cannot reference current directory object"@,
        Error::Output => "Cannot print the output in stdout"@,
    }
}

impl Error {
    /// The error in words.
    pub fn message(&self) -> (s: String)
        ensures
            s@ == message_text(*self),
    {
        match self {
            Error::InvalidInput => String::from_str(
                "The given argument is a file and not a directory",
            ),
            Error::TerminalSize => String::from_str("Cannot get the terminal window size"),
            Error::DirectoryRead => String::from_str("Cannot read the items in the directory"),
            Error::EntryRead => String::from_str("Cannot read the item in the directory"),
            Error::MissingCurrentDir => String::from_str(
                "Cannot reference current directory object",
            ),
            Error::Output => String::from_str("Cannot print the output in stdout"),
        }
    }
}

} // verus!
