//! What was asked for on the command line, and the listing that answers it.

use crate::dir::Directory;
use crate::error::Error;
use crate::page::page;
use crate::probe::{Listing, Scan};
use crate::snapshot::{is_folder, lists_as_folder, snapshot};
use crate::style::ansi_theme;
use crate::text::views;
use vstd::prelude::*;

verus! {

/// The arguments of one call.
#[derive(Clone, Debug)]
pub struct Cli {
    /// The path to list; the current directory where none is given.
    pub path: Option<String>,
    /// Show all entries, those with hidden names included.
    pub all: bool,
    /// Show one detailed line for each entry.
    pub list: bool,
}

/// The width of the terminal out of its dimensions, columns first, as far
/// as they are known.
pub fn terminal_width(dimensions: Option<(usize, usize)>) -> (r: Result<usize, Error>)
    ensures
        match dimensions {
            Some(size) => r == Ok::<usize, Error>(size.0),
            None => r == Err::<usize, Error>(Error::TerminalSize),
        },
{
    match dimensions {
        Some((width, _)) => Ok(width),
        None => Err(Error::TerminalSize),
    }
}

impl Cli {
    /// The listing of the directory that `scan` was read from, as these
    /// arguments ask for it, in pieces to write one after another on a
    /// terminal `width` columns wide.
    ///
    /// Fails with `InvalidInput` when the path does not lead to a directory,
    /// and else when the entries of the directory could not be read. It
    /// fails in no other case: a snapshot made with the same arguments that
    /// it is shown with never lacks the directory itself.
    pub fn run(&self, scan: &Scan, width: usize) -> (r: Result<Vec<String>, Error>)
        requires
            scan.fits(),
        ensures
            if !is_folder(scan.root.kind) {
                r matches Err(e) && e == Error::InvalidInput
            } else {
                match scan.entries {
                    Listing::Complete(probes) => r matches Ok(pieces) && views(pieces@) == page(
                        snapshot(scan.root, scan.parent, probes@, self.all, self.list),
                        ansi_theme(),
                        width as int,
                        self.all,
                        self.list,
                    ),
                    Listing::Interrupted => r matches Err(e) && e == Error::EntryRead,
                    Listing::Unreadable => r matches Err(e) && e == Error::DirectoryRead,
                }
            },
    {
        if !lists_as_folder(scan.root.kind) {
            return Err(Error::InvalidInput);
        }
        let directory = match Directory::from(scan, self.all, self.list) {
            Ok(directory) => directory,
            Err(e) => {
                return Err(e);
            },
        };
        directory.display_output(width, self.all, self.list)
    }
}

} // verus!
