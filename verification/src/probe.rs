//! What one look at the file system gave, as plain values. Nothing here
//! touches the disk: whoever reads the directory fills these in.

use vstd::prelude::*;

verus! {

/// What a path was found to lead to.
#[derive(Clone, Copy, Debug, PartialEq, Eq, Structural)]
pub enum EntryKind {
    /// A regular file.
    File,
    /// A directory.
    Folder,
    /// Neither: a link that leads nowhere, a socket or a device, or a path
    /// of which not even that much could be found out.
    Other,
}

/// A moment as a system clock tells it: by the time that lies between it and
/// the start of 1970 in UTC.
#[derive(Clone, Copy, Debug, PartialEq, Eq)]
pub struct Moment {
    /// The moment lies before the start of 1970.
    pub before_epoch: bool,
    /// The whole seconds of the time between.
    pub secs: u64,
    /// What is left of the time between, in nanoseconds.
    pub nanos: u32,
}

/// The attributes of a path that the listing shows.
#[derive(Clone, Copy, Debug, PartialEq, Eq)]
pub struct Metadata {
    /// The attributes are those of a directory.
    pub is_dir: bool,
    /// The Unix mode bits.
    pub mode: u32,
    /// The length in bytes.
    pub len: u64,
    /// When it was created; `None` where the platform cannot tell.
    pub created: Option<Moment>,
    /// When it was last changed; `None` where the platform cannot tell.
    pub modified: Option<Moment>,
}

/// One path as it was found.
#[derive(Clone, Debug, PartialEq, Eq)]
pub struct Probe {
    /// The last component of the path, where it has one that is valid
    /// Unicode.
    pub name: Option<String>,
    /// What the path leads to.
    pub kind: EntryKind,
    /// Its attributes, `None` where they could not be read.
    pub metadata: Option<Metadata>,
    /// How many entries it holds, `None` where it could not be read as a
    /// directory.
    pub children: Option<usize>,
}

/// One level of a directory as it was read.
#[derive(Clone, Debug, PartialEq, Eq)]
pub struct Scan {
    /// The directory itself.
    pub root: Probe,
    /// Its parent, `None` for a directory that has none.
    pub parent: Option<Probe>,
    /// Its entries in the order in which they were read.
    pub entries: Listing,
}

/// How the read of a directory's entries ended.
#[derive(Clone, Debug, PartialEq, Eq)]
pub enum Listing {
    /// The directory could not be opened for reading.
    Unreadable,
    /// The directory was opened, but reading one of its entries failed.
    Interrupted,
    /// Every entry was read.
    Complete(Vec<Probe>),
}

} // verus!
