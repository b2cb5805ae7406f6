//! A folder of a listing.

use crate::file::{or_empty, permissions_of, probe_name, text_or_empty};
use crate::text::text_of;
use crate::nameset::{Entry, Named};
use crate::order::{
    lemma_opt_text_rank, lemma_rank_of, opt_number_rank, opt_text_rank, rank, rank_of,
    rank_opt_counts, rank_opt_texts, tie_break, whole_count, Rank,
};
use crate::probe::Probe;
use crate::support::{
    blank_permissions, civil_of, created_stamp, get_created_time, get_file_name,
    parse_permissions, placeholder_permissions, time_text,
};
use vstd::prelude::*;
use vstd::string::*;

verus! {

/// A folder as a listing shows it. All fields but the name are there only
/// where the details were asked for.
#[derive(Clone, Debug, PartialEq, Eq)]
pub struct Folder {
    /// The name, a leading dot included.
    pub name: String,
    /// The permission string.
    pub permissions: Option<String>,
    /// How many entries the folder holds.
    pub children: Option<usize>,
    /// When the folder was created, written out.
    pub created_time: Option<String>,
}

/// What a `Folder` holds, as values.
pub struct FolderView {
    pub name: Seq<char>,
    pub permissions: Option<Seq<char>>,
    pub children: Option<usize>,
    pub created_time: Option<Seq<char>>,
}

/// The number of entries to show for a count that may be missing.
pub open spec fn count_of(children: Option<usize>) -> usize {
    match children {
        Some(n) => n,
        None => 0,
    }
}

/// The folder that a probe describes: with the details taken from its
/// attributes and its count of entries, or their stand-ins where those are
/// missing, when `list` is set, and with the name alone when it is not.
pub open spec fn folder_of(probe: Probe, list: bool) -> FolderView {
    if list {
        FolderView {
            name: probe_name(probe),
            permissions: Some(permissions_of(probe.metadata)),
            children: Some(count_of(probe.children)),
            created_time: Some(time_text(civil_of(created_stamp(probe.metadata)))),
        }
    } else {
        FolderView { name: probe_name(probe), permissions: None, children: None, created_time: None }
    }
}

impl Entry for FolderView {
    open spec fn name(self) -> Seq<char> {
        self.name
    }

    /// By the name, then the permissions, the number of entries and the
    /// creation time.
    open spec fn versus(self, other: Self) -> Rank {
        tie_break(
            rank_of(self.name, other.name),
            tie_break(
                opt_text_rank(self.permissions, other.permissions),
                tie_break(
                    opt_number_rank(whole_count(self.children), whole_count(other.children)),
                    opt_text_rank(self.created_time, other.created_time),
                ),
            ),
        )
    }

    proof fn lemma_versus(a: Self, b: Self, c: Self) {
        lemma_rank_of(a.name, b.name, c.name);
        lemma_opt_text_rank(a.permissions, b.permissions, c.permissions);
        lemma_opt_text_rank(a.created_time, b.created_time, c.created_time);
    }
}

impl Named for Folder {
    fn label(&self) -> (n: &str) {
        self.name.as_str()
    }

    fn stands_to(&self, other: &Self) -> (r: Rank) {
        match rank(self.name.as_str(), other.name.as_str()) {
            Rank::Same => {},
            by_name => {
                return by_name;
            },
        }
        match rank_opt_texts(&self.permissions, &other.permissions) {
            Rank::Same => {},
            by_permissions => {
                return by_permissions;
            },
        }
        match rank_opt_counts(self.children, other.children) {
            Rank::Same => {},
            by_children => {
                return by_children;
            },
        }
        rank_opt_texts(&self.created_time, &other.created_time)
    }
}

impl View for Folder {
    type V = FolderView;

    open spec fn view(&self) -> FolderView {
        FolderView {
            name: self.name@,
            permissions: text_of(self.permissions),
            children: self.children,
            created_time: text_of(self.created_time),
        }
    }
}

impl Folder {
    /// A folder with the given fields.
    pub fn new(
        name: String,
        permissions: Option<String>,
        children: Option<usize>,
        created_time: Option<String>,
    ) -> (folder: Folder)
        ensures
            folder.name == name,
            folder.permissions == permissions,
            folder.children == children,
            folder.created_time == created_time,
    {
        Folder { name, permissions, children, created_time }
    }

    /// The folder that `probe` describes. The attributes are looked at only
    /// when `list` is set; where they are missing then, ten dashes stand for
    /// the permissions, 0 for the number of entries and the epoch for the
    /// time.
    pub fn from(probe: &Probe, list: bool) -> (folder: Folder)
        ensures
            folder@ == folder_of(*probe, list),
    {
        let name = match &probe.name {
            Some(n) => get_file_name(Some(n.as_str())),
            None => get_file_name(None),
        };
        if list {
            let permissions = match &probe.metadata {
                Some(m) => parse_permissions(m),
                None => placeholder_permissions(),
            };
            let children = match probe.children {
                Some(n) => n,
                None => 0,
            };
            let created_time = get_created_time(probe.metadata.as_ref());
            Folder {
                name,
                permissions: Some(permissions),
                children: Some(children),
                created_time: Some(created_time),
            }
        } else {
            Folder { name, permissions: None, children: None, created_time: None }
        }
    }

    /// The permission string, ten dashes where there is none.
    pub fn permissions(&self) -> (s: String)
        ensures
            s@ == match self@.permissions {
                Some(p) => p,
                None => blank_permissions(),
            },
    {
        match &self.permissions {
            Some(p) => p.clone(),
            None => placeholder_permissions(),
        }
    }

    /// The number of entries, 0 where there is none.
    pub fn children(&self) -> (n: usize)
        ensures
            n == count_of(self.children),
    {
        match self.children {
            Some(n) => n,
            None => 0,
        }
    }

    /// The creation time, empty where there is none.
    pub fn created_time(&self) -> (s: String)
        ensures
            s@ == or_empty(self@.created_time),
    {
        text_or_empty(&self.created_time)
    }
}

} // verus!
