//! A file of a listing.

use crate::nameset::{Entry, Named};
use crate::order::{
    lemma_opt_text_rank, lemma_rank_of, opt_number_rank, opt_text_rank, rank, rank_of,
    rank_opt_numbers, rank_opt_texts, tie_break, whole, Rank,
};
use crate::probe::{Metadata, Probe};
use crate::support::{
    blank_permissions, civil_of, created_stamp, get_created_time, get_file_name,
    get_modified_time, modified_stamp, parse_permissions, permission_text, placeholder_permissions,
    shown_name, time_text,
};
use crate::text::{decimal, decimal_string, text_of};
use vstd::prelude::*;
use vstd::string::*;

verus! {

/// A file as a listing shows it. All fields but the name are there only
/// where the details were asked for.
#[derive(Clone, Debug, PartialEq, Eq)]
pub struct File {
    /// The name, a leading dot included.
    pub name: String,
    /// The length in bytes.
    pub size: Option<u64>,
    /// The permission string.
    pub permissions: Option<String>,
    /// When the file was created, written out.
    pub created_time: Option<String>,
    /// When the file was last changed, written out.
    pub modified_time: Option<String>,
}

/// What a `File` holds, as values.
pub struct FileView {
    pub name: Seq<char>,
    pub size: Option<u64>,
    pub permissions: Option<Seq<char>>,
    pub created_time: Option<Seq<char>>,
    pub modified_time: Option<Seq<char>>,
}

/// The text itself, or the empty text where there is none.
pub open spec fn or_empty(s: Option<Seq<char>>) -> Seq<char> {
    match s {
        Some(t) => t,
        None => Seq::empty(),
    }
}

/// The permission string to show for attributes that may be missing.
pub open spec fn permissions_of(metadata: Option<Metadata>) -> Seq<char> {
    match metadata {
        Some(m) => permission_text(m.is_dir, m.mode),
        None => blank_permissions(),
    }
}

/// The length to show for attributes that may be missing.
pub open spec fn len_of(metadata: Option<Metadata>) -> u64 {
    match metadata {
        Some(m) => m.len,
        None => 0,
    }
}

/// The name of a probe as values.
pub open spec fn probe_name(probe: Probe) -> Seq<char> {
    shown_name(text_of(probe.name))
}

/// The file that a probe describes: with the details taken from its
/// attributes, or their stand-ins where those are missing, when `list` is
/// set, and with the name alone when it is not.
pub open spec fn file_of(probe: Probe, list: bool) -> FileView {
    if list {
        FileView {
            name: probe_name(probe),
            size: Some(len_of(probe.metadata)),
            permissions: Some(permissions_of(probe.metadata)),
            created_time: Some(time_text(civil_of(created_stamp(probe.metadata)))),
            modified_time: Some(time_text(civil_of(modified_stamp(probe.metadata)))),
        }
    } else {
        FileView {
            name: probe_name(probe),
            size: None,
            permissions: None,
            created_time: None,
            modified_time: None,
        }
    }
}

/// How often a size is divided by 1024 before it is shown: until it is
/// below 1024, and at most five times.
pub open spec fn size_unit(n: nat) -> nat {
    if n < 1024 {
        0
    } else if n < 1_048_576 {
        1
    } else if n < 1_073_741_824 {
        2
    } else if n < 1_099_511_627_776 {
        3
    } else if n < 1_125_899_906_842_624 {
        4
    } else {
        5
    }
}

/// The number of bytes in one unit: 1024 to the power of `unit`.
pub open spec fn unit_bytes(unit: nat) -> nat {
    if unit == 0 {
        1
    } else if unit == 1 {
        1024
    } else if unit == 2 {
        1_048_576
    } else if unit == 3 {
        1_073_741_824
    } else if unit == 4 {
        1_099_511_627_776
    } else {
        1_125_899_906_842_624
    }
}

/// The letter of a unit, from bytes up.
pub open spec fn unit_mark(unit: nat) -> char {
    if unit == 0 {
        'b'
    } else if unit == 1 {
        'k'
    } else if unit == 2 {
        'm'
    } else if unit == 3 {
        'g'
    } else if unit == 4 {
        't'
    } else {
        'p'
    }
}

/// A size in the largest unit that leaves at least 1, cut down to a whole
/// number, with the unit's letter behind it.
pub open spec fn size_text(n: nat) -> Seq<char> {
    decimal(n / unit_bytes(size_unit(n))).push(unit_mark(size_unit(n)))
}

impl Entry for FileView {
    open spec fn name(self) -> Seq<char> {
        self.name
    }

    /// By the name, then the size, the permissions, the creation time and
    /// the modification time.
    open spec fn versus(self, other: Self) -> Rank {
        tie_break(
            rank_of(self.name, other.name),
            tie_break(
                opt_number_rank(whole(self.size), whole(other.size)),
                tie_break(
                    opt_text_rank(self.permissions, other.permissions),
                    tie_break(
                        opt_text_rank(self.created_time, other.created_time),
                        opt_text_rank(self.modified_time, other.modified_time),
                    ),
                ),
            ),
        )
    }

    proof fn lemma_versus(a: Self, b: Self, c: Self) {
        lemma_rank_of(a.name, b.name, c.name);
        lemma_opt_text_rank(a.permissions, b.permissions, c.permissions);
        lemma_opt_text_rank(a.created_time, b.created_time, c.created_time);
        lemma_opt_text_rank(a.modified_time, b.modified_time, c.modified_time);
    }
}

impl Named for File {
    fn label(&self) -> (n: &str) {
        self.name.as_str()
    }

    fn stands_to(&self, other: &Self) -> (r: Rank) {
        match rank(self.name.as_str(), other.name.as_str()) {
            Rank::Same => {},
            by_name => {
                return by_name;
            },
        }
        match rank_opt_numbers(self.size, other.size) {
            Rank::Same => {},
            by_size => {
                return by_size;
            },
        }
        match rank_opt_texts(&self.permissions, &other.permissions) {
            Rank::Same => {},
            by_permissions => {
                return by_permissions;
            },
        }
        match rank_opt_texts(&self.created_time, &other.created_time) {
            Rank::Same => {},
            by_created => {
                return by_created;
            },
        }
        rank_opt_texts(&self.modified_time, &other.modified_time)
    }
}

impl View for File {
    type V = FileView;

    open spec fn view(&self) -> FileView {
        FileView {
            name: self.name@,
            size: self.size,
            permissions: text_of(self.permissions),
            created_time: text_of(self.created_time),
            modified_time: text_of(self.modified_time),
        }
    }
}

/// A copy of a text that may be absent, the empty text in its place.
pub fn text_or_empty(s: &Option<String>) -> (r: String)
    ensures
        r@ == or_empty(text_of(*s)),
{
    match s {
        Some(t) => t.clone(),
        None => String::new(),
    }
}

/// The letter of a unit.
fn unit_letter(unit: usize) -> (r: &'static str)
    ensures
        r@ == seq![unit_mark(unit as nat)],
{
    proof {
        reveal_strlit("b");
        reveal_strlit("k");
        reveal_strlit("m");
        reveal_strlit("g");
        reveal_strlit("t");
        reveal_strlit("p");
    }
    match unit {
        0 => "b",
        1 => "k",
        2 => "m",
        3 => "g",
        4 => "t",
        _ => "p",
    }
}

impl File {
    /// A file with the given fields.
    pub fn new(
        name: String,
        size: Option<u64>,
        permissions: Option<String>,
        created_time: Option<String>,
        modified_time: Option<String>,
    ) -> (file: File)
        ensures
            file.name == name,
            file.size == size,
            file.permissions == permissions,
            file.created_time == created_time,
            file.modified_time == modified_time,
    {
        File { name, size, permissions, created_time, modified_time }
    }

    /// The file that `probe` describes. The attributes are looked at only
    /// when `list` is set; where they are missing then, ten dashes stand for
    /// the permissions, 0 for the size and the epoch for the times.
    pub fn from(probe: &Probe, list: bool) -> (file: File)
        ensures
            file@ == file_of(*probe, list),
    {
        let name = match &probe.name {
            Some(n) => get_file_name(Some(n.as_str())),
            None => get_file_name(None),
        };
        if list {
            let permissions = match &probe.metadata {
                Some(m) => parse_permissions(m),
                None => placeholder_permissions(),
            };
            let size = match &probe.metadata {
                Some(m) => m.len,
                None => 0,
            };
            let created_time = get_created_time(probe.metadata.as_ref());
            let modified_time = get_modified_time(probe.metadata.as_ref());
            File {
                name,
                size: Some(size),
                permissions: Some(permissions),
                created_time: Some(created_time),
                modified_time: Some(modified_time),
            }
        } else {
            File { name, size: None, permissions: None, created_time: None, modified_time: None }
        }
    }

    /// The permission string, empty where there is none.
    pub fn permissions(&self) -> (s: String)
        ensures
            s@ == or_empty(self@.permissions),
    {
        text_or_empty(&self.permissions)
    }

    /// The length in bytes, 0 where there is none.
    pub fn size(&self) -> (n: u64)
        ensures
            n == match self.size {
                Some(size) => size,
                None => 0,
            },
    {
        match self.size {
            Some(size) => size,
            None => 0,
        }
    }

    /// The creation time, empty where there is none.
    pub fn created_time(&self) -> (s: String)
        ensures
            s@ == or_empty(self@.created_time),
    {
        text_or_empty(&self.created_time)
    }

    /// The size in a form that is short to read: a whole number and the
    /// letter of the unit, from `b` for bytes up to `p`.
    pub fn formatted_size(&self) -> (s: String)
        ensures
            s@ == size_text(
                match self.size {
                    Some(size) => size as nat,
                    None => 0,
                },
            ),
    {
        let size = self.size();
        let mut new_size = size;
        let mut post: usize = 0;
        while new_size >= 1024 && post < 5
            invariant
                post <= 5,
                new_size == size as nat / unit_bytes(post as nat),
                size >= unit_bytes(post as nat) || post == 0,
                post as nat <= size_unit(size as nat),
            decreases 5 - post,
        {
            new_size = new_size / 1024;
            post = post + 1;
        }
        let mut s = decimal_string(new_size);
        s.append(unit_letter(post));
        s
    }

    /// The modification time, empty where there is none.
    pub fn modified_time(&self) -> (s: String)
        ensures
            s@ == or_empty(self@.modified_time),
    {
        text_or_empty(&self.modified_time)
    }
}

} // verus!
