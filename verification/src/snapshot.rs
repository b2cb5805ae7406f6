//! What a snapshot of a directory holds, as values, and how it follows from
//! the entries that were read.

use crate::file::{file_of, probe_name, FileView};
use crate::folder::{folder_of, FolderView};
use crate::nameset::{ascending, has_name, lemma_put, put, Entry};
use crate::probe::{EntryKind, Listing, Probe, Scan};
use crate::support::{get_file_name, shown_name};
use crate::style::Category;
use crate::text::{byte_len, name_len};
use vstd::prelude::*;
use vstd::string::*;

verus! {

/// A name is hidden when it begins with a dot.
pub open spec fn is_hidden(name: Seq<char>) -> bool {
    name.len() > 0 && name[0] == '.'
}

/// The entry is taken into the listing: every entry when hidden ones are
/// shown, else those whose name is not hidden.
pub open spec fn listed(probe: Probe, hidden: bool) -> bool {
    hidden || !is_hidden(probe_name(probe))
}

/// What was found is listed among the folders: a directory is, and nothing
/// else. A file, and whatever is neither, is listed among the files.
pub open spec fn is_folder(kind: EntryKind) -> bool {
    kind == EntryKind::Folder
}

/// The kind an entry is listed under: folder or file, by what the path leads
/// to, and hidden or visible, by its name.
pub open spec fn category(probe: Probe) -> Category {
    if is_folder(probe.kind) {
        if is_hidden(probe_name(probe)) {
            Category::HiddenFolder
        } else {
            Category::VisibleFolder
        }
    } else {
        if is_hidden(probe_name(probe)) {
            Category::HiddenFile
        } else {
            Category::VisibleFile
        }
    }
}

/// The entry is taken into the set of the kind `which`.
pub open spec fn chosen(probe: Probe, which: Category, hidden: bool) -> bool {
    listed(probe, hidden) && category(probe) == which
}

/// The set of the entries of one kind: each chosen entry of `probes`, made
/// into a value by `make`, is added in turn.
pub open spec fn gather<A: Entry>(
    probes: Seq<Probe>,
    which: Category,
    hidden: bool,
    make: spec_fn(Probe) -> A,
) -> Seq<A>
    decreases probes.len(),
{
    if probes.len() == 0 {
        Seq::empty()
    } else if chosen(probes.last(), which, hidden) {
        put(gather(probes.drop_last(), which, hidden, make), make(probes.last()))
    } else {
        gather(probes.drop_last(), which, hidden, make)
    }
}

/// The width kept free for names before any entry is seen: room for the two
/// dots of the parent when hidden entries are shown.
pub open spec fn reserve(hidden: bool) -> nat {
    if hidden {
        2
    } else {
        0
    }
}

/// The length in bytes of the longest name among the entries taken into the
/// listing, and no less than the reserve.
pub open spec fn widest(probes: Seq<Probe>, hidden: bool) -> nat
    decreases probes.len(),
{
    if probes.len() == 0 {
        reserve(hidden)
    } else {
        let before = widest(probes.drop_last(), hidden);
        let len = byte_len(probe_name(probes.last()));
        if listed(probes.last(), hidden) && len > before {
            len
        } else {
            before
        }
    }
}

/// Builds a file with or without its details.
pub open spec fn file_maker(list: bool) -> spec_fn(Probe) -> FileView {
    |p: Probe| file_of(p, list)
}

/// Builds a folder with or without its details.
pub open spec fn folder_maker(list: bool) -> spec_fn(Probe) -> FolderView {
    |p: Probe| folder_of(p, list)
}

/// What a snapshot holds.
pub struct DirectoryView {
    /// The directory itself, when hidden entries are shown.
    pub cur_dir: Option<FolderView>,
    /// Its parent, when hidden entries are shown; the directory itself once
    /// more where it has no parent.
    pub parent_dir: Option<FolderView>,
    /// The directory has a parent, so that `parent_dir` is no second
    /// description of the directory itself.
    pub has_parent: bool,
    /// The folders whose names are not hidden, in the order of a set.
    pub folders: Seq<FolderView>,
    /// The folders whose names are hidden, in the order of a set.
    pub hidden_folders: Seq<FolderView>,
    /// The files whose names are not hidden, in the order of a set.
    pub files: Seq<FileView>,
    /// The files whose names are hidden, in the order of a set.
    pub hidden_files: Seq<FileView>,
    /// The length in bytes that every name fits in.
    pub largest_name: nat,
}

/// The entries of one set are in order: they rise strictly, their names are
/// all hidden or all not, and each name takes at most `largest` bytes.
pub open spec fn tidy<A: Entry>(s: Seq<A>, hidden: bool, largest: nat) -> bool {
    &&& ascending(s)
    &&& forall|i: int|
        0 <= i < s.len() ==> is_hidden(#[trigger] s[i].name()) == hidden && byte_len(s[i].name())
            <= largest
}

impl DirectoryView {
    /// The snapshot is in order: each of its four sets is, the pseudo-entries
    /// are both there or both absent, and a cell as wide as the longest name
    /// with its padding can be counted.
    pub open spec fn wf(self) -> bool {
        &&& tidy(self.folders, false, self.largest_name)
        &&& tidy(self.hidden_folders, true, self.largest_name)
        &&& tidy(self.files, false, self.largest_name)
        &&& tidy(self.hidden_files, true, self.largest_name)
        &&& self.cur_dir is Some <==> self.parent_dir is Some
        &&& self.largest_name + 8 <= usize::MAX
    }

    /// The set of the kind `which` holds an entry of the name `n`.
    pub open spec fn holds(self, which: Category, n: Seq<char>) -> bool {
        match which {
            Category::HiddenFolder => has_name(self.hidden_folders, n),
            Category::VisibleFolder => has_name(self.folders, n),
            Category::HiddenFile => has_name(self.hidden_files, n),
            Category::VisibleFile => has_name(self.files, n),
        }
    }

    /// The snapshot holds folders, hidden or not.
    pub open spec fn has_folders(self) -> bool {
        self.hidden_folders.len() > 0 || self.folders.len() > 0
    }

    /// The snapshot holds files, hidden or not.
    pub open spec fn has_files(self) -> bool {
        self.hidden_files.len() > 0 || self.files.len() > 0
    }
}

/// The folder that stands for the parent: made from the parent where the
/// directory has one, else from the directory itself.
pub open spec fn parent_or_root(root: Probe, parent: Option<Probe>) -> Probe {
    match parent {
        Some(p) => p,
        None => root,
    }
}

/// The snapshot of a directory whose entries were read as `probes`.
///
/// Entries with a hidden name are left out unless `hidden` is set. Every
/// other entry goes into one of the four sets, by its kind and its name.
/// Each set is in the order of the names, entries of one name in the order
/// of what else they hold; of entries equal in everything one is kept.
/// With `hidden` set the snapshot also holds the directory itself and its
/// parent, and in place of a parent that is not there the directory itself
/// once more. The details of each entry are there when `list` is set.
pub open spec fn snapshot(
    root: Probe,
    parent: Option<Probe>,
    probes: Seq<Probe>,
    hidden: bool,
    list: bool,
) -> DirectoryView {
    DirectoryView {
        cur_dir: if hidden {
            Some(folder_of(root, list))
        } else {
            None
        },
        parent_dir: if hidden {
            Some(folder_of(parent_or_root(root, parent), list))
        } else {
            None
        },
        has_parent: parent is Some,
        folders: gather(probes, Category::VisibleFolder, hidden, folder_maker(list)),
        hidden_folders: gather(probes, Category::HiddenFolder, hidden, folder_maker(list)),
        files: gather(probes, Category::VisibleFile, hidden, file_maker(list)),
        hidden_files: gather(probes, Category::HiddenFile, hidden, file_maker(list)),
        largest_name: widest(probes, hidden),
    }
}

/// Every name among `probes` is short enough that a cell for it, with its
/// padding, can be counted in `usize`.
pub open spec fn names_fit(probes: Seq<Probe>) -> bool {
    forall|i: int| 0 <= i < probes.len() ==> byte_len(probe_name(#[trigger] probes[i])) + 8 <= usize::MAX
}

/// `make` gives each entry the name of its probe.
pub open spec fn keeps_names<A: Entry>(make: spec_fn(Probe) -> A) -> bool {
    forall|p: Probe| (#[trigger] make(p)).name() == probe_name(p)
}

/// No listed name is longer than the widest, which is the reserve or the
/// length of a listed name.
pub proof fn lemma_widest(probes: Seq<Probe>, hidden: bool)
    ensures
        reserve(hidden) <= widest(probes, hidden),
        forall|i: int|
            0 <= i < probes.len() && listed(#[trigger] probes[i], hidden) ==> byte_len(
                probe_name(probes[i]),
            ) <= widest(probes, hidden),
        widest(probes, hidden) == reserve(hidden) || exists|i: int|
            0 <= i < probes.len() && listed(#[trigger] probes[i], hidden) && byte_len(
                probe_name(probes[i]),
            ) == widest(probes, hidden),
    decreases probes.len(),
{
    if probes.len() > 0 {
        let before = probes.drop_last();
        lemma_widest(before, hidden);
        assert forall|i: int|
            0 <= i < probes.len() && listed(#[trigger] probes[i], hidden) implies byte_len(
            probe_name(probes[i]),
        ) <= widest(probes, hidden) by {
            if i < before.len() {
                assert(before[i] == probes[i]);
            }
        }
        let last = probes.len() - 1;
        if widest(probes, hidden) != reserve(hidden) {
            if widest(probes, hidden) == widest(before, hidden) {
                let i = choose|i: int|
                    0 <= i < before.len() && listed(#[trigger] before[i], hidden) && byte_len(
                        probe_name(before[i]),
                    ) == widest(before, hidden);
                assert(before[i] == probes[i]);
            } else {
                assert(listed(probes[last], hidden));
            }
        }
    }
}

/// Some chosen entry of `probes` goes by the name `n`.
pub open spec fn chosen_by_name(probes: Seq<Probe>, which: Category, hidden: bool, n: Seq<char>) -> bool {
    exists|j: int|
        0 <= j < probes.len() && chosen(#[trigger] probes[j], which, hidden) && probe_name(
            probes[j],
        ) == n
}

/// `x` was made from a chosen entry of `probes`.
pub open spec fn made_of_chosen<A>(
    probes: Seq<Probe>,
    which: Category,
    hidden: bool,
    make: spec_fn(Probe) -> A,
    x: A,
) -> bool {
    exists|j: int|
        0 <= j < probes.len() && chosen(#[trigger] probes[j], which, hidden) && x == make(
            probes[j],
        )
}

/// A name is chosen from a row when it is chosen from all but the last
/// entry, or the last entry is chosen and goes by it.
proof fn lemma_chosen_by_name_step(probes: Seq<Probe>, which: Category, hidden: bool, n: Seq<char>)
    requires
        probes.len() > 0,
    ensures
        chosen_by_name(probes, which, hidden, n) <==> chosen_by_name(
            probes.drop_last(),
            which,
            hidden,
            n,
        ) || (chosen(probes.last(), which, hidden) && probe_name(probes.last()) == n),
{
    let before = probes.drop_last();
    if chosen_by_name(before, which, hidden, n) {
        let j = choose|j: int|
            0 <= j < before.len() && chosen(#[trigger] before[j], which, hidden) && probe_name(
                before[j],
            ) == n;
        assert(probes[j] == before[j]);
    }
    if chosen_by_name(probes, which, hidden, n) {
        let j = choose|j: int|
            0 <= j < probes.len() && chosen(#[trigger] probes[j], which, hidden) && probe_name(
                probes[j],
            ) == n;
        if j < before.len() {
            assert(before[j] == probes[j]);
        }
    }
}

/// An entry was made from a chosen entry of a row when it was made from one
/// of all but the last, or from the last and that is chosen.
proof fn lemma_made_of_chosen_step<A>(
    probes: Seq<Probe>,
    which: Category,
    hidden: bool,
    make: spec_fn(Probe) -> A,
    x: A,
)
    requires
        probes.len() > 0,
    ensures
        made_of_chosen(probes, which, hidden, make, x) <==> made_of_chosen(
            probes.drop_last(),
            which,
            hidden,
            make,
            x,
        ) || (chosen(probes.last(), which, hidden) && x == make(probes.last())),
{
    let before = probes.drop_last();
    if made_of_chosen(before, which, hidden, make, x) {
        let j = choose|j: int|
            0 <= j < before.len() && chosen(#[trigger] before[j], which, hidden) && x == make(
                before[j],
            );
        assert(probes[j] == before[j]);
    }
    if made_of_chosen(probes, which, hidden, make, x) {
        let j = choose|j: int|
            0 <= j < probes.len() && chosen(#[trigger] probes[j], which, hidden) && x == make(
                probes[j],
            );
        if j < before.len() {
            assert(before[j] == probes[j]);
        }
    }
}

/// What a set gathers. Its entries rise strictly, so none occurs twice; an
/// entry is in it exactly when it was made from a chosen entry that was
/// read; and a name is in it exactly when a chosen entry has that name.
pub proof fn lemma_gather<A: Entry>(
    probes: Seq<Probe>,
    which: Category,
    hidden: bool,
    make: spec_fn(Probe) -> A,
)
    requires
        keeps_names(make),
    ensures
        ascending(gather(probes, which, hidden, make)),
        forall|x: A|
            gather(probes, which, hidden, make).contains(x) <==> made_of_chosen(
                probes,
                which,
                hidden,
                make,
                x,
            ),
        forall|n: Seq<char>|
            has_name(gather(probes, which, hidden, make), n) <==> chosen_by_name(
                probes,
                which,
                hidden,
                n,
            ),
    decreases probes.len(),
{
    let g = gather(probes, which, hidden, make);
    if probes.len() > 0 {
        let before = probes.drop_last();
        let b = gather(before, which, hidden, make);
        lemma_gather(before, which, hidden, make);
        if chosen(probes.last(), which, hidden) {
            lemma_put(b, make(probes.last()));
        }
        assert forall|x: A| g.contains(x) <==> made_of_chosen(probes, which, hidden, make, x) by {
            lemma_made_of_chosen_step(probes, which, hidden, make, x);
        }
        assert forall|n: Seq<char>| has_name(g, n) <==> chosen_by_name(
            probes,
            which,
            hidden,
            n,
        ) by {
            lemma_chosen_by_name_step(probes, which, hidden, n);
        }
    }
}

/// The name that a listing shows for a probe.
pub fn display_name(probe: &Probe) -> (name: String)
    ensures
        name@ == probe_name(*probe),
{
    match &probe.name {
        Some(n) => get_file_name(Some(n.as_str())),
        None => get_file_name(None),
    }
}

/// Tells whether what was found is listed among the folders.
pub fn lists_as_folder(kind: EntryKind) -> (folder: bool)
    ensures
        folder == is_folder(kind),
{
    match kind {
        EntryKind::Folder => true,
        EntryKind::File => false,
        EntryKind::Other => false,
    }
}

/// Tells whether a name is hidden.
pub fn is_hidden_name(name: &str) -> (hidden: bool)
    ensures
        hidden == is_hidden(name@),
{
    !name.is_empty() && name.get_char(0) == '.'
}

/// Tells whether an entry whose path ends in `name` is taken into a
/// listing. A reader may pass over the others without looking at them: they
/// leave no trace in a snapshot.
pub fn lists(name: Option<&str>, hidden: bool) -> (taken: bool)
    ensures
        taken == (hidden || !is_hidden(
            shown_name(
                match name {
                    Some(n) => Some(n@),
                    None => None,
                },
            ),
        )),
{
    if hidden {
        true
    } else {
        let shown = get_file_name(name);
        !is_hidden_name(shown.as_str())
    }
}

impl Scan {
    /// Every name that was read is short enough to be laid out.
    pub open spec fn spec_fits(&self) -> bool {
        match self.entries {
            Listing::Complete(probes) => names_fit(probes@),
            _ => true,
        }
    }

    /// Tells whether every name that was read is short enough to be laid
    /// out: a snapshot can be made of such a scan.
    #[verifier::when_used_as_spec(spec_fits)]
    pub fn fits(&self) -> (ok: bool)
        ensures
            ok == self.spec_fits(),
    {
        match &self.entries {
            Listing::Complete(probes) => {
                let mut i: usize = 0;
                while i < probes.len()
                    invariant
                        i <= probes.len(),
                        self.entries == Listing::Complete(*probes),
                        forall|k: int|
                            0 <= k < i ==> byte_len(probe_name(#[trigger] probes@[k])) + 8
                                <= usize::MAX,
                    decreases probes.len() - i,
                {
                    let name = display_name(&probes[i]);
                    if name_len(name.as_str()) > usize::MAX - 8 {
                        return false;
                    }
                    i = i + 1;
                }
                true
            },
            _ => true,
        }
    }
}

/// The sets of a snapshot are in order, and so is the snapshot when every
/// name is short enough to be laid out.
pub proof fn lemma_snapshot_wf(
    root: Probe,
    parent: Option<Probe>,
    probes: Seq<Probe>,
    hidden: bool,
    list: bool,
)
    requires
        names_fit(probes),
    ensures
        snapshot(root, parent, probes, hidden, list).wf(),
{
    let d = snapshot(root, parent, probes, hidden, list);
    lemma_widest(probes, hidden);
    lemma_gather_tidy(probes, Category::VisibleFolder, hidden, folder_maker(list));
    lemma_gather_tidy(probes, Category::HiddenFolder, hidden, folder_maker(list));
    lemma_gather_tidy(probes, Category::VisibleFile, hidden, file_maker(list));
    lemma_gather_tidy(probes, Category::HiddenFile, hidden, file_maker(list));
}

/// The kind is one of the two hidden ones.
pub open spec fn is_hidden_kind(which: Category) -> bool {
    which == Category::HiddenFolder || which == Category::HiddenFile
}

/// What a set gathers is in order.
pub proof fn lemma_gather_tidy<A: Entry>(
    probes: Seq<Probe>,
    which: Category,
    hidden: bool,
    make: spec_fn(Probe) -> A,
)
    requires
        keeps_names(make),
    ensures
        tidy(gather(probes, which, hidden, make), is_hidden_kind(which), widest(probes, hidden)),
{
    let g = gather(probes, which, hidden, make);
    lemma_gather(probes, which, hidden, make);
    lemma_widest(probes, hidden);
    assert forall|i: int| 0 <= i < g.len() implies is_hidden(#[trigger] g[i].name())
        == is_hidden_kind(which) && byte_len(g[i].name()) <= widest(probes, hidden) by {
        assert(g.contains(g[i]));
        assert(made_of_chosen(probes, which, hidden, make, g[i]));
        let j = choose|j: int|
            0 <= j < probes.len() && chosen(#[trigger] probes[j], which, hidden) && g[i] == make(
                probes[j],
            );
        assert(make(probes[j]).name() == probe_name(probes[j]));
        assert(listed(probes[j], hidden));
    }
}

} // verus!
