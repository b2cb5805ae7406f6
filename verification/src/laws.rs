//! What holds of every snapshot: each entry is in one set, the snapshot
//! depends on the entries that were read and not on how they were read, and
//! where nothing is listed nothing is shown.

use crate::file::{file_of, probe_name};
use crate::folder::folder_of;
use crate::nameset::{ascending, lemma_ascending_unique, Entry};
use crate::page::{detail, grid, lacks_current, page};
use crate::probe::Probe;
use crate::snapshot::{
    chosen, chosen_by_name, file_maker, folder_maker, gather, is_folder, is_hidden, keeps_names,
    lemma_gather, lemma_widest, listed, made_of_chosen, reserve, snapshot, widest,
};
use crate::style::{Category, ThemeView};
use crate::text::byte_len;
use vstd::prelude::*;

verus! {

/// The two rows hold the same entries, in whatever order and however often
/// each.
pub open spec fn same_entries(a: Seq<Probe>, b: Seq<Probe>) -> bool {
    forall|p: Probe| a.contains(p) <==> b.contains(p)
}

/// What the four sets hold by name. A set holds a name exactly when an entry
/// of its kind that is listed has that name: nothing that was read and is
/// listed is left out, and nothing is there that was not read.
pub proof fn lemma_sets_hold_the_listed(
    root: Probe,
    parent: Option<Probe>,
    probes: Seq<Probe>,
    hidden: bool,
    list: bool,
    which: Category,
    n: Seq<char>,
)
    ensures
        snapshot(root, parent, probes, hidden, list).holds(which, n) <==> chosen_by_name(
            probes,
            which,
            hidden,
            n,
        ),
{
    lemma_gather(probes, which, hidden, folder_maker(list));
    lemma_gather(probes, which, hidden, file_maker(list));
}

/// Every entry of a directory is in exactly one of the four sets when it is
/// listed, and in none when it is not. A directory is in the set of the
/// folders that its name puts it in, hidden or not, exactly when it is
/// listed, and never in the other set of folders; the two sets of files hold
/// no folder. What is no directory is in the same way in one set of files.
/// Within a set no entry occurs twice.
pub proof fn lemma_every_entry_in_one_set(
    root: Probe,
    parent: Option<Probe>,
    probes: Seq<Probe>,
    hidden: bool,
    list: bool,
    i: int,
)
    requires
        0 <= i < probes.len(),
    ensures
        is_folder(probes[i].kind) ==> {
            let d = snapshot(root, parent, probes, hidden, list);
            let folder = folder_of(probes[i], list);
            &&& d.folders.contains(folder) <==> listed(probes[i], hidden) && !is_hidden(
                probe_name(probes[i]),
            )
            &&& d.hidden_folders.contains(folder) <==> listed(probes[i], hidden) && is_hidden(
                probe_name(probes[i]),
            )
        },
        !is_folder(probes[i].kind) ==> {
            let d = snapshot(root, parent, probes, hidden, list);
            let file = file_of(probes[i], list);
            &&& d.files.contains(file) <==> listed(probes[i], hidden) && !is_hidden(
                probe_name(probes[i]),
            )
            &&& d.hidden_files.contains(file) <==> listed(probes[i], hidden) && is_hidden(
                probe_name(probes[i]),
            )
        },
        ascending(snapshot(root, parent, probes, hidden, list).folders),
        ascending(snapshot(root, parent, probes, hidden, list).hidden_folders),
        ascending(snapshot(root, parent, probes, hidden, list).files),
        ascending(snapshot(root, parent, probes, hidden, list).hidden_files),
{
    let p = probes[i];
    lemma_gather(probes, Category::VisibleFolder, hidden, folder_maker(list));
    lemma_gather(probes, Category::HiddenFolder, hidden, folder_maker(list));
    lemma_gather(probes, Category::VisibleFile, hidden, file_maker(list));
    lemma_gather(probes, Category::HiddenFile, hidden, file_maker(list));
    let fm = folder_maker(list);
    let lm = file_maker(list);
    let folder = folder_of(p, list);
    let file = file_of(p, list);
    if is_folder(p.kind) {
        lemma_made_of_its_kind(probes, Category::VisibleFolder, hidden, fm, i);
        lemma_made_of_its_kind(probes, Category::HiddenFolder, hidden, fm, i);
    } else {
        lemma_made_of_its_kind(probes, Category::VisibleFile, hidden, lm, i);
        lemma_made_of_its_kind(probes, Category::HiddenFile, hidden, lm, i);
    }
}

/// What was made of an entry was made of a chosen entry of a kind exactly
/// when the entry is listed and its name puts it with that kind, given that
/// the kind is one of its sort, folders or files.
proof fn lemma_made_of_its_kind<A: Entry>(
    probes: Seq<Probe>,
    which: Category,
    hidden: bool,
    make: spec_fn(Probe) -> A,
    i: int,
)
    requires
        keeps_names(make),
        0 <= i < probes.len(),
        is_folder(probes[i].kind) <==> (which == Category::HiddenFolder || which
            == Category::VisibleFolder),
    ensures
        made_of_chosen(probes, which, hidden, make, make(probes[i])) <==> chosen(
            probes[i],
            which,
            hidden,
        ),
{
    if made_of_chosen(probes, which, hidden, make, make(probes[i])) {
        let j = choose|j: int|
            0 <= j < probes.len() && chosen(#[trigger] probes[j], which, hidden) && make(probes[i])
                == make(probes[j]);
        assert(make(probes[j]).name() == probe_name(probes[j]));
        assert(make(probes[i]).name() == probe_name(probes[i]));
    }
}

/// What one row gathers, another row with the same entries gathers too.
proof fn lemma_gathered_from_either<A: Entry>(
    a: Seq<Probe>,
    b: Seq<Probe>,
    which: Category,
    hidden: bool,
    make: spec_fn(Probe) -> A,
    x: A,
)
    requires
        same_entries(a, b),
        made_of_chosen(a, which, hidden, make, x),
    ensures
        made_of_chosen(b, which, hidden, make, x),
{
    let j = choose|j: int|
        0 <= j < a.len() && chosen(#[trigger] a[j], which, hidden) && x == make(a[j]);
    assert(a.contains(a[j]));
    let k = choose|k: int| 0 <= k < b.len() && b[k] == a[j];
    assert(chosen(b[k], which, hidden));
}

/// A set does not depend on the order in which the entries were read.
proof fn lemma_gather_order_free<A: Entry>(
    a: Seq<Probe>,
    b: Seq<Probe>,
    which: Category,
    hidden: bool,
    make: spec_fn(Probe) -> A,
)
    requires
        keeps_names(make),
        same_entries(a, b),
    ensures
        gather(a, which, hidden, make) == gather(b, which, hidden, make),
{
    let g = gather(a, which, hidden, make);
    let h = gather(b, which, hidden, make);
    lemma_gather(a, which, hidden, make);
    lemma_gather(b, which, hidden, make);
    assert forall|x: A| g.contains(x) <==> h.contains(x) by {
        if g.contains(x) {
            lemma_gathered_from_either(a, b, which, hidden, make, x);
        }
        if h.contains(x) {
            lemma_gathered_from_either(b, a, which, hidden, make, x);
        }
    }
    lemma_ascending_unique(g, h);
}

/// The longest listed name does not depend on the order in which the
/// entries were read.
proof fn lemma_widest_order_free(a: Seq<Probe>, b: Seq<Probe>, hidden: bool)
    requires
        same_entries(a, b),
    ensures
        widest(a, hidden) == widest(b, hidden),
{
    lemma_widest(a, hidden);
    lemma_widest(b, hidden);
    if widest(a, hidden) != reserve(hidden) {
        let i = choose|i: int|
            0 <= i < a.len() && listed(#[trigger] a[i], hidden) && byte_len(probe_name(a[i]))
                == widest(a, hidden);
        assert(a.contains(a[i]));
        let k = choose|k: int| 0 <= k < b.len() && b[k] == a[i];
        assert(listed(b[k], hidden));
    }
    if widest(b, hidden) != reserve(hidden) {
        let i = choose|i: int|
            0 <= i < b.len() && listed(#[trigger] b[i], hidden) && byte_len(probe_name(b[i]))
                == widest(b, hidden);
        assert(b.contains(b[i]));
        let k = choose|k: int| 0 <= k < a.len() && a[k] == b[i];
        assert(listed(a[k], hidden));
    }
}

/// Reading a directory again gives the same snapshot as long as the
/// directory has not changed: two reads that found the same entries, in
/// whatever order and however often each, give the same four sets, the same
/// longest name and the same snapshot in all.
pub proof fn lemma_same_entries_same_snapshot(
    root: Probe,
    parent: Option<Probe>,
    first: Seq<Probe>,
    second: Seq<Probe>,
    hidden: bool,
    list: bool,
)
    requires
        same_entries(first, second),
    ensures
        snapshot(root, parent, first, hidden, list) == snapshot(
            root,
            parent,
            second,
            hidden,
            list,
        ),
{
    lemma_gather_order_free(first, second, Category::VisibleFolder, hidden, folder_maker(list));
    lemma_gather_order_free(first, second, Category::HiddenFolder, hidden, folder_maker(list));
    lemma_gather_order_free(first, second, Category::VisibleFile, hidden, file_maker(list));
    lemma_gather_order_free(first, second, Category::HiddenFile, hidden, file_maker(list));
    lemma_widest_order_free(first, second, hidden);
}

/// A set is the same without an entry that is not chosen for it.
proof fn lemma_gather_skips<A: Entry>(
    probes: Seq<Probe>,
    which: Category,
    hidden: bool,
    make: spec_fn(Probe) -> A,
    i: int,
)
    requires
        0 <= i < probes.len(),
        !chosen(probes[i], which, hidden),
    ensures
        gather(probes.remove(i), which, hidden, make) == gather(probes, which, hidden, make),
    decreases probes.len(),
{
    let last = probes.len() - 1;
    if i == last {
        assert(probes.remove(i) =~= probes.drop_last());
    } else {
        let rest = probes.drop_last();
        assert(rest[i] == probes[i]);
        lemma_gather_skips(rest, which, hidden, make, i);
        assert(probes.remove(i).drop_last() =~= rest.remove(i));
        assert(probes.remove(i).last() == probes.last());
    }
}

/// The longest listed name is the same without an entry that is not listed.
proof fn lemma_widest_skips(probes: Seq<Probe>, hidden: bool, i: int)
    requires
        0 <= i < probes.len(),
        !listed(probes[i], hidden),
    ensures
        widest(probes.remove(i), hidden) == widest(probes, hidden),
    decreases probes.len(),
{
    let last = probes.len() - 1;
    if i == last {
        assert(probes.remove(i) =~= probes.drop_last());
    } else {
        let rest = probes.drop_last();
        assert(rest[i] == probes[i]);
        lemma_widest_skips(rest, hidden, i);
        assert(probes.remove(i).drop_last() =~= rest.remove(i));
        assert(probes.remove(i).last() == probes.last());
    }
}

/// An entry that is not listed leaves no trace: the snapshot is the same
/// whether the entry was read or passed over.
pub proof fn lemma_unlisted_leave_no_trace(
    root: Probe,
    parent: Option<Probe>,
    probes: Seq<Probe>,
    hidden: bool,
    list: bool,
    i: int,
)
    requires
        0 <= i < probes.len(),
        !listed(probes[i], hidden),
    ensures
        snapshot(root, parent, probes.remove(i), hidden, list) == snapshot(
            root,
            parent,
            probes,
            hidden,
            list,
        ),
{
    lemma_gather_skips(probes, Category::VisibleFolder, hidden, folder_maker(list), i);
    lemma_gather_skips(probes, Category::HiddenFolder, hidden, folder_maker(list), i);
    lemma_gather_skips(probes, Category::VisibleFile, hidden, file_maker(list), i);
    lemma_gather_skips(probes, Category::HiddenFile, hidden, file_maker(list), i);
    lemma_widest_skips(probes, hidden, i);
}

/// A directory without listed entries shows nothing, whatever is asked for:
/// no cell, no line and no line break, and showing it does not fail.
pub proof fn lemma_nothing_listed_nothing_shown(
    root: Probe,
    parent: Option<Probe>,
    probes: Seq<Probe>,
    hidden: bool,
    list: bool,
    theme: ThemeView,
    width: int,
    all: bool,
    detailed: bool,
)
    requires
        forall|i: int| 0 <= i < probes.len() ==> !listed(#[trigger] probes[i], hidden),
    ensures
        page(snapshot(root, parent, probes, hidden, list), theme, width, all, detailed)
            == Seq::<Seq<char>>::empty(),
        !lacks_current(snapshot(root, parent, probes, hidden, list), all, detailed),
{
    let d = snapshot(root, parent, probes, hidden, list);
    if d.folders.len() > 0 {
        let n = d.folders[0].name();
        lemma_sets_hold_the_listed(root, parent, probes, hidden, list, Category::VisibleFolder, n);
    }
    if d.hidden_folders.len() > 0 {
        let n = d.hidden_folders[0].name();
        lemma_sets_hold_the_listed(root, parent, probes, hidden, list, Category::HiddenFolder, n);
    }
    if d.files.len() > 0 {
        let n = d.files[0].name();
        lemma_sets_hold_the_listed(root, parent, probes, hidden, list, Category::VisibleFile, n);
    }
    if d.hidden_files.len() > 0 {
        let n = d.hidden_files[0].name();
        lemma_sets_hold_the_listed(root, parent, probes, hidden, list, Category::HiddenFile, n);
    }
    assert(!d.has_folders() && !d.has_files());
    assert(grid(d, theme, width, all) =~= Seq::<Seq<char>>::empty());
    assert(detail(d, theme, all) =~= Seq::<Seq<char>>::empty());
}

} // verus!
