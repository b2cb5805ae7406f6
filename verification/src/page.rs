//! The text of a listing, as the pieces that are written one after another:
//! cells and line breaks for a grid, whole lines for the details. Each entry
//! has a piece of its own, and the entries of a kind come in the order of
//! their names, those of one name in the order of what else they hold.

use crate::file::{or_empty, size_text, FileView};
use crate::folder::{count_of, FolderView};
use crate::layout::{
    advance, breaks, flow, lemma_flow_keeps_cells_whole, lemma_flow_len, lemma_pieces_in_order,
    newline, offset_at, piece_of, placed, Cursor,
};
use crate::nameset::{lemma_ascending_places, Entry, Named};
use crate::order::{lemma_name_order, name_lt, Rank};
use crate::snapshot::DirectoryView;
use crate::style::{Category, Style, StyleView, ThemeView};
use crate::support::blank_permissions;
use crate::text::{byte_len, decimal, gap, name_len, pad_right, push_spaces, spaces, views};
use vstd::prelude::*;
use vstd::string::*;

verus! {

/// The columns a name gets beyond the longest name.
pub const COLUMN_PADDING: usize = 4;

/// The columns a cell takes beyond its column of names, for the icon.
pub const ICON_ALLOWANCE: usize = 4;

/// The width of the permissions in a detailed line.
pub const PERMISSIONS_WIDTH: usize = 10;

/// The width of the number of entries in a detailed line.
pub const COUNT_WIDTH: usize = 4;

/// The width of the size in a detailed line.
pub const SIZE_WIDTH: usize = 6;

/// The width of the name in a detailed line.
pub const NAME_WIDTH: usize = 25;

/// The name under which a grid shows the parent of the directory.
pub open spec fn parent_name() -> Seq<char> {
    seq!['.', '.']
}

/// The name under which a grid shows the directory itself.
pub open spec fn current_name() -> Seq<char> {
    seq!['.']
}

/// One cell of a grid: the name in its style, with blanks behind it up to
/// `column` bytes.
pub open spec fn cell(style: StyleView, name: Seq<char>, column: nat) -> Seq<char> {
    style.lead + name + spaces(gap(byte_len(name), column)) + style.tail
}

/// The cells of a row of entries, one for each, in order.
pub open spec fn cells<A: Entry>(entries: Seq<A>, style: StyleView, column: nat) -> Seq<Seq<char>> {
    Seq::new(entries.len(), |i: int| cell(style, entries[i].name(), column))
}

/// The cells for the parent and the directory itself.
pub open spec fn pseudo_cells(style: StyleView, column: nat) -> Seq<Seq<char>> {
    seq![cell(style, parent_name(), column), cell(style, current_name(), column)]
}

impl DirectoryView {
    /// The width of a column of names.
    pub open spec fn column(self) -> nat {
        self.largest_name + COLUMN_PADDING as nat
    }

    /// The width of a cell: what the cursor moves by.
    pub open spec fn step(self) -> nat {
        self.column() + ICON_ALLOWANCE as nat
    }
}

/// The cells that come with the hidden folders: the parent, the directory
/// itself, then the hidden folders by name.
pub open spec fn hidden_folder_cells(d: DirectoryView, theme: ThemeView) -> Seq<Seq<char>> {
    pseudo_cells(theme.grid.hidden_folder, d.column()) + cells(
        d.hidden_folders,
        theme.grid.hidden_folder,
        d.column(),
    )
}

/// The cells of the block of folders: those that come with the hidden
/// folders when `all` is set, then the folders by name.
pub open spec fn folder_cells(d: DirectoryView, theme: ThemeView, all: bool) -> Seq<Seq<char>> {
    (if all {
        hidden_folder_cells(d, theme)
    } else {
        Seq::empty()
    }) + cells(d.folders, theme.grid.visible_folder, d.column())
}

/// The cells of the block of files: the hidden files by name when `all` is
/// set, then the files by name.
pub open spec fn file_cells(d: DirectoryView, theme: ThemeView, all: bool) -> Seq<Seq<char>> {
    (if all {
        cells(d.hidden_files, theme.grid.hidden_file, d.column())
    } else {
        Seq::empty()
    }) + cells(d.files, theme.grid.visible_file, d.column())
}

/// One block of a grid: its cells flowed from the start of a line, and a
/// line break at its end.
pub open spec fn block(cells: Seq<Seq<char>>, width: int, step: int) -> Seq<Seq<char>> {
    flow(cells, 0, width, step).push(newline())
}

/// A listing as a grid: the block of folders where the snapshot holds
/// folders, then the block of files where it holds files.
pub open spec fn grid(d: DirectoryView, theme: ThemeView, width: int, all: bool) -> Seq<Seq<char>> {
    (if d.has_folders() {
        block(folder_cells(d, theme, all), width, d.step() as int)
    } else {
        Seq::empty()
    }) + (if d.has_files() {
        block(file_cells(d, theme, all), width, d.step() as int)
    } else {
        Seq::empty()
    })
}

/// One detailed line: the permissions, the number of entries and the size
/// in fields of fixed width, the time, and the name in its style, also in a
/// field of fixed width.
pub open spec fn row(
    reset: Seq<char>,
    style: StyleView,
    permissions: Seq<char>,
    count: Seq<char>,
    size: Seq<char>,
    time: Seq<char>,
    name: Seq<char>,
) -> Seq<char> {
    reset + pad_right(permissions, PERMISSIONS_WIDTH as nat) + seq![' '] + pad_right(
        count,
        COUNT_WIDTH as nat,
    ) + pad_right(size, SIZE_WIDTH as nat) + seq![' '] + time + seq![' '] + style.lead + pad_right(
        name,
        NAME_WIDTH as nat,
    ) + seq![' '] + style.tail + newline()
}

/// The detailed line of a folder: it shows the number of its entries, and a
/// dash where a file shows its size.
pub open spec fn folder_row(theme: ThemeView, style: StyleView, folder: FolderView) -> Seq<char> {
    row(
        theme.reset,
        style,
        match folder.permissions {
            Some(p) => p,
            None => blank_permissions(),
        },
        decimal(count_of(folder.children) as nat),
        seq!['-'],
        or_empty(folder.created_time),
        folder.name,
    )
}

/// The detailed line of a file: it shows 1 where a folder shows the number
/// of its entries, and its size in short.
pub open spec fn file_row(theme: ThemeView, style: StyleView, file: FileView) -> Seq<char> {
    row(
        theme.reset,
        style,
        or_empty(file.permissions),
        seq!['1'],
        size_text(
            match file.size {
                Some(size) => size as nat,
                None => 0,
            },
        ),
        or_empty(file.created_time),
        file.name,
    )
}

/// The detailed lines of a row of folders, in order.
pub open spec fn folder_rows(folders: Seq<FolderView>, theme: ThemeView, style: StyleView) -> Seq<
    Seq<char>,
> {
    Seq::new(folders.len(), |i: int| folder_row(theme, style, folders[i]))
}

/// The detailed lines of a row of files, in order.
pub open spec fn file_rows(files: Seq<FileView>, theme: ThemeView, style: StyleView) -> Seq<
    Seq<char>,
> {
    Seq::new(files.len(), |i: int| file_row(theme, style, files[i]))
}

/// The detailed lines for the parent and the directory itself, in that
/// order. The line of the parent is there exactly when the directory has a
/// parent: where it has none, what stands for the parent is the directory
/// itself once more and is not shown twice.
pub open spec fn pseudo_rows(
    cur: FolderView,
    parent: FolderView,
    has_parent: bool,
    theme: ThemeView,
) -> Seq<Seq<char>> {
    (if has_parent {
        seq![folder_row(theme, theme.detail.hidden_folder, parent)]
    } else {
        Seq::empty()
    }) + seq![folder_row(theme, theme.detail.hidden_folder, cur)]
}

/// The detailed lines that come with the hidden folders: the parent, the
/// directory itself, then the hidden folders by name.
pub open spec fn hidden_folder_rows(d: DirectoryView, theme: ThemeView) -> Seq<Seq<char>> {
    (match (d.cur_dir, d.parent_dir) {
        (Some(cur), Some(parent)) => pseudo_rows(cur, parent, d.has_parent, theme),
        _ => Seq::empty(),
    }) + folder_rows(d.hidden_folders, theme, theme.detail.hidden_folder)
}

/// The detailed lines of the folders: those that come with the hidden
/// folders when `all` is set, then the folders by name.
pub open spec fn detail_folders(d: DirectoryView, theme: ThemeView, all: bool) -> Seq<Seq<char>> {
    (if all {
        hidden_folder_rows(d, theme)
    } else {
        Seq::empty()
    }) + folder_rows(d.folders, theme, theme.detail.visible_folder)
}

/// The detailed lines of the files: the hidden files by name when `all` is
/// set, then the files by name.
pub open spec fn detail_files(d: DirectoryView, theme: ThemeView, all: bool) -> Seq<Seq<char>> {
    (if all {
        file_rows(d.hidden_files, theme, theme.detail.hidden_file)
    } else {
        Seq::empty()
    }) + file_rows(d.files, theme, theme.detail.visible_file)
}

/// A listing in detail: the lines of the folders where the snapshot holds
/// folders, then the lines of the files where it holds files, with nothing
/// between them.
pub open spec fn detail(d: DirectoryView, theme: ThemeView, all: bool) -> Seq<Seq<char>> {
    (if d.has_folders() {
        detail_folders(d, theme, all)
    } else {
        Seq::empty()
    }) + (if d.has_files() {
        detail_files(d, theme, all)
    } else {
        Seq::empty()
    })
}

/// The detailed lines that come with the hidden folders are asked for, but
/// the snapshot was made without the directory itself.
pub open spec fn lacks_current(d: DirectoryView, all: bool, list: bool) -> bool {
    list && all && d.has_folders() && d.cur_dir is None
}

/// The pieces of a listing in the order in which they are written.
pub open spec fn page(d: DirectoryView, theme: ThemeView, width: int, all: bool, list: bool) -> Seq<
    Seq<char>,
> {
    if list {
        detail(d, theme, all)
    } else {
        grid(d, theme, width, all)
    }
}

/// Adds one piece to what is written.
pub fn emit(out: &mut Vec<String>, text: String)
    ensures
        views(final(out)@) == views(old(out)@).push(text@),
{
    out.push(text);
}

/// Adds a line break to what is written.
pub fn emit_newline(out: &mut Vec<String>)
    ensures
        views(final(out)@) == views(old(out)@).push(newline()),
{
    proof {
        reveal_strlit("\n");
        assert("\n"@ =~= newline());
    }
    emit(out, String::from_str("\n"));
}

/// Writes one cell of a grid at the cursor, after a line break where the
/// cell does not fit on the line, and gives the cursor behind it.
pub fn print_cell(
    name: &str,
    style: &Style,
    column: usize,
    step: usize,
    out: &mut Vec<String>,
    cursor: Cursor,
    width: usize,
) -> (next: Cursor)
    ensures
        views(final(out)@) == views(old(out)@) + placed(
            cell(style@, name@, column as nat),
            cursor.offset as int,
            width as int,
            step as int,
        ),
        next.offset == advance(cursor.offset as int, width as int, step as int),
{
    let p = cursor.place(width, step);
    if p.wrapped {
        emit_newline(out);
    }
    let mut text = style.lead.clone();
    text.append(name);
    let len = name_len(name);
    if len < column {
        push_spaces(&mut text, column - len);
    }
    text.append(style.tail.as_str());
    emit(out, text);
    p.next
}

/// Writes the cells of a row of entries, the first at the cursor, and gives
/// the cursor behind the last.
pub fn print_cells<T: Named>(
    entries: &Vec<T>,
    style: &Style,
    column: usize,
    step: usize,
    out: &mut Vec<String>,
    cursor: Cursor,
    width: usize,
) -> (next: Cursor) where <T as View>::V: Entry
    ensures
        views(final(out)@) == views(old(out)@) + flow(
            cells(views(entries@), style@, column as nat),
            cursor.offset as int,
            width as int,
            step as int,
        ),
        next.offset == offset_at(
            entries@.len(),
            cursor.offset as int,
            width as int,
            step as int,
        ),
{
    let ghost all = cells(views(entries@), style@, column as nat);
    let ghost start = cursor.offset as int;
    let mut at = cursor;
    let mut i: usize = 0;
    while i < entries.len()
        invariant
            i <= entries.len(),
            all == cells(views(entries@), style@, column as nat),
            views(out@) == views(old(out)@) + flow(
                all.take(i as int),
                start,
                width as int,
                step as int,
            ),
            at.offset == offset_at(i as nat, start, width as int, step as int),
        decreases entries.len() - i,
    {
        at = print_cell(entries[i].label(), style, column, step, out, at, width);
        proof {
            assert(all.take(i + 1).drop_last() =~= all.take(i as int));
        }
        i = i + 1;
    }
    proof {
        assert(all.take(i as int) =~= all);
    }
    at
}

/// How many detailed lines stand for the parent and the directory itself:
/// two where the directory has a parent, one where it has none.
pub open spec fn pseudo_count(d: DirectoryView) -> int {
    match (d.cur_dir, d.parent_dir) {
        (Some(cur), Some(parent)) => if d.has_parent {
            2
        } else {
            1
        },
        _ => 0,
    }
}

/// Entries of the kind `which` are shown: hidden ones only when `all` is
/// set.
pub open spec fn shows(which: Category, all: bool) -> bool {
    all || which == Category::VisibleFolder || which == Category::VisibleFile
}

impl DirectoryView {
    /// How many entries of a kind the snapshot holds.
    pub open spec fn count(self, which: Category) -> int {
        match which {
            Category::HiddenFolder => self.hidden_folders.len() as int,
            Category::VisibleFolder => self.folders.len() as int,
            Category::HiddenFile => self.hidden_files.len() as int,
            Category::VisibleFile => self.files.len() as int,
        }
    }

    /// The name of entry `k` of a kind.
    pub open spec fn name_at(self, which: Category, k: int) -> Seq<char> {
        match which {
            Category::HiddenFolder => self.hidden_folders[k].name,
            Category::VisibleFolder => self.folders[k].name,
            Category::HiddenFile => self.hidden_files[k].name,
            Category::VisibleFile => self.files[k].name,
        }
    }
}

/// What stands for the parent and the directory itself at the head of the
/// folders: two cells in a grid, one or two lines in detail.
pub open spec fn pseudo_pieces(d: DirectoryView, list: bool) -> int {
    if list {
        pseudo_count(d)
    } else {
        2
    }
}

/// The place of entry `k` of a kind within its block, counted in cells or
/// in lines.
pub open spec fn place_in_block(
    d: DirectoryView,
    all: bool,
    list: bool,
    which: Category,
    k: int,
) -> int {
    match which {
        Category::HiddenFolder => pseudo_pieces(d, list) + k,
        Category::VisibleFolder => (if all {
            pseudo_pieces(d, list) + d.hidden_folders.len()
        } else {
            0
        }) + k,
        Category::HiddenFile => k,
        Category::VisibleFile => (if all {
            d.hidden_files.len() as int
        } else {
            0
        }) + k,
    }
}

/// How many pieces are written for the folders.
pub open spec fn folder_pieces(d: DirectoryView, width: int, all: bool, list: bool) -> int {
    if !d.has_folders() {
        0
    } else {
        let n = place_in_block(d, all, list, Category::VisibleFolder, d.folders.len() as int);
        if list {
            n
        } else {
            n + breaks(n as nat, 0, width, d.step() as int) + 1
        }
    }
}

/// The place of entry `k` of a kind among the pieces of a listing.
pub open spec fn place_of(
    d: DirectoryView,
    width: int,
    all: bool,
    list: bool,
    which: Category,
    k: int,
) -> int {
    let within = place_in_block(d, all, list, which, k);
    (if which == Category::HiddenFile || which == Category::VisibleFile {
        folder_pieces(d, width, all, list)
    } else {
        0
    }) + if list {
        within
    } else {
        piece_of(within as nat, 0, width, d.step() as int)
    }
}

/// The piece that shows entry `k` of a kind: its cell in a grid, its line in
/// detail, in the style of its kind.
pub open spec fn piece(d: DirectoryView, theme: ThemeView, list: bool, which: Category, k: int) -> Seq<
    char,
> {
    if list {
        match which {
            Category::HiddenFolder => folder_row(theme, theme.detail.style(which), d.hidden_folders[k]),
            Category::VisibleFolder => folder_row(theme, theme.detail.style(which), d.folders[k]),
            Category::HiddenFile => file_row(theme, theme.detail.style(which), d.hidden_files[k]),
            Category::VisibleFile => file_row(theme, theme.detail.style(which), d.files[k]),
        }
    } else {
        cell(theme.grid.style(which), d.name_at(which, k), d.column())
    }
}

/// The kind is one of the two kinds of folder.
pub open spec fn is_folder_kind(which: Category) -> bool {
    which == Category::HiddenFolder || which == Category::VisibleFolder
}

/// The cells or lines of the block that entries of the kind `which` belong
/// to, without the line breaks of a grid.
pub open spec fn block_items(
    d: DirectoryView,
    theme: ThemeView,
    all: bool,
    list: bool,
    which: Category,
) -> Seq<Seq<char>> {
    if is_folder_kind(which) {
        if list {
            detail_folders(d, theme, all)
        } else {
            folder_cells(d, theme, all)
        }
    } else {
        if list {
            detail_files(d, theme, all)
        } else {
            file_cells(d, theme, all)
        }
    }
}

/// Within its block, an entry that is shown stands at its place.
proof fn lemma_place_in_block(
    d: DirectoryView,
    theme: ThemeView,
    all: bool,
    list: bool,
    which: Category,
    k: int,
)
    requires
        shows(which, all),
        0 <= k < d.count(which),
    ensures
        0 <= place_in_block(d, all, list, which, k) < block_items(d, theme, all, list, which).len(),
        block_items(d, theme, all, list, which)[place_in_block(d, all, list, which, k)] == piece(
            d,
            theme,
            list,
            which,
            k,
        ),
        is_folder_kind(which) ==> block_items(d, theme, all, list, which).len() == place_in_block(
            d,
            all,
            list,
            Category::VisibleFolder,
            d.folders.len() as int,
        ),
{
    let column = d.column();
    if list {
        let head = match (d.cur_dir, d.parent_dir) {
            (Some(cur), Some(parent)) => pseudo_rows(cur, parent, d.has_parent, theme),
            _ => Seq::empty(),
        };
        assert(head.len() == pseudo_count(d));
        let hidden = folder_rows(d.hidden_folders, theme, theme.detail.hidden_folder);
        let shown = folder_rows(d.folders, theme, theme.detail.visible_folder);
        assert(hidden_folder_rows(d, theme) == head + hidden);
        assert(hidden_folder_rows(d, theme).len() == pseudo_count(d) + d.hidden_folders.len());
        if which == Category::HiddenFolder {
            assert((head + hidden)[head.len() + k] == hidden[k]);
        }
    } else {
        let style = theme.grid.hidden_folder;
        let head = pseudo_cells(style, column);
        let hidden = cells(d.hidden_folders, style, column);
        assert(head.len() == 2);
        assert(hidden_folder_cells(d, theme) == head + hidden);
        assert(hidden_folder_cells(d, theme).len() == 2 + d.hidden_folders.len());
        if which == Category::HiddenFolder {
            assert((head + hidden)[head.len() + k] == hidden[k]);
        }
    }
}

/// A grid block written between other pieces holds each of its cells at the
/// place of the cell.
proof fn lemma_block_holds(
    before: Seq<Seq<char>>,
    items: Seq<Seq<char>>,
    after: Seq<Seq<char>>,
    width: int,
    step: int,
    a: int,
)
    requires
        0 <= a < items.len(),
        0 <= step,
    ensures
        block(items, width, step).len() == items.len() + breaks(items.len(), 0, width, step) + 1,
        0 <= before.len() + piece_of(a as nat, 0, width, step) < (before + block(
            items,
            width,
            step,
        ) + after).len(),
        (before + block(items, width, step) + after)[before.len() + piece_of(
            a as nat,
            0,
            width,
            step,
        )] == items[a],
{
    lemma_flow_keeps_cells_whole(items, 0, width, step, a);
    let f = flow(items, 0, width, step);
    let p = piece_of(a as nat, 0, width, step);
    assert(block(items, width, step)[p] == f[p]);
    assert((before + block(items, width, step))[before.len() + p] == block(items, width, step)[p]);
}

impl DirectoryView {
    /// Entry `i` of a kind stands before entry `j` of that kind in the
    /// order of a set.
    pub open spec fn before(self, which: Category, i: int, j: int) -> bool {
        match which {
            Category::HiddenFolder => self.hidden_folders[i].versus(self.hidden_folders[j])
                == Rank::Before,
            Category::VisibleFolder => self.folders[i].versus(self.folders[j]) == Rank::Before,
            Category::HiddenFile => self.hidden_files[i].versus(self.hidden_files[j])
                == Rank::Before,
            Category::VisibleFile => self.files[i].versus(self.files[j]) == Rank::Before,
        }
    }
}

/// Entries are shown in the order of their names. Each entry of a kind that
/// is shown has a piece of its own in the listing, in the style of its kind.
/// Of two entries of one kind with different names, the one with the
/// earlier name, and no other, comes earlier. Entries of one name come in
/// the order of what else they hold, so that no entry ever comes before one
/// with an earlier name.
pub proof fn lemma_entries_shown_by_name(
    d: DirectoryView,
    theme: ThemeView,
    width: int,
    all: bool,
    list: bool,
    which: Category,
    i: int,
    j: int,
)
    requires
        d.wf(),
        shows(which, all),
        0 <= i < d.count(which),
        0 <= j < d.count(which),
    ensures
        0 <= place_of(d, width, all, list, which, i) < page(d, theme, width, all, list).len(),
        page(d, theme, width, all, list)[place_of(d, width, all, list, which, i)] == piece(
            d,
            theme,
            list,
            which,
            i,
        ),
        d.name_at(which, i) != d.name_at(which, j) ==> (place_of(d, width, all, list, which, i)
            < place_of(d, width, all, list, which, j) <==> name_lt(
            d.name_at(which, i),
            d.name_at(which, j),
        )),
        name_lt(d.name_at(which, i), d.name_at(which, j)) ==> place_of(
            d,
            width,
            all,
            list,
            which,
            i,
        ) < place_of(d, width, all, list, which, j),
        place_of(d, width, all, list, which, i) < place_of(d, width, all, list, which, j)
            <==> d.before(which, i, j),
{
    lemma_shown_in_order(d, width, all, list, which, i, j);
    lemma_shown_at_place(d, theme, width, all, list, which, i);
    match which {
        Category::HiddenFolder => lemma_ascending_places(d.hidden_folders, i, j),
        Category::VisibleFolder => lemma_ascending_places(d.folders, i, j),
        Category::HiddenFile => lemma_ascending_places(d.hidden_files, i, j),
        Category::VisibleFile => lemma_ascending_places(d.files, i, j),
    }
    lemma_name_order(d.name_at(which, i), d.name_at(which, j), d.name_at(which, i));
}

/// Of two entries of one kind, the one that stands earlier in its set has
/// the earlier place.
proof fn lemma_shown_in_order(
    d: DirectoryView,
    width: int,
    all: bool,
    list: bool,
    which: Category,
    i: int,
    j: int,
)
    requires
        0 <= i < d.count(which),
        0 <= j < d.count(which),
    ensures
        place_of(d, width, all, list, which, i) < place_of(d, width, all, list, which, j) <==> i
            < j,
{
    let step = d.step() as int;
    let a = place_in_block(d, all, list, which, i);
    let b = place_in_block(d, all, list, which, j);
    assert(0 <= a && 0 <= b);
    assert(a < b <==> i < j);
    if !list {
        if a < b {
            lemma_pieces_in_order(a as nat, b as nat, 0, width, step);
        }
        if b < a {
            lemma_pieces_in_order(b as nat, a as nat, 0, width, step);
        }
    }
}

/// An entry that is shown has its piece at its place in the listing.
proof fn lemma_shown_at_place(
    d: DirectoryView,
    theme: ThemeView,
    width: int,
    all: bool,
    list: bool,
    which: Category,
    k: int,
)
    requires
        shows(which, all),
        0 <= k < d.count(which),
    ensures
        0 <= place_of(d, width, all, list, which, k) < page(d, theme, width, all, list).len(),
        page(d, theme, width, all, list)[place_of(d, width, all, list, which, k)] == piece(
            d,
            theme,
            list,
            which,
            k,
        ),
{
    let step = d.step() as int;
    let items = block_items(d, theme, all, list, which);
    let a = place_in_block(d, all, list, which, k);
    lemma_place_in_block(d, theme, all, list, which, k);
    let folders = block_items(d, theme, all, list, Category::VisibleFolder);
    let files = block_items(d, theme, all, list, Category::VisibleFile);
    let none = Seq::<Seq<char>>::empty();
    if d.folders.len() > 0 {
        lemma_place_in_block(d, theme, all, list, Category::VisibleFolder, 0);
    } else if d.hidden_folders.len() > 0 && all {
        lemma_place_in_block(d, theme, all, list, Category::HiddenFolder, 0);
    }
    if list {
        let first = if d.has_folders() {
            folders
        } else {
            none
        };
        let second = if d.has_files() {
            files
        } else {
            none
        };
        assert(page(d, theme, width, all, list) == first + second);
        if is_folder_kind(which) {
            assert((first + second)[a] == first[a]);
        } else {
            assert(first.len() == folder_pieces(d, width, all, list)) by {
                if d.has_folders() {
                    lemma_detail_folders_len(d, theme, all);
                }
            }
            assert((first + second)[first.len() + a] == second[a]);
        }
    } else {
        let first = if d.has_folders() {
            block(folders, width, step)
        } else {
            none
        };
        let second = if d.has_files() {
            block(files, width, step)
        } else {
            none
        };
        assert(page(d, theme, width, all, list) == first + second);
        if is_folder_kind(which) {
            lemma_block_holds(none, folders, second, width, step, a);
            assert(none + block(folders, width, step) =~= block(folders, width, step));
        } else {
            assert(first.len() == folder_pieces(d, width, all, list)) by {
                if d.has_folders() {
                    lemma_flow_len(folders, 0, width, step);
                    lemma_folder_cells_len(d, theme, all);
                }
            }
            lemma_block_holds(first, files, none, width, step, a);
            assert(first + block(files, width, step) + none =~= first + second);
        }
    }
}

/// As many detailed lines are written for the folders as there are places.
proof fn lemma_detail_folders_len(d: DirectoryView, theme: ThemeView, all: bool)
    ensures
        detail_folders(d, theme, all).len() == place_in_block(
            d,
            all,
            true,
            Category::VisibleFolder,
            d.folders.len() as int,
        ),
{
    let head = match (d.cur_dir, d.parent_dir) {
        (Some(cur), Some(parent)) => pseudo_rows(cur, parent, d.has_parent, theme),
        _ => Seq::empty(),
    };
    assert(head.len() == pseudo_count(d));
}

/// As many cells are written for the folders as there are places.
proof fn lemma_folder_cells_len(d: DirectoryView, theme: ThemeView, all: bool)
    ensures
        folder_cells(d, theme, all).len() == place_in_block(
            d,
            all,
            false,
            Category::VisibleFolder,
            d.folders.len() as int,
        ),
{
    assert(pseudo_cells(theme.grid.hidden_folder, d.column()).len() == 2);
}

/// The lines of a detailed listing that shows the hidden entries of a
/// snapshot with folders. It begins with the line of the parent, where the
/// directory has a parent, and the line of the directory itself; the parent
/// of a directory that has none is not shown, whatever the directory is
/// called. Beyond these it has one line for each entry and no other line.
pub proof fn lemma_detail_lines(d: DirectoryView, theme: ThemeView)
    requires
        d.has_folders(),
        d.cur_dir is Some,
        d.parent_dir is Some,
    ensures
        detail(d, theme, true).len() == (if d.has_parent {
            2int
        } else {
            1int
        }) + d.hidden_folders.len() + d.folders.len() + d.hidden_files.len() + d.files.len(),
        d.has_parent ==> detail(d, theme, true)[0] == folder_row(
            theme,
            theme.detail.hidden_folder,
            d.parent_dir->0,
        ) && detail(d, theme, true)[1] == folder_row(
            theme,
            theme.detail.hidden_folder,
            d.cur_dir->0,
        ),
        !d.has_parent ==> detail(d, theme, true)[0] == folder_row(
            theme,
            theme.detail.hidden_folder,
            d.cur_dir->0,
        ),
{
    let head = pseudo_rows(d.cur_dir->0, d.parent_dir->0, d.has_parent, theme);
    let hidden = folder_rows(d.hidden_folders, theme, theme.detail.hidden_folder);
    let shown = folder_rows(d.folders, theme, theme.detail.visible_folder);
    let folders = detail_folders(d, theme, true);
    assert(folders == head + hidden + shown);
    assert(head.len() == pseudo_count(d));
    let files = if d.has_files() {
        detail_files(d, theme, true)
    } else {
        Seq::empty()
    };
    assert(detail(d, theme, true) == folders + files);
    assert(folders[0] == head[0]);
    if d.has_parent {
        assert(folders[1] == head[1]);
    }
}

} // verus!
