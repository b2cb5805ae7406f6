//! The snapshot of one level of a directory, and its listing as text.

use crate::error::Error;
use crate::file::File;
use crate::folder::{Folder, FolderView};
use crate::layout::{flow, lemma_flow_append, lemma_flow_one, offset_at, Cursor};
use crate::nameset::insert;
use crate::page::{
    cell, cells, current_name, detail, emit, emit_newline, file_row, file_rows, folder_row,
    folder_rows, grid, hidden_folder_cells, hidden_folder_rows, lacks_current, page, parent_name,
    print_cell, print_cells, row, COLUMN_PADDING, COUNT_WIDTH, ICON_ALLOWANCE, NAME_WIDTH,
    PERMISSIONS_WIDTH, SIZE_WIDTH,
};
use crate::probe::{Listing, Scan};
use crate::snapshot::{
    display_name, file_maker, folder_maker, gather, is_hidden_name, lemma_gather,
    lemma_snapshot_wf, lists_as_folder, names_fit, snapshot, widest, DirectoryView,
};
use crate::style::{ansi_theme, Category, Style, Theme};
use crate::text::{decimal_string, name_len, padded_right, views};
use vstd::prelude::*;
use vstd::string::*;

verus! {

/// The values of a folder that may be absent.
pub open spec fn folder_view(folder: Option<Folder>) -> Option<FolderView> {
    match folder {
        Some(f) => Some(f@),
        None => None,
    }
}

/// One level of a directory at one moment: its folders and files, each set
/// apart by whether the name is hidden and kept in the order of the names.
/// It does not change once it is made.
#[derive(Debug)]
pub struct Directory {
    cur_dir: Option<Folder>,
    parent_dir: Option<Folder>,
    has_parent: bool,
    folders: Vec<Folder>,
    hidden_folders: Vec<Folder>,
    files: Vec<File>,
    hidden_files: Vec<File>,
    largest_name: usize,
}

impl View for Directory {
    type V = DirectoryView;

    closed spec fn view(&self) -> DirectoryView {
        DirectoryView {
            cur_dir: folder_view(self.cur_dir),
            parent_dir: folder_view(self.parent_dir),
            has_parent: self.has_parent,
            folders: views(self.folders@),
            hidden_folders: views(self.hidden_folders@),
            files: views(self.files@),
            hidden_files: views(self.hidden_files@),
            largest_name: self.largest_name as nat,
        }
    }
}

impl Directory {
    #[verifier::type_invariant]
    spec fn inv(&self) -> bool {
        self@.wf()
    }

    /// A snapshot without entries that keeps room for names of
    /// `largest_name` bytes.
    pub fn empty(largest_name: usize) -> (dir: Directory)
        requires
            largest_name + 8 <= usize::MAX,
        ensures
            dir@ == (DirectoryView {
                cur_dir: None,
                parent_dir: None,
                has_parent: false,
                folders: Seq::empty(),
                hidden_folders: Seq::empty(),
                files: Seq::empty(),
                hidden_files: Seq::empty(),
                largest_name: largest_name as nat,
            }),
            dir@.wf(),
    {
        let dir = Directory {
            cur_dir: None,
            parent_dir: None,
            has_parent: false,
            folders: Vec::new(),
            hidden_folders: Vec::new(),
            files: Vec::new(),
            hidden_files: Vec::new(),
            largest_name,
        };
        proof {
            assert(dir@.hidden_folders =~= Seq::empty());
            assert(dir@.hidden_files =~= Seq::empty());
        }
        dir
    }

    /// The snapshot of the directory that `scan` was read from.
    ///
    /// Fails when the entries of the directory could not be read: with
    /// `DirectoryRead` when none could, with `EntryRead` when the read broke
    /// off. Attributes of a single entry that are missing are no failure.
    ///
    /// Entries with a hidden name are left out unless `hidden` is set; with
    /// it set, the snapshot also holds the directory itself and its parent,
    /// the directory standing for its parent where it has none. A directory
    /// goes to the folders, whatever else was found to the files. Details
    /// are taken from the attributes only when `list` is set.
    pub fn from(scan: &Scan, hidden: bool, list: bool) -> (r: Result<Directory, Error>)
        requires
            scan.fits(),
        ensures
            match scan.entries {
                Listing::Complete(probes) => r matches Ok(dir) && dir@ == snapshot(
                    scan.root,
                    scan.parent,
                    probes@,
                    hidden,
                    list,
                ) && dir@.wf(),
                Listing::Interrupted => r matches Err(e) && e == Error::EntryRead,
                Listing::Unreadable => r matches Err(e) && e == Error::DirectoryRead,
            },
    {
        let mut folders: Vec<Folder> = Vec::new();
        let mut hidden_folders: Vec<Folder> = Vec::new();
        let mut files: Vec<File> = Vec::new();
        let mut hidden_files: Vec<File> = Vec::new();
        let mut largest_name: usize = if hidden {
            2
        } else {
            0
        };
        let (cur_dir, parent_dir) = if hidden {
            let parent = match &scan.parent {
                Some(p) => Folder::from(p, list),
                None => Folder::from(&scan.root, list),
            };
            (Some(Folder::from(&scan.root, list)), Some(parent))
        } else {
            (None, None)
        };
        let probes = match &scan.entries {
            Listing::Complete(probes) => probes,
            Listing::Interrupted => {
                return Err(Error::EntryRead);
            },
            Listing::Unreadable => {
                return Err(Error::DirectoryRead);
            },
        };
        let ghost fm = folder_maker(list);
        let ghost lm = file_maker(list);
        let mut i: usize = 0;
        while i < probes.len()
            invariant
                i <= probes.len(),
                fm == folder_maker(list),
                lm == file_maker(list),
                names_fit(probes@),
                views(folders@) == gather(probes@.take(i as int), Category::VisibleFolder, hidden, fm),
                views(hidden_folders@) == gather(
                    probes@.take(i as int),
                    Category::HiddenFolder,
                    hidden,
                    fm,
                ),
                views(files@) == gather(probes@.take(i as int), Category::VisibleFile, hidden, lm),
                views(hidden_files@) == gather(
                    probes@.take(i as int),
                    Category::HiddenFile,
                    hidden,
                    lm,
                ),
                largest_name == widest(probes@.take(i as int), hidden),
            decreases probes.len() - i,
        {
            let probe = &probes[i];
            let ghost seen = probes@.take(i as int);
            let ghost next = probes@.take(i + 1);
            proof {
                assert(next.drop_last() =~= seen);
                lemma_gather(seen, Category::VisibleFolder, hidden, fm);
                lemma_gather(seen, Category::HiddenFolder, hidden, fm);
                lemma_gather(seen, Category::VisibleFile, hidden, lm);
                lemma_gather(seen, Category::HiddenFile, hidden, lm);
            }
            let name = display_name(probe);
            let dotted = is_hidden_name(name.as_str());
            if hidden || !dotted {
                let len = name_len(name.as_str());
                if len > largest_name {
                    largest_name = len;
                }
                if lists_as_folder(probe.kind) {
                    let folder = Folder::from(probe, list);
                    if dotted {
                        insert(&mut hidden_folders, folder);
                    } else {
                        insert(&mut folders, folder);
                    }
                } else {
                    let file = File::from(probe, list);
                    if dotted {
                        insert(&mut hidden_files, file);
                    } else {
                        insert(&mut files, file);
                    }
                }
            }
            i = i + 1;
        }
        proof {
            assert(probes@.take(i as int) =~= probes@);
            lemma_snapshot_wf(scan.root, scan.parent, probes@, hidden, list);
        }
        Ok(
            Directory {
                cur_dir,
                parent_dir,
                has_parent: scan.parent.is_some(),
                folders,
                hidden_folders,
                files,
                hidden_files,
                largest_name,
            },
        )
    }

    /// The directory itself, where the snapshot holds it.
    pub fn cur_dir(&self) -> (folder: &Option<Folder>)
        ensures
            folder_view(*folder) == self@.cur_dir,
    {
        &self.cur_dir
    }

    /// The parent of the directory, where the snapshot holds it.
    pub fn parent_dir(&self) -> (folder: &Option<Folder>)
        ensures
            folder_view(*folder) == self@.parent_dir,
    {
        &self.parent_dir
    }

    /// Tells whether the directory has a parent. Where it has none, what the
    /// snapshot holds for the parent describes the directory itself.
    pub fn has_parent(&self) -> (has: bool)
        ensures
            has == self@.has_parent,
    {
        self.has_parent
    }

    /// The folders whose names are not hidden, in the order of their names.
    pub fn folders(&self) -> (folders: &Vec<Folder>)
        ensures
            views(folders@) == self@.folders,
    {
        &self.folders
    }

    /// The folders whose names are hidden, in the order of their names.
    pub fn hidden_folders(&self) -> (folders: &Vec<Folder>)
        ensures
            views(folders@) == self@.hidden_folders,
    {
        &self.hidden_folders
    }

    /// The files whose names are not hidden, in the order of their names.
    pub fn files(&self) -> (files: &Vec<File>)
        ensures
            views(files@) == self@.files,
    {
        &self.files
    }

    /// The files whose names are hidden, in the order of their names.
    pub fn hidden_files(&self) -> (files: &Vec<File>)
        ensures
            views(files@) == self@.hidden_files,
    {
        &self.hidden_files
    }

    /// The length in bytes that every name of the snapshot fits in.
    pub fn largest_name(&self) -> (n: usize)
        ensures
            n == self@.largest_name,
    {
        self.largest_name
    }

    /// The width of a column of names: the longest name and four more.
    pub fn max_space(&self) -> (n: usize)
        ensures
            n == self@.largest_name + 4,
            n == self@.column(),
    {
        proof {
            use_type_invariant(self);
        }
        self.largest_name + COLUMN_PADDING
    }
}

/// Writes one detailed line out of its parts.
fn row_text(
    reset: &str,
    style: &Style,
    permissions: &str,
    count: &str,
    size: &str,
    time: &str,
    name: &str,
) -> (text: String)
    ensures
        text@ == row(reset@, style@, permissions@, count@, size@, time@, name@),
{
    proof {
        reveal_strlit(" ");
        reveal_strlit("\n");
    }
    let mut text = String::from_str(reset);
    let permissions = padded_right(permissions, PERMISSIONS_WIDTH);
    text.append(permissions.as_str());
    text.append(" ");
    let count = padded_right(count, COUNT_WIDTH);
    text.append(count.as_str());
    let size = padded_right(size, SIZE_WIDTH);
    text.append(size.as_str());
    text.append(" ");
    text.append(time);
    text.append(" ");
    text.append(style.lead.as_str());
    let name = padded_right(name, NAME_WIDTH);
    text.append(name.as_str());
    text.append(" ");
    text.append(style.tail.as_str());
    text.append("\n");
    text
}

/// Writes the detailed lines of a row of folders.
fn folder_lines(folders: &Vec<Folder>, theme: &Theme, style: &Style, out: &mut Vec<String>)
    ensures
        views(final(out)@) == views(old(out)@) + folder_rows(views(folders@), theme@, style@),
{
    let ghost rows = folder_rows(views(folders@), theme@, style@);
    let mut i: usize = 0;
    while i < folders.len()
        invariant
            i <= folders.len(),
            rows == folder_rows(views(folders@), theme@, style@),
            views(out@) == views(old(out)@) + rows.take(i as int),
        decreases folders.len() - i,
    {
        Directory::print_list_folder(&folders[i], theme, style, out);
        i = i + 1;
    }
}

/// Writes the detailed lines of a row of files.
fn file_lines(files: &Vec<File>, theme: &Theme, style: &Style, out: &mut Vec<String>)
    ensures
        views(final(out)@) == views(old(out)@) + file_rows(views(files@), theme@, style@),
{
    let ghost rows = file_rows(views(files@), theme@, style@);
    let mut i: usize = 0;
    while i < files.len()
        invariant
            i <= files.len(),
            rows == file_rows(views(files@), theme@, style@),
            views(out@) == views(old(out)@) + rows.take(i as int),
        decreases files.len() - i,
    {
        Directory::print_list_file(&files[i], theme, style, out);
        i = i + 1;
    }
}

impl Directory {
    /// The width of a cell of the grid: a column of names and the room for
    /// an icon.
    pub fn cell_width(&self) -> (n: usize)
        ensures
            n == self@.step(),
    {
        proof {
            use_type_invariant(self);
        }
        self.max_space() + ICON_ALLOWANCE
    }

    /// The listing as the pieces to write, one after another, in the theme
    /// with ANSI colours and icons: a grid of names flowed across lines of
    /// `width` columns, or with `list` one detailed line for each entry.
    /// Hidden entries are shown when `all` is set.
    ///
    /// Fails, with nothing to write, only when the detailed lines of the
    /// hidden folders are asked of a snapshot with folders that was made
    /// without the directory itself.
    pub fn display_output(&self, width: usize, all: bool, list: bool) -> (r: Result<
        Vec<String>,
        Error,
    >)
        ensures
            self@.wf(),
            match r {
                Ok(pieces) => !lacks_current(self@, all, list) && views(pieces@) == page(
                    self@,
                    ansi_theme(),
                    width as int,
                    all,
                    list,
                ),
                Err(e) => lacks_current(self@, all, list) && e == Error::MissingCurrentDir,
            },
    {
        let theme = Theme::ansi();
        self.display_with(&theme, width, all, list)
    }

    /// The listing as the pieces to write, in the given theme.
    pub fn display_with(&self, theme: &Theme, width: usize, all: bool, list: bool) -> (r: Result<
        Vec<String>,
        Error,
    >)
        ensures
            self@.wf(),
            match r {
                Ok(pieces) => !lacks_current(self@, all, list) && views(pieces@) == page(
                    self@,
                    theme@,
                    width as int,
                    all,
                    list,
                ),
                Err(e) => lacks_current(self@, all, list) && e == Error::MissingCurrentDir,
            },
    {
        proof {
            use_type_invariant(self);
        }
        let mut out: Vec<String> = Vec::new();
        if list {
            match self.print_list(theme, &mut out, all) {
                Ok(()) => {},
                Err(e) => {
                    return Err(e);
                },
            }
        } else {
            self.print_nlist(theme, &mut out, width, all);
        }
        Ok(out)
    }

    /// Writes the listing as a grid: the block of folders, then the block of
    /// files, each flowed from the start of a line and ended by a line
    /// break, and each left out where the snapshot holds nothing for it.
    pub fn print_nlist(&self, theme: &Theme, out: &mut Vec<String>, width: usize, all: bool)
        ensures
            views(final(out)@) == views(old(out)@) + grid(self@, theme@, width as int, all),
    {
        let ghost d = self@;
        let ghost step = d.step() as int;
        if !self.hidden_folders.is_empty() || !self.folders.is_empty() {
            let mut cursor = Cursor::start();
            if all {
                cursor = self.print_hidden_folders(theme, out, cursor, width);
            }
            cursor = self.print_visible_folders(theme, out, cursor, width);
            emit_newline(out);
            proof {
                let hidden = if all {
                    hidden_folder_cells(d, theme@)
                } else {
                    Seq::empty()
                };
                let visible = cells(d.folders, theme@.grid.visible_folder, d.column());
                lemma_flow_append(hidden, visible, 0, width as int, step);
            }
        }
        if !self.hidden_files.is_empty() || !self.files.is_empty() {
            let mut cursor = Cursor::start();
            if all {
                cursor = self.print_hidden_files(theme, out, cursor, width);
            }
            cursor = self.print_visible_files(theme, out, cursor, width);
            emit_newline(out);
            proof {
                let hidden = if all {
                    cells(d.hidden_files, theme@.grid.hidden_file, d.column())
                } else {
                    Seq::empty()
                };
                let visible = cells(d.files, theme@.grid.visible_file, d.column());
                lemma_flow_append(hidden, visible, 0, width as int, step);
            }
        }
    }

    /// Writes the listing in detail: the lines of the folders, then the
    /// lines of the files, each left out where the snapshot holds nothing
    /// for it. Fails before anything is written when the lines of the hidden
    /// folders are due and the snapshot was made without the directory
    /// itself.
    pub fn print_list(&self, theme: &Theme, out: &mut Vec<String>, all: bool) -> (r: Result<
        (),
        Error,
    >)
        ensures
            match r {
                Ok(_) => !lacks_current(self@, all, true) && views(final(out)@) == views(old(out)@)
                    + detail(self@, theme@, all),
                Err(e) => lacks_current(self@, all, true) && e == Error::MissingCurrentDir
                    && final(out)@ == old(out)@,
            },
    {
        if !self.hidden_folders.is_empty() || !self.folders.is_empty() {
            if all {
                match self.print_hidden_folders_list(theme, out) {
                    Ok(()) => {},
                    Err(e) => {
                        return Err(e);
                    },
                }
            }
            self.print_visible_folders_list(theme, out);
        }
        if !self.hidden_files.is_empty() || !self.files.is_empty() {
            if all {
                self.print_hidden_files_list(theme, out);
            }
            self.print_visible_files_list(theme, out);
        }
        Ok(())
    }

    /// Writes the cells that come with the hidden folders: the parent as
    /// `..`, the directory itself as `.`, then the hidden folders.
    pub fn print_hidden_folders(
        &self,
        theme: &Theme,
        out: &mut Vec<String>,
        cursor: Cursor,
        width: usize,
    ) -> (next: Cursor)
        ensures
            views(final(out)@) == views(old(out)@) + flow(
                hidden_folder_cells(self@, theme@),
                cursor.offset as int,
                width as int,
                self@.step() as int,
            ),
            next.offset == offset_at(
                hidden_folder_cells(self@, theme@).len(),
                cursor.offset as int,
                width as int,
                self@.step() as int,
            ),
    {
        let column = self.max_space();
        let step = self.cell_width();
        let style = &theme.grid.hidden_folder;
        proof {
            reveal_strlit("..");
            reveal_strlit(".");
            assert(".."@ =~= parent_name());
            assert("."@ =~= current_name());
        }
        let first = print_cell("..", style, column, step, out, cursor, width);
        let second = print_cell(".", style, column, step, out, first, width);
        let next = print_cells(&self.hidden_folders, style, column, step, out, second, width);
        proof {
            let d = self@;
            let a = cell(style@, parent_name(), column as nat);
            let b = cell(style@, current_name(), column as nat);
            let rest = cells(d.hidden_folders, style@, column as nat);
            let start = cursor.offset as int;
            lemma_flow_one(a, start, width as int, step as int);
            lemma_flow_one(b, first.offset as int, width as int, step as int);
            lemma_flow_append(seq![a], seq![b], start, width as int, step as int);
            assert(seq![a] + seq![b] =~= seq![a, b]);
            lemma_flow_append(seq![a, b], rest, start, width as int, step as int);
        }
        next
    }

    /// Writes the cells of the folders whose names are not hidden.
    pub fn print_visible_folders(
        &self,
        theme: &Theme,
        out: &mut Vec<String>,
        cursor: Cursor,
        width: usize,
    ) -> (next: Cursor)
        ensures
            views(final(out)@) == views(old(out)@) + flow(
                cells(self@.folders, theme@.grid.visible_folder, self@.column()),
                cursor.offset as int,
                width as int,
                self@.step() as int,
            ),
            next.offset == offset_at(
                self@.folders.len(),
                cursor.offset as int,
                width as int,
                self@.step() as int,
            ),
    {
        let column = self.max_space();
        let step = self.cell_width();
        print_cells(&self.folders, &theme.grid.visible_folder, column, step, out, cursor, width)
    }

    /// Writes the cells of the files whose names are hidden.
    pub fn print_hidden_files(
        &self,
        theme: &Theme,
        out: &mut Vec<String>,
        cursor: Cursor,
        width: usize,
    ) -> (next: Cursor)
        ensures
            views(final(out)@) == views(old(out)@) + flow(
                cells(self@.hidden_files, theme@.grid.hidden_file, self@.column()),
                cursor.offset as int,
                width as int,
                self@.step() as int,
            ),
            next.offset == offset_at(
                self@.hidden_files.len(),
                cursor.offset as int,
                width as int,
                self@.step() as int,
            ),
    {
        let column = self.max_space();
        let step = self.cell_width();
        print_cells(&self.hidden_files, &theme.grid.hidden_file, column, step, out, cursor, width)
    }

    /// Writes the cells of the files whose names are not hidden.
    pub fn print_visible_files(
        &self,
        theme: &Theme,
        out: &mut Vec<String>,
        cursor: Cursor,
        width: usize,
    ) -> (next: Cursor)
        ensures
            views(final(out)@) == views(old(out)@) + flow(
                cells(self@.files, theme@.grid.visible_file, self@.column()),
                cursor.offset as int,
                width as int,
                self@.step() as int,
            ),
            next.offset == offset_at(
                self@.files.len(),
                cursor.offset as int,
                width as int,
                self@.step() as int,
            ),
    {
        let column = self.max_space();
        let step = self.cell_width();
        print_cells(&self.files, &theme.grid.visible_file, column, step, out, cursor, width)
    }

    /// Writes the detailed lines that come with the hidden folders: the
    /// parent, where the directory has one, the directory itself, then the
    /// hidden folders. Fails, with nothing written, when the snapshot was
    /// made without the directory itself.
    pub fn print_hidden_folders_list(&self, theme: &Theme, out: &mut Vec<String>) -> (r: Result<
        (),
        Error,
    >)
        ensures
            match r {
                Ok(_) => self@.cur_dir is Some && views(final(out)@) == views(old(out)@)
                    + hidden_folder_rows(self@, theme@),
                Err(e) => self@.cur_dir is None && e == Error::MissingCurrentDir && final(out)@
                    == old(out)@,
            },
    {
        proof {
            use_type_invariant(self);
        }
        let style = &theme.detail.hidden_folder;
        match (&self.cur_dir, &self.parent_dir) {
            (Some(cur), Some(parent)) => {
                if self.has_parent {
                    Self::print_list_folder(parent, theme, style, out);
                }
                Self::print_list_folder(cur, theme, style, out);
                folder_lines(&self.hidden_folders, theme, style, out);
                Ok(())
            },
            _ => Err(Error::MissingCurrentDir),
        }
    }

    /// Writes the detailed lines of the folders whose names are not hidden.
    pub fn print_visible_folders_list(&self, theme: &Theme, out: &mut Vec<String>)
        ensures
            views(final(out)@) == views(old(out)@) + folder_rows(
                self@.folders,
                theme@,
                theme@.detail.visible_folder,
            ),
    {
        folder_lines(&self.folders, theme, &theme.detail.visible_folder, out);
    }

    /// Writes the detailed lines of the files whose names are hidden.
    pub fn print_hidden_files_list(&self, theme: &Theme, out: &mut Vec<String>)
        ensures
            views(final(out)@) == views(old(out)@) + file_rows(
                self@.hidden_files,
                theme@,
                theme@.detail.hidden_file,
            ),
    {
        file_lines(&self.hidden_files, theme, &theme.detail.hidden_file, out);
    }

    /// Writes the detailed lines of the files whose names are not hidden.
    pub fn print_visible_files_list(&self, theme: &Theme, out: &mut Vec<String>)
        ensures
            views(final(out)@) == views(old(out)@) + file_rows(
                self@.files,
                theme@,
                theme@.detail.visible_file,
            ),
    {
        file_lines(&self.files, theme, &theme.detail.visible_file, out);
    }

    /// Writes the detailed line of a file.
    pub fn print_list_file(file: &File, theme: &Theme, style: &Style, out: &mut Vec<String>)
        ensures
            views(final(out)@) == views(old(out)@).push(file_row(theme@, style@, file@)),
    {
        proof {
            reveal_strlit("1");
            assert("1"@ =~= seq!['1']);
        }
        let permissions = file.permissions();
        let size = file.formatted_size();
        let created = file.created_time();
        let text = row_text(
            theme.reset.as_str(),
            style,
            permissions.as_str(),
            "1",
            size.as_str(),
            created.as_str(),
            file.name.as_str(),
        );
        emit(out, text);
    }

    /// Writes the detailed line of a folder.
    pub fn print_list_folder(folder: &Folder, theme: &Theme, style: &Style, out: &mut Vec<String>)
        ensures
            views(final(out)@) == views(old(out)@).push(folder_row(theme@, style@, folder@)),
    {
        proof {
            reveal_strlit("-");
            assert("-"@ =~= seq!['-']);
        }
        let permissions = folder.permissions();
        let count = decimal_string(folder.children() as u64);
        let created = folder.created_time();
        let text = row_text(
            theme.reset.as_str(),
            style,
            permissions.as_str(),
            count.as_str(),
            "-",
            created.as_str(),
            folder.name.as_str(),
        );
        emit(out, text);
    }
}

} // verus!
