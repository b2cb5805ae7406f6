use dirview::layout::Cursor;
use dirview::probe::{EntryKind, Listing, Metadata, Moment, Probe, Scan};
use dirview::style::{Category, Palette, Style, Theme};
use dirview::args::terminal_width;
use dirview::{Cli, Directory, Error};

fn at(secs: i64) -> Moment {
    Moment { before_epoch: secs < 0, secs: secs.unsigned_abs(), nanos: 0 }
}

fn probe(name: &str, kind: EntryKind) -> Probe {
    Probe { name: Some(name.to_string()), kind, metadata: None, children: None }
}

fn folder(name: &str) -> Probe {
    probe(name, EntryKind::Folder)
}

fn file(name: &str) -> Probe {
    probe(name, EntryKind::File)
}

fn scan(entries: Vec<Probe>) -> Scan {
    Scan { root: folder("work"), parent: Some(folder("home")), entries: Listing::Complete(entries) }
}

fn plain_palette() -> Palette {
    Palette {
        hidden_folder: Style::new("<hd>", "</hd>"),
        visible_folder: Style::new("<d>", "</d>"),
        hidden_file: Style::new("<hf>", "</hf>"),
        visible_file: Style::new("<f>", "</f>"),
    }
}

fn plain_theme() -> Theme {
    Theme { reset: "|".to_string(), grid: plain_palette(), detail: plain_palette() }
}

fn grid(entries: Vec<Probe>, width: usize, all: bool) -> Vec<String> {
    Directory::from(&scan(entries), all, false)
        .unwrap()
        .display_with(&plain_theme(), width, all, false)
        .unwrap()
}

#[test]
fn grid_shows_folders_and_files_in_blocks_of_their_own() {
    let directory = Directory::from(&scan(vec![file("beta.txt"), folder("alpha")]), false, false)
        .unwrap();
    let pieces = directory.display_output(80, false, false).unwrap();
    assert_eq!(
        pieces,
        vec![
            "\x1B[92m\u{ea83} \x1B[0 \x1B[32malpha       \x1B[0".to_string(),
            "\n".to_string(),
            "\x1B[94m\u{ea7b} \x1B[0 \x1B[0mbeta.txt    \x1B[0".to_string(),
            "\n".to_string(),
        ]
    );
    let text = pieces.concat();
    let lines: Vec<&str> = text.lines().collect();
    assert_eq!(lines.len(), 2);
    assert!(lines[0].contains("alpha") && !lines[0].contains("beta.txt"));
    assert!(lines[1].contains("beta.txt") && !lines[1].contains("alpha"));
}

#[test]
fn grid_shows_hidden_files_before_the_others_in_their_own_style() {
    let directory = Directory::from(&scan(vec![file("notes.txt"), file(".env")]), true, false)
        .unwrap();
    let pieces = directory.display_output(80, true, false).unwrap();
    assert_eq!(
        pieces,
        vec![
            "\x1B[94m\u{ea7b} \x1B[0 \x1B[96m.env         \x1B[0".to_string(),
            "\x1B[94m\u{ea7b} \x1B[0 \x1B[0mnotes.txt    \x1B[0".to_string(),
            "\n".to_string(),
        ]
    );
}

#[test]
fn detail_shows_hidden_files_before_the_others() {
    let directory = Directory::from(&scan(vec![file("notes.txt"), file(".env")]), true, true)
        .unwrap();
    let pieces = directory.display_with(&plain_theme(), 80, true, true).unwrap();
    assert_eq!(pieces.len(), 2);
    assert!(pieces[0].contains("<hf>.env"));
    assert!(pieces[1].contains("<f>notes.txt"));
}

#[test]
fn an_empty_directory_shows_nothing() {
    for all in [false, true] {
        for list in [false, true] {
            let directory = Directory::from(&scan(vec![]), all, list).unwrap();
            assert_eq!(directory.display_output(80, all, list), Ok(Vec::new()));
            assert_eq!(directory.display_output(0, all, list), Ok(Vec::new()));
        }
    }
    assert_eq!(Directory::empty(10).display_output(80, true, true), Ok(Vec::new()));
}

#[test]
fn a_directory_of_hidden_entries_alone_shows_nothing_unless_asked() {
    let entries = vec![file(".env"), folder(".git")];
    for list in [false, true] {
        let directory = Directory::from(&scan(entries.clone()), false, list).unwrap();
        assert_eq!(directory.display_output(80, false, list), Ok(Vec::new()));
    }
}

#[test]
fn grid_pads_each_name_to_the_longest_and_four_more() {
    let pieces = grid(vec![file("a"), file("abcdef")], 80, false);
    assert_eq!(pieces, vec!["<f>a         </f>", "<f>abcdef    </f>", "\n"]);
}

#[test]
fn grid_breaks_the_line_when_a_cell_does_not_fit() {
    // Names of one byte: a column of 5 and cells of 9.
    let entries = vec![file("a"), file("b"), file("c"), file("d"), file("e")];
    let pieces = grid(entries.clone(), 20, false);
    assert_eq!(
        pieces,
        vec![
            "<f>a    </f>",
            "<f>b    </f>",
            "\n",
            "<f>c    </f>",
            "<f>d    </f>",
            "\n",
            "<f>e    </f>",
            "\n",
        ]
    );
    let exact = grid(entries, 18, false);
    assert_eq!(exact[1], "<f>b    </f>");
    assert_eq!(exact[2], "\n");
}

#[test]
fn grid_on_a_terminal_too_narrow_breaks_before_every_cell() {
    let pieces = grid(vec![file("a"), file("b")], 8, false);
    assert_eq!(pieces, vec!["\n", "<f>a    </f>", "\n", "<f>b    </f>", "\n"]);
}

#[test]
fn grid_starts_the_block_of_files_on_a_line_of_its_own() {
    let pieces = grid(vec![folder("a"), folder("b"), file("c")], 27, false);
    assert_eq!(pieces, vec!["<d>a    </d>", "<d>b    </d>", "\n", "<f>c    </f>", "\n"]);
}

#[test]
fn grid_with_hidden_shows_the_pseudo_entries_first() {
    let pieces = grid(vec![folder("src"), folder(".git"), file(".env"), file("a")], 200, true);
    assert_eq!(
        pieces,
        vec![
            "<hd>..      </hd>",
            "<hd>.       </hd>",
            "<hd>.git    </hd>",
            "<d>src     </d>",
            "\n",
            "<hf>.env    </hf>",
            "<f>a       </f>",
            "\n",
        ]
    );
}

#[test]
fn grid_without_folders_shows_no_pseudo_entries() {
    let pieces = grid(vec![file("a")], 200, true);
    assert_eq!(pieces, vec!["<f>a     </f>", "\n"]);
}

#[test]
fn entries_of_one_kind_are_shown_by_name() {
    let pieces = grid(vec![file("pear"), file("apple"), file("Banana"), file("fig")], 500, false);
    let names: Vec<String> = pieces
        .iter()
        .filter(|p| p.as_str() != "\n")
        .map(|p| p.trim_start_matches("<f>").trim_end_matches("</f>").trim().to_string())
        .collect();
    let mut sorted = names.clone();
    sorted.sort();
    assert_eq!(names, sorted);
    assert_eq!(names, vec!["Banana", "apple", "fig", "pear"]);
}

#[test]
fn detail_line_of_a_file() {
    let meta = Metadata {
        is_dir: false,
        mode: 0o644,
        len: 2048,
        created: Some(at(1_431_648_000)),
        modified: None,
    };
    let entry = Probe {
        name: Some("a.txt".to_string()),
        kind: EntryKind::File,
        metadata: Some(meta),
        children: None,
    };
    let directory = Directory::from(&scan(vec![entry]), false, true).unwrap();
    let pieces = directory.display_output(80, false, true).unwrap();
    let expected = format!(
        "\x1B[0m{: <10} {: <4}{: <6} {} \x1B[0 \x1B[94m\u{ea7b} \x1B[0 \x1B[34m{: <25} \x1B[0\n",
        "-rw-r--r--", 1, "2k", "May 15  0:0 ", "a.txt"
    );
    assert_eq!(pieces, vec![expected]);
    assert_eq!(
        pieces[0],
        "\x1B[0m-rw-r--r-- 1   2k     May 15  0:0  \x1B[0 \x1B[94m\u{ea7b} \x1B[0 \x1B[34ma.txt                     \x1B[0\n"
    );
}

#[test]
fn detail_line_of_a_folder() {
    let meta = Metadata { is_dir: true, mode: 0o755, len: 4096, created: Some(at(0)), modified: None };
    let entry = Probe {
        name: Some("src".to_string()),
        kind: EntryKind::Folder,
        metadata: Some(meta),
        children: Some(12),
    };
    let directory = Directory::from(&scan(vec![entry]), false, true).unwrap();
    let pieces = directory.display_output(80, false, true).unwrap();
    let expected = format!(
        "\x1B[0m{: <10} {: <4}{: <6} {} \x1B[0 \x1B[92m\u{ea83} \x1B[0 \x1B[1;32m{: <25} \x1B[0\n",
        "drwxr-xr-x", 12, '-', "Jan  1  0:0 ", "src"
    );
    assert_eq!(pieces, vec![expected]);
}

#[test]
fn detail_lists_folders_then_files_without_a_gap() {
    let entries = vec![file("b"), folder("a"), file(".c"), folder(".d")];
    let directory = Directory::from(&scan(entries), true, true).unwrap();
    let pieces = directory.display_with(&plain_theme(), 80, true, true).unwrap();
    let names: Vec<&str> = pieces
        .iter()
        .map(|line| {
            let start = line.find('>').unwrap() + 1;
            let end = line.rfind("</").unwrap();
            line[start..end].trim()
        })
        .collect();
    assert_eq!(names, vec!["home", "work", ".d", "a", ".c", "b"]);
    for line in &pieces {
        assert!(line.ends_with('\n'));
        assert_eq!(line.matches('\n').count(), 1);
        assert!(line.starts_with('|'));
    }
    assert!(pieces[0].contains("<hd>home"));
    assert!(pieces[3].contains("<d>a"));
    assert!(pieces[4].contains("<hf>.c"));
    assert!(pieces[5].contains("<f>b"));
}

#[test]
fn detail_without_hidden_leaves_the_pseudo_entries_out() {
    let entries = vec![file("b"), folder("a")];
    let directory = Directory::from(&scan(entries), false, true).unwrap();
    let pieces = directory.display_with(&plain_theme(), 80, false, true).unwrap();
    assert_eq!(pieces.len(), 2);
    assert!(pieces[0].contains("<d>a"));
    assert!(pieces[1].contains("<f>b"));
}

#[test]
fn detail_of_a_root_leaves_the_line_of_the_parent_out() {
    let root = Probe { name: None, kind: EntryKind::Folder, metadata: None, children: None };
    let scan = Scan { root, parent: None, entries: Listing::Complete(vec![folder("etc")]) };
    let directory = Directory::from(&scan, true, true).unwrap();
    let pieces = directory.display_with(&plain_theme(), 80, true, true).unwrap();
    assert_eq!(pieces.len(), 2);
    assert!(pieces[0].contains("<hd>-"));
    assert!(pieces[1].contains("<d>etc"));
}

#[test]
fn detail_without_folders_shows_no_pseudo_entries() {
    let directory = Directory::from(&scan(vec![file("a")]), true, true).unwrap();
    let pieces = directory.display_with(&plain_theme(), 80, true, true).unwrap();
    assert_eq!(pieces.len(), 1);
    assert!(pieces[0].contains("<f>a"));
}

#[test]
fn detail_with_long_values_is_never_cut() {
    let long = "a-name-that-is-longer-than-twenty-five-bytes";
    let directory = Directory::from(&scan(vec![file(long)]), false, true).unwrap();
    let pieces = directory.display_with(&plain_theme(), 80, false, true).unwrap();
    assert!(pieces[0].contains(&format!("<f>{} </f>", long)));
}

#[test]
fn detail_of_hidden_folders_needs_the_directory_itself() {
    let directory = Directory::from(&scan(vec![folder("a")]), false, true).unwrap();
    assert_eq!(directory.display_output(80, true, true), Err(Error::MissingCurrentDir));
    assert!(directory.display_output(80, false, true).is_ok());
    assert!(directory.display_output(80, true, false).is_ok());
    let files_only = Directory::from(&scan(vec![file("a")]), false, true).unwrap();
    assert!(files_only.display_output(80, true, true).is_ok());
}

#[test]
fn printing_appends_to_what_was_written() {
    let directory = Directory::from(&scan(vec![file("a"), folder("b")]), false, false).unwrap();
    let theme = plain_theme();
    let mut out = vec!["before".to_string()];
    directory.print_nlist(&theme, &mut out, 80, false);
    assert_eq!(out, vec!["before", "<d>b    </d>", "\n", "<f>a    </f>", "\n"]);
    let mut out = vec!["before".to_string()];
    assert_eq!(directory.print_list(&theme, &mut out, false), Ok(()));
    assert_eq!(out.len(), 3);
    let mut out = vec!["before".to_string()];
    assert_eq!(directory.print_list(&theme, &mut out, true), Err(Error::MissingCurrentDir));
    assert_eq!(out, vec!["before"]);
}

#[test]
fn the_four_grid_printers_share_one_cursor() {
    let entries = vec![folder("a"), folder(".b"), file("c"), file(".d")];
    let directory = Directory::from(&scan(entries), true, false).unwrap();
    let theme = plain_theme();
    let mut out = Vec::new();
    let cursor = directory.print_hidden_folders(&theme, &mut out, Cursor::start(), 100);
    assert_eq!(cursor.offset, 30);
    let cursor = directory.print_visible_folders(&theme, &mut out, cursor, 100);
    assert_eq!(cursor.offset, 40);
    let cursor = directory.print_hidden_files(&theme, &mut out, cursor, 100);
    assert_eq!(cursor.offset, 50);
    let cursor = directory.print_visible_files(&theme, &mut out, cursor, 55);
    assert_eq!(cursor.offset, 10);
    assert_eq!(
        out,
        vec![
            "<hd>..    </hd>",
            "<hd>.     </hd>",
            "<hd>.b    </hd>",
            "<d>a     </d>",
            "<hf>.d    </hf>",
            "\n",
            "<f>c     </f>",
        ]
    );
}

#[test]
fn the_four_list_printers_write_their_own_sets() {
    let entries = vec![folder("a"), folder(".b"), file("c"), file(".d")];
    let directory = Directory::from(&scan(entries), true, true).unwrap();
    let theme = plain_theme();
    let mut out = Vec::new();
    assert_eq!(directory.print_hidden_folders_list(&theme, &mut out), Ok(()));
    assert_eq!(out.len(), 3);
    directory.print_visible_folders_list(&theme, &mut out);
    assert_eq!(out.len(), 4);
    directory.print_hidden_files_list(&theme, &mut out);
    assert_eq!(out.len(), 5);
    directory.print_visible_files_list(&theme, &mut out);
    assert_eq!(out.len(), 6);
    assert!(out[2].contains("<hd>.b"));
    assert!(out[3].contains("<d>a"));
    assert!(out[4].contains("<hf>.d"));
    assert!(out[5].contains("<f>c"));
}

#[test]
fn cursor_places_cells_while_they_fit() {
    let first = Cursor::start().place(20, 9);
    assert!(!first.wrapped);
    assert_eq!(first.column, 0);
    assert_eq!(first.next.offset, 9);
    let second = first.next.place(20, 9);
    assert!(!second.wrapped);
    assert_eq!(second.column, 9);
    assert_eq!(second.next.offset, 18);
    let third = second.next.place(20, 9);
    assert!(third.wrapped);
    assert_eq!(third.column, 0);
    assert_eq!(third.next.offset, 9);
}

#[test]
fn cursor_wraps_exactly_when_less_than_a_cell_is_left() {
    assert!(!Cursor { offset: 11 }.place(20, 9).wrapped);
    assert!(Cursor { offset: 12 }.place(20, 9).wrapped);
    assert!(Cursor { offset: 25 }.place(20, 9).wrapped);
    assert!(Cursor { offset: 0 }.place(8, 9).wrapped);
    assert!(!Cursor { offset: 0 }.place(9, 9).wrapped);
    assert!(!Cursor { offset: usize::MAX - 9 }.place(usize::MAX, 9).wrapped);
    assert!(Cursor { offset: usize::MAX }.place(usize::MAX, usize::MAX).wrapped);
}

#[test]
fn palette_gives_each_kind_its_style() {
    let palette = plain_palette();
    assert_eq!(palette.style(Category::HiddenFolder).lead, "<hd>");
    assert_eq!(palette.style(Category::VisibleFolder).lead, "<d>");
    assert_eq!(palette.style(Category::HiddenFile).lead, "<hf>");
    assert_eq!(palette.style(Category::VisibleFile).tail, "</f>");
}

#[test]
fn the_ansi_theme_tells_hidden_from_visible_in_a_grid() {
    let theme = Theme::ansi();
    assert_eq!(theme.reset, "\x1B[0m");
    assert_eq!(theme.grid.hidden_folder.lead, "\x1B[1;92m\u{ea83} \x1B[0 \x1B[1;96m");
    assert_eq!(theme.grid.visible_folder.lead, "\x1B[92m\u{ea83} \x1B[0 \x1B[32m");
    assert_eq!(theme.grid.hidden_file.lead, "\x1B[94m\u{ea7b} \x1B[0 \x1B[96m");
    assert_eq!(theme.grid.visible_file.lead, "\x1B[94m\u{ea7b} \x1B[0 \x1B[0m");
    assert_eq!(theme.detail.visible_folder.lead, "\x1B[0 \x1B[92m\u{ea83} \x1B[0 \x1B[1;32m");
    assert_eq!(theme.detail.visible_file.lead, "\x1B[0 \x1B[94m\u{ea7b} \x1B[0 \x1B[34m");
    assert_eq!(theme.grid.visible_file.tail, "\x1B[0");
}

#[test]
fn cli_runs_a_listing_with_its_own_flags() {
    let cli = Cli { path: None, all: true, list: true };
    let pieces = cli.run(&scan(vec![folder("a"), file(".b")]), 80).unwrap();
    assert_eq!(pieces.len(), 4);
    assert!(pieces[0].contains("home"));
    assert!(pieces[1].contains("work"));
    let cli = Cli { path: Some("/tmp".to_string()), all: false, list: false };
    let pieces = cli.run(&scan(vec![folder("a"), file(".b")]), 80).unwrap();
    assert_eq!(pieces, vec!["\x1B[92m\u{ea83} \x1B[0 \x1B[32ma    \x1B[0", "\n"]);
}

#[test]
fn cli_passes_a_failed_read_on() {
    let cli = Cli { path: None, all: false, list: false };
    let unreadable = Scan { root: folder("work"), parent: None, entries: Listing::Unreadable };
    assert_eq!(cli.run(&unreadable, 80), Err(Error::DirectoryRead));
    let broken = Scan { root: folder("work"), parent: None, entries: Listing::Interrupted };
    assert_eq!(cli.run(&broken, 80), Err(Error::EntryRead));
}

#[test]
fn cli_turns_a_path_to_a_file_down() {
    let cli = Cli { path: Some("notes.txt".to_string()), all: false, list: false };
    let not_a_directory = Scan { root: file("notes.txt"), parent: None, entries: Listing::Unreadable };
    assert_eq!(cli.run(&not_a_directory, 80), Err(Error::InvalidInput));
    let odd = Scan { root: file("notes.txt"), parent: None, entries: Listing::Complete(vec![]) };
    assert_eq!(cli.run(&odd, 80), Err(Error::InvalidInput));
}

#[test]
fn terminal_width_is_the_first_of_the_dimensions() {
    assert_eq!(terminal_width(Some((80, 24))), Ok(80));
    assert_eq!(terminal_width(Some((0, 0))), Ok(0));
    assert_eq!(terminal_width(None), Err(Error::TerminalSize));
}

#[test]
fn detail_of_a_directory_named_dash_shows_its_parent() {
    let scan = Scan {
        root: folder("-"),
        parent: Some(folder("home")),
        entries: Listing::Complete(vec![folder("sub")]),
    };
    let directory = Directory::from(&scan, true, true).unwrap();
    let pieces = directory.display_with(&plain_theme(), 80, true, true).unwrap();
    assert_eq!(pieces.len(), 3);
    assert!(pieces[0].contains("<hd>home"));
    assert!(pieces[1].contains("<hd>-"));
    assert!(pieces[2].contains("<d>sub"));
}

#[test]
fn detail_of_a_directory_without_a_name_shows_its_parent() {
    let root = Probe { name: None, kind: EntryKind::Folder, metadata: None, children: None };
    let scan = Scan {
        root,
        parent: Some(folder("home")),
        entries: Listing::Complete(vec![folder("sub"), folder(".git")]),
    };
    let directory = Directory::from(&scan, true, true).unwrap();
    let pieces = directory.display_with(&plain_theme(), 80, true, true).unwrap();
    assert_eq!(pieces.len(), 4);
    assert!(pieces[0].contains("<hd>home"));
    assert!(pieces[1].contains("<hd>-"));
    assert!(pieces[2].contains("<hd>.git"));
    assert!(pieces[3].contains("<d>sub"));
}

#[test]
fn detail_of_a_named_directory_without_parent_shows_it_once() {
    let scan = Scan {
        root: folder("x"),
        parent: None,
        entries: Listing::Complete(vec![folder("sub")]),
    };
    let directory = Directory::from(&scan, true, true).unwrap();
    assert!(!directory.has_parent());
    let pieces = directory.display_with(&plain_theme(), 80, true, true).unwrap();
    assert_eq!(pieces.len(), 2);
    assert!(pieces[0].contains("<hd>x"));
    assert!(pieces[1].contains("<d>sub"));
}

#[test]
fn detail_with_a_parent_has_two_lines_before_the_entries() {
    let entries = vec![folder("a"), folder(".b"), file("c"), file(".d"), file("e")];
    let directory = Directory::from(&scan(entries), true, true).unwrap();
    assert!(directory.has_parent());
    let pieces = directory.display_output(80, true, true).unwrap();
    assert_eq!(pieces.len(), 2 + 5);
    let order = ["home", "work", ".b", "a", ".d", "c", "e"];
    for (piece, name) in pieces.iter().zip(order) {
        assert!(piece.contains(&format!("m{: <25} \x1B[0\n", name)));
        assert_eq!(piece.matches('\n').count(), 1);
    }
}

#[test]
fn the_ansi_theme_tells_hidden_from_visible_in_detailed_lines() {
    let theme = Theme::ansi();
    assert_eq!(theme.detail.hidden_folder.lead, "\x1B[0 \x1B[1;92m\u{ea83} \x1B[0 \x1B[1;96m");
    assert_eq!(theme.detail.visible_folder.lead, "\x1B[0 \x1B[92m\u{ea83} \x1B[0 \x1B[1;32m");
    assert_eq!(theme.detail.hidden_file.lead, "\x1B[0 \x1B[94m\u{ea7b} \x1B[0 \x1B[96m");
    assert_eq!(theme.detail.visible_file.lead, "\x1B[0 \x1B[94m\u{ea7b} \x1B[0 \x1B[34m");
    assert_ne!(theme.detail.hidden_folder.lead, theme.detail.visible_folder.lead);
    assert_ne!(theme.detail.hidden_file.lead, theme.detail.visible_file.lead);
    assert_ne!(theme.grid.hidden_folder.lead, theme.grid.visible_folder.lead);
    assert_ne!(theme.grid.hidden_file.lead, theme.grid.visible_file.lead);
}

#[test]
fn detail_writes_a_hidden_file_in_the_style_of_hidden_files() {
    let directory = Directory::from(&scan(vec![file("notes.txt"), file(".env")]), true, true)
        .unwrap();
    let theme = Theme::ansi();
    let mut hidden = Vec::new();
    directory.print_hidden_files_list(&theme, &mut hidden);
    let mut visible = Vec::new();
    directory.print_visible_files_list(&theme, &mut visible);
    let line = |name: &str, colour: &str| {
        format!(
            "\x1B[0m{: <10} {: <4}{: <6} {} \x1B[0 \x1B[94m\u{ea7b} \x1B[0 \x1B[{}m{: <25} \x1B[0\n",
            "----------", 1, "0b", "Jan  1  0:0 ", colour, name
        )
    };
    assert_eq!(hidden, vec![line(".env", "96")]);
    assert_eq!(visible, vec![line("notes.txt", "34")]);
    assert_ne!(hidden[0].replace(".env     ", "notes.txt"), visible[0]);
}

#[test]
fn what_is_neither_file_nor_folder_is_listed_among_the_files() {
    let socket = probe("socket", EntryKind::Other);
    let hidden = probe(".link", EntryKind::Other);
    let entries = vec![folder("a"), socket, file("b"), hidden];
    let directory = Directory::from(&scan(entries), true, false).unwrap();
    let names = |files: &Vec<dirview::File>| -> Vec<String> {
        files.iter().map(|f| f.name.clone()).collect()
    };
    assert_eq!(names(directory.files()), vec!["b", "socket"]);
    assert_eq!(names(directory.hidden_files()), vec![".link"]);
    assert_eq!(directory.folders().len(), 1);
    assert!(directory.hidden_folders().is_empty());
    let pieces = directory.display_with(&plain_theme(), 200, true, false).unwrap();
    assert!(pieces.contains(&"<f>socket    </f>".to_string()));
    assert!(pieces.contains(&"<hf>.link     </hf>".to_string()));
}

#[test]
fn cli_turns_down_a_path_to_what_is_no_directory() {
    let cli = Cli { path: Some("socket".to_string()), all: true, list: true };
    let odd = Scan {
        root: probe("socket", EntryKind::Other),
        parent: Some(folder("run")),
        entries: Listing::Unreadable,
    };
    assert_eq!(cli.run(&odd, 80), Err(Error::InvalidInput));
}
