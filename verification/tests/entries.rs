use dirview::probe::{EntryKind, Metadata, Moment, Probe};
use dirview::nameset::Named;
use dirview::order::Rank;
use dirview::{File, Folder};

fn at(secs: i64) -> Moment {
    Moment { before_epoch: secs < 0, secs: secs.unsigned_abs(), nanos: 0 }
}

fn file_with_size(size: u64) -> File {
    File {
        name: "test_file.txt".to_string(),
        size: Some(size),
        permissions: None,
        created_time: None,
        modified_time: None,
    }
}

trait Renamed {
    fn named(self, name: &str) -> Self;
}

impl Renamed for File {
    fn named(mut self, name: &str) -> Self {
        self.name = name.to_string();
        self
    }
}

fn probe(name: &str, kind: EntryKind, metadata: Option<Metadata>, children: Option<usize>) -> Probe {
    Probe { name: Some(name.to_string()), kind, metadata, children }
}

#[test]
fn file_test_permissions() {
    let file = File {
        name: "test_file.txt".to_string(),
        size: Some(0),
        permissions: Some("rw-r--r--".to_string()),
        created_time: Some("2021-01-01".to_string()),
        modified_time: Some("2021-02-01".to_string()),
    };

    assert_eq!(file.permissions(), "rw-r--r--");
}

#[test]
fn test_formatted_size() {
    let file = File {
        name: "test_file.txt".to_string(),
        size: Some(1024),
        permissions: None,
        created_time: None,
        modified_time: None,
    };

    assert_eq!(file.formatted_size(), "1k");
}

#[test]
fn file_test_created_time() {
    let file = File {
        name: "test_file.txt".to_string(),
        size: Some(0),
        permissions: None,
        created_time: Some("2021-01-01".to_string()),
        modified_time: None,
    };

    assert_eq!(file.created_time(), "2021-01-01");
}

#[test]
fn test_modified_time() {
    let file = File {
        name: "test_file.txt".to_string(),
        size: Some(0),
        permissions: None,
        created_time: None,
        modified_time: Some("2021-02-01".to_string()),
    };

    assert_eq!(file.modified_time(), "2021-02-01");
}

#[test]
fn folder_test_permissions() {
    let folder = Folder {
        name: "test_folder".to_string(),
        permissions: Some("rw-r--r--".to_string()),
        children: None,
        created_time: None,
    };

    assert_eq!(folder.permissions(), "rw-r--r--");
}

#[test]
fn test_children() {
    let folder = Folder {
        name: "test_folder".to_string(),
        permissions: None,
        children: Some(5),
        created_time: None,
    };

    assert_eq!(folder.children(), 5);
}

#[test]
fn folder_test_created_time() {
    let folder = Folder {
        name: "test_folder".to_string(),
        permissions: None,
        children: None,
        created_time: Some("2021-01-01".to_string()),
    };

    assert_eq!(folder.created_time(), "2021-01-01");
}

#[test]
fn file_getters_fall_back_to_empty_text_and_zero() {
    let file = File::new("bare".to_string(), None, None, None, None);
    assert_eq!(file.permissions(), "");
    assert_eq!(file.created_time(), "");
    assert_eq!(file.modified_time(), "");
    assert_eq!(file.size(), 0);
    assert_eq!(file.formatted_size(), "0b");
}

#[test]
fn folder_getters_fall_back_to_dashes_zero_and_empty_text() {
    let folder = Folder::new("bare".to_string(), None, None, None);
    assert_eq!(folder.permissions(), "----------");
    assert_eq!(folder.children(), 0);
    assert_eq!(folder.created_time(), "");
}

#[test]
fn formatted_size_of_zero_is_in_bytes() {
    assert_eq!(file_with_size(0).formatted_size(), "0b");
}

#[test]
fn formatted_size_just_below_a_kilobyte_stays_in_bytes() {
    assert_eq!(file_with_size(1023).formatted_size(), "1023b");
}

#[test]
fn formatted_size_of_a_megabyte() {
    assert_eq!(file_with_size(1_048_576).formatted_size(), "1m");
}

#[test]
fn formatted_size_cuts_down_and_does_not_round() {
    assert_eq!(file_with_size(2047).formatted_size(), "1k");
    assert_eq!(file_with_size(1_048_575).formatted_size(), "1023k");
}

#[test]
fn formatted_size_walks_through_every_unit() {
    assert_eq!(file_with_size(1 << 30).formatted_size(), "1g");
    assert_eq!(file_with_size(1 << 40).formatted_size(), "1t");
    assert_eq!(file_with_size(1 << 50).formatted_size(), "1p");
}

#[test]
fn formatted_size_stops_at_the_largest_unit() {
    assert_eq!(file_with_size(1 << 60).formatted_size(), "1024p");
    assert_eq!(file_with_size(u64::MAX).formatted_size(), "16383p");
}

#[test]
fn file_from_without_details_keeps_the_name_alone() {
    let meta = Metadata { is_dir: false, mode: 0o644, len: 13, created: Some(at(0)), modified: Some(at(0)) };
    let file = File::from(&probe("notes.txt", EntryKind::File, Some(meta), None), false);
    assert_eq!(file.name, "notes.txt");
    assert_eq!(file.size, None);
    assert_eq!(file.permissions, None);
    assert_eq!(file.created_time, None);
    assert_eq!(file.modified_time, None);
}

#[test]
fn file_from_with_details_reads_the_attributes() {
    let meta = Metadata {
        is_dir: false,
        mode: 0o100644,
        len: 13,
        created: Some(at(1_431_648_000)),
        modified: Some(at(1_700_000_000)),
    };
    let file = File::from(&probe("notes.txt", EntryKind::File, Some(meta), None), true);
    assert_eq!(file.name, "notes.txt");
    assert_eq!(file.size, Some(13));
    assert_eq!(file.permissions, Some("-rw-r--r--".to_string()));
    assert_eq!(file.created_time, Some("May 15  0:0 ".to_string()));
    assert_eq!(file.modified_time, Some("Nov 14 22:13".to_string()));
}

#[test]
fn file_from_with_unreadable_attributes_uses_stand_ins() {
    let file = File::from(&probe("locked", EntryKind::File, None, None), true);
    assert_eq!(file.name, "locked");
    assert_eq!(file.size, Some(0));
    assert_eq!(file.permissions, Some("----------".to_string()));
    assert_eq!(file.created_time, Some("Jan  1  0:0 ".to_string()));
    assert_eq!(file.modified_time, Some("Jan  1  0:0 ".to_string()));
}

#[test]
fn file_from_without_a_name_is_shown_as_a_dash() {
    let nameless = Probe { name: None, kind: EntryKind::File, metadata: None, children: None };
    assert_eq!(File::from(&nameless, false).name, "-");
}

#[test]
fn folder_from_with_details_counts_the_children() {
    let meta = Metadata { is_dir: true, mode: 0o40755, len: 4096, created: Some(at(0)), modified: None };
    let folder = Folder::from(&probe("src", EntryKind::Folder, Some(meta), Some(3)), true);
    assert_eq!(folder.name, "src");
    assert_eq!(folder.permissions, Some("drwxr-xr-x".to_string()));
    assert_eq!(folder.children, Some(3));
    assert_eq!(folder.created_time, Some("Jan  1  0:0 ".to_string()));
}

#[test]
fn folder_from_with_nothing_readable_uses_stand_ins() {
    let folder = Folder::from(&probe("locked", EntryKind::Folder, None, None), true);
    assert_eq!(folder.permissions, Some("----------".to_string()));
    assert_eq!(folder.children, Some(0));
    assert_eq!(folder.created_time, Some("Jan  1  0:0 ".to_string()));
}

#[test]
fn folder_from_without_details_keeps_the_name_alone() {
    let meta = Metadata { is_dir: true, mode: 0o755, len: 0, created: None, modified: None };
    let folder = Folder::from(&probe("src", EntryKind::Folder, Some(meta), Some(3)), false);
    assert_eq!(folder.name, "src");
    assert_eq!(folder.permissions, None);
    assert_eq!(folder.children, None);
    assert_eq!(folder.created_time, None);
}

#[test]
fn insert_keeps_a_row_in_the_order_of_the_names() {
    let mut row: Vec<File> = Vec::new();
    for name in ["m", "a", "z", "b", "ab", "B"] {
        assert!(dirview::nameset::insert(&mut row, file_with_size(0).named(name)));
    }
    let names: Vec<&str> = row.iter().map(|f| f.name.as_str()).collect();
    assert_eq!(names, vec!["B", "a", "ab", "b", "m", "z"]);
}

#[test]
fn insert_drops_an_entry_that_is_there() {
    let mut row: Vec<Folder> = Vec::new();
    let first = Folder::new("src".to_string(), None, Some(1), None);
    assert!(dirview::nameset::insert(&mut row, first.clone()));
    assert!(!dirview::nameset::insert(&mut row, first.clone()));
    assert_eq!(row, vec![first]);
}

#[test]
fn insert_keeps_entries_of_one_name_apart() {
    let two = Folder::new("src".to_string(), None, Some(2), None);
    let one = Folder::new("src".to_string(), None, Some(1), None);
    let none = Folder::new("src".to_string(), None, None, None);
    let mut row: Vec<Folder> = Vec::new();
    assert!(dirview::nameset::insert(&mut row, two.clone()));
    assert!(dirview::nameset::insert(&mut row, none.clone()));
    assert!(dirview::nameset::insert(&mut row, one.clone()));
    assert_eq!(row, vec![none.clone(), one.clone(), two.clone()]);
    let mut other: Vec<Folder> = Vec::new();
    for folder in [one, two, none] {
        assert!(dirview::nameset::insert(&mut other, folder));
    }
    assert_eq!(row, other);
}

#[test]
fn files_are_ordered_by_name_then_by_what_else_they_hold() {
    let file = |name: &str, size: Option<u64>, p: Option<&str>, c: Option<&str>, m: Option<&str>| {
        File::new(
            name.to_string(),
            size,
            p.map(str::to_string),
            c.map(str::to_string),
            m.map(str::to_string),
        )
    };
    let base = file("a", Some(1), Some("p"), Some("c"), Some("m"));
    assert_eq!(base.stands_to(&base), Rank::Same);
    assert_eq!(file("a", Some(9), None, None, None).stands_to(&file("b", None, None, None, None)), Rank::Before);
    assert_eq!(file("b", None, None, None, None).stands_to(&file("a", Some(9), None, None, None)), Rank::After);
    assert_eq!(file("a", None, Some("z"), None, None).stands_to(&file("a", Some(0), None, None, None)), Rank::Before);
    assert_eq!(file("a", Some(2), None, None, None).stands_to(&file("a", Some(10), None, None, None)), Rank::Before);
    assert_eq!(base.stands_to(&file("a", Some(1), Some("q"), None, None)), Rank::Before);
    assert_eq!(base.stands_to(&file("a", Some(1), Some("p"), Some("b"), Some("z"))), Rank::After);
    assert_eq!(base.stands_to(&file("a", Some(1), Some("p"), Some("c"), Some("n"))), Rank::Before);
    assert_eq!(base.stands_to(&file("a", Some(1), Some("p"), Some("c"), None)), Rank::After);
    assert_eq!(base.label(), "a");
}

#[test]
fn folders_are_ordered_by_name_then_by_what_else_they_hold() {
    let folder = |name: &str, p: Option<&str>, n: Option<usize>, c: Option<&str>| {
        Folder::new(name.to_string(), p.map(str::to_string), n, c.map(str::to_string))
    };
    let base = folder("a", Some("p"), Some(3), Some("c"));
    assert_eq!(base.stands_to(&base), Rank::Same);
    assert_eq!(base.stands_to(&folder("b", None, None, None)), Rank::Before);
    assert_eq!(base.stands_to(&folder("a", None, Some(9), Some("z"))), Rank::After);
    assert_eq!(base.stands_to(&folder("a", Some("p"), Some(4), None)), Rank::Before);
    assert_eq!(base.stands_to(&folder("a", Some("p"), None, Some("z"))), Rank::After);
    assert_eq!(base.stands_to(&folder("a", Some("p"), Some(3), Some("d"))), Rank::Before);
    assert_eq!(base.stands_to(&folder("a", Some("p"), Some(3), None)), Rank::After);
}
