use std::path::PathBuf;

use dirview::order::{
    rank, rank_numbers, rank_opt_counts, rank_opt_numbers, rank_opt_texts, Rank,
};
use dirview::probe::{Metadata, Moment};
use dirview::support::{
    civil_time, format_time, get_created_time, get_file_name, get_modified_time,
    parse_permissions, placeholder_permissions, triplet, whole_seconds, CivilTime,
};
use dirview::text::{decimal_string, name_len, padded_left, padded_right};
use dirview::Error;

fn at(secs: i64) -> Moment {
    Moment { before_epoch: secs < 0, secs: secs.unsigned_abs(), nanos: 0 }
}

fn meta(is_dir: bool, mode: u32) -> Metadata {
    Metadata { is_dir, mode, len: 0, created: None, modified: None }
}

#[test]
fn test_get_file_name() {
    let file_path = PathBuf::from("/path/to/some/file.txt");
    let file_name = get_file_name(file_path.file_name().and_then(|name| name.to_str()));
    assert_eq!(file_name, "file.txt");
}

#[test]
fn get_file_name_of_a_path_without_one_is_a_dash() {
    let root = PathBuf::from("/");
    assert_eq!(get_file_name(root.file_name().and_then(|name| name.to_str())), "-");
    assert_eq!(get_file_name(None), "-");
}

#[test]
fn permissions_of_a_directory_with_mode_755() {
    assert_eq!(parse_permissions(&meta(true, 0o755)), "drwxr-xr-x");
}

#[test]
fn permissions_of_a_file_with_mode_644() {
    assert_eq!(parse_permissions(&meta(false, 0o644)), "-rw-r--r--");
}

#[test]
fn permissions_ignore_the_bits_above_the_nine() {
    assert_eq!(parse_permissions(&meta(false, 0o100600)), "-rw-------");
    assert_eq!(parse_permissions(&meta(true, 0o40777)), "drwxrwxrwx");
    assert_eq!(parse_permissions(&meta(false, 0)), "----------");
}

#[test]
fn triplet_matches_the_table_of_eight() {
    assert_eq!(triplet(0, 4, 2, 1), "---");
    assert_eq!(triplet(1, 4, 2, 1), "--x");
    assert_eq!(triplet(2, 4, 2, 1), "-w-");
    assert_eq!(triplet(4, 4, 2, 1), "r--");
    assert_eq!(triplet(3, 4, 2, 1), "-wx");
    assert_eq!(triplet(5, 4, 2, 1), "r-x");
    assert_eq!(triplet(6, 4, 2, 1), "rw-");
    assert_eq!(triplet(7, 4, 2, 1), "rwx");
}

#[test]
fn triplet_reads_the_owner_bits_by_their_masks() {
    assert_eq!(triplet(0o750, 256, 128, 64), "rwx");
    assert_eq!(triplet(0o750, 32, 16, 8), "r-x");
    assert_eq!(triplet(0o750, 4, 2, 1), "---");
}

#[test]
fn placeholder_permissions_are_ten_dashes() {
    assert_eq!(placeholder_permissions(), "----------");
}

#[test]
fn created_time_of_a_known_moment() {
    let m = Metadata { is_dir: false, mode: 0, len: 0, created: Some(at(1_431_648_000)), modified: None };
    assert_eq!(get_created_time(Some(&m)), "May 15  0:0 ");
}

#[test]
fn modified_time_of_a_known_moment() {
    let m = Metadata { is_dir: false, mode: 0, len: 0, created: None, modified: Some(at(1_700_000_000)) };
    assert_eq!(get_modified_time(Some(&m)), "Nov 14 22:13");
}

#[test]
fn times_fall_back_to_the_epoch() {
    let m = meta(false, 0);
    assert_eq!(get_created_time(Some(&m)), "Jan  1  0:0 ");
    assert_eq!(get_modified_time(Some(&m)), "Jan  1  0:0 ");
    assert_eq!(get_created_time(None), "Jan  1  0:0 ");
    assert_eq!(get_modified_time(None), "Jan  1  0:0 ");
}

#[test]
fn times_are_twelve_columns_wide() {
    let stamps: [i64; 5] = [0, 86_399, 1_431_648_000, 1_703_462_399, -1];
    for stamp in stamps {
        let m = Metadata { is_dir: false, mode: 0, len: 0, created: Some(at(stamp)), modified: None };
        assert_eq!(get_created_time(Some(&m)).chars().count(), 12);
    }
}

#[test]
fn civil_time_of_a_moment_before_the_epoch() {
    let t = civil_time(Some(at(-1)));
    assert_eq!(t, CivilTime { month: 12, day: 31, hour: 23, minute: 59 });
}

#[test]
fn civil_time_beyond_the_calendar_is_the_epoch() {
    let epoch = CivilTime { month: 1, day: 1, hour: 0, minute: 0 };
    assert_eq!(civil_time(Some(at(i64::MAX))), epoch);
    assert_eq!(civil_time(Some(at(i64::MIN))), epoch);
    assert_eq!(civil_time(None), epoch);
}

#[test]
fn civil_time_is_not_the_time_stamp_itself() {
    let t = civil_time(Some(at(1_431_648_000)));
    assert_eq!(t, CivilTime { month: 5, day: 15, hour: 0, minute: 0 });
}

#[test]
fn format_time_names_each_month() {
    let names = [
        "Jan", "Feb", "Mar", "Apr", "May", "Jun", "Jul", "Aug", "Sep", "Oct", "Nov", "Dev",
    ];
    for (index, name) in names.iter().enumerate() {
        let t = CivilTime { month: index as u32 + 1, day: 10, hour: 11, minute: 12 };
        assert_eq!(format_time(t), format!("{} 10 11:12", name));
    }
}

#[test]
fn format_time_shows_a_dash_for_no_month() {
    let t = CivilTime { month: 0, day: 1, hour: 2, minute: 3 };
    assert_eq!(format_time(t), "  -  1  2:3 ");
    let t = CivilTime { month: 13, day: 1, hour: 2, minute: 3 };
    assert_eq!(format_time(t), "  -  1  2:3 ");
}

#[test]
fn format_time_agrees_with_the_format_of_the_standard_library() {
    let t = CivilTime { month: 7, day: 4, hour: 9, minute: 5 };
    assert_eq!(format_time(t), format!("{: >3} {: >2} {: >2}:{: <2}", "Jul", 4, 9, 5));
}

#[test]
fn decimal_string_writes_numbers_out() {
    assert_eq!(decimal_string(0), "0");
    assert_eq!(decimal_string(7), "7");
    assert_eq!(decimal_string(10), "10");
    assert_eq!(decimal_string(1023), "1023");
    assert_eq!(decimal_string(u64::MAX), "18446744073709551615");
}

#[test]
fn padding_fills_up_and_never_cuts() {
    assert_eq!(padded_right("ab", 4), "ab  ");
    assert_eq!(padded_left("ab", 4), "  ab");
    assert_eq!(padded_right("abcdef", 4), "abcdef");
    assert_eq!(padded_left("abcdef", 4), "abcdef");
    assert_eq!(padded_right("", 0), "");
}

#[test]
fn padding_counts_characters_not_bytes() {
    assert_eq!(padded_right("é", 3), "é  ");
    assert_eq!(name_len("é"), 2);
    assert_eq!(name_len("abc"), 3);
    assert_eq!(name_len(""), 0);
}

#[test]
fn rank_orders_names_byte_by_byte() {
    assert_eq!(rank("a", "b"), Rank::Before);
    assert_eq!(rank("b", "a"), Rank::After);
    assert_eq!(rank("a", "a"), Rank::Same);
    assert_eq!(rank("", ""), Rank::Same);
    assert_eq!(rank("", "a"), Rank::Before);
    assert_eq!(rank("a", "ab"), Rank::Before);
    assert_eq!(rank("ab", "a"), Rank::After);
    assert_eq!(rank("B", "a"), Rank::Before);
    assert_eq!(rank("z", "é"), Rank::Before);
}

#[test]
fn rank_agrees_with_the_order_of_strings() {
    let names = ["", ".", "..", ".env", "A", "a", "ab", "b", "é", "日本"];
    for a in names {
        for b in names {
            let expected = if a < b {
                Rank::Before
            } else if a == b {
                Rank::Same
            } else {
                Rank::After
            };
            assert_eq!(rank(a, b), expected);
        }
    }
}

#[test]
fn every_error_has_its_message() {
    assert_eq!(Error::InvalidInput.message(), "The given argument is a file and not a directory");
    assert_eq!(Error::TerminalSize.message(), "Cannot get the terminal window size");
    assert_eq!(Error::DirectoryRead.message(), "Cannot read the items in the directory");
    assert_eq!(Error::EntryRead.message(), "Cannot read the item in the directory");
    assert_eq!(Error::MissingCurrentDir.message(), "Cannot reference current directory object");
    assert_eq!(Error::Output.message(), "Cannot print the output in stdout");
}

#[test]
fn whole_seconds_round_down() {
    let after = Moment { before_epoch: false, secs: 5, nanos: 999_999_999 };
    assert_eq!(whole_seconds(&after), Some(5));
    let on_the_second = Moment { before_epoch: true, secs: 5, nanos: 0 };
    assert_eq!(whole_seconds(&on_the_second), Some(-5));
    let between = Moment { before_epoch: true, secs: 5, nanos: 1 };
    assert_eq!(whole_seconds(&between), Some(-6));
    let just_before = Moment { before_epoch: true, secs: 0, nanos: 500 };
    assert_eq!(whole_seconds(&just_before), Some(-1));
    let epoch = Moment { before_epoch: true, secs: 0, nanos: 0 };
    assert_eq!(whole_seconds(&epoch), Some(0));
}

#[test]
fn whole_seconds_stop_at_the_ends_of_the_count() {
    let last = Moment { before_epoch: false, secs: i64::MAX as u64, nanos: 0 };
    assert_eq!(whole_seconds(&last), Some(i64::MAX));
    let beyond = Moment { before_epoch: false, secs: i64::MAX as u64 + 1, nanos: 0 };
    assert_eq!(whole_seconds(&beyond), None);
    let first = Moment { before_epoch: true, secs: i64::MAX as u64 + 1, nanos: 0 };
    assert_eq!(whole_seconds(&first), Some(i64::MIN));
    let also_first = Moment { before_epoch: true, secs: i64::MAX as u64, nanos: 1 };
    assert_eq!(whole_seconds(&also_first), Some(i64::MIN));
    let before = Moment { before_epoch: true, secs: i64::MAX as u64 + 1, nanos: 1 };
    assert_eq!(whole_seconds(&before), None);
    let far = Moment { before_epoch: true, secs: u64::MAX, nanos: 0 };
    assert_eq!(whole_seconds(&far), None);
}

#[test]
fn a_moment_that_cannot_be_counted_is_shown_as_the_epoch() {
    let far = Moment { before_epoch: false, secs: u64::MAX, nanos: 0 };
    let m = Metadata { is_dir: false, mode: 0, len: 0, created: Some(far), modified: Some(far) };
    assert_eq!(get_created_time(Some(&m)), "Jan  1  0:0 ");
    assert_eq!(get_modified_time(Some(&m)), "Jan  1  0:0 ");
}

#[test]
fn a_moment_before_the_epoch_counts_for_the_second_before_it() {
    let m = Metadata {
        is_dir: false,
        mode: 0,
        len: 0,
        created: Some(Moment { before_epoch: true, secs: 0, nanos: 1 }),
        modified: None,
    };
    assert_eq!(get_created_time(Some(&m)), "Dev 31 23:59");
}

#[test]
fn values_that_may_be_absent_are_ordered_with_the_absent_first() {
    assert_eq!(rank_numbers(1, 2), Rank::Before);
    assert_eq!(rank_numbers(2, 2), Rank::Same);
    assert_eq!(rank_numbers(3, 2), Rank::After);
    assert_eq!(rank_opt_numbers(None, None), Rank::Same);
    assert_eq!(rank_opt_numbers(None, Some(0)), Rank::Before);
    assert_eq!(rank_opt_numbers(Some(0), None), Rank::After);
    assert_eq!(rank_opt_numbers(Some(2), Some(10)), Rank::Before);
    assert_eq!(rank_opt_counts(None, Some(0)), Rank::Before);
    assert_eq!(rank_opt_counts(Some(7), Some(7)), Rank::Same);
    assert_eq!(rank_opt_counts(Some(8), Some(7)), Rank::After);
    let a = Some("a".to_string());
    let b = Some("b".to_string());
    let empty = Some(String::new());
    assert_eq!(rank_opt_texts(&None, &None), Rank::Same);
    assert_eq!(rank_opt_texts(&None, &empty), Rank::Before);
    assert_eq!(rank_opt_texts(&empty, &None), Rank::After);
    assert_eq!(rank_opt_texts(&a, &b), Rank::Before);
    assert_eq!(rank_opt_texts(&b, &a), Rank::After);
    assert_eq!(rank_opt_texts(&a, &a), Rank::Same);
}
