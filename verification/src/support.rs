//! Turning attributes into the short texts of a detailed line: permission
//! strings, names and times.

use crate::probe::{Metadata, Moment};
use crate::text::{
    decimal, decimal_string, lemma_decimal_len, pad_left, pad_right, padded_left, padded_right,
};
use chrono::Datelike;
use chrono::Timelike;
use vstd::prelude::*;
use vstd::string::*;

verus! {

/// The mark for one permission bit: `mark` where `mode` has a bit of `mask`
/// set, a dash where it has none.
pub open spec fn flag(mode: u32, mask: u32, mark: char) -> char {
    if mode & mask != 0 {
        mark
    } else {
        '-'
    }
}

/// The three marks for reading, writing and executing, in that order.
pub open spec fn triplet_text(mode: u32, read: u32, write: u32, execute: u32) -> Seq<char> {
    seq![flag(mode, read, 'r'), flag(mode, write, 'w'), flag(mode, execute, 'x')]
}

/// The ten marks of a permission string: `d` or a dash for the type, then
/// the triplets of owner, group and others.
pub open spec fn permission_text(is_dir: bool, mode: u32) -> Seq<char> {
    seq![if is_dir { 'd' } else { '-' }] + triplet_text(mode, 256, 128, 64) + triplet_text(
        mode,
        32,
        16,
        8,
    ) + triplet_text(mode, 4, 2, 1)
}

/// The permission string shown where the attributes could not be read.
pub open spec fn blank_permissions() -> Seq<char> {
    Seq::new(10, |i: int| '-')
}

/// The name shown for a path: its last component, or a dash where it has
/// none that can be shown.
pub open spec fn shown_name(name: Option<Seq<char>>) -> Seq<char> {
    match name {
        Some(n) => n,
        None => seq!['-'],
    }
}

/// A moment of a day in the calendar, as far as a detailed line shows it.
#[derive(Clone, Copy, Debug, PartialEq, Eq, Structural)]
pub struct CivilTime {
    /// The month, counted from 1.
    pub month: u32,
    /// The day of the month, counted from 1.
    pub day: u32,
    /// The hour of the day, counted from 0.
    pub hour: u32,
    /// The minute of the hour, counted from 0.
    pub minute: u32,
}

impl CivilTime {
    /// The fields lie within a calendar's bounds.
    pub open spec fn in_range(self) -> bool {
        &&& 1 <= self.month <= 12
        &&& 1 <= self.day <= 31
        &&& self.hour <= 23
        &&& self.minute <= 59
    }
}

/// Midnight at the start of 1970, the time shown where none is known.
pub open spec fn epoch() -> CivilTime {
    CivilTime { month: 1, day: 1, hour: 0, minute: 0 }
}

/// The UTC calendar fields of the moment `secs` seconds after the start of
/// 1970, as chrono computes them; `None` where chrono cannot represent the
/// moment.
pub uninterp spec fn utc_civil(secs: int) -> Option<CivilTime>;

/// The whole seconds from the start of 1970 to a moment, rounded down: a
/// moment before 1970 that does not fall on a whole second counts for the
/// second before it.
pub open spec fn seconds_of(moment: Moment) -> int {
    if !moment.before_epoch {
        moment.secs as int
    } else if moment.nanos == 0 {
        -(moment.secs as int)
    } else {
        -(moment.secs as int) - 1
    }
}

/// The whole seconds of a moment can be counted in 64 bits.
pub open spec fn countable(moment: Moment) -> bool {
    i64::MIN <= seconds_of(moment) <= i64::MAX
}

/// The calendar fields shown for a moment: its own where it is known, can
/// be counted and can be represented, else those of the epoch.
pub open spec fn civil_of(stamp: Option<Moment>) -> CivilTime {
    match stamp {
        Some(moment) => if countable(moment) {
            match utc_civil(seconds_of(moment)) {
                Some(t) => t,
                None => epoch(),
            }
        } else {
            epoch()
        },
        None => epoch(),
    }
}

/// The short name of a month; a dash for 0 and for anything above 12.
pub open spec fn month_name(month: u32) -> Seq<char> {
    if month == 1 {
        seq!['J', 'a', 'n']
    } else if month == 2 {
        seq!['F', 'e', 'b']
    } else if month == 3 {
        seq!['M', 'a', 'r']
    } else if month == 4 {
        seq!['A', 'p', 'r']
    } else if month == 5 {
        seq!['M', 'a', 'y']
    } else if month == 6 {
        seq!['J', 'u', 'n']
    } else if month == 7 {
        seq!['J', 'u', 'l']
    } else if month == 8 {
        seq!['A', 'u', 'g']
    } else if month == 9 {
        seq!['S', 'e', 'p']
    } else if month == 10 {
        seq!['O', 'c', 't']
    } else if month == 11 {
        seq!['N', 'o', 'v']
    } else if month == 12 {
        seq!['D', 'e', 'v']
    } else {
        seq!['-']
    }
}

/// A time as a detailed line shows it: the month's name in three columns,
/// the day and the hour in two each, flush right, and the minute in two,
/// flush left.
pub open spec fn time_text(t: CivilTime) -> Seq<char> {
    pad_left(month_name(t.month), 3) + seq![' '] + pad_left(decimal(t.day as nat), 2) + seq![' ']
        + pad_left(decimal(t.hour as nat), 2) + seq![':'] + pad_right(decimal(t.minute as nat), 2)
}

/// The creation time of the attributes, where both are known.
pub open spec fn created_stamp(metadata: Option<Metadata>) -> Option<Moment> {
    match metadata {
        Some(m) => m.created,
        None => None,
    }
}

/// The modification time of the attributes, where both are known.
pub open spec fn modified_stamp(metadata: Option<Metadata>) -> Option<Moment> {
    match metadata {
        Some(m) => m.modified,
        None => None,
    }
}

/// A permission string always has ten marks.
pub proof fn lemma_permission_text_len(is_dir: bool, mode: u32)
    ensures
        permission_text(is_dir, mode).len() == 10,
        blank_permissions().len() == 10,
{
}

/// A time within a calendar's bounds is shown in twelve columns.
pub proof fn lemma_time_text_len(t: CivilTime)
    requires
        t.in_range(),
    ensures
        time_text(t).len() == 12,
{
    lemma_decimal_len(t.day as nat);
    lemma_decimal_len(t.hour as nat);
    lemma_decimal_len(t.minute as nat);
}

/// The three marks of one permission triplet of `mode`, the bits given by
/// their masks.
pub fn triplet(mode: u32, read: u32, write: u32, execute: u32) -> (s: String)
    ensures
        s@ == triplet_text(mode, read, write, execute),
{
    proof {
        reveal_strlit("---");
        reveal_strlit("--x");
        reveal_strlit("-w-");
        reveal_strlit("r--");
        reveal_strlit("-wx");
        reveal_strlit("r-x");
        reveal_strlit("rw-");
        reveal_strlit("rwx");
    }
    let r = mode & read != 0;
    let w = mode & write != 0;
    let x = mode & execute != 0;
    let text = match (r, w, x) {
        (false, false, false) => "---",
        (false, false, true) => "--x",
        (false, true, false) => "-w-",
        (true, false, false) => "r--",
        (false, true, true) => "-wx",
        (true, false, true) => "r-x",
        (true, true, false) => "rw-",
        (true, true, true) => "rwx",
    };
    String::from_str(text)
}

/// The permission string of a path with the attributes `metadata`.
pub fn parse_permissions(metadata: &Metadata) -> (s: String)
    ensures
        s@ == permission_text(metadata.is_dir, metadata.mode),
{
    proof {
        reveal_strlit("d");
        reveal_strlit("-");
    }
    let mut s = if metadata.is_dir {
        String::from_str("d")
    } else {
        String::from_str("-")
    };
    let owner = triplet(metadata.mode, 256, 128, 64);
    let group = triplet(metadata.mode, 32, 16, 8);
    let others = triplet(metadata.mode, 4, 2, 1);
    s.append(owner.as_str());
    s.append(group.as_str());
    s.append(others.as_str());
    s
}

/// Ten dashes, the permission string of a path whose attributes could not
/// be read.
pub fn placeholder_permissions() -> (s: String)
    ensures
        s@ == blank_permissions(),
{
    proof {
        reveal_strlit("----------");
    }
    String::from_str("----------")
}

/// The name to show for a path whose last component is `name`.
pub fn get_file_name(name: Option<&str>) -> (s: String)
    ensures
        s@ == shown_name(
            match name {
                Some(n) => Some(n@),
                None => None,
            },
        ),
{
    match name {
        Some(n) => String::from_str(n),
        None => {
            proof {
                reveal_strlit("-");
            }
            String::from_str("-")
        },
    }
}

/// Asks chrono for the UTC calendar fields of the moment `secs` seconds
/// after the start of 1970: `DateTime::<Utc>::from_timestamp`, then `month`,
/// `day`, `hour` and `minute` of what it gave, and `None` where it gave
/// nothing. The contract gives that answer a name, `utc_civil`, and claims
/// of it no more than chrono documents for the four accessors: each field
/// lies within the bounds of a calendar. Nothing of this is proved here.
#[verifier::external_body]
fn civil_from_timestamp(secs: i64) -> (r: Option<CivilTime>)
    ensures
        r == utc_civil(secs as int),
        r matches Some(t) ==> t.in_range(),
{
    let t = chrono::DateTime::<chrono::Utc>::from_timestamp(secs, 0)?;
    Some(CivilTime { month: t.month(), day: t.day(), hour: t.hour(), minute: t.minute() })
}

/// Asks chrono for the calendar fields of its default moment:
/// `DateTime::<Utc>::default`, then `month`, `day`, `hour` and `minute` of
/// it. The contract claims that the moment is the start of 1970 in UTC, the
/// first of January at midnight, as chrono defines it. Nothing of this is
/// proved here.
#[verifier::external_body]
fn civil_default() -> (t: CivilTime)
    ensures
        t == epoch(),
{
    let t = chrono::DateTime::<chrono::Utc>::default();
    CivilTime { month: t.month(), day: t.day(), hour: t.hour(), minute: t.minute() }
}

/// The whole seconds from the start of 1970 to a moment, rounded down;
/// `None` where they cannot be counted in 64 bits.
pub fn whole_seconds(moment: &Moment) -> (r: Option<i64>)
    ensures
        r == if countable(*moment) {
            Some(seconds_of(*moment) as i64)
        } else {
            None
        },
{
    if moment.secs <= i64::MAX as u64 {
        let secs = moment.secs as i64;
        if !moment.before_epoch {
            Some(secs)
        } else if moment.nanos == 0 {
            Some(-secs)
        } else {
            Some(-secs - 1)
        }
    } else if moment.before_epoch && moment.nanos == 0 && moment.secs - 1 == i64::MAX as u64 {
        Some(i64::MIN)
    } else {
        None
    }
}

/// The calendar fields to show for a moment.
pub fn civil_time(stamp: Option<Moment>) -> (t: CivilTime)
    ensures
        t == civil_of(stamp),
        t.in_range(),
{
    let secs = match stamp {
        Some(moment) => whole_seconds(&moment),
        None => None,
    };
    match secs {
        Some(secs) => match civil_from_timestamp(secs) {
            Some(t) => t,
            None => civil_default(),
        },
        None => civil_default(),
    }
}

/// The short name of a month.
fn month_text(month: u32) -> (r: &'static str)
    ensures
        r@ == month_name(month),
{
    proof {
        reveal_strlit("-");
        reveal_strlit("Jan");
        reveal_strlit("Feb");
        reveal_strlit("Mar");
        reveal_strlit("Apr");
        reveal_strlit("May");
        reveal_strlit("Jun");
        reveal_strlit("Jul");
        reveal_strlit("Aug");
        reveal_strlit("Sep");
        reveal_strlit("Oct");
        reveal_strlit("Nov");
        reveal_strlit("Dev");
    }
    match month {
        1 => "Jan",
        2 => "Feb",
        3 => "Mar",
        4 => "Apr",
        5 => "May",
        6 => "Jun",
        7 => "Jul",
        8 => "Aug",
        9 => "Sep",
        10 => "Oct",
        11 => "Nov",
        12 => "Dev",
        _ => "-",
    }
}

/// Writes a time out as a detailed line shows it.
pub fn format_time(t: CivilTime) -> (s: String)
    ensures
        s@ == time_text(t),
{
    proof {
        reveal_strlit(" ");
        reveal_strlit(":");
    }
    let mut s = padded_left(month_text(t.month), 3);
    s.append(" ");
    let day = decimal_string(t.day as u64);
    let day = padded_left(day.as_str(), 2);
    s.append(day.as_str());
    s.append(" ");
    let hour = decimal_string(t.hour as u64);
    let hour = padded_left(hour.as_str(), 2);
    s.append(hour.as_str());
    s.append(":");
    let minute = decimal_string(t.minute as u64);
    let minute = padded_right(minute.as_str(), 2);
    s.append(minute.as_str());
    s
}

/// The creation time to show for a path with the attributes `metadata`:
/// that of the epoch where the attributes or the time are not known.
pub fn get_created_time(metadata: Option<&Metadata>) -> (s: String)
    ensures
        s@ == time_text(
            civil_of(
                created_stamp(
                    match metadata {
                        Some(m) => Some(*m),
                        None => None,
                    },
                ),
            ),
        ),
        s@.len() == 12,
{
    let stamp = match metadata {
        Some(m) => m.created,
        None => None,
    };
    let t = civil_time(stamp);
    proof {
        lemma_time_text_len(t);
    }
    format_time(t)
}

/// The modification time to show for a path with the attributes
/// `metadata`: that of the epoch where the attributes or the time are not
/// known.
pub fn get_modified_time(metadata: Option<&Metadata>) -> (s: String)
    ensures
        s@ == time_text(
            civil_of(
                modified_stamp(
                    match metadata {
                        Some(m) => Some(*m),
                        None => None,
                    },
                ),
            ),
        ),
        s@.len() == 12,
{
    let stamp = match metadata {
        Some(m) => m.modified,
        None => None,
    };
    let t = civil_time(stamp);
    proof {
        lemma_time_text_len(t);
    }
    format_time(t)
}

} // verus!
