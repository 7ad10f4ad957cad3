//! The text of the Properties dialog: Unix permissions as `rwx` and octal,
//! timestamps as calendar dates, owner and group, the kind of entry, and
//! the running tally of a directory's recursive size.

use vstd::prelude::*;
use crate::text::{decimal, decimal_padded, octal, octal_padded, push_char, push_str, zero_pad};

verus! {

/// The permission character of one mode bit: `c` when the bit is set.
pub open spec fn perm_char(mode: u32, bit: u32, c: char) -> char {
    if mode & bit != 0 {
        c
    } else {
        '-'
    }
}

/// The nine-character `rwx` rendering of a mode's owner, group and other
/// permission bits.
pub open spec fn rwx(mode: u32) -> Seq<char> {
    seq![
        perm_char(mode, 0o400, 'r'),
        perm_char(mode, 0o200, 'w'),
        perm_char(mode, 0o100, 'x'),
        perm_char(mode, 0o040, 'r'),
        perm_char(mode, 0o020, 'w'),
        perm_char(mode, 0o010, 'x'),
        perm_char(mode, 0o004, 'r'),
        perm_char(mode, 0o002, 'w'),
        perm_char(mode, 0o001, 'x'),
    ]
}

fn push_perm(s: &mut String, mode: u32, bit: u32, c: char)
    ensures
        final(s)@ == old(s)@.push(perm_char(mode, bit, c)),
{
    push_char(s, if mode & bit != 0 { c } else { '-' });
}

/// Converts a Unix mode to an `rwx` string such as `rwxr-xr-x`.
pub fn mode_to_rwx(mode: u32) -> (r: String)
    ensures
        r@ == rwx(mode),
{
    let mut s = String::new();
    push_perm(&mut s, mode, 0o400, 'r');
    push_perm(&mut s, mode, 0o200, 'w');
    push_perm(&mut s, mode, 0o100, 'x');
    push_perm(&mut s, mode, 0o040, 'r');
    push_perm(&mut s, mode, 0o020, 'w');
    push_perm(&mut s, mode, 0o010, 'x');
    push_perm(&mut s, mode, 0o004, 'r');
    push_perm(&mut s, mode, 0o002, 'w');
    push_perm(&mut s, mode, 0o001, 'x');
    proof {
        assert(s@ =~= rwx(mode));
    }
    s
}

/// The permissions shown for a path: its mode's `rwx` form and four-digit
/// octal form (of the permission bits, `mode & 0o7777`), or `---------`
/// and `0000` when the metadata could not be read.
pub fn format_permissions(mode: Option<u32>) -> (r: (String, String))
    ensures
        match mode {
            Some(m) => r.0@ == rwx(m & 0o7777) && r.1@ == zero_pad(
                octal((m & 0o7777) as nat),
                4,
            ),
            None => r.0@ == "---------"@ && r.1@ == "0000"@,
        },
{
    match mode {
        Some(m) => {
            let bits = m & 0o7777;
            (mode_to_rwx(bits), octal_padded(bits as u64, 4))
        },
        None => ("---------".to_string(), "0000".to_string()),
    }
}

/// The proleptic Gregorian date (year, month, day) of the day `days` after
/// 1970-01-01, years counted astronomically (the year before 1 is 0).
pub open spec fn civil_from_days(days: int) -> (int, int, int) {
    let z = days + 719468;
    let era = z / 146097;
    let doe = z - era * 146097;
    let yoe = (doe - doe / 1460 + doe / 36524 - doe / 146096) / 365;
    let doy = doe - (365 * yoe + yoe / 4 - yoe / 100);
    let mp = (5 * doy + 2) / 153;
    let d = doy - (153 * mp + 2) / 5 + 1;
    let m = if mp < 10 {
        mp + 3
    } else {
        mp - 9
    };
    let y = yoe + era * 400;
    (if m <= 2 {
        y + 1
    } else {
        y
    }, m, d)
}

/// Whether a Unix timestamp lies within the dates `time` represents
/// (without its `large-dates` feature): from -9999-01-01 00:00:00 to
/// 9999-12-31 23:59:59 UTC.
pub open spec fn in_time_range(ts: int) -> bool {
    -377705116800 <= ts <= 253402300799
}

/// The calendar date (year, month, day) in UTC of a Unix timestamp, as
/// `time::OffsetDateTime::from_unix_timestamp` computes it; `None` when the
/// timestamp is outside the dates it represents.
pub open spec fn utc_date(ts: i64) -> Option<(int, int, int)> {
    if in_time_range(ts as int) {
        Some(civil_from_days(ts as int / 86400))
    } else {
        None
    }
}

/// `time::OffsetDateTime::from_unix_timestamp`, then its year, month, day,
/// hour and minute: `None` outside the years -9999 to 9999, otherwise the
/// proleptic Gregorian date of the timestamp's day ([`utc_date`]), and the
/// hour and minute of the second within the day, `ts` taken modulo a day
/// (Euclidean), as the crate's source computes them.
#[verifier::external_body]
fn utc_date_time(ts: i64) -> (r: Option<(i32, u8, u8, u8, u8)>)
    ensures
        match r {
            Some((y, mo, d, h, mi)) => {
                &&& utc_date(ts) == Some((y as int, mo as int, d as int))
                &&& 1 <= mo <= 12
                &&& 1 <= d <= 31
                &&& h == (ts as int % 86400) / 3600
                &&& mi == (ts as int % 86400) % 3600 / 60
            },
            None => utc_date(ts) is None,
        },
{
    time::OffsetDateTime::from_unix_timestamp(ts).ok().map(
        |dt| (dt.year(), dt.month() as u8, dt.day(), dt.hour(), dt.minute()),
    )
}

/// A year as `{:04}` renders it: four digits, zero-padded, with a sign for
/// years before 0 counted in the width.
pub open spec fn year_text(y: int) -> Seq<char> {
    if y >= 0 {
        zero_pad(decimal(y as nat), 4)
    } else {
        seq!['-'] + zero_pad(decimal((-y) as nat), 3)
    }
}

/// `YYYY-MM-DD HH:MM`.
pub open spec fn date_time_text(y: int, mo: nat, d: nat, h: nat, mi: nat) -> Seq<char> {
    year_text(y) + seq!['-'] + zero_pad(decimal(mo), 2) + seq!['-'] + zero_pad(decimal(d), 2)
        + seq![' '] + zero_pad(decimal(h), 2) + seq![':'] + zero_pad(decimal(mi), 2)
}

/// How a Unix timestamp is shown: its UTC date and time, or the Unix
/// epoch's when the timestamp is outside the representable dates.
pub open spec fn timestamp_text(ts: i64) -> Seq<char> {
    match utc_date(ts) {
        Some((y, mo, d)) => date_time_text(
            y,
            mo as nat,
            d as nat,
            ((ts as int % 86400) / 3600) as nat,
            ((ts as int % 86400) % 3600 / 60) as nat,
        ),
        None => date_time_text(1970, 1, 1, 0, 0),
    }
}

fn year_string(y: i32) -> (r: String)
    ensures
        r@ == year_text(y as int),
{
    if y >= 0 {
        decimal_padded(y as u64, 4)
    } else {
        let mut s = String::new();
        push_char(&mut s, '-');
        let digits = decimal_padded((-(y as i64)) as u64, 3);
        push_str(&mut s, digits.as_str());
        s
    }
}

fn date_time_string(y: i32, mo: u8, d: u8, h: u8, mi: u8) -> (r: String)
    ensures
        r@ == date_time_text(y as int, mo as nat, d as nat, h as nat, mi as nat),
{
    let mut s = year_string(y);
    push_char(&mut s, '-');
    push_str(&mut s, decimal_padded(mo as u64, 2).as_str());
    push_char(&mut s, '-');
    push_str(&mut s, decimal_padded(d as u64, 2).as_str());
    push_char(&mut s, ' ');
    push_str(&mut s, decimal_padded(h as u64, 2).as_str());
    push_char(&mut s, ':');
    push_str(&mut s, decimal_padded(mi as u64, 2).as_str());
    s
}

/// A modification time (seconds since the Unix epoch) as
/// `YYYY-MM-DD HH:MM` in UTC; out-of-range times show the epoch.
pub fn format_modified(secs: i64) -> (r: String)
    ensures
        r@ == timestamp_text(secs),
{
    match utc_date_time(secs) {
        Some((y, mo, d, h, mi)) => date_time_string(y, mo, d, h, mi),
        None => date_time_string(1970, 1, 1, 0, 0),
    }
}

/// How a file time read from metadata is shown: `unknown` when it could
/// not be read (or lies before the epoch), otherwise its seconds since the
/// epoch, reinterpreted as a signed count, formatted as a date.
pub fn format_file_time(secs: Option<u64>) -> (r: String)
    ensures
        match secs {
            Some(s) => r@ == timestamp_text(s as i64),
            None => r@ == "unknown"@,
        },
{
    match secs {
        Some(s) => format_modified(s as i64),
        None => "unknown".to_string(),
    }
}

/// The Modified and Created rows of the dialog: `unknown` for both when
/// the metadata could not be read.
pub fn format_times(metadata: Option<(Option<u64>, Option<u64>)>) -> (r: (String, String))
    ensures
        match metadata {
            Some((m, c)) => r.0@ == (match m {
                Some(s) => timestamp_text(s as i64),
                None => "unknown"@,
            }) && r.1@ == (match c {
                Some(s) => timestamp_text(s as i64),
                None => "unknown"@,
            }),
            None => r.0@ == "unknown"@ && r.1@ == "unknown"@,
        },
{
    match metadata {
        Some((m, c)) => (format_file_time(m), format_file_time(c)),
        None => ("unknown".to_string(), "unknown".to_string()),
    }
}

/// An account name, or the numeric id when the id has no name.
pub open spec fn account_text(name: Option<Seq<char>>, id: u32) -> Seq<char> {
    match name {
        Some(n) => n,
        None => decimal(id as nat),
    }
}

/// The Owner and Group rows: the names of the file's owner and group, or
/// their numeric ids when the account database has no name for them;
/// `unknown` for both when the metadata could not be read. `ids` holds the
/// owner and group ids, the names are what the account database returned.
pub fn owner_group_labels(
    ids: Option<(u32, u32)>,
    owner_name: Option<String>,
    group_name: Option<String>,
) -> (r: (String, String))
    ensures
        match ids {
            Some((uid, gid)) => r.0@ == account_text(
                match owner_name {
                    Some(n) => Some(n@),
                    None => None,
                },
                uid,
            ) && r.1@ == account_text(
                match group_name {
                    Some(n) => Some(n@),
                    None => None,
                },
                gid,
            ),
            None => r.0@ == "unknown"@ && r.1@ == "unknown"@,
        },
{
    match ids {
        Some((uid, gid)) => {
            let owner = match owner_name {
                Some(n) => n,
                None => decimal_padded(uid as u64, 0),
            };
            let group = match group_name {
                Some(n) => n,
                None => decimal_padded(gid as u64, 0),
            };
            (owner, group)
        },
        None => ("unknown".to_string(), "unknown".to_string()),
    }
}

/// The Kind row for an entry kind.
pub open spec fn kind_text(kind: Seq<char>) -> Seq<char> {
    if kind == "dir"@ {
        "Directory"@
    } else if kind == "symlink"@ {
        "Symlink"@
    } else {
        "File"@
    }
}

/// The Kind row: `Directory`, `Symlink` or `File`.
pub fn kind_label(kind: &str) -> (r: &'static str)
    ensures
        r@ == kind_text(kind@),
{
    if crate::text::str_eq(kind, "dir") {
        "Directory"
    } else if crate::text::str_eq(kind, "symlink") {
        "Symlink"
    } else {
        "File"
    }
}

/// One item met while walking a directory tree for its size.
#[derive(Clone, Copy, PartialEq, Eq, Debug, Structural)]
pub enum WalkItem {
    /// A directory (the root included).
    Dir,
    /// A regular file and its size in bytes (0 when unreadable).
    File(u64),
    /// Anything else, such as a symlink.
    Other,
    /// An entry that could not be read.
    Error,
}

/// The running totals of a recursive size computation.
#[derive(Clone, Copy, PartialEq, Eq, Debug, Structural)]
pub struct SizeTally {
    pub files: u64,
    pub dirs: u64,
    pub bytes: u64,
    pub errors: u64,
}

impl SizeTally {
    /// Nothing counted yet.
    pub fn new() -> (r: SizeTally)
        ensures
            r == (SizeTally { files: 0, dirs: 0, bytes: 0, errors: 0 }),
    {
        SizeTally { files: 0, dirs: 0, bytes: 0, errors: 0 }
    }

    /// Counts one item of the walk: a directory, a file and its bytes, or
    /// an error; other items count for nothing.
    pub fn add(&mut self, item: WalkItem)
        requires
            item matches WalkItem::File(len) ==> old(self).files < u64::MAX && old(self).bytes
                + len <= u64::MAX,
            item is Dir ==> old(self).dirs < u64::MAX,
            item is Error ==> old(self).errors < u64::MAX,
        ensures
            *final(self) == match item {
                WalkItem::Dir => SizeTally { dirs: (old(self).dirs + 1) as u64, ..*old(self) },
                WalkItem::File(len) => SizeTally {
                    files: (old(self).files + 1) as u64,
                    bytes: (old(self).bytes + len) as u64,
                    ..*old(self)
                },
                WalkItem::Other => *old(self),
                WalkItem::Error => SizeTally { errors: (old(self).errors + 1) as u64, ..*old(self) },
            },
    {
        match item {
            WalkItem::Dir => {
                self.dirs = self.dirs + 1;
            },
            WalkItem::File(len) => {
                self.files = self.files + 1;
                self.bytes = self.bytes + len;
            },
            WalkItem::Other => {},
            WalkItem::Error => {
                self.errors = self.errors + 1;
            },
        }
    }

    /// Whether the progress shown while counting is refreshed after this
    /// item: whenever the file count is a multiple of 100.
    pub fn should_report(&self) -> (r: bool)
        ensures
            r == (self.files % 100 == 0),
    {
        self.files % 100 == 0
    }
}

/// The Size row of a finished count: the human-readable size, followed,
/// when anything was counted, by ` (N files, M dirs)` with
/// `, K unreadable` inside the parentheses when entries could not be read.
pub open spec fn size_text(human: Seq<char>, t: SizeTally) -> Seq<char> {
    if t.dirs > 0 || t.files > 0 {
        human + " ("@ + decimal(t.files as nat) + " files, "@ + decimal(t.dirs as nat) + " dirs"@
            + (if t.errors > 0 {
            ", "@ + decimal(t.errors as nat) + " unreadable"@
        } else {
            Seq::empty()
        }) + ")"@
    } else {
        human
    }
}

/// The Size row of a finished count, given the size already rendered in
/// human units.
pub fn size_summary(human: &str, t: SizeTally) -> (r: String)
    ensures
        r@ == size_text(human@, t),
{
    let mut s = human.to_string();
    if t.dirs > 0 || t.files > 0 {
        push_str(&mut s, " (");
        push_str(&mut s, decimal_padded(t.files, 0).as_str());
        push_str(&mut s, " files, ");
        push_str(&mut s, decimal_padded(t.dirs, 0).as_str());
        push_str(&mut s, " dirs");
        if t.errors > 0 {
            push_str(&mut s, ", ");
            push_str(&mut s, decimal_padded(t.errors, 0).as_str());
            push_str(&mut s, " unreadable");
        }
        push_str(&mut s, ")");
        proof {
            reveal_strlit(" (");
            reveal_strlit(" files, ");
            reveal_strlit(" dirs");
            reveal_strlit(", ");
            reveal_strlit(" unreadable");
            reveal_strlit(")");
        }
    }
    s
}

/// Each character of the `rwx` string shows one permission bit, the
/// owner's read bit first: character `k` is the `k % 3`-th letter of
/// `rwx` when bit `0o400 >> k` of the mode is set, and `-` otherwise.
pub proof fn law_rwx_shows_each_bit(mode: u32, k: u32)
    requires
        k < 9,
    ensures
        rwx(mode).len() == 9,
        rwx(mode)[k as int] == (if mode & (0o400u32 >> k) != 0 {
            "rwx"@[(k % 3) as int]
        } else {
            '-'
        }),
{
    reveal_strlit("rwx");
    assert(0o400u32 >> 0u32 == 0o400u32) by (bit_vector);
    assert(0o400u32 >> 1u32 == 0o200u32) by (bit_vector);
    assert(0o400u32 >> 2u32 == 0o100u32) by (bit_vector);
    assert(0o400u32 >> 3u32 == 0o040u32) by (bit_vector);
    assert(0o400u32 >> 4u32 == 0o020u32) by (bit_vector);
    assert(0o400u32 >> 5u32 == 0o010u32) by (bit_vector);
    assert(0o400u32 >> 6u32 == 0o004u32) by (bit_vector);
    assert(0o400u32 >> 7u32 == 0o002u32) by (bit_vector);
    assert(0o400u32 >> 8u32 == 0o001u32) by (bit_vector);
}

} // verus!
