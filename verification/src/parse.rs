//! Extracting a calendar timestamp, and its precision, from the base name
//! of a stream's media file.
//!
//! A base name such as `2024-01-01 10:00:00.mkv` carries a full date-time;
//! one such as `2024-01-01.mkv` carries only a date. The parser matches an
//! anchored `YYYY-MM-DD HH:MM:SS` prefix of the file stem first, then an
//! anchored `YYYY-MM-DD` prefix, and rejects names matching neither, or
//! whose digits do not form a real calendar date and time of day.

use vstd::prelude::*;

use crate::date::CivilDateTime;
use crate::date::days_in_month_exec;

verus! {

/// Whether the file name encodes a full date-time or only a calendar date.
#[derive(Clone, Copy, PartialEq, Eq, Structural, Debug)]
pub enum DateType {
    Full,
    DateOnly,
}

pub open spec fn is_digit(c: char) -> bool {
    48 <= c as int <= 57
}

pub open spec fn digit_val(c: char) -> int {
    c as int - 48
}

/// Index of the last `.` in `s[0..i)`, or `-1` if there is none.
pub open spec fn last_dot_upto(s: Seq<char>, i: int) -> int
    decreases i,
{
    if i <= 0 {
        -1
    } else if s[i - 1] == '.' {
        i - 1
    } else {
        last_dot_upto(s, i - 1)
    }
}

/// Length of the file stem: everything before the last `.`, except that a
/// name with no `.`, or whose only `.` leads it, is its own stem.
pub open spec fn stem_len_of(s: Seq<char>) -> int {
    let k = last_dot_upto(s, s.len() as int);
    if k <= 0 {
        s.len() as int
    } else {
        k
    }
}

pub open spec fn stem_of(s: Seq<char>) -> Seq<char> {
    s.subrange(0, stem_len_of(s))
}

pub open spec fn num2(s: Seq<char>, i: int) -> int {
    digit_val(s[i]) * 10 + digit_val(s[i + 1])
}

pub open spec fn num4(s: Seq<char>, i: int) -> int {
    digit_val(s[i]) * 1000 + digit_val(s[i + 1]) * 100 + digit_val(s[i + 2]) * 10 + digit_val(
        s[i + 3],
    )
}

/// An anchored `YYYY-MM-DD` shape.
pub open spec fn matches_date_prefix(s: Seq<char>) -> bool {
    &&& s.len() >= 10
    &&& is_digit(s[0])
    &&& is_digit(s[1])
    &&& is_digit(s[2])
    &&& is_digit(s[3])
    &&& s[4] == '-'
    &&& is_digit(s[5])
    &&& is_digit(s[6])
    &&& s[7] == '-'
    &&& is_digit(s[8])
    &&& is_digit(s[9])
}

/// An anchored `YYYY-MM-DD HH:MM:SS` shape.
pub open spec fn matches_datetime_prefix(s: Seq<char>) -> bool {
    &&& matches_date_prefix(s)
    &&& s.len() >= 19
    &&& s[10] == ' '
    &&& is_digit(s[11])
    &&& is_digit(s[12])
    &&& s[13] == ':'
    &&& is_digit(s[14])
    &&& is_digit(s[15])
    &&& s[16] == ':'
    &&& is_digit(s[17])
    &&& is_digit(s[18])
}

/// The date-time the digits of a matching full prefix spell out.
pub open spec fn spec_datetime_of(s: Seq<char>) -> CivilDateTime {
    CivilDateTime {
        year: num4(s, 0) as u32,
        month: num2(s, 5) as u32,
        day: num2(s, 8) as u32,
        hour: num2(s, 11) as u32,
        minute: num2(s, 14) as u32,
        second: num2(s, 17) as u32,
    }
}

/// The local-midnight date-time the digits of a matching date prefix spell
/// out.
pub open spec fn spec_date_of(s: Seq<char>) -> CivilDateTime {
    CivilDateTime {
        year: num4(s, 0) as u32,
        month: num2(s, 5) as u32,
        day: num2(s, 8) as u32,
        hour: 0,
        minute: 0,
        second: 0,
    }
}

/// The stem parses at full precision: it has the full shape and spells a
/// real date and time of day.
pub open spec fn full_parse_ok(stem: Seq<char>) -> bool {
    matches_datetime_prefix(stem) && spec_datetime_of(stem).wf()
}

/// The stem parses at date precision: it has the date shape and spells a
/// real date.
pub open spec fn date_parse_ok(stem: Seq<char>) -> bool {
    matches_date_prefix(stem) && spec_date_of(stem).wf()
}

/// What `parse_filename` returns, as a function of the name's stem.
pub open spec fn spec_parse(stem: Seq<char>) -> Option<(CivilDateTime, DateType)> {
    if full_parse_ok(stem) {
        Some((spec_datetime_of(stem), DateType::Full))
    } else if date_parse_ok(stem) {
        Some((spec_date_of(stem), DateType::DateOnly))
    } else {
        None
    }
}

fn is_digit_at(s: &str, i: usize) -> (r: bool)
    requires
        i < s@.len(),
    ensures
        r == is_digit(s@[i as int]),
{
    let c = s.get_char(i);
    let v = c as u32;
    48 <= v && v <= 57
}

fn char_at_is(s: &str, i: usize, c: char) -> (r: bool)
    requires
        i < s@.len(),
    ensures
        r == (s@[i as int] == c),
{
    s.get_char(i) == c
}

fn read2(s: &str, i: usize) -> (r: u32)
    requires
        i + 2 <= s@.len(),
        s@.len() <= usize::MAX,
        is_digit(s@[i as int]),
        is_digit(s@[i as int + 1]),
    ensures
        r == num2(s@, i as int),
        r < 100,
{
    let a = s.get_char(i) as u32 - 48;
    let b = s.get_char(i + 1) as u32 - 48;
    a * 10 + b
}

fn read4(s: &str, i: usize) -> (r: u32)
    requires
        i + 4 <= s@.len(),
        s@.len() <= usize::MAX,
        is_digit(s@[i as int]),
        is_digit(s@[i as int + 1]),
        is_digit(s@[i as int + 2]),
        is_digit(s@[i as int + 3]),
    ensures
        r == num4(s@, i as int),
        r < 10000,
{
    let a = s.get_char(i) as u32 - 48;
    let b = s.get_char(i + 1) as u32 - 48;
    let c = s.get_char(i + 2) as u32 - 48;
    let d = s.get_char(i + 3) as u32 - 48;
    a * 1000 + b * 100 + c * 10 + d
}

/// Whether `dt` is a real calendar date and time of day within the
/// supported range.
pub fn check_wf(dt: &CivilDateTime) -> (r: bool)
    ensures
        r == dt.wf(),
{
    dt.year <= 9999 && 1 <= dt.month && dt.month <= 12 && 1 <= dt.day && dt.day
        <= days_in_month_exec(dt.year, dt.month) && dt.hour <= 23 && dt.minute <= 59 && dt.second
        <= 59
}

/// Length of the stem of `s`, as `stem_len_of` gives it.
pub fn stem_len(s: &str) -> (r: usize)
    ensures
        r as int == stem_len_of(s@),
        r <= s@.len(),
        s@.len() <= usize::MAX,
{
    let len = s.unicode_len();
    let mut i: usize = 0;
    let mut ld: usize = 0;
    let mut seen_dot = false;
    while i < len
        invariant
            i <= len,
            len == s@.len(),
            seen_dot ==> ld as int == last_dot_upto(s@, i as int) && ld < i,
            !seen_dot ==> last_dot_upto(s@, i as int) == -1,
        decreases len - i,
    {
        if char_at_is(s, i, '.') {
            ld = i;
            seen_dot = true;
        }
        i = i + 1;
    }
    if seen_dot && ld >= 1 {
        ld
    } else {
        len
    }
}

/// Extracts the timestamp a media file's base name encodes, with its
/// precision.
///
/// The stem (the name before its last `.`) is matched against an anchored
/// `YYYY-MM-DD HH:MM:SS` prefix; failing that, against an anchored
/// `YYYY-MM-DD` prefix, read as local midnight; failing both, the name is
/// not parseable and the caller skips the stream.
pub fn parse_filename(filename: &str) -> (r: Option<(CivilDateTime, DateType)>)
    ensures
        r == spec_parse(stem_of(filename@)),
{
    let n = stem_len(filename);
    let ghost stem = stem_of(filename@);
    proof {
        assert(stem.len() == n as int);
        assert(forall|j: int| 0 <= j < n as int ==> stem[j] == filename@[j]);
    }
    if n >= 19 && is_digit_at(filename, 0) && is_digit_at(filename, 1) && is_digit_at(filename, 2)
        && is_digit_at(filename, 3) && char_at_is(filename, 4, '-') && is_digit_at(filename, 5)
        && is_digit_at(filename, 6) && char_at_is(filename, 7, '-') && is_digit_at(filename, 8)
        && is_digit_at(filename, 9) && char_at_is(filename, 10, ' ') && is_digit_at(filename, 11)
        && is_digit_at(filename, 12) && char_at_is(filename, 13, ':') && is_digit_at(filename, 14)
        && is_digit_at(filename, 15) && char_at_is(filename, 16, ':') && is_digit_at(filename, 17)
        && is_digit_at(filename, 18) {
        let dt = CivilDateTime {
            year: read4(filename, 0),
            month: read2(filename, 5),
            day: read2(filename, 8),
            hour: read2(filename, 11),
            minute: read2(filename, 14),
            second: read2(filename, 17),
        };
        proof {
            assert(matches_datetime_prefix(stem));
            assert(dt == spec_datetime_of(stem));
        }
        if check_wf(&dt) {
            return Some((dt, DateType::Full));
        }
    }
    proof {
        assert(!full_parse_ok(stem));
    }
    if n >= 10 && is_digit_at(filename, 0) && is_digit_at(filename, 1) && is_digit_at(filename, 2)
        && is_digit_at(filename, 3) && char_at_is(filename, 4, '-') && is_digit_at(filename, 5)
        && is_digit_at(filename, 6) && char_at_is(filename, 7, '-') && is_digit_at(filename, 8)
        && is_digit_at(filename, 9) {
        let dt = CivilDateTime {
            year: read4(filename, 0),
            month: read2(filename, 5),
            day: read2(filename, 8),
            hour: 0,
            minute: 0,
            second: 0,
        };
        proof {
            assert(matches_date_prefix(stem));
            assert(dt == spec_date_of(stem));
        }
        if check_wf(&dt) {
            return Some((dt, DateType::DateOnly));
        }
    }
    proof {
        assert(!date_parse_ok(stem));
    }
    None
}

} // verus!
