//! The per-candidate reconciliation decisions.
//!
//! For each candidate stream the driver decides whether to skip it, abort
//! the run, or proceed with a trim: it derives the trim offset from the
//! marker, parses the file name's timestamp, computes the shifted
//! timestamp and the destination names, and lays out the ordered side
//! effects — external trim, sibling renames, catalog updates, and the
//! final delete or rename-back — that an unverified outer loop performs.
//! Under dry-run no side effect is scheduled at all.

use vstd::prelude::*;

use chrono::TimeZone;

use crate::date::CivilDateTime;
use crate::date::checked_add_seconds;
use crate::date::date_base_chars;
use crate::date::dec_chars;
use crate::date::digit_char;
use crate::date::format_date_base;
use crate::date::format_full_base;
use crate::date::full_base_chars;
use crate::date::max_civil;
use crate::names::has_dot;
use crate::names::lemma_sibling_name_has_dot;
use crate::names::map_name;
use crate::names::mapped_name_chars;
use crate::names::sibling_name;
use crate::names::sibling_name_chars;
use crate::parse::DateType;
use crate::parse::parse_filename;
use crate::parse::spec_parse;
use crate::parse::stem_of;

verus! {

/// The marker category that denotes a trim point in the catalog.
pub const TRIM_MARKER_GAME_ID: i64 = 7;

/// Execution flags for a run: `verbose` prints each action, `dry_run`
/// prints what would be done and suppresses every side effect.
#[derive(Clone, Copy, PartialEq, Eq, Structural, Debug)]
pub struct Settings {
    pub verbose: bool,
    pub dry_run: bool,
}

impl Settings {
    /// Whether a gated action's description should be produced and
    /// printed: under dry-run (as a preview) or when verbose.
    pub fn should_log(&self) -> (r: bool)
        ensures
            r == (self.dry_run || self.verbose),
    {
        self.dry_run || self.verbose
    }

    /// Whether a gated mutating action may actually run: never under
    /// dry-run.
    pub fn allows_effects(&self) -> (r: bool)
        ensures
            r == !self.dry_run,
    {
        !self.dry_run
    }
}

/// One row of the candidate query: a stream joined with one of its trim
/// markers, and the stream's total count of trim markers. The marker
/// offset is carried in milliseconds.
pub struct Candidate {
    pub stream_id: i64,
    pub filename: String,
    pub marker_start_ms: i64,
    pub marker_count: i64,
}

/// Why a candidate is passed over without any mutation.
#[derive(Clone, Copy, PartialEq, Eq, Structural, Debug)]
pub enum SkipReason {
    /// More than one trim marker: the trim point is ambiguous.
    AmbiguousMarkers,
    /// The file name's timestamp could not be parsed.
    UnparseableFilename,
}

/// A condition that aborts the whole run.
#[derive(Clone, Copy, PartialEq, Eq, Structural, Debug)]
pub enum FatalError {
    /// The marker sits less than the safety margin from the stream start.
    NegativeTrimOffset,
    /// The stream's media file is missing from the streams folder.
    MissingSourceFile,
    /// The stream's file name has no extension to carry over.
    MalformedFilename,
    /// The shifted timestamp falls outside the supported calendar range.
    TimestampOutOfRange,
    /// A rename destination already exists.
    DestinationCollision,
    /// The local time zone has no instant for the shifted timestamp.
    LocalTimeUnrepresentable,
}

/// Everything a proceeding candidate's side effects need: old and new
/// names, the trim offset, and the precision branch.
pub struct TrimPlan {
    pub stream_id: i64,
    pub trim_ms: i64,
    pub date_type: DateType,
    pub rename_extra_files: bool,
    pub new_time: CivilDateTime,
    pub new_base: String,
    pub old_stream_name: String,
    pub old_chat_name: String,
    pub old_yaml_name: String,
    pub new_stream_name: String,
    pub new_chat_name: String,
    pub new_yaml_name: String,
}

/// The decision taken for one candidate.
pub enum Decision {
    Proceed(TrimPlan),
    Skip(SkipReason),
    Fail(FatalError),
}

/// The trim offset in milliseconds: the marker offset minus a one-second
/// safety margin.
pub open spec fn spec_trim_ms(marker_start_ms: int) -> int {
    marker_start_ms - 1000
}

/// The base name the trimmed stream is to carry, as the precision branch
/// dictates: the full timestamp, or the date followed by a marker token.
pub open spec fn spec_new_base(new_time: CivilDateTime, dtype: DateType) -> Seq<char> {
    match dtype {
        DateType::Full => full_base_chars(new_time),
        DateType::DateOnly => date_base_chars(new_time) + "_NEW"@,
    }
}

impl TrimPlan {
    /// The plan `plan_candidate` owes for candidate `c`, given the parse
    /// result `(old_time, dtype)` of the file name's stem.
    pub open spec fn obeys(
        self,
        c: Candidate,
        old_time: CivilDateTime,
        dtype: DateType,
    ) -> bool {
        let s = c.filename@;
        &&& self.stream_id == c.stream_id
        &&& self.trim_ms == spec_trim_ms(c.marker_start_ms as int)
        &&& self.date_type == dtype
        &&& self.rename_extra_files == (dtype == DateType::Full)
        &&& self.new_time.wf()
        &&& self.new_time.total_seconds() == old_time.total_seconds() + spec_trim_ms(
            c.marker_start_ms as int,
        ) / 1000
        &&& self.new_base@ == spec_new_base(self.new_time, dtype)
        &&& self.old_stream_name@ == s
        &&& self.old_chat_name@ == sibling_name_chars(s, "txt.zst"@)
        &&& self.old_yaml_name@ == sibling_name_chars(s, "yaml"@)
        &&& self.new_stream_name@ == mapped_name_chars(s, self.new_base@)
        &&& self.new_chat_name@ == mapped_name_chars(
            sibling_name_chars(s, "txt.zst"@),
            self.new_base@,
        )
        &&& self.new_yaml_name@ == mapped_name_chars(
            sibling_name_chars(s, "yaml"@),
            self.new_base@,
        )
    }
}

/// Decides what to do with one candidate, before any side effect runs.
///
/// Candidates with more than one trim marker, and candidates whose file
/// name carries no parseable timestamp, are skipped and left untouched. A
/// trim offset below zero and a missing source file are data-integrity
/// failures that abort the run. Otherwise the returned plan carries the
/// shifted timestamp, the new base name, and every old and new file name.
pub fn plan_candidate(c: &Candidate, source_exists: bool) -> (r: Decision)
    ensures
        ({
            let s = c.filename@;
            let stem = stem_of(s);
            if c.marker_count > 1 {
                r matches Decision::Skip(k) && k == SkipReason::AmbiguousMarkers
            } else if c.marker_start_ms < 1000 {
                r matches Decision::Fail(e) && e == FatalError::NegativeTrimOffset
            } else if !source_exists {
                r matches Decision::Fail(e) && e == FatalError::MissingSourceFile
            } else {
                match spec_parse(stem) {
                    Option::None => r matches Decision::Skip(k) && k
                        == SkipReason::UnparseableFilename,
                    Option::Some((old_time, dtype)) => {
                        let total = old_time.total_seconds() + spec_trim_ms(
                            c.marker_start_ms as int,
                        ) / 1000;
                        if total > max_civil().total_seconds() {
                            r matches Decision::Fail(e) && e == FatalError::TimestampOutOfRange
                        } else if !has_dot(s) {
                            r matches Decision::Fail(e) && e == FatalError::MalformedFilename
                        } else {
                            r matches Decision::Proceed(p) && p.obeys(*c, old_time, dtype)
                        }
                    },
                }
            }
        }),
{
    if c.marker_count > 1 {
        return Decision::Skip(SkipReason::AmbiguousMarkers);
    }
    if c.marker_start_ms < 1000 {
        return Decision::Fail(FatalError::NegativeTrimOffset);
    }
    let trim_ms = c.marker_start_ms - 1000;
    if !source_exists {
        return Decision::Fail(FatalError::MissingSourceFile);
    }
    let parsed = parse_filename(c.filename.as_str());
    let (old_time, dtype) = match parsed {
        Option::None => {
            return Decision::Skip(SkipReason::UnparseableFilename);
        },
        Option::Some(p) => p,
    };
    let secs: u64 = (trim_ms / 1000) as u64;
    let new_time = match checked_add_seconds(&old_time, secs) {
        Option::None => {
            return Decision::Fail(FatalError::TimestampOutOfRange);
        },
        Option::Some(t) => t,
    };
    let (new_base, rename_extra_files) = match dtype {
        DateType::Full => (format_full_base(&new_time), true),
        DateType::DateOnly => {
            let mut b = format_date_base(&new_time);
            proof {
                reveal_strlit("_NEW");
            }
            b.append("_NEW");
            (b, false)
        },
    };
    let old_stream_name = c.filename.clone();
    let old_chat_name = sibling_name(old_stream_name.as_str(), "txt.zst");
    let old_yaml_name = sibling_name(old_stream_name.as_str(), "yaml");
    let new_stream_name = match map_name(old_stream_name.as_str(), new_base.as_str()) {
        Option::None => {
            return Decision::Fail(FatalError::MalformedFilename);
        },
        Option::Some(n) => n,
    };
    proof {
        lemma_sibling_name_has_dot(c.filename@, "txt.zst"@);
        lemma_sibling_name_has_dot(c.filename@, "yaml"@);
    }
    let new_chat_name = match map_name(old_chat_name.as_str(), new_base.as_str()) {
        Option::None => {
            return Decision::Fail(FatalError::MalformedFilename);
        },
        Option::Some(n) => n,
    };
    let new_yaml_name = match map_name(old_yaml_name.as_str(), new_base.as_str()) {
        Option::None => {
            return Decision::Fail(FatalError::MalformedFilename);
        },
        Option::Some(n) => n,
    };
    Decision::Proceed(
        TrimPlan {
            stream_id: c.stream_id,
            trim_ms,
            date_type: dtype,
            rename_extra_files,
            new_time,
            new_base,
            old_stream_name,
            old_chat_name,
            old_yaml_name,
            new_stream_name,
            new_chat_name,
            new_yaml_name,
        },
    )
}

/// One scheduled side effect of a proceeding candidate, interpreted
/// against its plan by the outer loop.
#[derive(Clone, Copy, PartialEq, Eq, Structural, Debug)]
pub enum Step {
    /// Run the external stream-copy trim from the old stream file to the
    /// new one, seeking past the trim offset.
    TrimMedia,
    /// Rename the chat-log sibling to its new name.
    RenameChat,
    /// Rename the metadata sibling to its new name.
    RenameYaml,
    /// Delete the stream's trim-marker event from the catalog.
    DeleteTrimMarker,
    /// Decrement every remaining marker offset of the stream, floored at
    /// zero.
    DecrementMarkerTimes,
    /// Decrement every watch-progress offset of the stream, floored at
    /// zero.
    DecrementProgress,
    /// Point the stream record at the new name, timestamp and duration.
    UpdateStreamRecord { ts: i64 },
    /// Remove the old, untrimmed stream file.
    RemoveOldStream,
    /// Rename the trimmed file back onto the original name.
    RenameNewStreamBack,
}

/// The ordered effects owed for `plan`: the trim, the enabled sibling
/// renames, the three unconditional catalog updates, then the
/// precision-dependent tail.
pub open spec fn spec_schedule(
    plan: TrimPlan,
    old_chat_exists: bool,
    old_yaml_exists: bool,
    ts: i64,
) -> Seq<Step> {
    let pre = seq![Step::TrimMedia] + (if plan.rename_extra_files && old_chat_exists {
        seq![Step::RenameChat]
    } else {
        Seq::<Step>::empty()
    }) + (if plan.rename_extra_files && old_yaml_exists {
        seq![Step::RenameYaml]
    } else {
        Seq::<Step>::empty()
    }) + seq![Step::DeleteTrimMarker, Step::DecrementMarkerTimes, Step::DecrementProgress];
    match plan.date_type {
        DateType::Full => pre + seq![Step::UpdateStreamRecord { ts }, Step::RemoveOldStream],
        DateType::DateOnly => pre + seq![Step::RenameNewStreamBack],
    }
}

/// Relies on chrono: `TimeZone::from_local_datetime` for `Local`, and
/// `DateTime::timestamp`. Interprets a civil date-time in the machine's
/// local time zone and returns its Unix timestamp in seconds; on a DST
/// fold the earlier side is taken, and in a DST gap, where no such local
/// instant exists, `None` comes back. The value depends on the machine's
/// time zone, so nothing is assumed of it.
#[verifier::external_body]
fn local_epoch_seconds(dt: &CivilDateTime) -> (r: Option<i64>) {
    let date = chrono::NaiveDate::from_ymd_opt(dt.year as i32, dt.month, dt.day)?;
    let time = date.and_hms_opt(dt.hour, dt.minute, dt.second)?;
    match chrono::Local.from_local_datetime(&time).earliest() {
        Some(t) => Some(t.timestamp()),
        None => None,
    }
}

/// Lays out the ordered side effects for a proceeding candidate, once the
/// outer loop has looked up which of the involved paths exist.
///
/// A destination that already exists is a naming collision: the candidate
/// aborts the run before the external tool is ever invoked. Under dry-run
/// the schedule is empty — no rename, delete, process spawn or catalog
/// mutation is ever performed.
pub fn candidate_schedule(
    settings: &Settings,
    plan: &TrimPlan,
    new_stream_exists: bool,
    new_chat_exists: bool,
    new_yaml_exists: bool,
    old_chat_exists: bool,
    old_yaml_exists: bool,
) -> (r: Result<Vec<Step>, FatalError>)
    ensures
        new_stream_exists || new_chat_exists || new_yaml_exists ==> (r matches Result::Err(e) && e
            == FatalError::DestinationCollision),
        !(new_stream_exists || new_chat_exists || new_yaml_exists) && settings.dry_run ==> (
        r matches Result::Ok(v) && v@ == Seq::<Step>::empty()),
        !(new_stream_exists || new_chat_exists || new_yaml_exists) && !settings.dry_run
            && plan.date_type == DateType::DateOnly ==> (r matches Result::Ok(v) && v@
            == spec_schedule(*plan, old_chat_exists, old_yaml_exists, 0)),
        !(new_stream_exists || new_chat_exists || new_yaml_exists) && !settings.dry_run
            && plan.date_type == DateType::Full ==> ((r matches Result::Err(e) && e
            == FatalError::LocalTimeUnrepresentable) || (r matches Result::Ok(v) && exists|t: i64|
            v@ == spec_schedule(*plan, old_chat_exists, old_yaml_exists, t))),
{
    if new_stream_exists || new_chat_exists || new_yaml_exists {
        return Result::Err(FatalError::DestinationCollision);
    }
    let mut v: Vec<Step> = Vec::new();
    if settings.dry_run {
        proof {
            assert(v@ =~= Seq::<Step>::empty());
        }
        return Result::Ok(v);
    }
    v.push(Step::TrimMedia);
    if plan.rename_extra_files && old_chat_exists {
        v.push(Step::RenameChat);
    }
    if plan.rename_extra_files && old_yaml_exists {
        v.push(Step::RenameYaml);
    }
    v.push(Step::DeleteTrimMarker);
    v.push(Step::DecrementMarkerTimes);
    v.push(Step::DecrementProgress);
    match plan.date_type {
        DateType::Full => {
            let ts = match local_epoch_seconds(&plan.new_time) {
                Option::None => {
                    return Result::Err(FatalError::LocalTimeUnrepresentable);
                },
                Option::Some(t) => t,
            };
            v.push(Step::UpdateStreamRecord { ts });
            v.push(Step::RemoveOldStream);
            proof {
                assert(v@ =~= spec_schedule(*plan, old_chat_exists, old_yaml_exists, ts));
            }
        },
        DateType::DateOnly => {
            v.push(Step::RenameNewStreamBack);
            proof {
                assert(v@ =~= spec_schedule(*plan, old_chat_exists, old_yaml_exists, 0));
            }
        },
    }
    Result::Ok(v)
}

/// The decimal rendering of a non-negative trim offset in seconds: the
/// whole seconds, then a `.` and three fractional digits when the offset
/// is not whole.
pub open spec fn seconds_chars(ms: int) -> Seq<char> {
    if ms % 1000 == 0 {
        dec_chars(ms / 1000)
    } else {
        dec_chars(ms / 1000) + seq![
            '.',
            digit_char((ms % 1000) / 100),
            digit_char(((ms % 1000) / 10) % 10),
            digit_char((ms % 1000) % 10),
        ]
    }
}

/// Renders a trim offset in milliseconds as the seconds argument handed
/// to the external tool.
pub fn trim_seconds_string(trim_ms: i64) -> (r: String)
    requires
        trim_ms >= 0,
    ensures
        r@ == seconds_chars(trim_ms as int),
{
    let q: u64 = (trim_ms / 1000) as u64;
    let rem: u32 = (trim_ms % 1000) as u32;
    let mut s = String::new();
    crate::date::append_decimal(&mut s, q);
    if rem != 0 {
        proof {
            reveal_strlit(".");
        }
        s.append(".");
        crate::date::append_digit(&mut s, rem / 100);
        crate::date::append_digit(&mut s, (rem / 10) % 10);
        crate::date::append_digit(&mut s, rem % 10);
    }
    proof {
        assert(s@ =~= seconds_chars(trim_ms as int));
    }
    s
}

/// The exact argument list for the external stream-copy trim: quiet
/// logging with progress statistics, the source as input, a seek to the
/// trim offset, stream copy without re-encoding, and the destination.
pub fn ffmpeg_args(input: &str, output: &str, trim_ms: i64) -> (r: Vec<String>)
    requires
        trim_ms >= 0,
    ensures
        r@.len() == 10,
        r@[0]@ == "-v"@,
        r@[1]@ == "quiet"@,
        r@[2]@ == "-stats"@,
        r@[3]@ == "-i"@,
        r@[4]@ == input@,
        r@[5]@ == "-ss"@,
        r@[6]@ == seconds_chars(trim_ms as int),
        r@[7]@ == "-c"@,
        r@[8]@ == "copy"@,
        r@[9]@ == output@,
{
    let mut v: Vec<String> = Vec::new();
    v.push(String::from_str("-v"));
    v.push(String::from_str("quiet"));
    v.push(String::from_str("-stats"));
    v.push(String::from_str("-i"));
    v.push(String::from_str(input));
    v.push(String::from_str("-ss"));
    v.push(trim_seconds_string(trim_ms));
    v.push(String::from_str("-c"));
    v.push(String::from_str("copy"));
    v.push(String::from_str(output));
    v
}

} // verus!
