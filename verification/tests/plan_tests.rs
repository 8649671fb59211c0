use streamtrim::date::CivilDateTime;
use streamtrim::names::{map_name, sibling_name};
use streamtrim::parse::DateType;
use chrono::TimeZone;
use streamtrim::plan::{
    candidate_schedule, ffmpeg_args, plan_candidate, trim_seconds_string, Candidate, Decision,
    FatalError, Settings, SkipReason, Step, TrimPlan,
};

fn live() -> Settings {
    Settings { verbose: false, dry_run: false }
}

fn candidate(stream_id: i64, filename: &str, marker_start_ms: i64, marker_count: i64) -> Candidate {
    Candidate { stream_id, filename: filename.to_string(), marker_start_ms, marker_count }
}

fn must_proceed(c: &Candidate) -> TrimPlan {
    match plan_candidate(c, true) {
        Decision::Proceed(p) => p,
        Decision::Skip(k) => panic!("unexpected skip: {:?}", k),
        Decision::Fail(e) => panic!("unexpected failure: {:?}", e),
    }
}

#[test]
fn sibling_names_substitute_the_extension() {
    assert_eq!(sibling_name("2024-01-01 10:00:00.mkv", "txt.zst"), "2024-01-01 10:00:00.txt.zst");
    assert_eq!(sibling_name("2024-01-01 10:00:00.mkv", "yaml"), "2024-01-01 10:00:00.yaml");
}

#[test]
fn mapped_names_keep_everything_after_the_first_dot() {
    assert_eq!(map_name("old.txt.zst", "new base").as_deref(), Some("new base.txt.zst"));
    assert_eq!(map_name("old.mkv", "x").as_deref(), Some("x.mkv"));
    assert_eq!(map_name("no extension", "x"), None);
}

#[test]
fn full_precision_candidate_produces_the_expected_plan() {
    let c = candidate(42, "2024-01-01 10:00:00.mkv", 5000, 1);
    let p = must_proceed(&c);
    assert_eq!(p.stream_id, 42);
    assert_eq!(p.trim_ms, 4000);
    assert_eq!(p.date_type, DateType::Full);
    assert!(p.rename_extra_files);
    assert_eq!(
        p.new_time,
        CivilDateTime { year: 2024, month: 1, day: 1, hour: 10, minute: 0, second: 4 }
    );
    assert_eq!(p.new_base, "2024-01-01 10:00:04");
    assert_eq!(p.old_stream_name, "2024-01-01 10:00:00.mkv");
    assert_eq!(p.old_chat_name, "2024-01-01 10:00:00.txt.zst");
    assert_eq!(p.old_yaml_name, "2024-01-01 10:00:00.yaml");
    assert_eq!(p.new_stream_name, "2024-01-01 10:00:04.mkv");
    assert_eq!(p.new_chat_name, "2024-01-01 10:00:04.txt.zst");
    assert_eq!(p.new_yaml_name, "2024-01-01 10:00:04.yaml");
}

#[test]
fn date_only_candidate_disables_sibling_renames() {
    let c = candidate(7, "2024-01-01.mkv", 2000, 1);
    let p = must_proceed(&c);
    assert_eq!(p.trim_ms, 1000);
    assert_eq!(p.date_type, DateType::DateOnly);
    assert!(!p.rename_extra_files);
    assert_eq!(p.new_base, "2024-01-01_NEW");
    assert_eq!(p.new_stream_name, "2024-01-01_NEW.mkv");
}

#[test]
fn ambiguous_marker_count_skips_the_candidate() {
    let c = candidate(1, "2024-01-01 10:00:00.mkv", 5000, 2);
    assert!(matches!(
        plan_candidate(&c, true),
        Decision::Skip(SkipReason::AmbiguousMarkers)
    ));
}

#[test]
fn unparseable_filename_skips_the_candidate() {
    let c = candidate(1, "holiday stream.mkv", 5000, 1);
    assert!(matches!(
        plan_candidate(&c, true),
        Decision::Skip(SkipReason::UnparseableFilename)
    ));
}

#[test]
fn marker_inside_the_safety_margin_is_fatal() {
    let c = candidate(1, "2024-01-01 10:00:00.mkv", 500, 1);
    assert!(matches!(
        plan_candidate(&c, true),
        Decision::Fail(FatalError::NegativeTrimOffset)
    ));
}

#[test]
fn missing_source_file_is_fatal() {
    let c = candidate(1, "2024-01-01 10:00:00.mkv", 5000, 1);
    assert!(matches!(
        plan_candidate(&c, false),
        Decision::Fail(FatalError::MissingSourceFile)
    ));
}

#[test]
fn filename_without_extension_is_fatal() {
    let c = candidate(1, "2024-01-01 100000", 5000, 1);
    assert!(matches!(
        plan_candidate(&c, true),
        Decision::Fail(FatalError::MalformedFilename)
    ));
}

#[test]
fn existing_destination_aborts_before_any_step() {
    let c = candidate(1, "2024-01-01 10:00:00.mkv", 5000, 1);
    let p = must_proceed(&c);
    let r = candidate_schedule(&live(), &p, true, false, false, false, false);
    assert_eq!(r, Err(FatalError::DestinationCollision));
    let r = candidate_schedule(&live(), &p, false, true, false, false, false);
    assert_eq!(r, Err(FatalError::DestinationCollision));
    let r = candidate_schedule(&live(), &p, false, false, true, false, false);
    assert_eq!(r, Err(FatalError::DestinationCollision));
}

#[test]
fn dry_run_schedules_no_effect_at_all() {
    let c = candidate(1, "2024-01-01 10:00:00.mkv", 5000, 1);
    let p = must_proceed(&c);
    let settings = Settings { verbose: true, dry_run: true };
    let steps = candidate_schedule(&settings, &p, false, false, false, true, true).unwrap();
    assert!(steps.is_empty());
}

#[test]
fn full_precision_schedule_runs_in_order() {
    let c = candidate(42, "2024-01-01 10:00:00.mkv", 5000, 1);
    let p = must_proceed(&c);
    let steps = candidate_schedule(&live(), &p, false, false, false, true, true).unwrap();
    assert_eq!(steps.len(), 8);
    assert_eq!(steps[0], Step::TrimMedia);
    assert_eq!(steps[1], Step::RenameChat);
    assert_eq!(steps[2], Step::RenameYaml);
    assert_eq!(steps[3], Step::DeleteTrimMarker);
    assert_eq!(steps[4], Step::DecrementMarkerTimes);
    assert_eq!(steps[5], Step::DecrementProgress);
    assert!(matches!(steps[6], Step::UpdateStreamRecord { .. }));
    assert_eq!(steps[7], Step::RemoveOldStream);
}

#[test]
fn full_precision_timestamp_matches_the_local_zone() {
    let c = candidate(42, "2024-01-01 10:00:00.mkv", 5000, 1);
    let p = must_proceed(&c);
    let steps = candidate_schedule(&live(), &p, false, false, false, false, false).unwrap();
    let expected = chrono::Local
        .with_ymd_and_hms(2024, 1, 1, 10, 0, 4)
        .unwrap()
        .timestamp();
    assert!(steps.contains(&Step::UpdateStreamRecord { ts: expected }));
}

#[test]
fn date_only_schedule_renames_the_trimmed_file_back() {
    let c = candidate(7, "2024-01-01.mkv", 2000, 1);
    let p = must_proceed(&c);
    let steps = candidate_schedule(&live(), &p, false, false, false, true, true).unwrap();
    assert_eq!(
        steps,
        vec![
            Step::TrimMedia,
            Step::DeleteTrimMarker,
            Step::DecrementMarkerTimes,
            Step::DecrementProgress,
            Step::RenameNewStreamBack,
        ]
    );
}

#[test]
fn missing_siblings_are_not_renamed() {
    let c = candidate(42, "2024-01-01 10:00:00.mkv", 5000, 1);
    let p = must_proceed(&c);
    let steps = candidate_schedule(&live(), &p, false, false, false, false, true).unwrap();
    assert!(!steps.contains(&Step::RenameChat));
    assert!(steps.contains(&Step::RenameYaml));
}

#[test]
fn trim_seconds_render_whole_and_fractional_offsets() {
    assert_eq!(trim_seconds_string(4000), "4");
    assert_eq!(trim_seconds_string(0), "0");
    assert_eq!(trim_seconds_string(4500), "4.500");
    assert_eq!(trim_seconds_string(61042), "61.042");
}

#[test]
fn ffmpeg_argument_list_is_exact() {
    let args = ffmpeg_args("in/2024-01-01 10:00:00.mkv", "in/2024-01-01 10:00:04.mkv", 4000);
    let expected: Vec<String> = [
        "-v",
        "quiet",
        "-stats",
        "-i",
        "in/2024-01-01 10:00:00.mkv",
        "-ss",
        "4",
        "-c",
        "copy",
        "in/2024-01-01 10:00:04.mkv",
    ]
    .iter()
    .map(|s| s.to_string())
    .collect();
    assert_eq!(args, expected);
}

#[test]
fn policy_gates_effects_and_logging() {
    let s = Settings { verbose: false, dry_run: true };
    assert!(!s.allows_effects());
    assert!(s.should_log());
    let s = Settings { verbose: true, dry_run: false };
    assert!(s.allows_effects());
    assert!(s.should_log());
    let s = Settings { verbose: false, dry_run: false };
    assert!(s.allows_effects());
    assert!(!s.should_log());
}
