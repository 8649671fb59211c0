use streamtrim::catalog::{
    apply_catalog_step, candidates_of, count_trim_markers, CatalogState, MarkerRow, ProgressRow,
    StreamRow,
};
use streamtrim::plan::{
    candidate_schedule, plan_candidate, Candidate, Decision, Settings, Step, TrimPlan,
    TRIM_MARKER_GAME_ID,
};

fn scenario_catalog(filename: &str, marker_ms: i64) -> CatalogState {
    CatalogState {
        streams: vec![StreamRow {
            id: 42,
            filename: filename.to_string(),
            ts: 1_700_000_000,
            duration_ms: 3_600_000,
        }],
        markers: vec![MarkerRow { stream_id: 42, game_id: TRIM_MARKER_GAME_ID, start_ms: marker_ms }],
        progress: vec![
            ProgressRow { stream_id: 42, time_ms: 3000 },
            ProgressRow { stream_id: 42, time_ms: 9500 },
        ],
    }
}

fn plan_for(cat: &CatalogState) -> TrimPlan {
    let candidates = candidates_of(cat);
    assert_eq!(candidates.len(), 1);
    match plan_candidate(&candidates[0], true) {
        Decision::Proceed(p) => p,
        Decision::Skip(k) => panic!("unexpected skip: {:?}", k),
        Decision::Fail(e) => panic!("unexpected failure: {:?}", e),
    }
}

#[test]
fn query_joins_markers_to_streams_with_counts() {
    let mut cat = scenario_catalog("2024-01-01 10:00:00.mkv", 5000);
    cat.markers.push(MarkerRow { stream_id: 42, game_id: 3, start_ms: 60_000 });
    cat.markers.push(MarkerRow { stream_id: 99, game_id: TRIM_MARKER_GAME_ID, start_ms: 1000 });
    let candidates = candidates_of(&cat);
    // The marker of stream 99 joins no stream row; the category-3 marker
    // is not a trim marker.
    assert_eq!(candidates.len(), 1);
    assert_eq!(candidates[0].stream_id, 42);
    assert_eq!(candidates[0].filename, "2024-01-01 10:00:00.mkv");
    assert_eq!(candidates[0].marker_start_ms, 5000);
    assert_eq!(candidates[0].marker_count, 1);
}

#[test]
fn query_counts_every_trim_marker_of_the_stream() {
    let mut cat = scenario_catalog("2024-01-01 10:00:00.mkv", 5000);
    cat.markers.push(MarkerRow { stream_id: 42, game_id: TRIM_MARKER_GAME_ID, start_ms: 8000 });
    let candidates = candidates_of(&cat);
    assert_eq!(candidates.len(), 2);
    assert_eq!(candidates[0].marker_count, 2);
    assert_eq!(candidates[1].marker_count, 2);
    // Both rows are skipped as ambiguous; nothing would be mutated.
    for c in &candidates {
        assert!(matches!(
            plan_candidate(c, true),
            Decision::Skip(streamtrim::plan::SkipReason::AmbiguousMarkers)
        ));
    }
}

#[test]
fn full_precision_run_updates_the_catalog() {
    // Stream 42, `2024-01-01 10:00:00.mkv`, one trim marker at 5.0s:
    // the trim offset is 4.0s, the stream record moves to the new name,
    // its duration shrinks by 4000ms, and the marker is gone.
    let mut cat = scenario_catalog("2024-01-01 10:00:00.mkv", 5000);
    cat.markers.push(MarkerRow { stream_id: 42, game_id: 3, start_ms: 60_000 });
    let plan = plan_for(&cat);
    assert_eq!(plan.trim_ms, 4000);
    let settings = Settings { verbose: false, dry_run: false };
    let steps = candidate_schedule(&settings, &plan, false, false, false, false, false).unwrap();
    for step in &steps {
        match step {
            Step::DeleteTrimMarker
            | Step::DecrementMarkerTimes
            | Step::DecrementProgress
            | Step::UpdateStreamRecord { .. } => apply_catalog_step(&mut cat, &plan, *step),
            _ => {}
        }
    }
    assert_eq!(count_trim_markers(&cat.markers, 42), 0);
    assert_eq!(cat.markers.len(), 1);
    assert_eq!(cat.markers[0], MarkerRow { stream_id: 42, game_id: 3, start_ms: 56_000 });
    assert_eq!(cat.progress[0], ProgressRow { stream_id: 42, time_ms: 0 });
    assert_eq!(cat.progress[1], ProgressRow { stream_id: 42, time_ms: 5500 });
    assert_eq!(cat.streams[0].filename, "2024-01-01 10:00:04.mkv");
    assert_eq!(cat.streams[0].duration_ms, 3_600_000 - 4000);
    // The fixed point: a second run finds no candidate for the stream.
    assert!(candidates_of(&cat).is_empty());
}

#[test]
fn date_only_run_leaves_the_stream_record_alone() {
    // `2024-01-01.mkv` with a marker at 2.0s: the file is trimmed and
    // renamed back, and the stream record keeps its name and timestamp.
    let mut cat = scenario_catalog("2024-01-01.mkv", 2000);
    let plan = plan_for(&cat);
    assert_eq!(plan.trim_ms, 1000);
    let settings = Settings { verbose: false, dry_run: false };
    let steps = candidate_schedule(&settings, &plan, false, false, false, true, true).unwrap();
    assert!(!steps.iter().any(|s| matches!(s, Step::UpdateStreamRecord { .. })));
    assert!(!steps.contains(&Step::RenameChat));
    assert!(!steps.contains(&Step::RenameYaml));
    for step in &steps {
        match step {
            Step::DeleteTrimMarker | Step::DecrementMarkerTimes | Step::DecrementProgress => {
                apply_catalog_step(&mut cat, &plan, *step)
            }
            _ => {}
        }
    }
    assert_eq!(cat.streams[0].filename, "2024-01-01.mkv");
    assert_eq!(cat.streams[0].ts, 1_700_000_000);
    assert_eq!(cat.streams[0].duration_ms, 3_600_000);
    assert_eq!(count_trim_markers(&cat.markers, 42), 0);
    assert!(candidates_of(&cat).is_empty());
}

#[test]
fn progress_below_the_trim_offset_floors_at_zero() {
    let mut cat = scenario_catalog("2024-01-01 10:00:00.mkv", 5000);
    cat.progress.push(ProgressRow { stream_id: 42, time_ms: 3999 });
    cat.progress.push(ProgressRow { stream_id: 42, time_ms: 4000 });
    cat.progress.push(ProgressRow { stream_id: 7, time_ms: 100 });
    let plan = plan_for(&cat);
    apply_catalog_step(&mut cat, &plan, Step::DecrementProgress);
    assert_eq!(cat.progress[2], ProgressRow { stream_id: 42, time_ms: 0 });
    assert_eq!(cat.progress[3], ProgressRow { stream_id: 42, time_ms: 0 });
    // Another stream's progress is untouched.
    assert_eq!(cat.progress[4], ProgressRow { stream_id: 7, time_ms: 100 });
}
