//! A model of the catalog tables the reconciliation touches: stream
//! records, marker events, and watch-progress records.
//!
//! The real catalog lives behind a connection the outer loop owns; this
//! module gives the same tables as plain in-memory rows, specifies what
//! each scheduled catalog step does to them, and proves that a completed
//! trim leaves the stream with no trim marker — so a second run over the
//! same catalog finds nothing left to do for it.

use vstd::prelude::*;

use crate::plan::Step;
use crate::plan::TRIM_MARKER_GAME_ID;
use crate::plan::TrimPlan;
use crate::decrement_floored;

verus! {

/// A marker event: it belongs to a stream, carries a category, and an
/// offset in milliseconds from the stream's start.
#[derive(Clone, Copy, PartialEq, Eq, Structural, Debug)]
pub struct MarkerRow {
    pub stream_id: i64,
    pub game_id: i64,
    pub start_ms: i64,
}

/// A viewer's progress offset into a stream, in milliseconds.
#[derive(Clone, Copy, PartialEq, Eq, Structural, Debug)]
pub struct ProgressRow {
    pub stream_id: i64,
    pub time_ms: i64,
}

/// A stream record: file name, recorded epoch timestamp, duration in
/// milliseconds.
pub struct StreamRow {
    pub id: i64,
    pub filename: String,
    pub ts: i64,
    pub duration_ms: i64,
}

/// The catalog tables the reconciliation reads and mutates.
pub struct CatalogState {
    pub streams: Vec<StreamRow>,
    pub markers: Vec<MarkerRow>,
    pub progress: Vec<ProgressRow>,
}

/// Whether `m` is a trim marker of stream `sid`.
pub open spec fn is_trim_marker(m: MarkerRow, sid: int) -> bool {
    m.stream_id == sid && m.game_id == TRIM_MARKER_GAME_ID
}

/// How many trim markers of stream `sid` the table holds.
pub open spec fn spec_trim_marker_count(ms: Seq<MarkerRow>, sid: int) -> int
    decreases ms.len(),
{
    if ms.len() == 0 {
        0
    } else {
        spec_trim_marker_count(ms.drop_last(), sid) + (if is_trim_marker(ms.last(), sid) {
            1int
        } else {
            0int
        })
    }
}

/// The marker table with every trim marker of stream `sid` deleted.
pub open spec fn spec_delete_trim_markers(ms: Seq<MarkerRow>, sid: int) -> Seq<MarkerRow>
    decreases ms.len(),
{
    if ms.len() == 0 {
        Seq::<MarkerRow>::empty()
    } else {
        spec_delete_trim_markers(ms.drop_last(), sid) + (if is_trim_marker(ms.last(), sid) {
            Seq::<MarkerRow>::empty()
        } else {
            seq![ms.last()]
        })
    }
}

/// An offset decremented by the trim amount, floored at zero.
pub open spec fn spec_dec_floor(t: int, trim: int) -> int {
    if t >= trim {
        t - trim
    } else {
        0
    }
}

/// How the stream table's row `n` relates to its old value `o` after the
/// stream record update: the trimmed stream's row takes the new name,
/// timestamp and shortened duration; every other row keeps its value.
pub open spec fn stream_row_updated(
    o: StreamRow,
    n: StreamRow,
    sid: i64,
    new_name: Seq<char>,
    ts: i64,
    trim: i64,
) -> bool {
    if o.id == sid {
        n.id == o.id && n.filename@ == new_name && n.ts == ts && n.duration_ms == o.duration_ms
            - trim
    } else {
        n.id == o.id && n.filename@ == o.filename@ && n.ts == o.ts && n.duration_ms == o.duration_ms
    }
}

/// A marker row after the stream's offsets move down by `trim`.
pub open spec fn spec_dec_marker(m: MarkerRow, sid: int, trim: int) -> MarkerRow {
    if m.stream_id == sid {
        MarkerRow { stream_id: m.stream_id, game_id: m.game_id, start_ms: spec_dec_floor(m.start_ms as int, trim) as i64 }
    } else {
        m
    }
}

proof fn lemma_count_nonneg(ms: Seq<MarkerRow>, sid: int)
    ensures
        0 <= spec_trim_marker_count(ms, sid) <= ms.len(),
    decreases ms.len(),
{
    if ms.len() > 0 {
        lemma_count_nonneg(ms.drop_last(), sid);
    }
}

proof fn lemma_count_append_one(ms: Seq<MarkerRow>, m: MarkerRow, sid: int)
    ensures
        spec_trim_marker_count(ms + seq![m], sid) == spec_trim_marker_count(ms, sid) + (
        if is_trim_marker(m, sid) {
            1int
        } else {
            0int
        }),
{
    assert((ms + seq![m]).drop_last() =~= ms);
    assert((ms + seq![m]).last() == m);
}

/// Deleting the trim markers of a stream leaves it with none.
pub proof fn lemma_delete_removes_all(ms: Seq<MarkerRow>, sid: int)
    ensures
        spec_trim_marker_count(spec_delete_trim_markers(ms, sid), sid) == 0,
    decreases ms.len(),
{
    if ms.len() > 0 {
        lemma_delete_removes_all(ms.drop_last(), sid);
        let rest = spec_delete_trim_markers(ms.drop_last(), sid);
        if is_trim_marker(ms.last(), sid) {
            assert(rest + Seq::<MarkerRow>::empty() =~= rest);
        } else {
            lemma_count_append_one(rest, ms.last(), sid);
        }
    }
}

/// Moving offsets down touches no marker's stream or category, so the
/// trim-marker count of every stream is unchanged.
pub proof fn lemma_dec_preserves_count(ms: Seq<MarkerRow>, sid: int, trim: int, counted: int)
    ensures
        spec_trim_marker_count(ms.map_values(|m: MarkerRow| spec_dec_marker(m, sid, trim)), counted)
            == spec_trim_marker_count(ms, counted),
    decreases ms.len(),
{
    let mapped = ms.map_values(|m: MarkerRow| spec_dec_marker(m, sid, trim));
    if ms.len() > 0 {
        lemma_dec_preserves_count(ms.drop_last(), sid, trim, counted);
        assert(mapped.drop_last() =~= ms.drop_last().map_values(
            |m: MarkerRow| spec_dec_marker(m, sid, trim),
        ));
        assert(mapped.last() == spec_dec_marker(ms.last(), sid, trim));
    } else {
        assert(mapped.len() == 0);
    }
}

/// Once a candidate's catalog steps have run — its trim marker deleted,
/// the remaining offsets moved down — the stream holds no trim marker, so
/// a later run finds it ineligible: "no trim marker remains" is the fixed
/// point of the reconciliation.
pub proof fn lemma_trim_is_fixed_point(ms: Seq<MarkerRow>, sid: int, trim: int)
    ensures
        spec_trim_marker_count(
            spec_delete_trim_markers(ms, sid).map_values(
                |m: MarkerRow| spec_dec_marker(m, sid, trim),
            ),
            sid,
        ) == 0,
{
    lemma_delete_removes_all(ms, sid);
    lemma_dec_preserves_count(spec_delete_trim_markers(ms, sid), sid, trim, sid);
}

/// How many trim markers of `stream_id` the table holds.
pub fn count_trim_markers(markers: &Vec<MarkerRow>, stream_id: i64) -> (r: usize)
    ensures
        r as int == spec_trim_marker_count(markers@, stream_id as int),
        r <= markers@.len(),
{
    let n = markers.len();
    let mut cnt: usize = 0;
    let mut i: usize = 0;
    while i < n
        invariant
            i <= n == markers@.len(),
            cnt as int == spec_trim_marker_count(markers@.subrange(0, i as int), stream_id as int),
            cnt <= i,
        decreases n - i,
    {
        let m = markers[i];
        proof {
            assert(markers@.subrange(0, i as int + 1).drop_last() =~= markers@.subrange(
                0,
                i as int,
            ));
            assert(markers@.subrange(0, i as int + 1).last() == markers@[i as int]);
        }
        if m.stream_id == stream_id && m.game_id == TRIM_MARKER_GAME_ID {
            cnt = cnt + 1;
        }
        i = i + 1;
    }
    proof {
        assert(markers@.subrange(0, n as int) =~= markers@);
    }
    cnt
}

/// Index of the first stream row with id `sid` at or after `i`, or `-1`.
pub open spec fn spec_first_stream_index(ss: Seq<StreamRow>, sid: int, i: int) -> int
    decreases ss.len() - i,
{
    if i < 0 || i >= ss.len() {
        -1
    } else if ss[i].id == sid {
        i
    } else {
        spec_first_stream_index(ss, sid, i + 1)
    }
}

/// The candidate rows the query yields from the first `upto` markers:
/// each trim marker joined to its stream row, carrying the stream's file
/// name, the marker offset, and the stream's total trim-marker count.
pub open spec fn spec_candidate_rows(ms: Seq<MarkerRow>, upto: int, ss: Seq<StreamRow>) -> Seq<
    (i64, Seq<char>, i64, int),
>
    decreases upto,
{
    if upto <= 0 {
        Seq::<(i64, Seq<char>, i64, int)>::empty()
    } else {
        let rest = spec_candidate_rows(ms, upto - 1, ss);
        let m = ms[upto - 1];
        if m.game_id == TRIM_MARKER_GAME_ID && spec_first_stream_index(ss, m.stream_id as int, 0)
            >= 0 {
            rest + seq![
                (
                    m.stream_id,
                    ss[spec_first_stream_index(ss, m.stream_id as int, 0)].filename@,
                    m.start_ms,
                    spec_trim_marker_count(ms, m.stream_id as int),
                ),
            ]
        } else {
            rest
        }
    }
}

proof fn lemma_count_zero_no_trim(ms: Seq<MarkerRow>, sid: int)
    requires
        spec_trim_marker_count(ms, sid) == 0,
    ensures
        forall|i: int| 0 <= i < ms.len() ==> !is_trim_marker(#[trigger] ms[i], sid),
    decreases ms.len(),
{
    if ms.len() > 0 {
        lemma_count_nonneg(ms.drop_last(), sid);
        lemma_count_zero_no_trim(ms.drop_last(), sid);
        assert forall|i: int| 0 <= i < ms.len() implies !is_trim_marker(#[trigger] ms[i], sid) by {
            if i < ms.len() - 1 {
                assert(ms[i] == ms.drop_last()[i]);
            } else {
                assert(ms[i] == ms.last());
            }
        }
    }
}

/// A catalog with no trim marker left for stream `sid` yields no
/// candidate row for it: such a stream is out of reach of a later run.
pub proof fn lemma_no_marker_no_candidate(
    ms: Seq<MarkerRow>,
    upto: int,
    ss: Seq<StreamRow>,
    sid: int,
)
    requires
        spec_trim_marker_count(ms, sid) == 0,
        upto <= ms.len(),
    ensures
        forall|k: int|
            0 <= k < spec_candidate_rows(ms, upto, ss).len() ==> (#[trigger] spec_candidate_rows(
                ms,
                upto,
                ss,
            )[k]).0 != sid,
    decreases upto,
{
    if upto > 0 {
        lemma_no_marker_no_candidate(ms, upto - 1, ss, sid);
        lemma_count_zero_no_trim(ms, sid);
        let rows = spec_candidate_rows(ms, upto, ss);
        let rest = spec_candidate_rows(ms, upto - 1, ss);
        assert forall|k: int| 0 <= k < rows.len() implies (#[trigger] rows[k]).0 != sid by {
            if k < rest.len() {
                assert(rows[k] == rest[k]);
            } else {
                assert(!is_trim_marker(ms[upto - 1], sid));
            }
        }
    }
}

/// Index of the first stream row carrying `stream_id`.
fn find_stream_index(ss: &Vec<StreamRow>, stream_id: i64) -> (r: Option<usize>)
    ensures
        match r {
            Some(i) => i < ss@.len() && ss@[i as int].id == stream_id && i as int
                == spec_first_stream_index(ss@, stream_id as int, 0),
            None => spec_first_stream_index(ss@, stream_id as int, 0) == -1,
        },
{
    let n = ss.len();
    let mut i: usize = 0;
    while i < n && ss[i].id != stream_id
        invariant
            i <= n == ss@.len(),
            spec_first_stream_index(ss@, stream_id as int, 0) == spec_first_stream_index(
                ss@,
                stream_id as int,
                i as int,
            ),
        decreases n - i,
    {
        i = i + 1;
    }
    if i == n {
        None
    } else {
        Some(i)
    }
}

/// The rows of the candidate query: every trim marker joined against its
/// stream record, with the stream's trim-marker count alongside, in
/// marker-table order.
pub fn candidates_of(cat: &CatalogState) -> (r: Vec<crate::plan::Candidate>)
    requires
        cat.markers@.len() <= i64::MAX,
    ensures
        ({
            let rows = spec_candidate_rows(cat.markers@, cat.markers@.len() as int, cat.streams@);
            &&& r@.len() == rows.len()
            &&& forall|k: int|
                0 <= k < rows.len() ==> {
                    let c = #[trigger] r@[k];
                    c.stream_id == rows[k].0 && c.filename@ == rows[k].1 && c.marker_start_ms
                        == rows[k].2 && c.marker_count as int == rows[k].3
                }
        }),
{
    let n = cat.markers.len();
    let mut r: Vec<crate::plan::Candidate> = Vec::new();
    let mut i: usize = 0;
    while i < n
        invariant
            i <= n == cat.markers@.len(),
            n <= i64::MAX,
            ({
                let rows = spec_candidate_rows(cat.markers@, i as int, cat.streams@);
                &&& r@.len() == rows.len()
                &&& forall|k: int|
                    0 <= k < rows.len() ==> {
                        let c = #[trigger] r@[k];
                        c.stream_id == rows[k].0 && c.filename@ == rows[k].1 && c.marker_start_ms
                            == rows[k].2 && c.marker_count as int == rows[k].3
                    }
            }),
        decreases n - i,
    {
        let m = cat.markers[i];
        if m.game_id == TRIM_MARKER_GAME_ID {
            match find_stream_index(&cat.streams, m.stream_id) {
                Some(si) => {
                    let cnt = count_trim_markers(&cat.markers, m.stream_id);
                    r.push(
                        crate::plan::Candidate {
                            stream_id: m.stream_id,
                            filename: cat.streams[si].filename.clone(),
                            marker_start_ms: m.start_ms,
                            marker_count: cnt as i64,
                        },
                    );
                },
                None => {},
            }
        }
        i = i + 1;
    }
    r
}

/// Applies one scheduled catalog step of `plan` to the tables, exactly as
/// the outer loop's catalog statements would.
pub fn apply_catalog_step(cat: &mut CatalogState, plan: &TrimPlan, step: Step)
    requires
        plan.trim_ms >= 0,
        step matches Step::UpdateStreamRecord { .. } ==> forall|j: int|
            0 <= j < old(cat).streams@.len() ==> old(cat).streams@[j].duration_ms
                - plan.trim_ms >= i64::MIN,
        (step matches Step::DeleteTrimMarker) || (step matches Step::DecrementMarkerTimes) || (
        step matches Step::DecrementProgress) || (step matches Step::UpdateStreamRecord { .. }),
    ensures
        step == Step::DeleteTrimMarker ==> final(cat).markers@ == spec_delete_trim_markers(
            old(cat).markers@,
            plan.stream_id as int,
        ),
        step == Step::DecrementMarkerTimes ==> final(cat).markers@ == old(cat).markers@.map_values(
            |m: MarkerRow| spec_dec_marker(m, plan.stream_id as int, plan.trim_ms as int),
        ),
        step == Step::DecrementProgress ==> (final(cat).progress@.len() == old(
            cat,
        ).progress@.len() && forall|j: int|
            0 <= j < old(cat).progress@.len() ==> final(cat).progress@[j] == (
            if old(cat).progress@[j].stream_id == plan.stream_id {
                ProgressRow {
                    stream_id: old(cat).progress@[j].stream_id,
                    time_ms: spec_dec_floor(
                        old(cat).progress@[j].time_ms as int,
                        plan.trim_ms as int,
                    ) as i64,
                }
            } else {
                old(cat).progress@[j]
            })),
        step matches Step::UpdateStreamRecord { ts } ==> (final(cat).streams@.len() == old(
            cat,
        ).streams@.len() && forall|j: int|
            0 <= j < old(cat).streams@.len() ==> stream_row_updated(
                old(cat).streams@[j],
                #[trigger] final(cat).streams@[j],
                plan.stream_id,
                plan.new_stream_name@,
                ts,
                plan.trim_ms,
            )),
        !(step matches Step::DeleteTrimMarker) && !(step matches Step::DecrementMarkerTimes)
            ==> final(cat).markers@ == old(cat).markers@,
        !(step matches Step::DecrementProgress) ==> final(cat).progress@ == old(cat).progress@,
        !(step matches Step::UpdateStreamRecord { .. }) ==> final(cat).streams@ == old(
            cat,
        ).streams@,
{
    match step {
        Step::DeleteTrimMarker => {
            let n = cat.markers.len();
            let mut kept: Vec<MarkerRow> = Vec::new();
            let mut i: usize = 0;
            while i < n
                invariant
                    i <= n == cat.markers@.len(),
                    kept@ == spec_delete_trim_markers(
                        cat.markers@.subrange(0, i as int),
                        plan.stream_id as int,
                    ),
                decreases n - i,
            {
                let m = cat.markers[i];
                proof {
                    assert(cat.markers@.subrange(0, i as int + 1).drop_last() =~= cat.markers@
                        .subrange(0, i as int));
                    assert(cat.markers@.subrange(0, i as int + 1).last() == cat.markers@[i as int]);
                }
                if !(m.stream_id == plan.stream_id && m.game_id == TRIM_MARKER_GAME_ID) {
                    kept.push(m);
                    proof {
                        assert(kept@ =~= spec_delete_trim_markers(
                            cat.markers@.subrange(0, i as int + 1),
                            plan.stream_id as int,
                        ));
                    }
                } else {
                    proof {
                        assert(kept@ =~= spec_delete_trim_markers(
                            cat.markers@.subrange(0, i as int + 1),
                            plan.stream_id as int,
                        ));
                    }
                }
                i = i + 1;
            }
            proof {
                assert(cat.markers@.subrange(0, n as int) =~= cat.markers@);
            }
            cat.markers = kept;
        },
        Step::DecrementMarkerTimes => {
            let n = cat.markers.len();
            let mut out: Vec<MarkerRow> = Vec::new();
            let mut i: usize = 0;
            while i < n
                invariant
                    i <= n == cat.markers@.len(),
                    plan.trim_ms >= 0,
                    out@.len() == i as int,
                    forall|j: int|
                        0 <= j < i as int ==> out@[j] == spec_dec_marker(
                            cat.markers@[j],
                            plan.stream_id as int,
                            plan.trim_ms as int,
                        ),
                decreases n - i,
            {
                let m = cat.markers[i];
                if m.stream_id == plan.stream_id {
                    let t = decrement_floored(m.start_ms, plan.trim_ms);
                    out.push(MarkerRow { stream_id: m.stream_id, game_id: m.game_id, start_ms: t });
                } else {
                    out.push(m);
                }
                i = i + 1;
            }
            proof {
                assert(out@ =~= cat.markers@.map_values(
                    |m: MarkerRow| spec_dec_marker(m, plan.stream_id as int, plan.trim_ms as int),
                ));
            }
            cat.markers = out;
        },
        Step::DecrementProgress => {
            let n = cat.progress.len();
            let mut out: Vec<ProgressRow> = Vec::new();
            let mut i: usize = 0;
            while i < n
                invariant
                    i <= n == cat.progress@.len(),
                    plan.trim_ms >= 0,
                    out@.len() == i as int,
                    forall|j: int|
                        0 <= j < i as int ==> out@[j] == (
                        if cat.progress@[j].stream_id == plan.stream_id {
                            ProgressRow {
                                stream_id: cat.progress@[j].stream_id,
                                time_ms: spec_dec_floor(
                                    cat.progress@[j].time_ms as int,
                                    plan.trim_ms as int,
                                ) as i64,
                            }
                        } else {
                            cat.progress@[j]
                        }),
                decreases n - i,
            {
                let p = cat.progress[i];
                if p.stream_id == plan.stream_id {
                    let t = decrement_floored(p.time_ms, plan.trim_ms);
                    out.push(ProgressRow { stream_id: p.stream_id, time_ms: t });
                } else {
                    out.push(p);
                }
                i = i + 1;
            }
            cat.progress = out;
        },
        Step::UpdateStreamRecord { ts } => {
            let n = cat.streams.len();
            let mut out: Vec<StreamRow> = Vec::new();
            let mut i: usize = 0;
            while i < n
                invariant
                    i <= n == cat.streams@.len(),
                    plan.trim_ms >= 0,
                    forall|j: int|
                        0 <= j < cat.streams@.len() ==> cat.streams@[j].duration_ms - plan.trim_ms
                            >= i64::MIN,
                    out@.len() == i as int,
                    forall|j: int|
                        0 <= j < i as int ==> stream_row_updated(
                            cat.streams@[j],
                            #[trigger] out@[j],
                            plan.stream_id,
                            plan.new_stream_name@,
                            ts,
                            plan.trim_ms,
                        ),
                decreases n - i,
            {
                let s = &cat.streams[i];
                if s.id == plan.stream_id {
                    out.push(
                        StreamRow {
                            id: s.id,
                            filename: plan.new_stream_name.clone(),
                            ts,
                            duration_ms: s.duration_ms - plan.trim_ms,
                        },
                    );
                } else {
                    out.push(
                        StreamRow {
                            id: s.id,
                            filename: s.filename.clone(),
                            ts: s.ts,
                            duration_ms: s.duration_ms,
                        },
                    );
                }
                i = i + 1;
            }
            cat.streams = out;
        },
        _ => {
            proof {
                assert(false);
            }
        },
    }
}

} // verus!
