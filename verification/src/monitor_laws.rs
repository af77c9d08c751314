//! What holds of the monitor: it shows one run, in order, and nothing of any other.
use crate::monitor::{
    after_all, idle_monitor, known_loops, last_start, monitored, placed, run_reports, snapshot_for,
    started, starts, MonitorView, SnapshotView,
};
use crate::run_events::{EventView, FactView};
use vstd::prelude::*;

verus! {

/// Reports stand in the order of their sequence.
pub open spec fn in_sequence(events: Seq<EventView>) -> bool {
    forall|i: int, j: int|
        0 <= i < j < events.len() ==> (#[trigger] events[i]).sequence <= (
        #[trigger] events[j]).sequence
}

proof fn lemma_placed(events: Seq<EventView>, event: EventView)
    requires
        in_sequence(events),
    ensures
        in_sequence(placed(events, event)),
        placed(events, event).to_multiset() == events.to_multiset().insert(event),
        placed(events, event).len() == events.len() + 1,
        forall|i: int|
            0 <= i < placed(events, event).len() ==> (#[trigger] placed(events, event)[i] == event
                || events.contains(placed(events, event)[i])),
    decreases events.len(),
{
    broadcast use vstd::seq_lib::group_to_multiset_ensures;

    let all = placed(events, event);
    if events.len() > 0 && events.last().sequence > event.sequence {
        let rest = events.drop_last();
        assert forall|i: int, j: int| 0 <= i < j < rest.len() implies (#[trigger] rest[i]).sequence
            <= (#[trigger] rest[j]).sequence by {
            assert(events[i].sequence <= events[j].sequence);
        }
        lemma_placed(rest, event);
        let inner = placed(rest, event);
        let last = events.last();
        assert(all == inner.push(last));
        assert forall|i: int| 0 <= i < all.len() implies (#[trigger] all[i] == event
            || events.contains(all[i])) by {
            if i < inner.len() {
                if inner[i] != event {
                    let k = rest.index_of(inner[i]);
                    assert(events[k] == all[i]);
                }
            } else {
                assert(events[events.len() - 1] == all[i]);
            }
        }
        assert forall|i: int, j: int| 0 <= i < j < all.len() implies (#[trigger] all[i]).sequence
            <= (#[trigger] all[j]).sequence by {
            if j < inner.len() {
                assert(inner[i].sequence <= inner[j].sequence);
            } else {
                assert(all[i] == inner[i]);
                if inner[i] != event {
                    let k = rest.index_of(inner[i]);
                    assert(events[k] == inner[i]);
                    assert(events[k].sequence <= events[events.len() - 1].sequence);
                }
            }
        }
        assert(events =~= rest.push(last));
        assert(all.to_multiset() =~= events.to_multiset().insert(event));
    } else {
        assert(all == events.push(event));
        assert forall|i: int, j: int| 0 <= i < j < all.len() implies (#[trigger] all[i]).sequence
            <= (#[trigger] all[j]).sequence by {
            if j == events.len() {
                assert(events[i].sequence <= events[events.len() - 1].sequence);
            } else {
                assert(events[i].sequence <= events[j].sequence);
            }
        }
        assert forall|i: int| 0 <= i < all.len() implies (#[trigger] all[i] == event
            || events.contains(all[i])) by {
            if i < events.len() {
                assert(events[i] == all[i]);
            }
        }
    }
}

/// The reports of a run are those that bear its identity, each as often as it came, in the order
/// of their sequence.
pub proof fn reports_of_a_run(events: Seq<EventView>, run_id: Seq<char>)
    ensures
        in_sequence(run_reports(events, run_id)),
        run_reports(events, run_id).to_multiset() == events.filter(
            |event: EventView| event.run_id == run_id,
        ).to_multiset(),
    decreases events.len(),
{
    broadcast use vstd::seq_lib::group_to_multiset_ensures;

    let of_run = |event: EventView| event.run_id == run_id;
    reveal(Seq::filter);
    if events.len() > 0 {
        let rest = events.drop_last();
        reports_of_a_run(rest, run_id);
        if events.last().run_id == run_id {
            lemma_placed(run_reports(rest, run_id), events.last());
            assert(events.filter(of_run) == rest.filter(of_run).push(events.last()));
            assert(run_reports(events, run_id).to_multiset() =~= events.filter(
                of_run,
            ).to_multiset());
        }
    }
}

proof fn lemma_foreign_reports(events: Seq<EventView>, event: EventView, run_id: Seq<char>)
    requires
        event.run_id != run_id,
    ensures
        run_reports(events.push(event), run_id) == run_reports(events, run_id),
{
    assert(events.push(event).drop_last() =~= events);
}

pub proof fn lemma_last_start(events: Seq<EventView>, macro_id: Seq<char>)
    ensures
        last_start(events, macro_id) matches Some(at) ==> 0 <= at < events.len() && starts(
            macro_id,
            events[at],
        ),
    decreases events.len(),
{
    if events.len() > 0 && !starts(macro_id, events.last()) {
        lemma_last_start(events.drop_last(), macro_id);
    }
}

/// A report of another run, or of another macro, changes nothing that the monitor shows.
pub proof fn foreign_reports_are_ignored(
    macro_id: Seq<char>,
    snapshot: Option<SnapshotView>,
    events: Seq<EventView>,
    event: EventView,
)
    requires
        !starts(macro_id, event),
        last_start(events, macro_id) matches Some(at) ==> events[at].run_id != event.run_id,
    ensures
        monitored(Some(macro_id), snapshot, events.push(event)) == monitored(
            Some(macro_id),
            snapshot,
            events,
        ),
{
    let more = events.push(event);
    assert(more.drop_last() =~= events);
    lemma_last_start(events, macro_id);
    if let Some(at) = last_start(events, macro_id) {
        assert(more[at] == events[at]);
        assert(more.skip(at) =~= events.skip(at).push(event));
        lemma_foreign_reports(events.skip(at), event, events[at].run_id);
    }
}

/// A new run of the macro is shown from its start: nothing of what came before it is left.
pub proof fn new_run_starts_afresh(
    macro_id: Seq<char>,
    snapshot: Option<SnapshotView>,
    a: Seq<EventView>,
    b: Seq<EventView>,
    start: EventView,
)
    requires
        starts(macro_id, start),
    ensures
        monitored(Some(macro_id), snapshot, a.push(start)) == monitored(
            Some(macro_id),
            snapshot,
            b.push(start),
        ),
{
    assert(a.push(start).skip(a.len() as int) =~= seq![start]);
    assert(b.push(start).skip(b.len() as int) =~= seq![start]);
}

/// Without a selected macro, or without a run of it, the monitor is idle.
pub proof fn no_run_is_idle(
    snapshot: Option<SnapshotView>,
    events: Seq<EventView>,
    macro_id: Seq<char>,
)
    requires
        forall|i: int| 0 <= i < events.len() ==> !starts(macro_id, #[trigger] events[i]),
    ensures
        monitored(None, snapshot, events) == idle_monitor(),
        monitored(Some(macro_id), snapshot, events) == idle_monitor(),
{
    lemma_last_start(events, macro_id);
}

/// The reports of one run, in the order in which they came.
pub open spec fn own_reports(events: Seq<EventView>, run_id: Seq<char>) -> Seq<EventView> {
    events.filter(|event: EventView| event.run_id == run_id)
}

proof fn lemma_own_reports(events: Seq<EventView>, run_id: Seq<char>)
    ensures
        run_reports(own_reports(events, run_id), run_id) == run_reports(events, run_id),
    decreases events.len(),
{
    reveal(Seq::filter);
    let of_run = |event: EventView| event.run_id == run_id;
    if events.len() > 0 {
        let rest = events.drop_last();
        lemma_own_reports(rest, run_id);
        if events.last().run_id == run_id {
            let own = events.filter(of_run);
            assert(own == rest.filter(of_run).push(events.last()));
            assert(own.drop_last() =~= rest.filter(of_run));
        }
    }
}

/// Where only the first report starts a run of a macro, that is the last start of one.
proof fn lemma_only_start(events: Seq<EventView>, macro_id: Seq<char>)
    requires
        events.len() > 0,
        starts(macro_id, events[0]),
        forall|i: int| 0 < i < events.len() ==> !starts(macro_id, #[trigger] events[i]),
    ensures
        last_start(events, macro_id) == Some(0int),
    decreases events.len(),
{
    if events.len() > 1 {
        lemma_only_start(events.drop_last(), macro_id);
    }
}

/// No run of the macro starts behind the last start.
proof fn lemma_no_later_start(events: Seq<EventView>, macro_id: Seq<char>, i: int)
    requires
        last_start(events, macro_id) matches Some(at) && at < i < events.len(),
    ensures
        !starts(macro_id, events[i]),
    decreases events.len(),
{
    lemma_last_start(events, macro_id);
    if i < events.len() - 1 {
        lemma_no_later_start(events.drop_last(), macro_id, i);
    }
}

/// What a report tells about the run as a whole stays as it was at the start.
proof fn lemma_run_stays(monitor: MonitorView, reports: Seq<EventView>, loops: Set<Seq<char>>)
    ensures
        after_all(monitor, reports, loops).run_id == monitor.run_id,
        after_all(monitor, reports, loops).running_revision == monitor.running_revision,
        after_all(monitor, reports, loops).definition_hash == monitor.definition_hash,
        after_all(monitor, reports, loops).mode == monitor.mode,
    decreases reports.len(),
{
    if reports.len() > 0 {
        lemma_run_stays(monitor, reports.drop_last(), loops);
    }
}

/// The monitor shows the latest run of a macro by the run's own reports: those from its start on
/// that bear its identity. All other reports make no difference, and the run, its revision, its
/// mode and the hash of its definition are those of the start.
pub proof fn run_is_shown_by_its_own_reports(
    macro_id: Seq<char>,
    snapshot: Option<SnapshotView>,
    events: Seq<EventView>,
    at: int,
)
    requires
        last_start(events, macro_id) == Some(at),
    ensures
        ({
            let start = events[at];
            let own = own_reports(events.skip(at), start.run_id);
            let shown = monitored(Some(macro_id), snapshot, events);
            &&& 0 <= at < events.len()
            &&& shown == monitored(Some(macro_id), snapshot, own)
            &&& shown.run_id == Some(start.run_id)
            &&& start.fact matches FactView::RunStarted { revision, definition_hash, mode, .. }
                && shown.running_revision == Some(revision) && shown.definition_hash == Some(
                definition_hash,
            ) && shown.mode == Some(mode)
        }),
{
    lemma_last_start(events, macro_id);
    let start = events[at];
    let run_id = start.run_id;
    let of_run = |event: EventView| event.run_id == run_id;
    let tail = events.skip(at);
    let own = own_reports(tail, run_id);
    let later = tail.skip(1);
    assert(tail =~= seq![start] + later);
    assert(own == seq![start] + later.filter(of_run)) by {
        lemma_filter_starts(start, later, run_id);
    }
    assert forall|i: int| 0 < i < own.len() implies !starts(macro_id, #[trigger] own[i]) by {
        let one = later.filter(of_run)[i - 1];
        assert(later.filter(of_run).contains(one));
        later.lemma_filter_contains_rev(of_run, one);
        let j = later.index_of(one);
        assert(events[at + 1 + j] == one);
        lemma_no_later_start(events, macro_id, at + 1 + j);
    }
    lemma_only_start(own, macro_id);
    lemma_own_reports(tail, run_id);
    assert(own.skip(0) =~= own);
    let definition = snapshot_for(snapshot, start);
    lemma_run_stays(started(start), run_reports(tail, run_id), known_loops(definition));
}

proof fn lemma_filter_starts(start: EventView, later: Seq<EventView>, run_id: Seq<char>)
    requires
        start.run_id == run_id,
    ensures
        own_reports(seq![start] + later, run_id) == seq![start] + own_reports(later, run_id),
    decreases later.len(),
{
    reveal(Seq::filter);
    let all = seq![start] + later;
    if later.len() == 0 {
        assert(all =~= seq![start]);
        assert(all.drop_last() =~= Seq::empty());
        assert(own_reports(all.drop_last(), run_id) =~= Seq::empty());
        assert(own_reports(all, run_id) =~= seq![start] + own_reports(later, run_id));
    } else {
        assert(all.drop_last() =~= seq![start] + later.drop_last());
        assert(all.last() == later.last());
        lemma_filter_starts(start, later.drop_last(), run_id);
        assert(own_reports(all, run_id) =~= seq![start] + own_reports(later, run_id));
    }
}

/// The last report of a list that enters a block.
spec fn last_entry(reports: Seq<EventView>) -> Option<EventView>
    decreases reports.len(),
{
    if reports.len() == 0 {
        None
    } else if reports.last().fact is BlockEntered {
        Some(reports.last())
    } else {
        last_entry(reports.drop_last())
    }
}

/// The block that a report enters.
pub open spec fn entered_block(event: EventView) -> Option<Seq<char>> {
    match event.fact {
        FactView::BlockEntered { block_id } => Some(block_id),
        _ => None,
    }
}

proof fn lemma_active_block(monitor: MonitorView, reports: Seq<EventView>, loops: Set<Seq<char>>)
    ensures
        after_all(monitor, reports, loops).active_block == (match last_entry(reports) {
            Some(entry) => entered_block(entry),
            None => monitor.active_block,
        }),
    decreases reports.len(),
{
    if reports.len() > 0 {
        lemma_active_block(monitor, reports.drop_last(), loops);
    }
}

/// A report that is placed among others in order is the last entry where it enters a block and
/// none that does is later in sequence.
proof fn lemma_placed_entry(reports: Seq<EventView>, event: EventView)
    requires
        in_sequence(reports),
    ensures
        last_entry(placed(reports, event)) == (if event.fact is BlockEntered && (last_entry(
            reports,
        ) matches Some(entry) ==> entry.sequence <= event.sequence) {
            Some(event)
        } else {
            last_entry(reports)
        }),
        last_entry(reports) matches Some(entry) ==> entry.fact is BlockEntered && entry.sequence
            <= reports.last().sequence,
    decreases reports.len(),
{
    if reports.len() > 0 {
        let rest = reports.drop_last();
        let last = reports.last();
        assert forall|i: int, j: int| 0 <= i < j < rest.len() implies (#[trigger] rest[i]).sequence
            <= (#[trigger] rest[j]).sequence by {
            assert(reports[i].sequence <= reports[j].sequence);
        }
        lemma_placed_entry(rest, event);
        if rest.len() > 0 {
            assert(reports[rest.len() - 1].sequence <= reports[rest.len() as int].sequence);
        }
        if last.sequence > event.sequence {
            let all = placed(rest, event).push(last);
            assert(all.drop_last() =~= placed(rest, event));
        } else {
            assert(reports.push(event).drop_last() =~= reports);
        }
    } else {
        assert(reports.push(event).drop_last() =~= reports);
    }
}

/// A report comes before another in the order of a run: it is earlier in sequence, or it came
/// earlier with the same sequence.
pub open spec fn comes_before(events: Seq<EventView>, i: int, j: int) -> bool {
    events[i].sequence < events[j].sequence || (events[i].sequence == events[j].sequence && i < j)
}

/// The report at an index enters a block in a run.
pub open spec fn enters(events: Seq<EventView>, run_id: Seq<char>, i: int) -> bool {
    events[i].run_id == run_id && events[i].fact is BlockEntered
}

proof fn lemma_latest_entry(events: Seq<EventView>, run_id: Seq<char>)
    ensures
        match last_entry(run_reports(events, run_id)) {
            Some(entry) => exists|i: int|
                #![trigger enters(events, run_id, i)]
                0 <= i < events.len() && events[i] == entry && enters(events, run_id, i) && forall|
                    j: int,
                |
                    0 <= j < events.len() && j != i && #[trigger] enters(events, run_id, j)
                        ==> comes_before(events, j, i),
            None => forall|j: int| 0 <= j < events.len() ==> !#[trigger] enters(events, run_id, j),
        },
    decreases events.len(),
{
    if events.len() > 0 {
        let rest = events.drop_last();
        let last = events.last();
        let n = rest.len() as int;
        lemma_latest_entry(rest, run_id);
        reports_of_a_run(rest, run_id);
        assert forall|j: int| 0 <= j < n implies enters(events, run_id, j) == #[trigger] enters(
            rest,
            run_id,
            j,
        ) by {}
        if last.run_id == run_id {
            lemma_placed_entry(run_reports(rest, run_id), last);
        }
        match last_entry(run_reports(rest, run_id)) {
            Some(entry) => {
                let i = choose|i: int|
                    #![trigger enters(rest, run_id, i)]
                    0 <= i < rest.len() && rest[i] == entry && enters(rest, run_id, i) && forall|
                        j: int,
                    |
                        0 <= j < rest.len() && j != i && #[trigger] enters(rest, run_id, j)
                            ==> comes_before(rest, j, i);
                assert(enters(events, run_id, i));
                assert forall|j: int|
                    0 <= j < n && j != i && #[trigger] enters(events, run_id, j) implies comes_before(
                    events,
                    j,
                    i,
                ) by {
                    assert(enters(rest, run_id, j));
                    assert(comes_before(rest, j, i));
                }
                if enters(events, run_id, n) && entry.sequence <= last.sequence {
                    assert forall|j: int|
                        0 <= j < events.len() && j != n && #[trigger] enters(
                            events,
                            run_id,
                            j,
                        ) implies comes_before(events, j, n) by {
                        if j != i {
                            assert(comes_before(events, j, i));
                        }
                    }
                }
            },
            None => {
                assert forall|j: int| 0 <= j < n implies !#[trigger] enters(events, run_id, j) by {
                    assert(!enters(rest, run_id, j));
                }
                assert(enters(events, run_id, n) == (last.run_id == run_id
                    && last.fact is BlockEntered));
            },
        }
    }
}

/// The active block of the monitor is the one that the run entered last: that of the report with
/// the greatest sequence that enters a block, wherever it stands among the reports since the start;
/// of two with the same sequence, the later one. There is none where the run entered no block.
pub proof fn latest_entry_is_active(
    macro_id: Seq<char>,
    snapshot: Option<SnapshotView>,
    events: Seq<EventView>,
    at: int,
)
    requires
        last_start(events, macro_id) == Some(at),
    ensures
        ({
            let run_id = events[at].run_id;
            let active = monitored(Some(macro_id), snapshot, events).active_block;
            &&& forall|i: int|
                at <= i < events.len() && #[trigger] enters(events, run_id, i) && (forall|j: int|
                    at <= j < events.len() && j != i && #[trigger] enters(events, run_id, j)
                        ==> comes_before(events, j, i)) ==> active == entered_block(events[i])
            &&& (forall|j: int|
                at <= j < events.len() ==> !#[trigger] enters(events, run_id, j)) ==> active is None
        }),
{
    lemma_last_start(events, macro_id);
    let start = events[at];
    let run_id = start.run_id;
    let tail = events.skip(at);
    let definition = snapshot_for(snapshot, start);
    let active = monitored(Some(macro_id), snapshot, events).active_block;
    lemma_active_block(started(start), run_reports(tail, run_id), known_loops(definition));
    lemma_latest_entry(tail, run_id);
    assert forall|j: int| 0 <= j < tail.len() implies #[trigger] enters(tail, run_id, j) == enters(
        events,
        run_id,
        at + j,
    ) by {
        assert(tail[j] == events[at + j]);
    }
    assert forall|i: int|
        at <= i < events.len() && #[trigger] enters(events, run_id, i) && (forall|j: int|
            at <= j < events.len() && j != i && #[trigger] enters(events, run_id, j)
                ==> comes_before(events, j, i)) implies active == entered_block(events[i]) by {
        assert(enters(tail, run_id, i - at));
        let entry = last_entry(run_reports(tail, run_id))->0;
        let k = choose|k: int|
            #![trigger enters(tail, run_id, k)]
            0 <= k < tail.len() && tail[k] == entry && enters(tail, run_id, k) && forall|j: int|
                0 <= j < tail.len() && j != k && #[trigger] enters(tail, run_id, j)
                    ==> comes_before(tail, j, k);
        if k != i - at {
            assert(comes_before(tail, i - at, k));
            assert(enters(events, run_id, at + k));
            assert(comes_before(events, at + k, i));
        }
    }
    if forall|j: int| at <= j < events.len() ==> !#[trigger] enters(events, run_id, j) {
        assert forall|j: int| 0 <= j < tail.len() implies !#[trigger] enters(tail, run_id, j) by {
            assert(!enters(events, run_id, at + j));
        }
    }
}

/// The last report of a list that tells something.
pub open spec fn last_told(
    reports: Seq<EventView>,
    tells: spec_fn(EventView) -> bool,
) -> Option<EventView>
    decreases reports.len(),
{
    if reports.len() == 0 {
        None
    } else if tells(reports.last()) {
        Some(reports.last())
    } else {
        last_told(reports.drop_last(), tells)
    }
}

/// A report that is placed among others in order is the last to tell something where it tells it and
/// none that does is later in sequence.
proof fn lemma_placed_told(
    reports: Seq<EventView>,
    event: EventView,
    tells: spec_fn(EventView) -> bool,
)
    requires
        in_sequence(reports),
    ensures
        last_told(placed(reports, event), tells) == (if tells(event) && (last_told(
            reports,
            tells,
        ) matches Some(told) ==> told.sequence <= event.sequence) {
            Some(event)
        } else {
            last_told(reports, tells)
        }),
        last_told(reports, tells) matches Some(told) ==> tells(told) && told.sequence
            <= reports.last().sequence,
    decreases reports.len(),
{
    if reports.len() > 0 {
        let rest = reports.drop_last();
        let last = reports.last();
        assert forall|i: int, j: int| 0 <= i < j < rest.len() implies (#[trigger] rest[i]).sequence
            <= (#[trigger] rest[j]).sequence by {
            assert(reports[i].sequence <= reports[j].sequence);
        }
        lemma_placed_told(rest, event, tells);
        if rest.len() > 0 {
            assert(reports[rest.len() - 1].sequence <= reports[rest.len() as int].sequence);
        }
        if last.sequence > event.sequence {
            let all = placed(rest, event).push(last);
            assert(all.drop_last() =~= placed(rest, event));
        } else {
            assert(reports.push(event).drop_last() =~= reports);
        }
    } else {
        assert(reports.push(event).drop_last() =~= reports);
    }
}

/// The report at an index is one of a run, and tells something.
pub open spec fn run_tells(
    events: Seq<EventView>,
    run_id: Seq<char>,
    tells: spec_fn(EventView) -> bool,
    i: int,
) -> bool {
    events[i].run_id == run_id && tells(events[i])
}

/// The report at an index is the latest of its run, from another index on, that tells something: of
/// those that tell it, it has the greatest sequence, and of these it came last.
pub open spec fn tells_latest(
    events: Seq<EventView>,
    at: int,
    tells: spec_fn(EventView) -> bool,
    i: int,
) -> bool {
    &&& at <= i < events.len()
    &&& run_tells(events, events[at].run_id, tells, i)
    &&& forall|j: int|
        at <= j < events.len() && j != i && #[trigger] run_tells(
            events,
            events[at].run_id,
            tells,
            j,
        ) ==> comes_before(events, j, i)
}

/// No report of the run that starts at an index tells something.
pub open spec fn nothing_told(
    events: Seq<EventView>,
    at: int,
    tells: spec_fn(EventView) -> bool,
) -> bool {
    forall|j: int|
        at <= j < events.len() ==> !#[trigger] run_tells(events, events[at].run_id, tells, j)
}

proof fn lemma_latest_told(
    events: Seq<EventView>,
    run_id: Seq<char>,
    tells: spec_fn(EventView) -> bool,
)
    ensures
        match last_told(run_reports(events, run_id), tells) {
            Some(told) => exists|i: int|
                #![trigger run_tells(events, run_id, tells, i)]
                0 <= i < events.len() && events[i] == told && run_tells(events, run_id, tells, i)
                    && forall|j: int|
                    0 <= j < events.len() && j != i && #[trigger] run_tells(
                        events,
                        run_id,
                        tells,
                        j,
                    ) ==> comes_before(events, j, i),
            None => forall|j: int|
                0 <= j < events.len() ==> !#[trigger] run_tells(events, run_id, tells, j),
        },
    decreases events.len(),
{
    if events.len() > 0 {
        let rest = events.drop_last();
        let last = events.last();
        let n = rest.len() as int;
        lemma_latest_told(rest, run_id, tells);
        reports_of_a_run(rest, run_id);
        assert forall|j: int| 0 <= j < n implies run_tells(events, run_id, tells, j)
            == #[trigger] run_tells(rest, run_id, tells, j) by {}
        if last.run_id == run_id {
            lemma_placed_told(run_reports(rest, run_id), last, tells);
        }
        match last_told(run_reports(rest, run_id), tells) {
            Some(told) => {
                let i = choose|i: int|
                    #![trigger run_tells(rest, run_id, tells, i)]
                    0 <= i < rest.len() && rest[i] == told && run_tells(rest, run_id, tells, i)
                        && forall|j: int|
                        0 <= j < rest.len() && j != i && #[trigger] run_tells(
                            rest,
                            run_id,
                            tells,
                            j,
                        ) ==> comes_before(rest, j, i);
                assert(run_tells(events, run_id, tells, i));
                assert forall|j: int|
                    0 <= j < n && j != i && #[trigger] run_tells(
                        events,
                        run_id,
                        tells,
                        j,
                    ) implies comes_before(events, j, i) by {
                    assert(run_tells(rest, run_id, tells, j));
                    assert(comes_before(rest, j, i));
                }
                if run_tells(events, run_id, tells, n) && told.sequence <= last.sequence {
                    assert forall|j: int|
                        0 <= j < events.len() && j != n && #[trigger] run_tells(
                            events,
                            run_id,
                            tells,
                            j,
                        ) implies comes_before(events, j, n) by {
                        if j != i {
                            assert(comes_before(events, j, i));
                        }
                    }
                }
            },
            None => {
                assert forall|j: int| 0 <= j < n implies !#[trigger] run_tells(
                    events,
                    run_id,
                    tells,
                    j,
                ) by {
                    assert(!run_tells(rest, run_id, tells, j));
                }
                assert(run_tells(events, run_id, tells, n) == (last.run_id == run_id && tells(
                    last,
                )));
            },
        }
    }
}

/// What is last told among the reports of a run is told by the latest report that tells it.
pub proof fn lemma_last_told(
    events: Seq<EventView>,
    at: int,
    tells: spec_fn(EventView) -> bool,
)
    requires
        0 <= at < events.len(),
    ensures
        forall|i: int| #[trigger]
            tells_latest(events, at, tells, i) ==> last_told(
                run_reports(events.skip(at), events[at].run_id),
                tells,
            ) == Some(events[i]),
        nothing_told(events, at, tells) ==> last_told(
            run_reports(events.skip(at), events[at].run_id),
            tells,
        ) is None,
{
    let run_id = events[at].run_id;
    let tail = events.skip(at);
    lemma_latest_told(tail, run_id, tells);
    assert forall|j: int| 0 <= j < tail.len() implies #[trigger] run_tells(tail, run_id, tells, j)
        == run_tells(events, run_id, tells, at + j) by {
        assert(tail[j] == events[at + j]);
    }
    assert forall|i: int| #[trigger] tells_latest(events, at, tells, i) implies last_told(
        run_reports(tail, run_id),
        tells,
    ) == Some(events[i]) by {
        assert(run_tells(tail, run_id, tells, i - at));
        let told = last_told(run_reports(tail, run_id), tells)->0;
        let k = choose|k: int|
            #![trigger run_tells(tail, run_id, tells, k)]
            0 <= k < tail.len() && tail[k] == told && run_tells(tail, run_id, tells, k) && forall|
                j: int,
            |
                0 <= j < tail.len() && j != k && #[trigger] run_tells(tail, run_id, tells, j)
                    ==> comes_before(tail, j, k);
        if k != i - at {
            assert(comes_before(tail, i - at, k));
            assert(run_tells(events, run_id, tells, at + k));
            assert(comes_before(events, at + k, i));
        }
    }
    if nothing_told(events, at, tells) {
        assert forall|j: int| 0 <= j < tail.len() implies !#[trigger] run_tells(
            tail,
            run_id,
            tells,
            j,
        ) by {
            assert(!run_tells(events, run_id, tells, at + j));
        }
    }
}

} // verus!
