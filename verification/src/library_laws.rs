//! What holds of the library of macros and of what is asked for on its page.
use crate::intents::{enqueued, not_stop, run_intent, IntentView, MacroRunIntent, QueueView, SavedView};
use crate::library::{
    library_row, library_status, row_found, rows_found, status_word, LibraryRowView,
};
use crate::macro_engine::MacroDefinitionView;
use crate::monitor::{stop_text, MonitorView, StopOutcomeView};
use crate::text::{blank, decimal, holds_text, trimmed};
use crate::tree::{first_index, lemma_first_index};
use vstd::prelude::*;

verus! {

/// A run of the macro is under way.
pub open spec fn is_running(monitor: MonitorView) -> bool {
    (monitor.status is Running || monitor.status is Paused || monitor.status is Stopping)
        && monitor.running_revision is Some
}

/// The last run of the macro went wrong: it told an error, or it ended with one or for safety.
pub open spec fn went_wrong(monitor: MonitorView, last: Option<StopOutcomeView>) -> bool {
    monitor.error is Some || (last is Some && (last->0.classification is Error
        || last->0.classification is SafetyStopped))
}

/// The status of a macro in the library is the first of these that holds: it is disabled, it runs,
/// its last run went wrong, it has problems, it is not saved as it is; and otherwise it is ready.
pub proof fn library_status_by_what_matters_most(
    revision: u64,
    saved_revision: Option<u64>,
    enabled: bool,
    problems: nat,
    monitor: MonitorView,
    last: Option<StopOutcomeView>,
)
    ensures
        ({
            let status = library_status(revision, saved_revision, enabled, problems, monitor, last);
            let saved = saved_revision == Some(revision);
            &&& status is Disabled <==> !enabled
            &&& status is Running <==> enabled && is_running(monitor)
            &&& status is StoppedWithError <==> enabled && !is_running(monitor) && went_wrong(
                monitor,
                last,
            )
            &&& status is NeedsRevalidation <==> enabled && !is_running(monitor) && !went_wrong(
                monitor,
                last,
            ) && problems > 0
            &&& status is Draft <==> enabled && !is_running(monitor) && !went_wrong(monitor, last)
                && problems == 0 && !saved
            &&& status is Ready <==> enabled && !is_running(monitor) && !went_wrong(monitor, last)
                && problems == 0 && saved
        }),
{
}

/// The row of a macro tells what the macro is: its identity, name and revision, the window it is for
/// by its title or else by its class, the resolution it was captured at, how many problems it has,
/// and how its last run ended.
pub proof fn library_row_tells_the_macro(
    definition: MacroDefinitionView,
    saved_revision: Option<u64>,
    enabled: bool,
    problems: nat,
    monitor: MonitorView,
    last: Option<StopOutcomeView>,
)
    ensures
        ({
            let row = library_row(definition, saved_revision, enabled, problems, monitor, last);
            &&& row.id == definition.id && row.name == definition.name
            &&& row.revision == definition.revision
            &&& row.dpi == definition.target.captured_dpi
            &&& row.target == (if blank(definition.target.title_contains) {
                definition.target.window_class
            } else {
                definition.target.title_contains
            })
            &&& problems == 0 ==> row.last_validation == "Valid"@
            &&& problems > 0 ==> row.last_validation == decimal(problems) + " issues"@
            &&& last is None ==> row.last_run == "No completed run"@
            &&& last is Some ==> row.last_run == stop_text(last->0.reason)
            &&& row.status == library_status(
                definition.revision,
                saved_revision,
                enabled,
                problems,
                monitor,
                last,
            )
        }),
{
}

/// What a search finds: every row whose name or status holds what is looked for, in the order of the
/// library, and no other. A search for nothing finds every row.
pub proof fn search_finds_what_holds_the_text(rows: Seq<LibraryRowView>, search: Seq<char>)
    ensures
        forall|i: int|
            0 <= i < rows.len() ==> (rows_found(rows, search).contains(#[trigger] rows[i])
                <==> row_found(rows[i], search)),
        forall|i: int|
            0 <= i < rows_found(rows, search).len() ==> rows.contains(
                #[trigger] rows_found(rows, search)[i],
            ) && row_found(rows_found(rows, search)[i], search),
        forall|row: LibraryRowView| #[trigger]
            row_found(row, search) <==> trimmed(search).len() == 0 || holds_text(
                row.name,
                trimmed(search),
            ) || holds_text(status_word(row.status), trimmed(search)),
        trimmed(search).len() == 0 ==> rows_found(rows, search) == rows,
    decreases rows.len(),
{
    if rows.len() > 0 {
        let rest = rows.drop_last();
        let last = rows.last();
        search_finds_what_holds_the_text(rest, search);
        let found = rows_found(rows, search);
        let before = rows_found(rest, search);
        assert forall|i: int| 0 <= i < found.len() implies rows.contains(#[trigger] found[i])
            && row_found(found[i], search) by {
            if i < before.len() {
                assert(found[i] == before[i]);
                let k = rest.index_of(before[i]);
                assert(rows[k] == found[i]);
            } else {
                assert(rows[rows.len() - 1] == found[i]);
            }
        }
        assert forall|i: int| 0 <= i < rows.len() implies (found.contains(#[trigger] rows[i])
            <==> row_found(rows[i], search)) by {
            if row_found(rows[i], search) {
                if i < rest.len() {
                    assert(rest[i] == rows[i]);
                    let k = before.index_of(rest[i]);
                    assert(found[k] == rows[i]);
                } else {
                    assert(found[before.len() as int] == rows[i]);
                }
            }
            if found.contains(rows[i]) {
                let k = found.index_of(rows[i]);
                assert(row_found(found[k], search));
            }
        }
        if trimmed(search).len() == 0 {
            assert(row_found(last, search));
            assert(rows =~= rest.push(last));
        }
    }
}

/// Each kind of run is asked for as what it is, of the macro that was chosen: an observation without
/// clicks, one round, rounds that only observe, and rounds that click.
pub proof fn runs_are_asked_for_as_chosen(run: MacroRunIntent, saved: SavedView)
    ensures
        run is DryRun <==> run_intent(run, saved) is DryRun,
        run is RunOnce <==> run_intent(run, saved) is RunOnce,
        run is ContinuousObservation <==> run_intent(run, saved) is Run,
        run is ContinuousLive <==> run_intent(run, saved) is RunLive,
        match run_intent(run, saved) {
            IntentView::DryRun { saved: asked } => asked == saved,
            IntentView::RunOnce { saved: asked } => asked == saved,
            IntentView::Run { saved: asked } => asked == saved,
            IntentView::RunLive { saved: asked } => asked == saved,
            _ => false,
        },
{
}

/// A queue with room takes a request at its end. One that is full takes only Stop, in the place of
/// the oldest request that is none, and the others keep their order; it stays as it is where all of
/// them are Stop already, and refuses any other request.
pub proof fn requests_wait_in_order(queue: QueueView, intent: IntentView)
    ensures
        ({
            let after = enqueued(queue, intent);
            &&& after.capacity == queue.capacity
            &&& queue.values.len() < queue.capacity ==> after.values == queue.values.push(intent)
            &&& queue.values.len() >= queue.capacity && intent !is Stop ==> after == queue
            &&& queue.values.len() >= queue.capacity && intent is Stop ==> {
                ||| after == queue && forall|i: int|
                    0 <= i < queue.values.len() ==> (#[trigger] queue.values[i]) is Stop
                ||| exists|k: int|
                    0 <= k < queue.values.len() && (#[trigger] queue.values[k]) !is Stop && (
                    forall|i: int| 0 <= i < k ==> (#[trigger] queue.values[i]) is Stop)
                        && after.values == queue.values.remove(k).push(intent)
            }
        }),
{
    let values = queue.values;
    let pick = not_stop();
    lemma_first_index(values, pick);
    if values.len() >= queue.capacity && intent is Stop {
        match first_index(values, pick) {
            Some(k) => {
                assert forall|i: int| 0 <= i < k implies (#[trigger] values[i]) is Stop by {
                    assert(!pick(values[i]));
                }
                assert(values[k] !is Stop);
            },
            None => {
                assert forall|i: int| 0 <= i < values.len() implies (#[trigger] values[i]) is Stop by {
                    assert(!pick(values[i]));
                }
            },
        }
    }
}

} // verus!
