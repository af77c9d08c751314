//! What holds of the run controls and of the monitor, in terms of what a run has reported.
use crate::context_laws::snapshot_of_run;
use crate::macro_engine::{BlockView, F64Bits};
use crate::monitor::{
    after_all, controller_events, known_loops, last_completion,
    last_start, loops_of, monitored, of_run, outcome_of, owners, reported, run_reports,
    snapshot_for, started, starts, stops, with_report, with_start, ContextView, MonitorView,
    SnapshotView, StopView,
};
use crate::monitor_laws::{
    comes_before, last_told, lemma_last_start, lemma_last_told, nothing_told, run_tells, tells_latest,
};
use crate::page::PageView;
use crate::page_status::{availability, known_events, page_monitor, selected_macro};
use crate::content::option_view;
use crate::tree::{first_index, lemma_first_index};
use crate::run_events::{
    alike,
    json_double, json_entries, json_unsigned, ActionState, AttemptView,
    ControllerLifecycleProjection, ControllerSemanticProjection, DetectorEvidence, EventView,
    FactView, RunMode, RunStatus, StopReasonView,
};
use vstd::prelude::*;

verus! {

/// The report at an index starts a run of a macro, and no later one does.
pub open spec fn starts_latest_run(events: Seq<EventView>, macro_id: Seq<char>, at: int) -> bool {
    &&& 0 <= at < events.len()
    &&& events[at].fact is RunStarted && events[at].fact->macro_id == macro_id
    &&& forall|j: int|
        at < j < events.len() && (#[trigger] events[j]).fact is RunStarted
            ==> events[j].fact->macro_id != macro_id
}

proof fn lemma_latest_run(events: Seq<EventView>, macro_id: Seq<char>, at: int)
    requires
        starts_latest_run(events, macro_id, at),
    ensures
        last_start(events, macro_id) == Some(at),
    decreases events.len(),
{
    let last = events.len() - 1;
    assert(events.last() == events[last]);
    if at < last {
        assert(!starts(macro_id, events[last]));
        lemma_latest_run(events.drop_last(), macro_id, at);
    }
}

/// The predicate that picks the reports that tell the status of a run.
pub open spec fn tells_status() -> spec_fn(EventView) -> bool {
    |event: EventView| event.fact is StatusChanged || event.fact is RunStopped
}

/// The status that a report tells.
pub open spec fn told_status(event: EventView) -> RunStatus {
    match event.fact {
        FactView::StatusChanged { status } => status,
        FactView::RunStopped { status, .. } => status,
        _ => RunStatus::Running,
    }
}

/// The predicate that picks the reports on an action.
pub open spec fn tells_action() -> spec_fn(EventView) -> bool {
    |event: EventView|
        event.fact is ActionPlanned || event.fact is ActionBlocked
            || event.fact is ActionStateChanged
}

/// The block of the action that a report is on, how far the action is, and which attempt it is.
pub open spec fn told_action(event: EventView) -> Option<
    (Seq<char>, ActionState, Option<AttemptView>),
> {
    match event.fact {
        FactView::ActionPlanned { block_id, state, .. } => Some((block_id, state, None)),
        FactView::ActionBlocked { block_id, attempt, state, .. } => Some(
            (block_id, state, attempt),
        ),
        FactView::ActionStateChanged { block_id, attempt, state, .. } => Some(
            (block_id, state, Some(attempt)),
        ),
        _ => None,
    }
}

/// The monitor shows an action, or none.
pub open spec fn shows_action(
    monitor: MonitorView,
    action: Option<(Seq<char>, ActionState, Option<AttemptView>)>,
) -> bool {
    match action {
        Some((block_id, state, attempt)) => monitor.action_block_id == Some(block_id)
            && monitor.action_state == Some(state) && monitor.action_attempt_id == attempt,
        None => monitor.action_block_id is None && monitor.action_state is None
            && monitor.action_attempt_id is None,
    }
}

/// The predicate that picks the reports of an observation.
pub open spec fn tells_observation() -> spec_fn(EventView) -> bool {
    |event: EventView| event.fact is ObservationCompleted
}

/// The monitor shows an observation: whether it matched, how many candidates it had, the score of
/// the best, the score of the second and the scale as its details give them, and for how many frames
/// it was stable.
pub open spec fn shows_observation(monitor: MonitorView, evidence: DetectorEvidence) -> bool {
    let details = json_entries(evidence.details);
    &&& monitor.observation_matched == Some(evidence.matched)
    &&& monitor.candidate_count == Some(evidence.match_count)
    &&& monitor.candidate_score == evidence.score
    &&& monitor.stable_frames == Some(evidence.stable_frames)
    &&& monitor.runner_up_score == (if details.dom().contains("runner_up_score"@) {
        match json_double(details["runner_up_score"@]) {
            Some(bits) => Some(F64Bits(bits)),
            None => None,
        }
    } else {
        None
    })
    &&& monitor.scale_percent == (if details.dom().contains("selected_scale_percent"@) {
        json_unsigned(details["selected_scale_percent"@])
    } else {
        None
    })
}

/// The predicate that picks the reports of an error.
pub open spec fn tells_error() -> spec_fn(EventView) -> bool {
    |event: EventView| event.fact is Error
}

/// The predicate that picks the reports of the end of a run.
pub open spec fn tells_end() -> spec_fn(EventView) -> bool {
    |event: EventView| event.fact is RunStopped
}

/// The predicate that picks all reports.
pub open spec fn tells_time() -> spec_fn(EventView) -> bool {
    |event: EventView| true
}

/// The predicate that picks the reports on the rounds of a loop: those that count them and, where
/// the loop is known, those that enter it.
pub open spec fn tells_rounds(loop_id: Seq<char>, known: bool) -> spec_fn(EventView) -> bool {
    |event: EventView|
        match event.fact {
            FactView::LoopYielded { block_id, .. } => block_id == loop_id,
            FactView::BlockEntered { block_id } => known && block_id == loop_id,
            _ => false,
        }
}

/// What a list of reports leaves on the monitor, part by part.
proof fn lemma_parts(monitor: MonitorView, reports: Seq<EventView>, loops: Set<Seq<char>>)
    ensures
        ({
            let now = after_all(monitor, reports, loops);
            &&& now.status == (match last_told(reports, tells_status()) {
                Some(event) => told_status(event),
                None => monitor.status,
            })
            &&& now.elapsed_ms == (match last_told(reports, tells_time()) {
                Some(event) => event.elapsed_ms,
                None => monitor.elapsed_ms,
            })
            &&& match last_told(reports, tells_action()) {
                Some(event) => shows_action(now, told_action(event)),
                None => now.action_block_id == monitor.action_block_id && now.action_state
                    == monitor.action_state && now.action_attempt_id == monitor.action_attempt_id,
            }
            &&& match last_told(reports, tells_observation()) {
                Some(event) => event.fact is ObservationCompleted && shows_observation(
                    now,
                    event.fact->evidence,
                ),
                None => now.observation_matched == monitor.observation_matched
                    && now.candidate_count == monitor.candidate_count && now.candidate_score
                    == monitor.candidate_score && now.stable_frames == monitor.stable_frames
                    && now.runner_up_score == monitor.runner_up_score && now.scale_percent
                    == monitor.scale_percent,
            }
            &&& match last_told(reports, tells_error()) {
                Some(event) => event.fact is Error && now.error == Some(event.fact->message),
                None => now.error == monitor.error,
            }
            &&& match last_told(reports, tells_end()) {
                Some(event) => event.fact is RunStopped && now.stop_outcome == Some(
                    outcome_of(event.fact->reason),
                ),
                None => now.stop_outcome == monitor.stop_outcome,
            }
            &&& now.run_id == monitor.run_id && now.mode == monitor.mode && now.running_revision
                == monitor.running_revision && now.definition_hash == monitor.definition_hash
        }),
    decreases reports.len(),
{
    if reports.len() > 0 {
        lemma_parts(monitor, reports.drop_last(), loops);
    }
}

proof fn lemma_rounds(
    monitor: MonitorView,
    reports: Seq<EventView>,
    loops: Set<Seq<char>>,
    loop_id: Seq<char>,
)
    ensures
        ({
            let rounds = after_all(monitor, reports, loops).iterations;
            match last_told(reports, tells_rounds(loop_id, loops.contains(loop_id))) {
                Some(event) => match event.fact {
                    FactView::LoopYielded { completed_iterations, .. } => rounds.dom().contains(
                        loop_id,
                    ) && rounds[loop_id] == completed_iterations,
                    _ => !rounds.dom().contains(loop_id),
                },
                None => rounds.dom().contains(loop_id) == monitor.iterations.dom().contains(loop_id)
                    && rounds[loop_id] == monitor.iterations[loop_id],
            }
        }),
    decreases reports.len(),
{
    if reports.len() > 0 {
        lemma_rounds(monitor, reports.drop_last(), loops, loop_id);
    }
}

/// The status of the monitor is the one that the run reported last: that of the report with the
/// greatest sequence that tells one, and of two with the same sequence that of the later. A run that
/// has told none since its start is running.
pub proof fn latest_status_is_shown(
    macro_id: Seq<char>,
    snapshot: Option<SnapshotView>,
    events: Seq<EventView>,
    at: int,
)
    requires
        starts_latest_run(events, macro_id, at),
    ensures
        forall|i: int| #[trigger]
            tells_latest(events, at, tells_status(), i) ==> monitored(
                Some(macro_id),
                snapshot,
                events,
            ).status == told_status(events[i]),
        nothing_told(events, at, tells_status()) ==> monitored(
            Some(macro_id),
            snapshot,
            events,
        ).status is Running,
{
    lemma_latest_run(events, macro_id, at);
    lemma_last_told(events, at, tells_status());
    lemma_parts(
        started(events[at]),
        run_reports(events.skip(at), events[at].run_id),
        known_loops(snapshot_for(snapshot, events[at])),
    );
}

/// The monitor shows which run it is on, of which revision and definition and in which mode, as the
/// start of the run gave them, and the time of its last report.
pub proof fn run_is_identified(
    macro_id: Seq<char>,
    snapshot: Option<SnapshotView>,
    events: Seq<EventView>,
    at: int,
)
    requires
        starts_latest_run(events, macro_id, at),
    ensures
        ({
            let shown = monitored(Some(macro_id), snapshot, events);
            &&& shown.run_id == Some(events[at].run_id)
            &&& shown.running_revision == Some(events[at].fact->revision)
            &&& shown.definition_hash == Some(events[at].fact->definition_hash)
            &&& shown.mode == Some(events[at].fact->mode)
            &&& forall|i: int| #[trigger]
                tells_latest(events, at, tells_time(), i) ==> shown.elapsed_ms
                    == events[i].elapsed_ms
        }),
{
    lemma_latest_run(events, macro_id, at);
    lemma_last_told(events, at, tells_time());
    lemma_parts(
        started(events[at]),
        run_reports(events.skip(at), events[at].run_id),
        known_loops(snapshot_for(snapshot, events[at])),
    );
}

/// The monitor shows the action that the run reported on last, the observation that it completed
/// last, its last error and its end, each by the report with the greatest sequence that tells it; it
/// shows none of that which the run has not told since its start.
pub proof fn latest_of_each_is_shown(
    macro_id: Seq<char>,
    snapshot: Option<SnapshotView>,
    events: Seq<EventView>,
    at: int,
)
    requires
        starts_latest_run(events, macro_id, at),
    ensures
        ({
            let shown = monitored(Some(macro_id), snapshot, events);
            &&& forall|i: int| #[trigger]
                tells_latest(events, at, tells_action(), i) ==> shows_action(
                    shown,
                    told_action(events[i]),
                )
            &&& nothing_told(events, at, tells_action()) ==> shows_action(shown, None)
            &&& forall|i: int| #[trigger]
                tells_latest(events, at, tells_observation(), i) ==> shows_observation(
                    shown,
                    events[i].fact->evidence,
                )
            &&& nothing_told(events, at, tells_observation()) ==> shown.observation_matched is None
                && shown.candidate_count is None && shown.candidate_score is None
                && shown.stable_frames is None && shown.runner_up_score is None
                && shown.scale_percent is None
            &&& forall|i: int| #[trigger]
                tells_latest(events, at, tells_error(), i) ==> shown.error == Some(
                    events[i].fact->message,
                )
            &&& nothing_told(events, at, tells_error()) ==> shown.error is None
            &&& forall|i: int| #[trigger]
                tells_latest(events, at, tells_end(), i) ==> shown.stop_outcome is Some
                    && shown.stop_outcome->0.reason == events[i].fact->reason
            &&& nothing_told(events, at, tells_end()) ==> shown.stop_outcome is None
        }),
{
    lemma_latest_run(events, macro_id, at);
    lemma_last_told(events, at, tells_action());
    lemma_last_told(events, at, tells_observation());
    lemma_last_told(events, at, tells_error());
    lemma_last_told(events, at, tells_end());
    lemma_parts(
        started(events[at]),
        run_reports(events.skip(at), events[at].run_id),
        known_loops(snapshot_for(snapshot, events[at])),
    );
}

proof fn lemma_loops_of(list: Seq<StopView>, id: Seq<char>)
    ensures
        loops_of(list).contains(id) == exists|i: int|
            0 <= i < list.len() && repeats((#[trigger] list[i]).block) && list[i].block.id == id,
    decreases list.len(),
{
    if list.len() > 0 {
        let rest = list.drop_last();
        lemma_loops_of(rest, id);
        if loops_of(rest).contains(id) {
            let i = choose|i: int|
                0 <= i < rest.len() && repeats((#[trigger] rest[i]).block) && rest[i].block.id
                    == id;
            assert(list[i] == rest[i]);
        }
        if exists|i: int|
            0 <= i < list.len() && repeats((#[trigger] list[i]).block) && list[i].block.id == id {
            let i = choose|i: int|
                0 <= i < list.len() && repeats((#[trigger] list[i]).block) && list[i].block.id
                    == id;
            if i < rest.len() {
                assert(rest[i] == list[i]);
            }
        }
    }
}

/// A block is a loop.
pub open spec fn repeats(block: BlockView) -> bool {
    block.head is RepeatN || block.head is RepeatUntil || block.head is Continuous
}

/// A block of a definition is a loop that a run is followed into.
pub open spec fn followed_loop(blocks: Seq<BlockView>, id: Seq<char>) -> bool {
    let list = stops(blocks, ContextView { branch: None, loop_id: None });
    exists|i: int|
        0 <= i < list.len() && repeats((#[trigger] list[i]).block) && list[i].block.id == id
}

/// The rounds of a loop are those that the run counted last since it entered the loop last. What was
/// counted before the loop was entered again is forgotten, where the definition of the run is known.
pub proof fn latest_rounds_are_shown(
    macro_id: Seq<char>,
    snapshot: Option<SnapshotView>,
    events: Seq<EventView>,
    at: int,
    loop_id: Seq<char>,
)
    requires
        starts_latest_run(events, macro_id, at),
    ensures
        ({
            let known = snapshot is Some && snapshot_of_run(snapshot->0, macro_id, events[at])
                && followed_loop(snapshot->0.definition.blocks, loop_id);
            let rounds = monitored(Some(macro_id), snapshot, events).iterations;
            &&& forall|i: int| #[trigger]
                tells_latest(events, at, tells_rounds(loop_id, known), i) ==> (
                match events[i].fact {
                    FactView::LoopYielded { completed_iterations, .. } => rounds.dom().contains(
                        loop_id,
                    ) && rounds[loop_id] == completed_iterations,
                    _ => !rounds.dom().contains(loop_id),
                })
            &&& nothing_told(events, at, tells_rounds(loop_id, known)) ==> !rounds.dom().contains(
                loop_id,
            )
        }),
{
    lemma_latest_run(events, macro_id, at);
    let known = snapshot is Some && snapshot_of_run(snapshot->0, macro_id, events[at])
        && followed_loop(snapshot->0.definition.blocks, loop_id);
    let definition = snapshot_for(snapshot, events[at]);
    if snapshot is Some {
        lemma_loops_of(
            stops(
                snapshot->0.definition.blocks,
                ContextView { branch: None, loop_id: None },
            ),
            loop_id,
        );
    }
    assert(known == known_loops(definition).contains(loop_id));
    lemma_last_told(events, at, tells_rounds(loop_id, known));
    lemma_rounds(
        started(events[at]),
        run_reports(events.skip(at), events[at].run_id),
        known_loops(definition),
        loop_id,
    );
}

/// The run controls go by what the latest run of the selected macro has reported: Pause is offered
/// exactly where the status that it told last is Running, Resume exactly where it is Paused, and Stop
/// where it is one of these or Stopping. A run that has told no status since its start is running. A
/// run can be started only where the status told last is Idle and the macro is enabled.
pub proof fn controls_follow_the_reports(page: PageView, at: int)
    requires
        page.selected_saved is Some,
        starts_latest_run(known_events(page), page.selected_saved->0.macro_id, at),
    ensures
        ({
            let events = known_events(page);
            let controls = availability(page, page_monitor(page, selected_macro(page)));
            &&& forall|i: int| #[trigger]
                tells_latest(events, at, tells_status(), i) ==> {
                    let status = told_status(events[i]);
                    &&& controls.can_pause <==> status is Running
                    &&& controls.can_resume <==> status is Paused
                    &&& controls.can_stop <==> status is Running || status is Paused
                        || status is Stopping
                    &&& controls.can_dry_run <==> page.enabled && status is Idle
                    &&& controls.can_run_once <==> page.enabled && status is Idle
                    &&& controls.can_run_continuous <==> page.enabled && status is Idle
                    &&& controls.can_run_live <==> page.enabled && status is Idle
                    &&& controls.disabled_reason is None <==> page.enabled && status is Idle
                }
            &&& nothing_told(events, at, tells_status()) ==> controls.can_pause
                && !controls.can_resume && controls.can_stop && !controls.can_dry_run
                && !controls.can_run_once && !controls.can_run_continuous && !controls.can_run_live
                && controls.disabled_reason is Some
            &&& match events[at].fact->mode {
                RunMode::DryRun => controls.primary_label == "Dry Run"@ && controls.primary_detail
                    == "Observe only"@,
                RunMode::ObservationOnly => controls.primary_label == "Run Once"@
                    && controls.primary_detail == "Observe only"@,
                _ => controls.primary_label == "Run"@ && controls.primary_detail == "Live"@,
            }
        }),
{
    let macro_id = page.selected_saved->0.macro_id;
    let events = known_events(page);
    latest_status_is_shown(macro_id, page.running_snapshot, events, at);
    run_is_identified(macro_id, page.running_snapshot, events, at);
}

/// Where the selected macro has no run, nothing can be paused, resumed or stopped, and every kind of
/// run can be started where the macro is enabled. Where no saved macro is selected, nothing of this
/// can be done. Where no run can be started, the reason is the first that holds: that no macro is
/// selected, that it is not enabled, that a run is under way.
pub proof fn controls_without_a_run(page: PageView)
    requires
        page.selected_saved is Some ==> forall|i: int|
            0 <= i < known_events(page).len() && (#[trigger] known_events(page)[i]).fact is RunStarted
                ==> known_events(page)[i].fact->macro_id != page.selected_saved->0.macro_id,
    ensures
        ({
            let controls = availability(page, page_monitor(page, selected_macro(page)));
            let open = page.selected_saved is Some && page.enabled;
            &&& !controls.can_pause && !controls.can_resume && !controls.can_stop
            &&& controls.can_dry_run == open && controls.can_run_once == open
            &&& controls.can_run_continuous == open && controls.can_run_live == open
            &&& controls.disabled_reason is None <==> open
            &&& page.selected_saved is None ==> controls.disabled_reason == Some(
                "Save and select a validated macro before running."@,
            )
            &&& page.selected_saved is Some && !page.enabled ==> controls.disabled_reason == Some(
                "Enable this saved macro before running it."@,
            )
            &&& controls.primary_label == "Run"@ && controls.primary_detail == "Live"@
        }),
{
    if page.selected_saved is Some {
        let events = known_events(page);
        lemma_last_start(events, page.selected_saved->0.macro_id);
    }
}

/// A run that has just started can be paused and not resumed. One more report of the run, that it is
/// paused, later in sequence than all before, turns that round; one that it runs again turns it back.
pub proof fn pausing_offers_resuming(page: PageView, paused: PageView, report: EventView, at: int)
    requires
        page.selected_saved is Some,
        page.controller_lifecycle is None || page.controller_semantic is None,
        starts_latest_run(page.runtime_events, page.selected_saved->0.macro_id, at),
        report.run_id == page.runtime_events[at].run_id,
        report.fact is StatusChanged,
        forall|i: int|
            at <= i < page.runtime_events.len() ==> (#[trigger] page.runtime_events[i]).sequence
                <= report.sequence,
        paused == (PageView { runtime_events: page.runtime_events.push(report), ..page }),
    ensures
        ({
            let before = availability(page, page_monitor(page, selected_macro(page)));
            let after = availability(paused, page_monitor(paused, selected_macro(paused)));
            &&& at == page.runtime_events.len() - 1 ==> before.can_pause && !before.can_resume
                && before.can_stop
            &&& report.fact->StatusChanged_status is Paused ==> after.can_resume && !after.can_pause
                && after.can_stop
            &&& report.fact->StatusChanged_status is Running ==> after.can_pause
                && !after.can_resume && after.can_stop
            &&& report.fact->StatusChanged_status is Stopping ==> !after.can_pause
                && !after.can_resume && after.can_stop
            &&& report.fact->StatusChanged_status is Stopped ==> !after.can_pause
                && !after.can_resume && !after.can_stop
        }),
{
    let events = page.runtime_events;
    let more = paused.runtime_events;
    let n = events.len() as int;
    let tells = tells_status();
    assert(more[at] == events[at]);
    assert forall|j: int| at < j < more.len() && (#[trigger] more[j]).fact is RunStarted implies
        more[j].fact->macro_id != page.selected_saved->0.macro_id by {
        if j < n {
            assert(more[j] == events[j]);
        }
    }
    assert(more[n] == report);
    assert forall|j: int|
        at <= j < more.len() && j != n && #[trigger] run_tells(
            more,
            more[at].run_id,
            tells,
            j,
        ) implies comes_before(more, j, n) by {
        assert(more[j] == events[j]);
    }
    assert(run_tells(more, more[at].run_id, tells, n));
    assert(tells_latest(more, at, tells, n));
    controls_follow_the_reports(page, at);
    controls_follow_the_reports(paused, at);
    if at == n - 1 {
        assert(nothing_told(events, at, tells));
    }
}

/// A draft can be checked exactly where it can be edited: there is one that is open for editing,
/// nothing runs, and neither the wizard nor an answer to a question is waited for.
pub proof fn checking_needs_an_open_draft(page: PageView)
    ensures
        availability(page, page_monitor(page, selected_macro(page))).can_validate <==> (
        page.draft is Some && page.draft->0.editability is Editable && page.running_snapshot is None
            && page.wizard is None && page.active_wizard_request is None
            && page.active_editor_request is None),
{
}

/// A run ended well exactly where it was completed or stopped by a block that says so; it was
/// stopped by its user exactly where it tells so, for safety exactly on an emergency or on a limit,
/// and with an error otherwise.
pub proof fn ends_are_told_apart(reason: StopReasonView)
    ensures
        outcome_of(reason).reason == reason,
        outcome_of(reason).classification is Success <==> reason is Completed
            || reason is StopSuccess,
        outcome_of(reason).classification is UserStopped <==> reason is UserStopped,
        outcome_of(reason).classification is SafetyStopped <==> reason is EmergencyStopped
            || reason is SafetyLimit,
        outcome_of(reason).classification is Error <==> reason is StopError
            || reason is TechnicalFailure || reason is UnsupportedBlock,
{
}

/// The report at an index starts a run, and no later one starts the run again.
pub open spec fn starts_run(events: Seq<EventView>, run_id: Seq<char>, at: int) -> bool {
    &&& 0 <= at < events.len()
    &&& events[at].run_id == run_id && events[at].fact is RunStarted
    &&& forall|j: int|
        at < j < events.len() && (#[trigger] events[j]).run_id == run_id
            ==> events[j].fact !is RunStarted
}

proof fn lemma_owners(events: Seq<EventView>, run_id: Seq<char>)
    ensures
        forall|at: int| #[trigger]
            starts_run(events, run_id, at) ==> owners(events).dom().contains(run_id) && owners(
                events,
            )[run_id] == events[at].fact->macro_id,
        (forall|j: int|
            0 <= j < events.len() && (#[trigger] events[j]).run_id == run_id
                ==> events[j].fact !is RunStarted) ==> !owners(events).dom().contains(run_id),
    decreases events.len(),
{
    if events.len() > 0 {
        let rest = events.drop_last();
        let last = events.len() - 1;
        assert(events[last] == events.last());
        lemma_owners(rest, run_id);
        assert forall|at: int| #[trigger] starts_run(events, run_id, at) implies owners(
            events,
        ).dom().contains(run_id) && owners(events)[run_id] == events[at].fact->macro_id by {
            if at < last {
                assert(forall|j: int| 0 <= j < last ==> events[j] == rest[j]);
                assert(starts_run(rest, run_id, at));
            }
        }
        if forall|j: int|
            0 <= j < events.len() && (#[trigger] events[j]).run_id == run_id
                ==> events[j].fact !is RunStarted {
            assert(forall|j: int| 0 <= j < last ==> rest[j] == events[j]);
        }
    }
}

/// The last completion of a macro is told by the last report of an end whose run was started before
/// for that macro. One more report changes it only if it is such an end.
pub proof fn last_end_is_the_last_completion(
    events: Seq<EventView>,
    report: EventView,
    macro_id: Seq<char>,
    at: int,
)
    requires
        starts_run(events, report.run_id, at) || forall|j: int|
            0 <= j < events.len() && (#[trigger] events[j]).run_id == report.run_id
                ==> events[j].fact !is RunStarted,
    ensures
        ({
            let ends = report.fact is RunStopped && starts_run(events, report.run_id, at)
                && events[at].fact->macro_id == macro_id;
            let now = last_completion(events.push(report), macro_id);
            &&& ends ==> now is Some && now->0.reason == report.fact->reason
            &&& !ends ==> now == last_completion(events, macro_id)
        }),
        last_completion(Seq::empty(), macro_id) is None,
{
    assert(events.push(report).drop_last() =~= events);
    lemma_owners(events, report.run_id);
}

/// A list of reports holds all of another, in the same order.
pub open spec fn keeps_reports(events: Seq<EventView>, more: Seq<EventView>) -> bool {
    exists|at: spec_fn(int) -> int| #[trigger] keeps_by(events, more, at)
}

pub open spec fn keeps_by(
    events: Seq<EventView>,
    more: Seq<EventView>,
    at: spec_fn(int) -> int,
) -> bool {
    &&& forall|i: int|
        0 <= i < events.len() ==> 0 <= #[trigger] at(i) < more.len() && more[at(i)] == events[i]
    &&& forall|i: int, j: int|
        0 <= i < j < events.len() ==> #[trigger] at(i) < #[trigger] at(j)
}

/// A report is among others, or one that equals it is.
pub open spec fn is_known(events: Seq<EventView>, event: EventView) -> bool {
    events.contains(event) || reported(events, event)
}

proof fn lemma_keeps_longer(a: Seq<EventView>, b: Seq<EventView>, c: Seq<EventView>)
    requires
        keeps_reports(a, b),
        begins_with(c, b),
    ensures
        keeps_reports(a, c),
{
    reveal(begins_with);
    let at = choose|at: spec_fn(int) -> int| #[trigger] keeps_by(a, b, at);
    assert forall|i: int| 0 <= i < a.len() implies 0 <= #[trigger] at(i) < c.len() && c[at(i)]
        == a[i] by {
        assert(c[at(i)] == b[at(i)]);
    }
    assert(keeps_by(a, c, at));
}

/// A list of reports begins with another.
#[verifier::opaque]
spec fn begins_with(events: Seq<EventView>, first: Seq<EventView>) -> bool {
    first.len() <= events.len() && forall|i: int|
        0 <= i < first.len() ==> #[trigger] events[i] == first[i]
}

/// A report that was added to some is known behind them too, and these are still there.
proof fn lemma_report_is_kept(
    events: Seq<EventView>,
    event: Option<EventView>,
    all: Seq<EventView>,
)
    requires
        begins_with(all, with_report(events, event)),
    ensures
        begins_with(all, events),
        event is Some ==> is_known(all, event->0),
{
    reveal(begins_with);
    let more = with_report(events, event);
    assert(forall|i: int| 0 <= i < events.len() ==> #[trigger] more[i] == events[i]);
    assert forall|i: int| 0 <= i < events.len() implies #[trigger] all[i] == events[i] by {
        assert(all[i] == more[i]);
    }
    if event is Some {
        if reported(events, event->0) {
            let i = choose|i: int|
                0 <= i < events.len() && alike(#[trigger] events[i], event->0);
            assert(all[i] == events[i]);
        } else {
            assert(all[events.len() as int] == more.last());
            assert(all.contains(event->0));
        }
    }
}

/// What is known of some reports is known of more that begin with them.
proof fn lemma_known_longer(first: Seq<EventView>, all: Seq<EventView>, event: EventView)
    requires
        begins_with(all, first),
        is_known(first, event),
    ensures
        is_known(all, event),
{
    reveal(begins_with);
    if first.contains(event) {
        let i = first.index_of(event);
        assert(all[i] == event);
    } else {
        let i = choose|i: int| 0 <= i < first.len() && alike(#[trigger] first[i], event);
        assert(all[i] == first[i]);
    }
}

/// A report stands before every other of its run.
pub open spec fn stands_first(events: Seq<EventView>, event: EventView) -> bool {
    exists|at: int|
        0 <= at < events.len() && #[trigger] events[at] == event && forall|j: int|
            0 <= j < at ==> (#[trigger] events[j]).run_id != event.run_id
}

proof fn lemma_start_stays(first: Seq<EventView>, all: Seq<EventView>, start: EventView)
    requires
        begins_with(all, first),
        stands_first(first, start),
    ensures
        stands_first(all, start),
{
    reveal(begins_with);
    let at = choose|at: int|
        0 <= at < first.len() && #[trigger] first[at] == start && forall|j: int|
            0 <= j < at ==> (#[trigger] first[j]).run_id != start.run_id;
    assert(all[at] == first[at]);
    assert forall|j: int| 0 <= j < at implies (#[trigger] all[j]).run_id != start.run_id by {
        assert(all[j] == first[j]);
    }
}

/// The start of a run that was not known stands before all other reports of its run.
proof fn lemma_start_is_kept(events: Seq<EventView>, start: Option<EventView>)
    ensures
        keeps_reports(events, with_start(events, start)),
        start is Some ==> is_known(with_start(events, start), start->0),
        start is Some && !reported(events, start->0) ==> stands_first(
            with_start(events, start),
            start->0,
        ),
{
    let more = with_start(events, start);
    let same = |i: int| i;
    if start is None || reported(events, start->0) {
        assert(keeps_by(events, more, same));
    } else {
        match first_index(events, of_run(start->0.run_id)) {
            Some(k) => {
                lemma_first_index(events, of_run(start->0.run_id));
                let shifted = |i: int|
                    if i < k {
                        i
                    } else {
                        i + 1
                    };
                assert(keeps_by(events, more, shifted));
                assert(more[k] == start->0);
                assert forall|j: int| 0 <= j < k implies (#[trigger] more[j]).run_id
                    != start->0.run_id by {
                    assert(more[j] == events[j]);
                    assert(!of_run(start->0.run_id)(events[j]));
                }
            },
            None => {
                lemma_first_index(events, of_run(start->0.run_id));
                let k = events.len() as int;
                assert(keeps_by(events, more, same));
                assert(more[k] == start->0);
                assert forall|j: int| 0 <= j < k implies (#[trigger] more[j]).run_id
                    != start->0.run_id by {
                    assert(more[j] == events[j]);
                    assert(!of_run(start->0.run_id)(events[j]));
                }
            },
        }
    }
}

/// What the controller kept is known beside the reports themselves: none of the reports is lost or
/// changes its place among the others, and every report that the controller kept is there. Its start
/// of the run, where it was not among the reports, stands before every other report of the run. Where
/// both parts of the controller kept a start, that of the lifecycle counts.
pub proof fn kept_reports_are_known(
    events: Seq<EventView>,
    lifecycle: ControllerLifecycleProjection,
    semantic: ControllerSemanticProjection,
)
    ensures
        ({
            let all = controller_events(events, lifecycle, semantic);
            let start = if lifecycle.run_started is Some {
                lifecycle.run_started
            } else {
                semantic.run_started
            };
            &&& keeps_reports(events, all)
            &&& start is Some && !reported(events, start->0@) ==> stands_first(all, start->0@)
            &&& lifecycle.run_started is Some ==> is_known(all, lifecycle.run_started->0@)
            &&& lifecycle.run_started is None && semantic.run_started is Some ==> is_known(
                all,
                semantic.run_started->0@,
            )
            &&& lifecycle.run_stopped is Some ==> is_known(all, lifecycle.run_stopped->0@)
            &&& semantic.status is Some ==> is_known(all, semantic.status->0@)
            &&& semantic.active_block is Some ==> is_known(all, semantic.active_block->0@)
            &&& semantic.latest_observation is Some ==> is_known(
                all,
                semantic.latest_observation->0@,
            )
            &&& semantic.latest_condition is Some ==> is_known(all, semantic.latest_condition->0@)
            &&& semantic.latest_progress is Some ==> is_known(all, semantic.latest_progress->0@)
            &&& semantic.latest_action is Some ==> is_known(all, semantic.latest_action->0@)
            &&& semantic.latest_loop is Some ==> is_known(all, semantic.latest_loop->0@)
            &&& semantic.latest_arbitration is Some ==> is_known(
                all,
                semantic.latest_arbitration->0@,
            )
            &&& semantic.latest_polling_delay is Some ==> is_known(
                all,
                semantic.latest_polling_delay->0@,
            )
            &&& semantic.latest_error is Some ==> is_known(all, semantic.latest_error->0@)
            &&& semantic.run_stopped is Some ==> is_known(all, semantic.run_stopped->0@)
        }),
{
    let start = match lifecycle.run_started {
        Some(event) => Some(event@),
        None => option_view(semantic.run_started),
    };
    let a = with_start(events, start);
    lemma_start_is_kept(events, start);
    let b = with_report(a, option_view(lifecycle.run_stopped));
    let c = with_report(b, option_view(semantic.status));
    let d = with_report(c, option_view(semantic.active_block));
    let e = with_report(d, option_view(semantic.latest_observation));
    let f = with_report(e, option_view(semantic.latest_condition));
    let g = with_report(f, option_view(semantic.latest_progress));
    let h = with_report(g, option_view(semantic.latest_action));
    let i = with_report(h, option_view(semantic.latest_loop));
    let j = with_report(i, option_view(semantic.latest_arbitration));
    let k = with_report(j, option_view(semantic.latest_polling_delay));
    let l = with_report(k, option_view(semantic.latest_error));
    let all = with_report(l, option_view(semantic.run_stopped));
    assert(begins_with(all, all)) by {
        reveal(begins_with);
    }
    lemma_report_is_kept(l, option_view(semantic.run_stopped), all);
    lemma_report_is_kept(k, option_view(semantic.latest_error), all);
    lemma_report_is_kept(j, option_view(semantic.latest_polling_delay), all);
    lemma_report_is_kept(i, option_view(semantic.latest_arbitration), all);
    lemma_report_is_kept(h, option_view(semantic.latest_loop), all);
    lemma_report_is_kept(g, option_view(semantic.latest_action), all);
    lemma_report_is_kept(f, option_view(semantic.latest_progress), all);
    lemma_report_is_kept(e, option_view(semantic.latest_condition), all);
    lemma_report_is_kept(d, option_view(semantic.latest_observation), all);
    lemma_report_is_kept(c, option_view(semantic.active_block), all);
    lemma_report_is_kept(b, option_view(semantic.status), all);
    lemma_report_is_kept(a, option_view(lifecycle.run_stopped), all);
    lemma_keeps_longer(events, a, all);
    assert(all == controller_events(events, lifecycle, semantic));
    if start is Some {
        lemma_known_longer(a, all, start->0);
        if !reported(events, start->0) {
            lemma_start_stays(a, all, start->0);
        }
    }
}

/// What is known on a page of the runs is what the runtime reported, together with what the
/// controller kept where both of its parts are there.
pub proof fn reports_of_a_page(page: PageView)
    ensures
        page.controller_lifecycle is None || page.controller_semantic is None ==> known_events(page)
            == page.runtime_events,
        keeps_reports(page.runtime_events, known_events(page)),
{
    let same = |i: int| i;
    match (page.controller_lifecycle, page.controller_semantic) {
        (Some(lifecycle), Some(semantic)) => {
            kept_reports_are_known(page.runtime_events, lifecycle, semantic);
        },
        _ => {
            assert(keeps_by(page.runtime_events, known_events(page), same));
        },
    }
}

} // verus!
