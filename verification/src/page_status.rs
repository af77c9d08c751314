//! What the page says of itself: its panes, its controls and its summaries.
use crate::content::{clone_list, option_view, views};
use crate::draft::EditorDraft;
use crate::editor_types::DraftStatus;
use crate::library::{
    library_row, outcome_option, project_definition, under_way, LibraryRowView, MacroLibraryRow,
};
use crate::macro_engine::{F32Bits, ValidationProblem};
use crate::monitor::{
    controller_events, last_completion, monitored, project_last_completion,
    project_last_completion_with_controller_projections, project_monitor,
    project_monitor_with_controller_projections, MonitorProjection, MonitorView, StopOutcome,
    StopOutcomeView,
};
use crate::page::{mutations_allowed, MacroPageState, PageView};
use crate::run_events::{EventView, RunMode, RunStatus};
use crate::text::{append_decimal, decimal, decimal_text};
use crate::tree::{first_index, lemma_first_index, lemma_is_first_index};
use vstd::prelude::*;
use vstd::string::StringExecFns;

verus! {

/// How the panes of the page are laid out. The canvas stays at any width: the other panes become
/// drawers.
#[derive(Debug, Clone, Copy, PartialEq, Eq, Structural)]
pub enum PaneMode {
    ThreePane,
    ThreePaneCompact,
    CanvasWithDrawers,
}

/// Bits of the width from which there are three panes, 1100.
pub const THREE_PANE_WIDTH: u32 = 0x4489_8000;

/// Bits of the width from which there are three narrow panes, 720.
pub const COMPACT_WIDTH: u32 = 0x4434_0000;

/// A number is at least a positive one, given by its bits.
pub open spec fn at_least(number: F32Bits, bound: u32) -> bool {
    bound <= number.0 <= 0x7F80_0000
}

pub open spec fn panes(width: F32Bits) -> PaneMode {
    if at_least(width, THREE_PANE_WIDTH) {
        PaneMode::ThreePane
    } else if at_least(width, COMPACT_WIDTH) {
        PaneMode::ThreePaneCompact
    } else {
        PaneMode::CanvasWithDrawers
    }
}

pub fn pane_mode(width: F32Bits) -> (mode: PaneMode)
    ensures
        mode == panes(width),
{
    if THREE_PANE_WIDTH <= width.0 && width.0 <= 0x7F80_0000 {
        PaneMode::ThreePane
    } else if COMPACT_WIDTH <= width.0 && width.0 <= 0x7F80_0000 {
        PaneMode::ThreePaneCompact
    } else {
        PaneMode::CanvasWithDrawers
    }
}

/// The page, and the height of the panel at its bottom.
#[derive(Debug)]
pub struct MacroPage;

impl MacroPage {
    pub const BOTTOM_MIN_HEIGHT: u32 = 184;

    pub const BOTTOM_DEFAULT_HEIGHT: u32 = 276;

    pub const BOTTOM_MAX_HEIGHT: u32 = 520;
}

/// What can be done with the selected macro now.
#[derive(Debug, Clone, PartialEq, Eq)]
pub struct RunControlAvailability {
    pub can_validate: bool,
    pub can_dry_run: bool,
    pub can_run_once: bool,
    pub can_run_continuous: bool,
    pub can_run_live: bool,
    pub can_pause: bool,
    pub can_resume: bool,
    pub can_stop: bool,
    pub primary_label: &'static str,
    pub primary_detail: &'static str,
    pub disabled_reason: Option<String>,
}

/// The contents of a [`RunControlAvailability`].
#[verifier::ext_equal]
pub ghost struct AvailabilityView {
    pub can_validate: bool,
    pub can_dry_run: bool,
    pub can_run_once: bool,
    pub can_run_continuous: bool,
    pub can_run_live: bool,
    pub can_pause: bool,
    pub can_resume: bool,
    pub can_stop: bool,
    pub primary_label: Seq<char>,
    pub primary_detail: Seq<char>,
    pub disabled_reason: Option<Seq<char>>,
}

impl View for RunControlAvailability {
    type V = AvailabilityView;

    open spec fn view(&self) -> AvailabilityView {
        AvailabilityView {
            can_validate: self.can_validate,
            can_dry_run: self.can_dry_run,
            can_run_once: self.can_run_once,
            can_run_continuous: self.can_run_continuous,
            can_run_live: self.can_run_live,
            can_pause: self.can_pause,
            can_resume: self.can_resume,
            can_stop: self.can_stop,
            primary_label: self.primary_label@,
            primary_detail: self.primary_detail@,
            disabled_reason: option_view(self.disabled_reason),
        }
    }
}

/// The reports that the page knows of: those of the replay, with what the controller kept.
pub open spec fn known_events(page: PageView) -> Seq<EventView> {
    match (page.controller_lifecycle, page.controller_semantic) {
        (Some(lifecycle), Some(semantic)) => controller_events(
            page.runtime_events,
            lifecycle,
            semantic,
        ),
        _ => page.runtime_events,
    }
}

/// What the page knows of the runs of a macro.
pub open spec fn page_monitor(page: PageView, macro_id: Option<Seq<char>>) -> MonitorView {
    monitored(macro_id, page.running_snapshot, known_events(page))
}

pub fn monitor_from_runtime_state(state: &MacroPageState, selected_macro_id: Option<&str>) -> (monitor:
    MonitorProjection)
    ensures
        monitor@ == page_monitor(state@, option_view(selected_macro_id)),
{
    match (&state.controller_lifecycle, &state.controller_semantic) {
        (Some(lifecycle), Some(semantic)) => project_monitor_with_controller_projections(
            selected_macro_id,
            state.running_snapshot.as_ref(),
            state.runtime_events.as_slice(),
            lifecycle,
            semantic,
        ),
        _ => project_monitor(
            selected_macro_id,
            state.running_snapshot.as_ref(),
            state.runtime_events.as_slice(),
        ),
    }
}

pub fn last_completion_from_runtime_state(
    state: &MacroPageState,
    selected_macro_id: Option<&str>,
) -> (outcome: Option<StopOutcome>)
    ensures
        option_view(outcome) == (match option_view(selected_macro_id) {
            Some(macro_id) => last_completion(known_events(state@), macro_id),
            None => None,
        }),
{
    let macro_id = match selected_macro_id {
        None => return None,
        Some(macro_id) => macro_id,
    };
    match (&state.controller_lifecycle, &state.controller_semantic) {
        (Some(lifecycle), Some(semantic)) => project_last_completion_with_controller_projections(
            state.runtime_events.as_slice(),
            macro_id,
            lifecycle,
            semantic,
        ),
        _ => project_last_completion(state.runtime_events.as_slice(), macro_id),
    }
}

/// The macro that is selected.
pub open spec fn selected_macro(page: PageView) -> Option<Seq<char>> {
    match page.selected_saved {
        Some(saved) => Some(saved.macro_id),
        None => None,
    }
}

/// A run may be started: a saved macro is selected and enabled, and none runs.
pub open spec fn may_start(page: PageView, monitor: MonitorView) -> bool {
    page.selected_saved is Some && page.enabled && monitor.status is Idle
}

/// Why no run may be started.
pub open spec fn start_refusal(page: PageView) -> Seq<char> {
    if page.selected_saved is None {
        "Save and select a validated macro before running."@
    } else if !page.enabled {
        "Enable this saved macro before running it."@
    } else {
        "A macro run is already active or has not returned to idle."@
    }
}

pub open spec fn run_word(mode: Option<RunMode>) -> Seq<char> {
    match mode {
        Some(RunMode::DryRun) => "Dry Run"@,
        Some(RunMode::ObservationOnly) => "Run Once"@,
        _ => "Run"@,
    }
}

pub open spec fn run_detail(mode: Option<RunMode>) -> Seq<char> {
    match mode {
        Some(RunMode::DryRun) => "Observe only"@,
        Some(RunMode::ObservationOnly) => "Observe only"@,
        _ => "Live"@,
    }
}

/// What can be done with the selected macro, given what is known of its runs.
pub open spec fn availability(page: PageView, monitor: MonitorView) -> AvailabilityView {
    let start = may_start(page, monitor);
    AvailabilityView {
        can_validate: mutations_allowed(page),
        can_dry_run: start,
        can_run_once: start,
        can_run_continuous: start,
        can_run_live: start,
        can_pause: monitor.status is Running,
        can_resume: monitor.status is Paused,
        can_stop: under_way(monitor.status),
        primary_label: run_word(monitor.mode),
        primary_detail: run_detail(monitor.mode),
        disabled_reason: if start {
            None
        } else {
            Some(start_refusal(page))
        },
    }
}

pub fn run_control_availability(state: &MacroPageState) -> (controls: RunControlAvailability)
    ensures
        controls@ == availability(state@, page_monitor(state@, selected_macro(state@))),
{
    let monitor = monitor_from_runtime_state(state, state.selected_saved_macro_id());
    let idle = match monitor.status {
        RunStatus::Idle => true,
        _ => false,
    };
    let running = match monitor.status {
        RunStatus::Running => true,
        _ => false,
    };
    let paused = match monitor.status {
        RunStatus::Paused => true,
        _ => false,
    };
    let stopping = match monitor.status {
        RunStatus::Stopping => true,
        _ => false,
    };
    let can_start = state.selected_saved.is_some() && state.enabled && idle;
    let disabled_reason = if can_start {
        None
    } else if state.selected_saved.is_none() {
        Some("Save and select a validated macro before running.".to_owned())
    } else if !state.enabled {
        Some("Enable this saved macro before running it.".to_owned())
    } else {
        Some("A macro run is already active or has not returned to idle.".to_owned())
    };
    let primary_label = match monitor.mode {
        Some(RunMode::DryRun) => "Dry Run",
        Some(RunMode::ObservationOnly) => "Run Once",
        _ => "Run",
    };
    let primary_detail = match monitor.mode {
        Some(RunMode::DryRun) => "Observe only",
        Some(RunMode::ObservationOnly) => "Observe only",
        _ => "Live",
    };
    RunControlAvailability {
        can_validate: state.editor_mutations_allowed(),
        can_dry_run: can_start,
        can_run_once: can_start,
        can_run_continuous: can_start,
        can_run_live: can_start,
        can_pause: running,
        can_resume: paused,
        can_stop: running || paused || stopping,
        primary_label,
        primary_detail,
        disabled_reason,
    }
}

/// The predicate that picks the rows of a macro.
pub open spec fn row_of(id: Seq<char>) -> spec_fn(LibraryRowView) -> bool {
    |row: LibraryRowView| row.id == id
}

/// Rows with one in the place of the row of the same macro, or behind all others.
pub open spec fn with_row(rows: Seq<LibraryRowView>, row: LibraryRowView) -> Seq<LibraryRowView> {
    match first_index(rows, row_of(row.id)) {
        Some(i) => rows.update(i, row),
        None => rows.push(row),
    }
}

/// The rows of the library: the stored ones, where the draft's own comes as it stands now while it
/// is a draft of the selected macro.
pub open spec fn shown_rows(
    page: PageView,
    monitor: MonitorView,
    problems: nat,
    last: Option<StopOutcomeView>,
) -> Seq<LibraryRowView> {
    match (page.draft, page.selected_saved) {
        (Some(draft), Some(saved)) => if draft.definition.id != saved.macro_id
            || page.saved_revision != Some(saved.revision) {
            page.library_rows
        } else {
            with_row(
                page.library_rows,
                library_row(
                    draft.definition,
                    page.saved_revision,
                    page.enabled,
                    problems,
                    monitor,
                    last,
                ),
            )
        },
        _ => page.library_rows,
    }
}

fn put_row(rows: &mut Vec<MacroLibraryRow>, row: MacroLibraryRow)
    ensures
        views(final(rows)@) == with_row(views(old(rows)@), row@),
{
    let ghost before = views(rows@);
    let mut i: usize = 0;
    while i < rows.len()
        invariant
            i <= rows@.len(),
            *rows == *old(rows),
            before == views(rows@),
            forall|j: int| 0 <= j < i ==> (#[trigger] before[j]).id != row@.id,
        decreases rows@.len() - i,
    {
        assert(before[i as int] == rows@[i as int]@);
        if rows[i].id == row.id {
            proof {
                lemma_is_first_index(before, row_of(row@.id), i as int);
            }
            rows.set(i, row);
            assert(views(rows@) =~= before.update(i as int, row@));
            return;
        }
        i += 1;
    }
    proof {
        lemma_first_index(before, row_of(row@.id));
    }
    rows.push(row);
    assert(views(rows@) =~= before.push(row@));
}

pub fn project_library_rows(
    state: &MacroPageState,
    monitor: &MonitorProjection,
    problems: &[ValidationProblem],
    last_completion: Option<&StopOutcome>,
) -> (rows: Vec<MacroLibraryRow>)
    ensures
        views(rows@) == shown_rows(
            state@,
            monitor@,
            problems@.len(),
            outcome_option(last_completion),
        ),
{
    let mut rows = clone_list(&state.library_rows);
    let (draft, saved) = match (&state.draft, &state.selected_saved) {
        (Some(draft), Some(saved)) => (draft, saved),
        _ => return rows,
    };
    let same_revision = match state.saved_revision {
        Some(revision) => revision == saved.revision,
        None => false,
    };
    if draft.definition.id != saved.macro_id || !same_revision {
        return rows;
    }
    let projected = project_definition(
        &draft.definition,
        state.saved_revision,
        state.enabled,
        problems,
        monitor,
        last_completion,
    );
    put_row(&mut rows, projected);
    rows
}

/// Whether a draft is valid, in words.
pub open spec fn validity(page: PageView, problems: nat) -> Seq<char> {
    match page.draft {
        None => "No definition"@,
        Some(draft) => if problems > 0 || draft.status is NeedsValidation {
            "Needs revalidation"@
        } else {
            "Valid"@
        },
    }
}

pub fn validation_summary(state: &MacroPageState, problems: &[ValidationProblem]) -> (summary:
    &'static str)
    ensures
        summary@ == validity(state@, problems@.len()),
{
    match &state.draft {
        None => "No definition",
        Some(draft) => if problems.len() > 0 || draft.status == DraftStatus::NeedsValidation {
            "Needs revalidation"
        } else {
            "Valid"
        },
    }
}

/// A revision, or that there is none.
pub open spec fn revision_text(revision: Option<u64>) -> Seq<char> {
    match revision {
        Some(revision) => decimal(revision as nat),
        None => "--"@,
    }
}

fn text_of_revision(revision: Option<u64>) -> (text: String)
    ensures
        text@ == revision_text(revision),
{
    match revision {
        Some(revision) => decimal_text(revision),
        None => "--".to_owned(),
    }
}

/// The revision of the draft.
pub open spec fn draft_revision(page: PageView) -> Option<u64> {
    match page.draft {
        Some(draft) => Some(draft.definition.revision),
        None => None,
    }
}

/// The revisions that are drafted, saved and running.
pub open spec fn revisions_text(page: PageView, monitor: MonitorView) -> Seq<char> {
    "draft "@ + revision_text(draft_revision(page)) + " | saved "@ + revision_text(
        page.saved_revision,
    ) + " | running "@ + revision_text(monitor.running_revision)
}

pub fn revision_summary(state: &MacroPageState, monitor: &MonitorProjection) -> (summary: String)
    ensures
        summary@ == revisions_text(state@, monitor@),
{
    let draft = match &state.draft {
        Some(draft) => Some(draft.definition.revision),
        None => None,
    };
    let mut summary = "draft ".to_owned();
    summary.append(text_of_revision(draft).as_str());
    summary.append(" | saved ");
    summary.append(text_of_revision(state.saved_revision).as_str());
    summary.append(" | running ");
    summary.append(text_of_revision(monitor.running_revision).as_str());
    summary
}

/// The draft may be saved: it may be edited, nothing is wrong with it, and it was validated.
pub open spec fn may_save(page: PageView, problems: nat) -> bool {
    mutations_allowed(page) && problems == 0 && (page.draft matches Some(draft)
        && draft.status is Ready)
}

pub fn can_save(state: &MacroPageState, problems: &[ValidationProblem]) -> (result: bool)
    ensures
        result == may_save(state@, problems@.len()),
{
    let ready = match &state.draft {
        Some(draft) => draft.status == DraftStatus::Ready,
        None => false,
    };
    state.editor_mutations_allowed() && problems.len() == 0 && ready
}

/// The title of the target, or that there is none.
pub open spec fn target_title(page: PageView) -> Seq<char> {
    match page.draft {
        Some(draft) if draft.definition.target.title_contains.len() > 0 => {
            draft.definition.target.title_contains
        },
        _ => "No target selected"@,
    }
}

pub fn target_summary(state: &MacroPageState) -> (summary: String)
    ensures
        summary@ == target_title(state@),
{
    if let Some(draft) = &state.draft {
        if draft.definition.target.title_contains.as_str().unicode_len() > 0 {
            return draft.definition.target.title_contains.clone();
        }
    }
    "No target selected".to_owned()
}

/// The size and resolution that the target was captured with.
pub open spec fn display_text(page: PageView) -> Seq<char> {
    match page.draft {
        Some(draft) => decimal(draft.definition.target.captured_client_width as nat) + "x"@
            + decimal(draft.definition.target.captured_client_height as nat) + " | "@ + decimal(
            draft.definition.target.captured_dpi as nat,
        ) + " DPI"@,
        None => "--"@,
    }
}

pub fn display_summary(state: &MacroPageState) -> (summary: String)
    ensures
        summary@ == display_text(state@),
{
    match &state.draft {
        None => "--".to_owned(),
        Some(draft) => {
            let target = &draft.definition.target;
            let mut summary = decimal_text(target.captured_client_width as u64);
            summary.append("x");
            append_decimal(&mut summary, target.captured_client_height as u64);
            summary.append(" | ");
            append_decimal(&mut summary, target.captured_dpi as u64);
            summary.append(" DPI");
            summary
        },
    }
}

/// The word on the button that captures the target.
pub open spec fn target_word(process_path: Seq<char>) -> Seq<char> {
    if process_path.len() == 0 {
        "Capture Target"@
    } else {
        "Retarget"@
    }
}

pub fn target_label(draft: &EditorDraft) -> (label: &'static str)
    ensures
        label@ == target_word(draft@.definition.target.process_path),
{
    if draft.definition.target.process_path.as_str().unicode_len() == 0 {
        "Capture Target"
    } else {
        "Retarget"
    }
}

} // verus!
