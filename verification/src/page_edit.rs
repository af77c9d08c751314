//! Edits of the draft on the page.
use crate::authoring::{
    authoring_print, editor_authoring_fingerprint, AuthoringKindView, EditorAuthoringKind,
    EditorAuthoringRequest, EditorAuthoringRequestId, EditorRequestView,
};
use crate::canvas::{ActionView, CanvasAction, CanvasResponse, ResponseView};
use crate::canvas_model::{CanvasSelection, SelectionView};
use crate::command_view::CommandView;
use crate::content::{clone_option, option_view, views};
use crate::conversion::{
    edit_pending, may_confirm, pending_after, pending_conversion_valid, PendingConversion,
    PendingEdit,
};
use crate::draft::{answer_view, applied, apply_editor_command, opened, EditorDraft, EditorDraftView};
use crate::editor_types::{
    BlockPath, BlockPathView, DraftEditability, EditOutcome, EditorCommand, EditorError,
    EditorErrorView,
};
use crate::history::{noted, EditDomain, HistoryError, HistoryErrorView};
use crate::inspector::{InspectorIntent, InspectorIntentView};
use crate::macro_engine::{
    Block, BlockKind, BlockView, Condition, ConditionView, DetectorFamily, F64Bits, FocusLossPolicy,
    HeadView, Limit, MacroDefinition, MacroDefinitionView, MatchSelectionPolicy,
    NegativeCorpusSample, ObserveMode, PreprocessProfile, RectRatio, RegionDefinition,
    RegionDefinitionView, SafetyPolicy, TargetProfile, TargetProfileView, TextMatchMode, TextRule,
    TextRuleView, ValidationProblem, WaitView, MACRO_SCHEMA_VERSION,
};
use crate::page::{
    draft_begun, layout_fitted, layout_noted, mutations_allowed, page_redone, page_undone, told,
    MacroPageState, PageView,
};
use crate::palette::{
    add_step, add_step_command, named, note_command, note_insert, selected_name, PaletteKind,
};
use crate::places::{lane_located, locate_block_path, locate_watch_lane, located};
use crate::rule_edits::{bump, bumped};
use crate::sample_table::{no_samples, SampleTable};
use crate::text::{quote, quoted};
use crate::toolbar::{command_at, find_spot, spot_of, toolbar_command, ToolbarAction};
use vstd::prelude::*;
use vstd::string::StringExecFns;

verus! {

broadcast use crate::macro_engine::group_block_views;

/// An error by its name, and with what it names.
pub open spec fn error_name(error: EditorErrorView) -> Seq<char> {
    match error {
        EditorErrorView::RunInProgress => "RunInProgress"@,
        EditorErrorView::DuplicateIdentity(id) => "DuplicateIdentity("@ + quoted(id) + ")"@,
        EditorErrorView::MissingContainer => "MissingContainer"@,
        EditorErrorView::MissingBlock(id) => "MissingBlock("@ + quoted(id) + ")"@,
        EditorErrorView::MissingLane(id) => "MissingLane("@ + quoted(id) + ")"@,
        EditorErrorView::MissingRule(id) => "MissingRule("@ + quoted(id) + ")"@,
        EditorErrorView::MissingRegion(id) => "MissingRegion("@ + quoted(id) + ")"@,
        EditorErrorView::InvalidIndex => "InvalidIndex"@,
        EditorErrorView::IllegalDescendantMove => "IllegalDescendantMove"@,
        EditorErrorView::NestedWatchGroup => "NestedWatchGroup"@,
        EditorErrorView::LoopDeletionChoiceRequired => "LoopDeletionChoiceRequired"@,
        EditorErrorView::InvalidLoopDeletionChoice => "InvalidLoopDeletionChoice"@,
        EditorErrorView::IncompatibleConversion => "IncompatibleConversion"@,
        EditorErrorView::ReplacementIdMismatch => "ReplacementIdMismatch"@,
        EditorErrorView::ValidationFailed => "ValidationFailed"@,
        EditorErrorView::NothingToUndo => "NothingToUndo"@,
        EditorErrorView::NothingToRedo => "NothingToRedo"@,
    }
}

fn named_error(name: &str, id: &String) -> (text: String)
    ensures
        text@ == name@ + "("@ + quoted(id@) + ")"@,
{
    let mut text = name.to_owned();
    text.append("(");
    text.append(quote(id.as_str()).as_str());
    text.append(")");
    text
}

/// An error by its name, and with what it names.
pub fn error_text(error: &EditorError) -> (text: String)
    ensures
        text@ == error_name(error@),
{
    proof {
        reveal_strlit("(");
        reveal_strlit("DuplicateIdentity");
        reveal_strlit("DuplicateIdentity(");
        reveal_strlit("MissingBlock");
        reveal_strlit("MissingBlock(");
        reveal_strlit("MissingLane");
        reveal_strlit("MissingLane(");
        reveal_strlit("MissingRule");
        reveal_strlit("MissingRule(");
        reveal_strlit("MissingRegion");
        reveal_strlit("MissingRegion(");
        assert("DuplicateIdentity"@ + "("@ =~= "DuplicateIdentity("@);
        assert("MissingBlock"@ + "("@ =~= "MissingBlock("@);
        assert("MissingLane"@ + "("@ =~= "MissingLane("@);
        assert("MissingRule"@ + "("@ =~= "MissingRule("@);
        assert("MissingRegion"@ + "("@ =~= "MissingRegion("@);
    }
    match error {
        EditorError::RunInProgress => "RunInProgress".to_owned(),
        EditorError::DuplicateIdentity(id) => named_error("DuplicateIdentity", id),
        EditorError::MissingContainer => "MissingContainer".to_owned(),
        EditorError::MissingBlock(id) => named_error("MissingBlock", id),
        EditorError::MissingLane(id) => named_error("MissingLane", id),
        EditorError::MissingRule(id) => named_error("MissingRule", id),
        EditorError::MissingRegion(id) => named_error("MissingRegion", id),
        EditorError::InvalidIndex => "InvalidIndex".to_owned(),
        EditorError::IllegalDescendantMove => "IllegalDescendantMove".to_owned(),
        EditorError::NestedWatchGroup => "NestedWatchGroup".to_owned(),
        EditorError::LoopDeletionChoiceRequired => "LoopDeletionChoiceRequired".to_owned(),
        EditorError::InvalidLoopDeletionChoice => "InvalidLoopDeletionChoice".to_owned(),
        EditorError::IncompatibleConversion => "IncompatibleConversion".to_owned(),
        EditorError::ReplacementIdMismatch => "ReplacementIdMismatch".to_owned(),
        EditorError::ValidationFailed => "ValidationFailed".to_owned(),
        EditorError::NothingToUndo => "NothingToUndo".to_owned(),
        EditorError::NothingToRedo => "NothingToRedo".to_owned(),
    }
}

/// What is said of a refused edit.
pub open spec fn refusal_text(error: EditorErrorView) -> Seq<char> {
    "Edit rejected: "@ + error_name(error)
}

fn refusal(error: &EditorError) -> (text: String)
    ensures
        text@ == refusal_text(error@),
{
    let mut text = "Edit rejected: ".to_owned();
    text.append(error_text(error).as_str());
    text
}

/// What is said of an edit.
pub open spec fn outcome_text(answer: Result<EditOutcome, EditorErrorView>) -> Seq<char> {
    match answer {
        Ok(EditOutcome::Changed) => "Draft updated; validation required."@,
        Ok(EditOutcome::Validated) => "Draft validated."@,
        Ok(EditOutcome::NoChange) => "No change."@,
        Err(error) => refusal_text(error),
    }
}

/// The answer of an undo or redo, as an edit answers it. Anything but a refusal by the editor means
/// that there is nothing to step to.
pub open spec fn step_answer(
    answer: Result<EditDomain, HistoryErrorView>,
    nothing: EditorErrorView,
) -> Result<EditOutcome, EditorErrorView> {
    match answer {
        Ok(_) => Ok(EditOutcome::Changed),
        Err(HistoryErrorView::Definition(error)) => Err(error),
        Err(_) => Err(nothing),
    }
}

/// What is said of an undo or redo.
pub open spec fn step_text(
    answer: Result<EditOutcome, EditorErrorView>,
    done: Seq<char>,
) -> Seq<char> {
    match answer {
        Ok(_) => done,
        Err(error) => refusal_text(error),
    }
}

/// A page after its draft changed: the change is noted, the layout fitted, and samples that no
/// longer belong to an image rule dropped.
pub open spec fn draft_changed(page: PageView, command: CommandView) -> PageView {
    layout_fitted(
        PageView {
            history: noted(page.history, EditDomain::Definition),
            samples: if command is ReplaceImageRule {
                no_samples()
            } else {
                page.samples
            },
            ..page
        },
    )
}

/// What a command answers on the page, and what it leaves there.
pub open spec fn dispatched(page: PageView, command: CommandView) -> (
    PageView,
    Result<EditOutcome, EditorErrorView>,
) {
    if !mutations_allowed(page) {
        (
            told(page, "Edit rejected: RunInProgress (finish pending authoring first)."@),
            Err(EditorErrorView::RunInProgress),
        )
    } else if command is Undo {
        undo_dispatched(page)
    } else if command is Redo {
        redo_dispatched(page)
    } else {
        edit_dispatched(page, command)
    }
}

/// The answer of an undo or redo as an error of the editor.
fn editor_error(error: HistoryError, nothing: EditorError) -> (result: EditorError)
    ensures
        result@ == (match error@ {
            HistoryErrorView::Definition(inner) => inner,
            _ => nothing@,
        }),
{
    match error {
        HistoryError::Definition(inner) => inner,
        _ => nothing,
    }
}

/// What an undo answers on the page, and what it leaves there.
pub open spec fn undo_dispatched(page: PageView) -> (PageView, Result<EditOutcome, EditorErrorView>) {
    let (next, stepped) = page_undone(page);
    let answer = step_answer(stepped, EditorErrorView::NothingToUndo);
    (told(next, step_text(answer, "Undid latest editor change."@)), answer)
}

/// What a redo answers on the page, and what it leaves there.
pub open spec fn redo_dispatched(page: PageView) -> (PageView, Result<EditOutcome, EditorErrorView>) {
    let (next, stepped) = page_redone(page);
    let answer = step_answer(stepped, EditorErrorView::NothingToRedo);
    (told(next, step_text(answer, "Redid latest editor change."@)), answer)
}

/// What an edit answers on the page, and what it leaves there.
pub open spec fn edit_dispatched(page: PageView, command: CommandView) -> (
    PageView,
    Result<EditOutcome, EditorErrorView>,
) {
    let (draft, answer) = applied(page.draft->0, command);
    let next = PageView { draft: Some(draft), ..page };
    (
        told(
            if answer == Ok::<_, EditorErrorView>(EditOutcome::Changed) {
                draft_changed(next, command)
            } else {
                next
            },
            outcome_text(answer),
        ),
        answer,
    )
}

fn dispatch_undo(state: &mut MacroPageState) -> (answer: Result<EditOutcome, EditorError>)
    ensures
        (final(state)@, answer_view(answer)) == undo_dispatched(old(state)@),
{
    let answer = match state.undo_ui_edit() {
        Ok(_) => Ok(EditOutcome::Changed),
        Err(error) => Err(editor_error(error, EditorError::NothingToUndo)),
    };
    let text = match &answer {
        Ok(_) => "Undid latest editor change.".to_owned(),
        Err(error) => refusal(error),
    };
    state.editor_feedback = Some(text);
    answer
}

fn dispatch_redo(state: &mut MacroPageState) -> (answer: Result<EditOutcome, EditorError>)
    ensures
        (final(state)@, answer_view(answer)) == redo_dispatched(old(state)@),
{
    let answer = match state.redo_ui_edit() {
        Ok(_) => Ok(EditOutcome::Changed),
        Err(error) => Err(editor_error(error, EditorError::NothingToRedo)),
    };
    let text = match &answer {
        Ok(_) => "Redid latest editor change.".to_owned(),
        Err(error) => refusal(error),
    };
    state.editor_feedback = Some(text);
    answer
}

fn text_of_outcome(answer: &Result<EditOutcome, EditorError>) -> (text: String)
    ensures
        text@ == outcome_text(answer_view(*answer)),
{
    match answer {
        Ok(EditOutcome::Changed) => "Draft updated; validation required.".to_owned(),
        Ok(EditOutcome::Validated) => "Draft validated.".to_owned(),
        Ok(EditOutcome::NoChange) => "No change.".to_owned(),
        Err(error) => refusal(error),
    }
}

fn follow_edit(state: &mut MacroPageState, clears_image_samples: bool)
    ensures
        final(state)@ == layout_fitted(
            (PageView {
                history: noted(old(state)@.history, EditDomain::Definition),
                samples: if clears_image_samples {
                    no_samples()
                } else {
                    old(state)@.samples
                },
                ..old(state)@
            }),
        ),
{
    if clears_image_samples {
        state.editor_image_negative_samples = SampleTable::new();
    }
    state.ui_edit_history.record_definition();
    state.reconcile_canvas_layout();
}

fn dispatch_edit(state: &mut MacroPageState, command: EditorCommand) -> (answer: Result<
    EditOutcome,
    EditorError,
>)
    requires
        old(state).draft is Some,
    ensures
        (final(state)@, answer_view(answer)) == edit_dispatched(old(state)@, command@),
{
    let clears_image_samples = match &command {
        EditorCommand::ReplaceImageRule { .. } => true,
        _ => false,
    };
    let answer = match &mut state.draft {
        None => Err(EditorError::MissingBlock("no draft".to_owned())),
        Some(draft) => apply_editor_command(draft, command),
    };
    let changed = match &answer {
        Ok(outcome) => *outcome == EditOutcome::Changed,
        Err(_) => false,
    };
    if changed {
        follow_edit(state, clears_image_samples);
    }
    let text = text_of_outcome(&answer);
    state.editor_feedback = Some(text);
    answer
}

/// Applies a command to the draft of the page.
pub fn dispatch_editor_command(state: &mut MacroPageState, command: EditorCommand) -> (answer: Result<
    EditOutcome,
    EditorError,
>)
    ensures
        (final(state)@, answer_view(answer)) == dispatched(old(state)@, command@),
{
    if !state.editor_mutations_allowed() {
        state.editor_feedback =
        Some("Edit rejected: RunInProgress (finish pending authoring first).".to_owned());
        return Err(EditorError::RunInProgress);
    }
    match command {
        EditorCommand::Undo => dispatch_undo(state),
        EditorCommand::Redo => dispatch_redo(state),
        command => dispatch_edit(state, command),
    }
}

impl MacroPageState {
    /// Accepts the draft as valid, given what the runtime's validation found in it.
    pub fn validate_draft(&mut self, runtime_problems: Vec<ValidationProblem>)
        ensures
            final(self)@ == dispatched(
                old(self)@,
                CommandView::MarkValidated { runtime_problems: views(runtime_problems@) },
            ).0,
    {
        let _ = dispatch_editor_command(self, EditorCommand::MarkValidated { runtime_problems });
    }

    /// Locks the draft while a run holds its definition, and unlocks it otherwise.
    pub fn sync_editability(&mut self)
        ensures
            final(self)@ == (PageView {
                draft: match old(self)@.draft {
                    Some(draft) => Some(
                        EditorDraftView {
                            editability: if old(self)@.running_snapshot is Some {
                                DraftEditability::Running { revision: draft.definition.revision }
                            } else {
                                DraftEditability::Editable
                            },
                            ..draft
                        },
                    ),
                    None => None,
                },
                ..old(self)@
            }),
    {
        let running = self.running_snapshot.is_some();
        if let Some(draft) = &mut self.draft {
            let revision = draft.definition.revision;
            draft.editability =
            if running {
                DraftEditability::Running { revision }
            } else {
                DraftEditability::Editable
            };
        }
    }
}

/// The path of a selected block, or why there is none.
pub open spec fn selected_path(draft: Option<EditorDraftView>, id: Seq<char>) -> Result<
    BlockPathView,
    Seq<char>,
> {
    match draft {
        Some(draft) => match located(draft.definition.blocks, id) {
            Some(path) => Ok(path),
            None => Err("Selected block '"@ + id + "' is no longer available."@),
        },
        None => Err("Selected block '"@ + id + "' is no longer available."@),
    }
}

/// The command that a wish of the inspector stands for, if it stands for one.
pub open spec fn inspector_command(draft: Option<EditorDraftView>, intent: InspectorIntentView) -> Result<
    Option<CommandView>,
    Seq<char>,
> {
    match intent {
        InspectorIntentView::InvalidEdit { message } => Err(message),
        InspectorIntentView::ReplaceTextRule { rule } => Ok(
            Some(CommandView::ReplaceTextRule { rule }),
        ),
        InspectorIntentView::ReplaceImageRule { rule } => Ok(
            Some(CommandView::ReplaceImageRule { rule }),
        ),
        InspectorIntentView::SetConditionMode { block_id, mode } => match selected_path(
            draft,
            block_id,
        ) {
            Ok(path) => Ok(Some(CommandView::SetConditionMode { path, mode })),
            Err(message) => Err(message),
        },
        InspectorIntentView::SetRepeatUntilMax { block_id, max } => match selected_path(
            draft,
            block_id,
        ) {
            Ok(path) => Ok(Some(CommandView::SetRepeatUntilMax { path, max_iterations: max })),
            Err(message) => Err(message),
        },
        InspectorIntentView::SetWaitDuration { block_id, duration_ms } => match selected_path(
            draft,
            block_id,
        ) {
            Ok(path) => Ok(Some(CommandView::SetWaitDuration { path, duration_ms })),
            Err(message) => Err(message),
        },
        InspectorIntentView::SetRepeatCount { block_id, count } => match selected_path(
            draft,
            block_id,
        ) {
            Ok(path) => Ok(Some(CommandView::SetRepeatCount { path, count })),
            Err(message) => Err(message),
        },
        InspectorIntentView::SetWatchSettings { block_id, timeout_ms, cooldown_ms } => {
            match selected_path(draft, block_id) {
                Ok(path) => Ok(
                    Some(CommandView::SetWatchSettings { path, timeout_ms, cooldown_ms }),
                ),
                Err(message) => Err(message),
            }
        },
        _ => Ok(None),
    }
}

fn path_of(draft: Option<&EditorDraft>, block_id: &String) -> (path: Result<BlockPath, String>)
    ensures
        match path {
            Ok(path) => selected_path(option_view(draft), block_id@) == Ok::<_, Seq<char>>(path@),
            Err(message) => selected_path(option_view(draft), block_id@) == Err::<
                BlockPathView,
                _,
            >(message@),
        },
{
    if let Some(draft) = draft {
        if let Some(path) = locate_block_path(&draft.definition, block_id.as_str()) {
            return Ok(path);
        }
    }
    let mut message = "Selected block '".to_owned();
    message.append(block_id.as_str());
    message.append("' is no longer available.");
    Err(message)
}

/// A command that may be missing, or a message, by its contents.
pub open spec fn wish_answer(result: Result<Option<EditorCommand>, String>) -> Result<
    Option<CommandView>,
    Seq<char>,
> {
    match result {
        Ok(command) => Ok(option_view(command)),
        Err(message) => Err(message@),
    }
}

/// The command that a wish of the inspector stands for, if it stands for one.
pub fn inspector_editor_command(draft: Option<&EditorDraft>, intent: &InspectorIntent) -> (result:
    Result<Option<EditorCommand>, String>)
    ensures
        wish_answer(result) == inspector_command(option_view(draft), intent@),
{
    match intent {
        InspectorIntent::InvalidEdit { message } => Err(message.clone()),
        InspectorIntent::ReplaceTextRule { rule } => Ok(
            Some(EditorCommand::ReplaceTextRule { rule: rule.clone() }),
        ),
        InspectorIntent::ReplaceImageRule { rule } => Ok(
            Some(EditorCommand::ReplaceImageRule { rule: rule.clone() }),
        ),
        InspectorIntent::SetConditionMode { block_id, mode } => match path_of(draft, block_id) {
            Ok(path) => Ok(Some(EditorCommand::SetConditionMode { path, mode: mode.clone() })),
            Err(message) => Err(message),
        },
        InspectorIntent::SetRepeatUntilMax { block_id, max } => match path_of(draft, block_id) {
            Ok(path) => Ok(Some(EditorCommand::SetRepeatUntilMax { path, max_iterations: *max })),
            Err(message) => Err(message),
        },
        InspectorIntent::SetWaitDuration { block_id, duration_ms } => {
            match path_of(draft, block_id) {
                Ok(path) => Ok(
                    Some(EditorCommand::SetWaitDuration { path, duration_ms: *duration_ms }),
                ),
                Err(message) => Err(message),
            }
        },
        InspectorIntent::SetRepeatCount { block_id, count } => match path_of(draft, block_id) {
            Ok(path) => Ok(Some(EditorCommand::SetRepeatCount { path, count: *count })),
            Err(message) => Err(message),
        },
        InspectorIntent::SetWatchSettings { block_id, timeout_ms, cooldown_ms } => {
            match path_of(draft, block_id) {
                Ok(path) => Ok(
                    Some(
                        EditorCommand::SetWatchSettings {
                            path,
                            timeout_ms: *timeout_ms,
                            cooldown_ms: *cooldown_ms,
                        },
                    ),
                ),
                Err(message) => Err(message),
            }
        },
        _ => Ok(None),
    }
}

/// The samples that a request of the editor carries.
pub open spec fn samples_for(page: PageView, kind: AuthoringKindView) -> Seq<
    crate::macro_engine::NegativeCorpusSampleView,
> {
    match kind {
        AuthoringKindView::TestImage { block_id } => (page.samples)(block_id),
        AuthoringKindView::CaptureImageNegative { block_id } => (page.samples)(block_id),
        _ => Seq::empty(),
    }
}

/// A page with a draft that is stayed in.
pub open spec fn with_draft_session(page: PageView) -> PageView {
    if page.draft_session is None && page.draft is Some {
        draft_begun(page)
    } else {
        page
    }
}

/// A page after the editor asked the desktop for something. It waits for one answer at a time, and
/// not beside the wizard.
pub open spec fn editor_begun(page: PageView, kind: AuthoringKindView) -> PageView {
    if page.wizard is Some {
        told(page, "Close the guided wizard before detector authoring."@)
    } else if page.active_editor_request is Some {
        told(page, "Wait for the current detector request to finish."@)
    } else {
        let next = with_draft_session(page);
        match next.draft {
            None => told(next, "No draft is available for detector authoring."@),
            Some(_) => editor_requested(next, kind),
        }
    }
}

/// Asks the desktop for something that the editor needs.
pub fn begin_editor_authoring(state: &mut MacroPageState, kind: EditorAuthoringKind)
    ensures
        final(state)@ == editor_begun(old(state)@, kind@),
{
    if state.wizard.is_some() {
        state.editor_feedback =
        Some("Close the guided wizard before detector authoring.".to_owned());
        return;
    }
    if state.active_editor_authoring_request.is_some() {
        state.editor_feedback = Some("Wait for the current detector request to finish.".to_owned());
        return;
    }
    if state.draft_session.is_none() && state.draft.is_some() {
        state.begin_draft_session();
    }
    if state.draft.is_none() {
        state.editor_feedback = Some("No draft is available for detector authoring.".to_owned());
        return;
    }
    request_authoring(state, kind);
}

/// A page after a request of the editor was put together.
pub open spec fn editor_requested(page: PageView, kind: AuthoringKindView) -> PageView {
    PageView {
        next_editor_authoring_request_id: bumped(page.next_editor_authoring_request_id),
        active_editor_request: Some(
            EditorRequestView {
                session: page.draft_session->0,
                id: EditorAuthoringRequestId(page.next_editor_authoring_request_id),
                fingerprint: authoring_print(page.draft->0.definition),
                kind,
                image_negative_samples: samples_for(page, kind),
            },
        ),
        editor_authoring_dispatched: false,
        ..page
    }
}

fn request_samples(table: &SampleTable, kind: &EditorAuthoringKind) -> (samples: Vec<
    NegativeCorpusSample,
>)
    ensures
        views(samples@) == (match kind@ {
            AuthoringKindView::TestImage { block_id } => (table@)(block_id),
            AuthoringKindView::CaptureImageNegative { block_id } => (table@)(block_id),
            _ => Seq::empty(),
        }),
{
    match kind {
        EditorAuthoringKind::TestImage { block_id } => table.get(block_id.as_str()),
        EditorAuthoringKind::CaptureImageNegative { block_id } => table.get(block_id.as_str()),
        _ => {
            let none: Vec<NegativeCorpusSample> = Vec::new();
            assert(views(none@) =~= Seq::empty());
            none
        },
    }
}

fn request_authoring(state: &mut MacroPageState, kind: EditorAuthoringKind)
    requires
        old(state).draft is Some,
        old(state).draft_session is Some,
    ensures
        final(state)@ == editor_requested(old(state)@, kind@),
{
    let fingerprint = match &state.draft {
        None => return,
        Some(draft) => editor_authoring_fingerprint(draft),
    };
    let session = match state.draft_session {
        Some(session) => session,
        None => return,
    };
    let id = EditorAuthoringRequestId(state.next_editor_authoring_request_id);
    state.next_editor_authoring_request_id = bump(state.next_editor_authoring_request_id);
    let image_negative_samples = request_samples(&state.editor_image_negative_samples, &kind);
    state.active_editor_authoring_request =
    Some(EditorAuthoringRequest { session, id, fingerprint, kind, image_negative_samples });
    state.editor_authoring_dispatched = false;
}

/// What the desktop is asked for by a wish of the inspector, if it is asked.
pub open spec fn wish_kind(intent: InspectorIntentView) -> Option<AuthoringKindView> {
    match intent {
        InspectorIntentView::TestOcr { block_id } => Some(AuthoringKindView::TestOcr { block_id }),
        InspectorIntentView::TestImage { block_id } => Some(
            AuthoringKindView::TestImage { block_id },
        ),
        InspectorIntentView::RecaptureRegion { region_id } => Some(
            AuthoringKindView::RecaptureRegion { region_id },
        ),
        InspectorIntentView::RecaptureTemplate { rule_id } => Some(
            AuthoringKindView::RecaptureTemplate { rule_id },
        ),
        InspectorIntentView::CaptureImageNegative { block_id } => Some(
            AuthoringKindView::CaptureImageNegative { block_id },
        ),
        _ => None,
    }
}

fn kind_of_wish(intent: &InspectorIntent) -> (kind: Option<EditorAuthoringKind>)
    ensures
        option_view(kind) == wish_kind(intent@),
{
    match intent {
        InspectorIntent::TestOcr { block_id } => Some(
            EditorAuthoringKind::TestOcr { block_id: block_id.clone() },
        ),
        InspectorIntent::TestImage { block_id } => Some(
            EditorAuthoringKind::TestImage { block_id: block_id.clone() },
        ),
        InspectorIntent::RecaptureRegion { region_id } => Some(
            EditorAuthoringKind::RecaptureRegion { region_id: region_id.clone() },
        ),
        InspectorIntent::RecaptureTemplate { rule_id } => Some(
            EditorAuthoringKind::RecaptureTemplate { rule_id: rule_id.clone() },
        ),
        InspectorIntent::CaptureImageNegative { block_id } => Some(
            EditorAuthoringKind::CaptureImageNegative { block_id: block_id.clone() },
        ),
        _ => None,
    }
}

/// A page after a wish of the inspector: the desktop is asked, the draft edited, or something said.
pub open spec fn wish_handled(page: PageView, intent: InspectorIntentView) -> PageView {
    if page.wizard is Some {
        told(page, "Close the guided wizard before editing this draft."@)
    } else {
        match wish_kind(intent) {
            Some(kind) => PageView {
                pending_inspector_intent: Some(intent),
                ..editor_begun(page, kind)
            },
            None => match inspector_command(page.draft, intent) {
                Ok(Some(command)) => dispatched(page, command).0,
                Ok(None) => PageView { pending_inspector_intent: Some(intent), ..page },
                Err(message) => told(page, message),
            },
        }
    }
}

/// Does what the inspector wishes.
pub fn handle_inspector_intent(state: &mut MacroPageState, intent: InspectorIntent)
    ensures
        final(state)@ == wish_handled(old(state)@, intent@),
{
    if state.wizard.is_some() {
        state.editor_feedback =
        Some("Close the guided wizard before editing this draft.".to_owned());
        return;
    }
    if let Some(kind) = kind_of_wish(&intent) {
        begin_editor_authoring(state, kind);
        state.pending_inspector_intent = Some(intent);
        return;
    }
    match inspector_editor_command(state.draft.as_ref(), &intent) {
        Ok(Some(command)) => {
            let _ = dispatch_editor_command(state, command);
        },
        Ok(None) => {
            state.pending_inspector_intent = Some(intent);
        },
        Err(message) => {
            state.editor_feedback = Some(message);
        },
    }
}

/// A page after the layout edit of an answer of the canvas.
pub open spec fn canvas_laid_out(page: PageView, response: ResponseView) -> PageView {
    let marked = if response.layout_changed {
        PageView { canvas_layout_dirty: true, ..page }
    } else {
        page
    };
    match response.layout_edit {
        Some(edit) => layout_noted(marked, edit),
        None => marked,
    }
}

/// A page after an answer of the canvas.
pub open spec fn canvas_answered(page: PageView, response: ResponseView) -> PageView {
    let laid_out = canvas_laid_out(page, response);
    let edited = match response.editor_command {
        Some(command) => dispatched(laid_out, command).0,
        None => laid_out,
    };
    match response.action {
        Some(ActionView::RejectedConnection(message)) => told(
            edited,
            "Connection rejected: "@ + message,
        ),
        Some(ActionView::OpenAddStep { source, .. }) => PageView {
            pending_canvas_port: Some(source),
            ..told(edited, "Choose a block below to add it at the connector drop location."@)
        },
        _ => edited,
    }
}

/// Does what the canvas answers, and hands on what it selects.
pub fn apply_canvas_response(state: &mut MacroPageState, response: CanvasResponse) -> (selection: Option<
    CanvasSelection,
>)
    ensures
        option_view(selection) == response@.selection,
        final(state)@ == canvas_answered(old(state)@, response@),
{
    let CanvasResponse { action, selection, editor_command, layout_changed, layout_edit } =
        response;
    if layout_changed {
        state.mark_canvas_layout_changed();
    }
    if let Some(edit) = layout_edit {
        state.record_canvas_layout_edit(edit);
    }
    if let Some(command) = editor_command {
        let _ = dispatch_editor_command(state, command);
    }
    match action {
        Some(CanvasAction::RejectedConnection(message)) => {
            let mut text = "Connection rejected: ".to_owned();
            text.append(message.as_str());
            state.editor_feedback = Some(text);
        },
        Some(CanvasAction::OpenAddStep { source, .. }) => {
            state.pending_canvas_port = Some(source);
            state.editor_feedback =
            Some("Choose a block below to add it at the connector drop location.".to_owned());
        },
        _ => {},
    }
    selection
}

/// What confirming the pending conversion answers and leaves.
pub open spec fn conversion_confirmed(page: PageView) -> (
    PageView,
    Result<EditOutcome, EditorErrorView>,
) {
    match page.pending_conversion {
        None => (page, Err(EditorErrorView::MissingBlock("no conversion preview"@))),
        Some(pending) => if page.draft matches Some(draft) && may_confirm(draft, pending.command) {
            dispatched(PageView { pending_conversion: None, ..page }, pending.command)
        } else {
            (
                told(page, "Conversion has invalid required values."@),
                Err(EditorErrorView::IncompatibleConversion),
            )
        },
    }
}

/// Applies the pending conversion, if its values hold.
pub fn confirm_pending_conversion(state: &mut MacroPageState) -> (answer: Result<
    EditOutcome,
    EditorError,
>)
    ensures
        (final(state)@, answer_view(answer)) == conversion_confirmed(old(state)@),
{
    let mut taken: Option<PendingConversion> = None;
    std::mem::swap(&mut taken, &mut state.pending_conversion);
    let pending = match taken {
        None => return Err(EditorError::MissingBlock("no conversion preview".to_owned())),
        Some(pending) => pending,
    };
    let valid = match &state.draft {
        Some(draft) => pending_conversion_valid(draft, &pending),
        None => false,
    };
    if !valid {
        state.editor_feedback = Some("Conversion has invalid required values.".to_owned());
        state.pending_conversion = Some(pending);
        return Err(EditorError::IncompatibleConversion);
    }
    dispatch_editor_command(state, pending.command)
}

/// Drops the pending conversion.
pub fn cancel_pending_conversion(state: &mut MacroPageState)
    ensures
        final(state)@ == told(
            (PageView { pending_conversion: None, ..old(state)@ }),
            "Conversion canceled; draft unchanged."@,
        ),
{
    state.pending_conversion = None;
    state.editor_feedback = Some("Conversion canceled; draft unchanged.".to_owned());
}

/// Changes a value of the pending conversion.
pub fn edit_pending_conversion(state: &mut MacroPageState, edit: PendingEdit)
    ensures
        final(state)@ == (PageView {
            pending_conversion: match old(state)@.pending_conversion {
                Some(pending) => Some(pending_after(pending, edit)),
                None => None,
            },
            ..old(state)@
        }),
{
    let mut taken: Option<PendingConversion> = None;
    std::mem::swap(&mut taken, &mut state.pending_conversion);
    if let Some(pending) = taken {
        state.pending_conversion = Some(edit_pending(pending, edit));
    }
}

/// What is selected: the selected block or lane, or else the selected body.
pub open spec fn selection_of(page: PageView) -> Option<SelectionView> {
    match page.selected_block_id {
        Some(id) => match page.draft {
            Some(draft) => match lane_located(draft.definition.blocks, id) {
                Some((group_id, _, _)) => Some(SelectionView::Lane { group_id, lane_id: id }),
                None => Some(SelectionView::Block(id)),
            },
            None => Some(SelectionView::Block(id)),
        },
        None => page.selected_canvas,
    }
}

pub fn current_canvas_selection(state: &MacroPageState) -> (selection: Option<CanvasSelection>)
    ensures
        option_view(selection) == selection_of(state@),
{
    if let Some(id) = &state.selected_block_id {
        if let Some(draft) = &state.draft {
            if let Some((group_id, _, _)) = locate_watch_lane(&draft.definition, id.as_str()) {
                return Some(CanvasSelection::Lane { group_id, lane_id: id.clone() });
            }
        }
        return Some(CanvasSelection::Block(id.clone()));
    }
    clone_option(&state.selected_canvas)
}

/// Selects something on the canvas.
pub fn select_canvas(state: &mut MacroPageState, selection: CanvasSelection)
    ensures
        final(state)@ == (PageView {
            selected_block_id: named(Some(selection@)),
            selected_canvas: Some(selection@),
            ..old(state)@
        }),
{
    state.selected_block_id =
    match selected_name(Some(&selection)) {
        Some(id) => Some(id.to_owned()),
        None => None,
    };
    state.selected_canvas = Some(selection);
}

/// A page after a step was added, or after it could not be.
pub open spec fn step_placed(page: PageView, command: Result<CommandView, Seq<char>>) -> PageView {
    match command {
        Ok(command) => {
            let (next, answer) = dispatched(page, command);
            if answer is Ok {
                PageView { pending_canvas_port: None, ..next }
            } else {
                next
            }
        },
        Err(message) => told(page, message),
    }
}

fn place_step(state: &mut MacroPageState, command: Result<EditorCommand, String>)
    ensures
        final(state)@ == step_placed(old(state)@, crate::palette::command_or_message(command)),
{
    match command {
        Ok(command) => {
            if dispatch_editor_command(state, command).is_ok() {
                state.pending_canvas_port = None;
            }
        },
        Err(message) => {
            state.editor_feedback = Some(message);
        },
    }
}

/// Adds a block from the palette, at the selection or where a pending connector ended.
pub fn add_palette_step(state: &mut MacroPageState, kind: PaletteKind)
    ensures
        final(state)@ == (match old(state)@.draft {
            Some(draft) => step_placed(
                old(state)@,
                add_step(
                    draft.definition,
                    selection_of(old(state)@),
                    old(state)@.pending_canvas_port,
                    kind,
                ),
            ),
            None => told(old(state)@, "No draft is open."@),
        }),
{
    let selected = current_canvas_selection(state);
    let command = match &state.draft {
        None => Err("No draft is open.".to_owned()),
        Some(draft) => add_step_command(
            draft,
            selected.as_ref(),
            state.pending_canvas_port.as_ref(),
            kind,
        ),
    };
    place_step(state, command);
}

/// Adds a note, at the end or where a pending connector ended.
pub fn add_note(state: &mut MacroPageState)
    ensures
        final(state)@ == (match old(state)@.draft {
            Some(draft) => step_placed(
                old(state)@,
                note_insert(draft.definition, old(state)@.pending_canvas_port),
            ),
            None => old(state)@,
        }),
{
    let command = match &state.draft {
        None => return,
        Some(draft) => note_command(draft, state.pending_canvas_port.as_ref()),
    };
    place_step(state, command);
}

/// A page after an action of the toolbar on the selected block or lane.
pub open spec fn toolbar_used(page: PageView, action: ToolbarAction) -> PageView {
    match (page.draft, page.selected_block_id) {
        (Some(draft), Some(id)) => match spot_of(draft.definition.blocks, id) {
            Some(spot) => match command_at(spot, action) {
                Some(command) => dispatched(page, command).0,
                None => page,
            },
            None => page,
        },
        _ => page,
    }
}

/// Does what an action of the toolbar asks of the selected block or lane.
pub fn use_toolbar(state: &mut MacroPageState, action: ToolbarAction)
    ensures
        final(state)@ == toolbar_used(old(state)@, action),
{
    let spot = match (&state.draft, &state.selected_block_id) {
        (Some(draft), Some(id)) => find_spot(draft, id.as_str()),
        _ => None,
    };
    if let Some(spot) = spot {
        if let Some(command) = toolbar_command(spot, action) {
            let _ = dispatch_editor_command(state, command);
        }
    }
}

/// The macro that a new draft starts from: one observation of a text that is still to be entered.
pub open spec fn starter_definition() -> MacroDefinitionView {
    MacroDefinitionView {
        schema_version: MACRO_SCHEMA_VERSION,
        id: "starter-macro"@,
        name: "Starter Macro"@,
        revision: 1,
        target: TargetProfileView {
            process_path: Seq::empty(),
            window_class: Seq::empty(),
            title_contains: "Diablo IV"@,
            captured_client_width: 1280,
            captured_client_height: 720,
            captured_dpi: 96,
        },
        regions: seq![
            RegionDefinitionView {
                id: "starter-region"@,
                revision: 1,
                rect: RectRatio {
                    x: F64Bits(0x3FD0_0000_0000_0000),
                    y: F64Bits(0x3FD0_0000_0000_0000),
                    width: F64Bits(0x3FE0_0000_0000_0000),
                    height: F64Bits(0x3FC9_9999_9999_999A),
                },
            },
        ],
        points: Seq::empty(),
        text_rules: seq![
            TextRuleView {
                id: "starter-text"@,
                revision: 1,
                region_id: "starter-region"@,
                language: "en-US"@,
                preprocess: PreprocessProfile::Grayscale,
                expected: "Edit expected text"@,
                match_mode: TextMatchMode::Contains,
                threshold: F64Bits(0x3FEC_CCCC_CCCC_CCCD),
                case_sensitive: false,
                allow_cross_line: false,
                match_policy: MatchSelectionPolicy::ExactlyOne,
                poll_interval_ms: 250,
                timeout_ms: Limit::Unlimited,
                stable_frames: 2,
            },
        ],
        image_rules: Seq::empty(),
        blocks: seq![
            BlockView {
                id: "observe-1"@,
                enabled: true,
                head: HeadView::Observe {
                    condition: ConditionView {
                        family: DetectorFamily::Text,
                        source: "observe-1"@,
                        rule: "starter-text"@,
                        wait: WaitView::CheckNow,
                    },
                },
                bodies: Seq::empty(),
            },
        ],
        safety: SafetyPolicy {
            max_runtime_ms: Limit::Unlimited,
            max_clicks: Limit::Unlimited,
            max_observation_retries: Limit::Unlimited,
            max_observations_per_second: 20,
            minimum_click_interval_ms: 100,
            focus_loss: FocusLossPolicy::Stop,
        },
    }
}

pub fn starter_macro_definition() -> (definition: MacroDefinition)
    ensures
        definition@ == starter_definition(),
{
    let mut regions: Vec<RegionDefinition> = Vec::new();
    regions.push(
        RegionDefinition {
            id: "starter-region".to_owned(),
            revision: 1,
            rect: RectRatio {
                x: F64Bits(0x3FD0_0000_0000_0000),
                y: F64Bits(0x3FD0_0000_0000_0000),
                width: F64Bits(0x3FE0_0000_0000_0000),
                height: F64Bits(0x3FC9_9999_9999_999A),
            },
        },
    );
    let mut text_rules: Vec<TextRule> = Vec::new();
    text_rules.push(
        TextRule {
            id: "starter-text".to_owned(),
            revision: 1,
            region_id: "starter-region".to_owned(),
            language: "en-US".to_owned(),
            preprocess: PreprocessProfile::Grayscale,
            expected: "Edit expected text".to_owned(),
            match_mode: TextMatchMode::Contains,
            threshold: F64Bits(0x3FEC_CCCC_CCCC_CCCD),
            case_sensitive: false,
            allow_cross_line: false,
            match_policy: MatchSelectionPolicy::ExactlyOne,
            poll_interval_ms: 250,
            timeout_ms: Limit::Unlimited,
            stable_frames: 2,
        },
    );
    let condition = Condition::Text {
        source_block_id: "observe-1".to_owned(),
        rule_id: "starter-text".to_owned(),
        mode: ObserveMode::CheckNow,
    };
    assert(crate::macro_engine::condition_bodies(condition) =~= Seq::empty());
    let observe = Block {
        id: "observe-1".to_owned(),
        enabled: true,
        kind: BlockKind::Observe { condition },
    };
    let ghost first = observe@;
    let mut blocks: Vec<Block> = Vec::new();
    blocks.push(observe);
    let definition = MacroDefinition {
        schema_version: MACRO_SCHEMA_VERSION,
        id: "starter-macro".to_owned(),
        name: "Starter Macro".to_owned(),
        revision: 1,
        target: TargetProfile {
            process_path: String::new(),
            window_class: String::new(),
            title_contains: "Diablo IV".to_owned(),
            captured_client_width: 1280,
            captured_client_height: 720,
            captured_dpi: 96,
        },
        regions,
        points: Vec::new(),
        text_rules,
        image_rules: Vec::new(),
        blocks,
        safety: SafetyPolicy {
            max_runtime_ms: Limit::Unlimited,
            max_clicks: Limit::Unlimited,
            max_observation_retries: Limit::Unlimited,
            max_observations_per_second: 20,
            minimum_click_interval_ms: 100,
            focus_loss: FocusLossPolicy::Stop,
        },
    };
    proof {
        assert(definition@.target.process_path =~= Seq::empty());
        assert(definition@.target.window_class =~= Seq::empty());
        assert(definition@.regions =~= starter_definition().regions);
        assert(definition@.points =~= Seq::empty());
        assert(definition@.text_rules =~= starter_definition().text_rules);
        assert(definition@.image_rules =~= Seq::empty());
        assert(definition@.blocks =~= seq![first]);
        assert(first =~= starter_definition().blocks[0]);
        assert(definition@.blocks =~= starter_definition().blocks);
    }
    definition
}

/// A page with a new draft.
pub open spec fn starter_opened(page: PageView) -> PageView {
    PageView {
        draft: Some(opened(starter_definition())),
        selected_block_id: Some("observe-1"@),
        selected_canvas: Some(SelectionView::Block("observe-1"@)),
        ..told(draft_begun(page), "Created an unsaved starter draft for editor authoring."@)
    }
}

/// A new draft may be started: the wizard is not open and does not wait for an answer.
pub open spec fn starter_may_open(page: PageView) -> bool {
    page.wizard is None && page.active_wizard_request is None
}

pub fn can_create_starter_draft(state: &MacroPageState) -> (result: bool)
    ensures
        result == starter_may_open(state@),
{
    state.wizard.is_none() && state.active_wizard_request.is_none()
}

/// Starts a new draft.
pub fn create_starter_draft(state: &mut MacroPageState)
    ensures
        final(state)@ == starter_opened(old(state)@),
{
    state.begin_draft_session();
    state.draft = Some(EditorDraft::new(starter_macro_definition()));
    state.selected_block_id = Some("observe-1".to_owned());
    state.selected_canvas = Some(CanvasSelection::Block("observe-1".to_owned()));
    state.editor_feedback =
    Some("Created an unsaved starter draft for editor authoring.".to_owned());
}

} // verus!
