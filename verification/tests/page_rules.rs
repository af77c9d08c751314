//! What the page promises of every state, on chosen states.
use macro_ui::authoring::{
    EditorAuthoringError, EditorAuthoringKind, EditorAuthoringOutcome, EditorAuthoringRequest,
    EditorAuthoringResult,
};
use macro_ui::canvas_layout::{CanvasLayoutError, MacroCanvasLayout, Position};
use macro_ui::canvas_model::{CanvasSelection, OutputPort};
use macro_ui::draft::EditorDraft;
use macro_ui::editor_types::{EditOutcome, EditorCommand, EditorError};
use macro_ui::history::{EditDomain, HistoryError};
use macro_ui::intents::{
    ImagePackageReverificationProgress, ImagePackageReverificationStage, MacroIntent,
    MacroIntentQueue, SavedMacroIdentity,
};
use macro_ui::library::{MacroLibraryRow, MacroLibraryStatus, search_rows};
use macro_ui::macro_engine::{
    BlockKind, F32Bits, F64Bits, MacroDefinition, PointRatio, RectRatio, ValidationProblem,
};
use macro_ui::page::MacroPageState;
use macro_ui::page_edit::{
    add_note, add_palette_step, begin_editor_authoring, can_create_starter_draft,
    current_canvas_selection, dispatch_editor_command, select_canvas, starter_macro_definition, use_toolbar,
};
use macro_ui::page_wizard::{
    apply_wizard_ui_action, can_close_wizard, can_open_wizard, close_wizard, open_wizard,
};
use macro_ui::palette::PaletteKind;
use macro_ui::toolbar::{
    ToolbarAction, ToolbarButton, find_spot, toolbar_buttons, toolbar_command,
};
use macro_ui::wizard::{
    WizardAuthoringKind, WizardAuthoringOutcome, WizardAuthoringRequest, WizardAuthoringResult,
    WizardDetectorKind, WizardRequestId, WizardResultError, WizardState, WizardUiAction,
};

fn double(value: f64) -> F64Bits {
    F64Bits(value.to_bits())
}

fn at(x: f32, y: f32) -> Position {
    Position { x: F32Bits(x.to_bits()), y: F32Bits(y.to_bits()) }
}

fn rect() -> RectRatio {
    RectRatio { x: double(0.1), y: double(0.2), width: double(0.3), height: double(0.4) }
}

fn opened() -> MacroPageState {
    let mut state = MacroPageState {
        draft: Some(EditorDraft::new(starter_macro_definition())),
        ..MacroPageState::default()
    };
    state.reconcile_canvas_layout();
    state
}

fn draft(state: &MacroPageState) -> &EditorDraft {
    state.draft.as_ref().unwrap()
}

fn root_ids(state: &MacroPageState) -> Vec<String> {
    draft(state).definition.blocks.iter().map(|block| block.id.clone()).collect()
}

fn saved() -> SavedMacroIdentity {
    SavedMacroIdentity {
        macro_id: "macro".into(),
        revision: 3,
        definition_hash: "hash".into(),
    }
}

#[test]
fn a_locked_page_refuses_edits_and_says_so() {
    let mut state = opened();
    state.wizard = Some(WizardState::default());
    let before = draft(&state).clone();
    assert_eq!(
        dispatch_editor_command(&mut state, EditorCommand::Undo),
        Err(EditorError::RunInProgress)
    );
    assert_eq!(
        state.editor_feedback.as_deref(),
        Some("Edit rejected: RunInProgress (finish pending authoring first).")
    );
    assert_eq!(draft(&state), &before);
}

#[test]
fn steps_from_the_palette_and_notes_are_added() {
    let mut state = opened();
    add_palette_step(&mut state, PaletteKind::Wait);
    add_note(&mut state);
    assert_eq!(root_ids(&state), ["observe-1", "wait-1", "note-1"]);
    assert_eq!(
        draft(&state).definition.blocks[2].kind,
        BlockKind::Comment { text: "New step".into() }
    );
    state.pending_canvas_port = Some(OutputPort::Next("observe-1".into()));
    add_palette_step(&mut state, PaletteKind::Stop);
    assert_eq!(root_ids(&state), ["observe-1", "stop-1", "wait-1", "note-1"]);
    assert_eq!(state.pending_canvas_port, None);

    let mut empty = MacroPageState::default();
    add_palette_step(&mut empty, PaletteKind::Wait);
    assert_eq!(empty.editor_feedback.as_deref(), Some("No draft is open."));
}

#[test]
fn the_toolbar_acts_on_the_selected_block() {
    let mut state = opened();
    add_palette_step(&mut state, PaletteKind::Wait);
    select_canvas(&mut state, CanvasSelection::Block("wait-1".into()));
    assert_eq!(current_canvas_selection(&state), Some(CanvasSelection::Block("wait-1".into())));
    use_toolbar(&mut state, ToolbarAction::Up);
    assert_eq!(root_ids(&state), ["wait-1", "observe-1"]);
    use_toolbar(&mut state, ToolbarAction::ToggleBlock);
    assert!(!draft(&state).definition.blocks[0].enabled);
    use_toolbar(&mut state, ToolbarAction::Duplicate);
    assert_eq!(root_ids(&state), ["wait-1", "wait-1-copy", "observe-1"]);
    use_toolbar(&mut state, ToolbarAction::Delete);
    assert_eq!(root_ids(&state), ["wait-1-copy", "observe-1"]);
}

#[test]
fn a_button_can_be_used_where_its_action_has_a_command() {
    let mut state = opened();
    add_palette_step(&mut state, PaletteKind::Repeat);
    add_palette_step(&mut state, PaletteKind::Watch);
    for id in root_ids(&state) {
        let buttons = toolbar_buttons(&find_spot(draft(&state), &id).unwrap());
        assert!(!buttons.is_empty());
        for ToolbarButton { action, available } in buttons {
            let spot = find_spot(draft(&state), &id).unwrap();
            assert_eq!(toolbar_command(spot, action).is_some(), available, "{id}: {action:?}");
        }
    }
}

#[test]
fn steps_up_and_down_are_shown_at_the_ends_of_a_list_and_cannot_be_used() {
    let mut state = opened();
    add_palette_step(&mut state, PaletteKind::Repeat);
    add_palette_step(&mut state, PaletteKind::Wait);
    let ids = root_ids(&state);
    assert_eq!(ids.len(), 3);
    for (index, id) in ids.iter().enumerate() {
        let buttons = toolbar_buttons(&find_spot(draft(&state), id).unwrap());
        assert_eq!(
            buttons[..2],
            [
                ToolbarButton { action: ToolbarAction::Up, available: index > 0 },
                ToolbarButton { action: ToolbarAction::Down, available: index < 2 },
            ]
        );
    }
}

#[test]
fn undo_on_the_page_takes_back_an_edit() {
    let mut state = opened();
    let before = draft(&state).definition.clone();
    add_palette_step(&mut state, PaletteKind::Wait);
    assert_eq!(
        dispatch_editor_command(&mut state, EditorCommand::Undo),
        Ok(EditOutcome::Changed)
    );
    assert_eq!(draft(&state).definition.blocks, before.blocks);
    assert_eq!(draft(&state).definition.revision, before.revision + 2);
}

#[test]
fn the_layout_never_touches_the_draft() {
    let mut state = opened();
    let before = draft(&state).clone();
    state.move_canvas_node("observe-1", at(40.0, 50.0)).unwrap();
    assert_eq!(
        state.move_canvas_node("gone", at(0.0, 0.0)),
        Err(CanvasLayoutError::MissingNode("gone".into()))
    );
    assert_eq!(
        state.move_canvas_node("observe-1", at(f32::NAN, 0.0)),
        Err(CanvasLayoutError::NonFinitePosition)
    );
    assert_eq!(state.canvas_layout.node_positions.get("observe-1"), Some(&at(40.0, 50.0)));
    state.auto_arrange_canvas();
    state.reset_canvas_zoom();
    state.set_canvas_view(at(3.0, 4.0), F32Bits(0.5f32.to_bits()));
    state.load_canvas_layout(MacroCanvasLayout::default());
    assert_eq!(draft(&state), &before);
}

#[test]
fn a_move_of_a_node_can_be_undone_on_the_page() {
    let mut state = opened();
    let before = state.canvas_layout.clone();
    state.move_canvas_node("observe-1", at(40.0, 50.0)).unwrap();
    assert_eq!(state.undo_ui_edit(), Ok(EditDomain::Layout));
    assert_eq!(state.canvas_layout, before);
    assert_eq!(state.undo_ui_edit(), Err(HistoryError::NothingToUndo));
    assert_eq!(state.redo_ui_edit(), Ok(EditDomain::Layout));
    assert_eq!(state.canvas_layout.node_positions.get("observe-1"), Some(&at(40.0, 50.0)));
}

#[test]
fn a_stored_layout_is_what_another_page_loads() {
    let open = || {
        let mut state = MacroPageState::default();
        state.load_saved_draft(starter_macro_definition(), saved());
        state
    };
    let mut state = open();
    state.hydrate_canvas_layout(None);
    assert!(state.persist_canvas_layout().is_none());
    state.move_canvas_node("observe-1", at(40.0, 50.0)).unwrap();
    let (id, stored) = state.persist_canvas_layout().unwrap();
    assert_eq!(id, "macro");
    assert!(state.persist_canvas_layout().is_none());

    let mut fresh = open();
    fresh.hydrate_canvas_layout(Some(stored));
    assert_eq!(fresh.canvas_layout, state.canvas_layout);
    assert_eq!(fresh.canvas_layout.node_positions.get("observe-1"), Some(&at(40.0, 50.0)));
    fresh.hydrate_canvas_layout(None);
    assert_eq!(fresh.canvas_layout, state.canvas_layout);
}

fn answer(request: &EditorAuthoringRequest, outcome: EditorAuthoringOutcome) -> EditorAuthoringResult {
    EditorAuthoringResult {
        session: request.session,
        id: request.id,
        fingerprint: request.fingerprint.clone(),
        outcome,
    }
}

#[test]
fn the_editor_takes_an_expected_answer_once() {
    let mut state = opened();
    begin_editor_authoring(&mut state, EditorAuthoringKind::CaptureTarget);
    let request = state.take_editor_authoring_request().unwrap();
    let geometry = || EditorAuthoringOutcome::TargetGeometry {
        process_path: "other.exe".into(),
        window_class: "window".into(),
        title: "Other".into(),
        width: 800,
        height: 600,
        dpi: 120,
    };
    assert_eq!(state.apply_editor_authoring_result(answer(&request, geometry())), Ok(()));
    assert_eq!(draft(&state).definition.target.title_contains, "Other");
    assert_eq!(draft(&state).definition.target.captured_dpi, 120);
    let after = draft(&state).clone();
    assert_eq!(
        state.apply_editor_authoring_result(answer(&request, geometry())),
        Err(EditorAuthoringError::UnexpectedResult)
    );
    assert_eq!(draft(&state), &after);
}

#[test]
fn editor_answers_that_do_not_fit_keep_the_work() {
    let mut state = opened();
    begin_editor_authoring(&mut state, EditorAuthoringKind::CaptureTarget);
    let request = state.take_editor_authoring_request().unwrap();
    let before = draft(&state).clone();
    assert_eq!(
        state.apply_editor_authoring_result(answer(
            &request,
            EditorAuthoringOutcome::Region(rect()),
        )),
        Err(EditorAuthoringError::OutcomeMismatch)
    );
    assert_eq!(draft(&state), &before);

    let kind = EditorAuthoringKind::RecaptureRegion { region_id: "gone".into() };
    begin_editor_authoring(&mut state, kind);
    let request = state.take_editor_authoring_request().unwrap();
    assert_eq!(
        state.apply_editor_authoring_result(answer(
            &request,
            EditorAuthoringOutcome::Region(rect()),
        )),
        Err(EditorAuthoringError::EditRejected)
    );
    assert_eq!(draft(&state), &before);

    begin_editor_authoring(&mut state, EditorAuthoringKind::CaptureTarget);
    let request = state.take_editor_authoring_request().unwrap();
    state.draft.as_mut().unwrap().definition.revision += 1;
    assert_eq!(
        state.apply_editor_authoring_result(answer(&request, EditorAuthoringOutcome::Cancelled)),
        Err(EditorAuthoringError::StaleDraft)
    );
}

fn told(request: &WizardAuthoringRequest, outcome: WizardAuthoringOutcome) -> WizardAuthoringResult {
    WizardAuthoringResult {
        session: request.session,
        id: request.id,
        fingerprint: request.fingerprint.clone(),
        outcome,
    }
}

#[test]
fn wizard_answers_keep_the_draft_and_are_taken_once() {
    let mut state = opened();
    let before = draft(&state).clone();
    open_wizard(&mut state);
    let capture = || WizardUiAction::CaptureRegion(WizardDetectorKind::Text);
    apply_wizard_ui_action(&mut state, capture());
    let request = state.take_wizard_request().unwrap();
    let region = || WizardAuthoringOutcome::Region(rect());
    assert_eq!(state.apply_wizard_result(told(&request, region())), Ok(()));
    assert_eq!(state.wizard.as_ref().unwrap().region, rect());
    assert_eq!(
        state.apply_wizard_result(told(&request, region())),
        Err(WizardResultError::UnexpectedResult)
    );

    apply_wizard_ui_action(&mut state, capture());
    let request = state.take_wizard_request().unwrap();
    let point = PointRatio { x: double(0.5), y: double(0.5) };
    assert_eq!(
        state.apply_wizard_result(told(&request, WizardAuthoringOutcome::Point(point))),
        Err(WizardResultError::OutcomeMismatch)
    );
    assert_eq!(draft(&state), &before);
    close_wizard(&mut state);
    assert!(state.wizard.is_some(), "a wizard that waits for an answer stays open");
    assert_eq!(
        state.apply_wizard_result(told(&request, WizardAuthoringOutcome::Cancelled)),
        Ok(())
    );
    close_wizard(&mut state);
    assert!(state.wizard.is_none() && state.active_wizard_request.is_none());
}

#[test]
fn what_is_waited_for_keeps_the_wizard_as_it_is() {
    let mut state = MacroPageState::default();
    assert!(can_create_starter_draft(&state) && can_open_wizard(&state));
    assert!(!can_close_wizard(&state));
    open_wizard(&mut state);
    assert!(!can_create_starter_draft(&state) && !can_open_wizard(&state));
    assert!(can_close_wizard(&state));
    state.active_wizard_request = Some(WizardAuthoringRequest {
        session: state.wizard_session.unwrap(),
        id: WizardRequestId(1),
        fingerprint: "print".into(),
        kind: WizardAuthoringKind::CaptureTarget,
    });
    assert!(!can_close_wizard(&state));
    close_wizard(&mut state);
    assert!(state.wizard.is_some());
}

#[test]
fn a_finished_wizard_opens_its_macro() {
    let mut wizard = WizardState::default();
    wizard.step = macro_ui::wizard::WizardStep::Finish;
    wizard.target_bound = true;
    wizard.text_expected = "Ancestral".into();
    wizard.record_detector_test(true, "seen", 1);
    wizard.mark_dry_run_reviewed();
    let clean = |_: &MacroDefinition| -> Vec<ValidationProblem> { vec![] };
    let output = wizard.finish(clean).unwrap();
    let expected = output.definition.clone();
    let mut state = MacroPageState { wizard: Some(wizard), ..MacroPageState::default() };
    apply_wizard_ui_action(&mut state, WizardUiAction::Finish(output));
    assert_eq!(draft(&state).definition, expected);
}

#[test]
fn a_full_queue_keeps_stop() {
    let mut queue = MacroIntentQueue::with_capacity(2);
    queue.push(MacroIntent::Stop);
    for _ in 0..5 {
        queue.push(MacroIntent::Validate);
        assert!(queue.len() <= 2);
    }
    assert!(queue.drain().iter().any(MacroIntent::is_stop));
    assert_eq!(queue.pending(), 0);
}

#[test]
fn library_requests_carry_the_selected_identity() {
    let mut state = MacroPageState::default();
    state.request_delete();
    state.request_rename();
    assert_eq!(state.pending_intent_count(), 0);
    state.set_selected_saved(saved());
    state.library_rename = "  Better name ".into();
    state.request_rename();
    assert_eq!(
        state.take_intent(),
        Some(MacroIntent::Rename { saved: saved(), name: "Better name".into() })
    );
    state.request_delete();
    assert_eq!(state.take_intent(), None);
    state.confirm_library_delete = true;
    state.request_delete();
    assert_eq!(state.take_intent(), Some(MacroIntent::Delete { saved: saved() }));
    assert!(!state.confirm_library_delete);
}

#[test]
fn re_verification_names_its_rule() {
    let mut progress =
        ImagePackageReverificationProgress::new(vec!["icon".into(), "frame".into()]);
    assert_eq!(progress.line(), "Rule 1/2: icon");
    progress.active_rule_index = 1;
    assert_eq!(progress.line(), "Rule 2/2: frame");
    progress.active_rule_index = 9;
    assert_eq!(progress.line(), "Rule 10/2: local image rule");
    assert_eq!(progress.stage, ImagePackageReverificationStage::CaptureTarget);
}

#[test]
fn the_library_is_searched_by_name_and_status() {
    let row = |name: &str, status: MacroLibraryStatus| MacroLibraryRow {
        id: name.into(),
        name: name.into(),
        revision: 1,
        status,
        target: "Game".into(),
        dpi: 96,
        last_validation: "Ready".into(),
        last_run: "None".into(),
    };
    let rows = vec![
        row("Salvage Run", MacroLibraryStatus::Ready),
        row("Farm", MacroLibraryStatus::Disabled),
    ];
    let found = |search: &str| {
        search_rows(&rows, search).into_iter().map(|row| row.name).collect::<Vec<_>>()
    };
    assert_eq!(found(""), ["Salvage Run", "Farm"]);
    assert_eq!(found("  sALvage "), ["Salvage Run"]);
    assert_eq!(found("disabled"), ["Farm"]);
    assert!(found("nothing").is_empty());
}
