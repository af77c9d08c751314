//! The page of macros.
use macro_ui::authoring::{
    EditorAuthoringError, EditorAuthoringKind, EditorAuthoringOutcome, EditorAuthoringResult,
};
use macro_ui::canvas_layout::Position;
use macro_ui::canvas_model::CanvasSelection;
use macro_ui::container::ContainerPath;
use macro_ui::conversion::{
    PendingConversion, ReplacementKind, conversion_choices, pending_conversion_valid,
    replace_block_preview, replacement_choices,
};
use macro_ui::draft::{EditorDraft, apply_editor_command};
use macro_ui::editor_types::{
    ConversionPreview, ConversionTarget, DraftEditability, DraftStatus, EditOutcome,
    EditorCommand, EditorError, InsertionTarget,
};
use macro_ui::inspector::InspectorIntent;
use macro_ui::intents::{
    ImagePackageReverificationStage, MacroIntent, MacroIntentQueue, MacroRunIntent,
    SavedMacroIdentity,
};
use macro_ui::library::{MacroLibraryRow, MacroLibraryStatus};
use macro_ui::macro_engine::{
    Action, AssetRef, Block, BlockKind, Condition, F32Bits, F64Bits, FocusLossPolicy, ImageRule,
    ImageRuleVerificationArtifact, Limit, MACRO_SCHEMA_VERSION, MacroDefinition,
    MatchSelectionPolicy, MouseButton, NegativeCorpusSample, ObserveMode, PassiveCondition,
    PointDefinition, PointRatio, PreprocessProfile, RectRatio, RegionDefinition, SafetyPolicy,
    TargetProfile, TextMatchMode, TextRule, TimeoutOutcome, ValidationProblem, WatchGroup,
    WatchLane,
};
use macro_ui::monitor::MonitorProjection;
use macro_ui::page::MacroPageState;
use macro_ui::page_edit::{
    begin_editor_authoring, cancel_pending_conversion, confirm_pending_conversion,
    dispatch_editor_command, handle_inspector_intent, inspector_editor_command,
    starter_macro_definition,
};
use macro_ui::page_status::{
    MacroPage, PaneMode, pane_mode, project_library_rows, revision_summary,
    run_control_availability, validation_summary,
};
use macro_ui::page_wizard::apply_wizard_ui_action;
use macro_ui::palette::{PaletteKind, palette_command, palette_command_for_selection};
use macro_ui::places::{editor_validation_problems, locate_block_path};
use macro_ui::run_events::{RunEvent, RunMode};
use macro_ui::sources::{next_unique_id, observation_sources};
use macro_ui::wizard::{
    WizardAuthoringKind, WizardAuthoringOutcome, WizardAuthoringResult, WizardDetectorKind,
    WizardRequestId, WizardResultError, WizardState, WizardStep, WizardUiAction,
};

fn double(value: f64) -> F64Bits {
    F64Bits(value.to_bits())
}

fn single(value: f32) -> F32Bits {
    F32Bits(value.to_bits())
}

fn at(x: f32, y: f32) -> Position {
    Position { x: single(x), y: single(y) }
}

fn no_problems(_: &MacroDefinition) -> Vec<ValidationProblem> {
    vec![]
}

fn fixture() -> EditorDraft {
    EditorDraft::new(MacroDefinition {
        schema_version: MACRO_SCHEMA_VERSION,
        id: "macro".into(),
        name: "Macro".into(),
        revision: 1,
        target: TargetProfile {
            process_path: "game.exe".into(),
            window_class: "d4".into(),
            title_contains: "Diablo".into(),
            captured_client_width: 1280,
            captured_client_height: 720,
            captured_dpi: 96,
        },
        regions: vec![],
        points: vec![],
        text_rules: vec![TextRule {
            id: "rule".into(),
            revision: 1,
            region_id: "scan".into(),
            language: "en-US".into(),
            preprocess: PreprocessProfile::Grayscale,
            expected: "Salvage".into(),
            match_mode: TextMatchMode::Contains,
            threshold: double(0.9),
            case_sensitive: false,
            allow_cross_line: false,
            match_policy: MatchSelectionPolicy::ExactlyOne,
            poll_interval_ms: 250,
            timeout_ms: Limit::Unlimited,
            stable_frames: 2,
        }],
        image_rules: vec![],
        blocks: vec![Block {
            id: "observe-1".into(),
            enabled: true,
            kind: BlockKind::Observe {
                condition: Condition::Text {
                    source_block_id: "observe-1".into(),
                    rule_id: "rule".into(),
                    mode: ObserveMode::CheckNow,
                },
            },
        }],
        safety: SafetyPolicy {
            max_runtime_ms: Limit::Unlimited,
            max_clicks: Limit::Unlimited,
            max_observation_retries: Limit::Unlimited,
            max_observations_per_second: 20,
            minimum_click_interval_ms: 100,
            focus_loss: FocusLossPolicy::Stop,
        },
    })
}

fn saved_identity() -> SavedMacroIdentity {
    SavedMacroIdentity {
        macro_id: "macro".into(),
        revision: 1,
        definition_hash: "saved-hash".into(),
    }
}

#[test]
fn empty_macro_page_has_no_runtime_or_input_authority() {
    let state = MacroPageState::default();
    assert!(state.draft.is_none());
    assert!(state.runtime_events.is_empty());
    assert!(state.enabled);
}

#[test]
fn nine_hundred_pixel_window_keeps_three_compact_panes() {
    assert_eq!(pane_mode(single(900.0)), PaneMode::ThreePaneCompact);
}

#[test]
fn narrow_window_keeps_canvas_and_uses_drawers() {
    assert_eq!(pane_mode(single(719.0)), PaneMode::CanvasWithDrawers);
}

#[test]
fn dry_run_is_never_reported_as_live_run() {
    let mut state = MacroPageState::default();
    state.set_selected_saved(SavedMacroIdentity {
        macro_id: "macro".into(),
        revision: 1,
        definition_hash: "hash".into(),
    });
    state.runtime_events.push(RunEvent::RunStarted {
        sequence: 1,
        elapsed_ms: 0,
        run_id: "dry-run".into(),
        macro_id: "macro".into(),
        revision: 1,
        definition_hash: "hash".into(),
        mode: RunMode::DryRun,
    });

    let controls = run_control_availability(&state);

    assert_eq!(controls.primary_label, "Dry Run");
    assert_eq!(controls.primary_detail, "Observe only");
}

#[test]
fn ready_saved_macro_keeps_the_continuous_observation_run_available() {
    let mut state = MacroPageState::default();
    state.set_selected_saved(SavedMacroIdentity {
        macro_id: "macro".into(),
        revision: 1,
        definition_hash: "hash".into(),
    });

    assert!(run_control_availability(&state).can_run_continuous);
}

#[test]
fn bottom_panel_has_a_resizable_height_range_for_compact_layouts() {
    assert!(MacroPage::BOTTOM_MIN_HEIGHT < MacroPage::BOTTOM_DEFAULT_HEIGHT);
    assert!(MacroPage::BOTTOM_DEFAULT_HEIGHT < MacroPage::BOTTOM_MAX_HEIGHT);
}

#[test]
fn selected_macro_enablement_is_ui_state_not_a_default_assumption() {
    let mut state = MacroPageState::default();
    state.set_enabled(false);
    assert!(!state.enabled);
}

#[test]
fn disabled_saved_macro_cannot_start_until_reenabled() {
    let mut state = MacroPageState::default();
    state.set_selected_saved(SavedMacroIdentity {
        macro_id: "macro".into(),
        revision: 1,
        definition_hash: "hash".into(),
    });
    state.set_enabled(false);

    let controls = run_control_availability(&state);
    assert!(!controls.can_run_continuous);
    assert_eq!(
        controls.disabled_reason.as_deref(),
        Some("Enable this saved macro before running it.")
    );
}

#[test]
fn selected_library_row_uses_the_live_validation_projection() {
    let mut state = MacroPageState {
        draft: Some(fixture()),
        library_rows: vec![MacroLibraryRow {
            id: "macro".into(),
            name: "Macro".into(),
            revision: 1,
            status: MacroLibraryStatus::Ready,
            target: "Diablo".into(),
            dpi: 96,
            last_validation: "Valid".into(),
            last_run: "No completed run".into(),
        }],
        ..MacroPageState::default()
    };
    state.set_selected_saved(SavedMacroIdentity {
        macro_id: "macro".into(),
        revision: 1,
        definition_hash: "hash".into(),
    });
    let problems = vec![ValidationProblem {
        code: "test.invalid".into(),
        message: "Needs validation".into(),
        block_id: None,
    }];

    let rows = project_library_rows(&state, &MonitorProjection::default(), &problems, None);

    assert_eq!(
        rows[0].status,
        MacroLibraryStatus::NeedsRevalidation
    );
    assert_eq!(rows[0].last_validation, "1 issues");
}

#[test]
fn unbound_draft_is_not_appended_to_the_saved_library() {
    let state = MacroPageState {
        draft: Some(fixture()),
        library_rows: vec![],
        ..MacroPageState::default()
    };

    let rows = project_library_rows(&state, &MonitorProjection::default(), &[], None);

    assert!(rows.is_empty());
}

#[test]
fn enablement_request_leaves_displayed_state_unchanged_until_native_persistence_succeeds() {
    let mut state = MacroPageState::default();
    let saved = SavedMacroIdentity {
        macro_id: "macro".into(),
        revision: 1,
        definition_hash: "hash".into(),
    };
    state.set_selected_saved(saved.clone());
    state.set_enabled(true);

    state.request_enabled(false);

    assert!(state.enabled);
    assert_eq!(
        state.take_intent(),
        Some(MacroIntent::SetEnabled {
            saved,
            enabled: false
        })
    );
}

#[test]
fn enablement_completion_does_not_update_a_newly_selected_macro() {
    let first = SavedMacroIdentity {
        macro_id: "first".into(),
        revision: 1,
        definition_hash: "first-hash".into(),
    };
    let second = SavedMacroIdentity {
        macro_id: "second".into(),
        revision: 1,
        definition_hash: "second-hash".into(),
    };
    let mut state = MacroPageState::default();
    state.set_selected_saved(second);
    state.set_enabled(true);

    state.apply_enabled_if_selected(&first, false);

    assert!(state.enabled);
}

#[test]
fn run_request_keeps_the_saved_identity_captured_at_click_time() {
    let first = SavedMacroIdentity {
        macro_id: "first".into(),
        revision: 1,
        definition_hash: "first-hash".into(),
    };
    let second = SavedMacroIdentity {
        macro_id: "second".into(),
        revision: 2,
        definition_hash: "second-hash".into(),
    };
    let mut state = MacroPageState::default();
    state.set_selected_saved(first.clone());
    state.request_run(MacroRunIntent::ContinuousObservation);
    state.set_selected_saved(second);

    assert_eq!(state.take_intent(), Some(MacroIntent::Run { saved: first }));
}

#[test]
fn structural_edit_reconciles_canvas_layout_without_recording_layout_history() {
    let mut state = MacroPageState {
        draft: Some(fixture()),
        ..MacroPageState::default()
    };
    state
        .canvas_layout
        .node_positions
        .insert("stale".into(), at(1.0, 2.0));
    let block = Block {
        id: "added".into(),
        enabled: true,
        kind: BlockKind::Comment {
            text: "Added".into(),
        },
    };

    assert_eq!(
        dispatch_editor_command(
            &mut state,
            EditorCommand::InsertBlock {
                target: InsertionTarget {
                    container: ContainerPath::Root,
                    index: 1,
                },
                block,
            },
        ),
        Ok(EditOutcome::Changed)
    );

    assert!(!state.canvas_layout.node_positions.contains_key("stale"));
    assert!(state.canvas_layout.node_positions.contains_key("added"));
    assert_eq!(state.ui_edit_history.undo_len(), 1);
}

#[test]
fn saved_identity_is_stable_when_the_editable_draft_changes() {
    let mut state = MacroPageState {
        draft: Some(fixture()),
        ..MacroPageState::default()
    };
    state.set_selected_saved(saved_identity());

    state.draft.as_mut().unwrap().definition.name = "Unsaved edit".into();
    state.request_run(MacroRunIntent::ContinuousObservation);

    assert_eq!(
        state.selected_saved.as_ref().unwrap().definition_hash,
        "saved-hash"
    );
    assert_eq!(
        state.take_intent(),
        Some(MacroIntent::Run {
            saved: saved_identity()
        })
    );
    assert_eq!(state.selected_saved_macro_id(), Some("macro"));
}

#[test]
fn bounded_intents_evict_noncritical_work_but_retain_stop() {
    let mut intents = MacroIntentQueue::with_capacity(2);
    intents.push(MacroIntent::Select {
        macro_id: "one".into(),
    });
    intents.push(MacroIntent::Run {
        saved: saved_identity(),
    });
    intents.push(MacroIntent::Stop);

    assert_eq!(intents.len(), 2);
    assert_eq!(
        intents.pop(),
        Some(MacroIntent::Run {
            saved: saved_identity()
        })
    );
    assert_eq!(intents.pop(), Some(MacroIntent::Stop));
}

#[test]
fn intent_queue_exposes_its_64_item_default_capacity_and_drains_in_order() {
    let mut intents = MacroIntentQueue::with_capacity(MacroIntentQueue::DEFAULT_CAPACITY);
    for index in 0..MacroIntentQueue::DEFAULT_CAPACITY {
        intents.push(MacroIntent::Select {
            macro_id: format!("macro-{index}"),
        });
    }
    intents.push(MacroIntent::Run {
        saved: saved_identity(),
    });

    assert_eq!(MacroIntentQueue::DEFAULT_CAPACITY, 64);
    assert_eq!(intents.pending(), 64);
    assert_eq!(
        intents.drain(),
        (0..64)
            .map(|index| MacroIntent::Select {
                macro_id: format!("macro-{index}"),
            })
            .collect::<Vec<_>>()
    );
    assert_eq!(intents.pending(), 0);
}

#[test]
fn revision_summary_distinguishes_draft_saved_and_running() {
    let mut monitor = MonitorProjection::default();
    monitor.running_revision = Some(3);
    let state = MacroPageState {
        saved_revision: Some(2),
        ..MacroPageState::default()
    };

    assert_eq!(
        revision_summary(&state, &monitor),
        "draft -- | saved 2 | running 3"
    );
}

#[test]
fn palette_covers_core_types_and_inserts_nested_containers() {
    let mut draft = fixture();
    assert_eq!(next_unique_id(&draft, "observe"), "observe-2");
    for kind in [
        PaletteKind::Observe,
        PaletteKind::Action,
        PaletteKind::If,
        PaletteKind::Repeat,
        PaletteKind::Watch,
        PaletteKind::Wait,
        PaletteKind::Stop,
    ] {
        assert!(palette_command(&draft, Some("observe-1"), kind).is_ok());
    }

    let command = palette_command(&draft, Some("observe-1"), PaletteKind::If).unwrap();
    let EditorCommand::InsertBlock { block, .. } = &command else {
        panic!()
    };
    let if_id = block.id.clone();
    apply_editor_command(&mut draft, command).unwrap();
    let command = palette_command(&draft, Some(&if_id), PaletteKind::Repeat).unwrap();
    let EditorCommand::InsertBlock { target, block } = &command else {
        panic!()
    };
    assert_eq!(
        target.container,
        ContainerPath::IfThen {
            if_id: if_id.clone()
        }
    );
    let repeat_id = block.id.clone();
    apply_editor_command(&mut draft, command).unwrap();
    let EditorCommand::InsertBlock { target, .. } =
        palette_command(&draft, Some(&repeat_id), PaletteKind::Wait).unwrap()
    else {
        panic!()
    };
    assert_eq!(
        target.container,
        ContainerPath::LoopBody { loop_id: repeat_id }
    );

    let BlockKind::Observe { condition } = &mut draft.definition.blocks[0].kind else {
        panic!()
    };
    let Condition::Text { mode, .. } = condition else {
        panic!()
    };
    *mode = ObserveMode::WaitForTrue {
        timeout_ms: Limit::Finite(100),
        timeout_outcome: TimeoutOutcome::RunBody { body: vec![] },
    };
    let timeout = CanvasSelection::TimeoutBody {
        owner_id: "observe-1".into(),
    };
    let EditorCommand::InsertBlock { target, .. } =
        palette_command_for_selection(&draft, Some(&timeout), PaletteKind::Wait).unwrap()
    else {
        panic!()
    };
    assert_eq!(
        target.container,
        ContainerPath::TimeoutBody {
            owner_id: "observe-1".into()
        }
    );
}

#[test]
fn real_block_id_with_timeout_suffix_is_not_treated_as_a_timeout_marker() {
    let mut draft = fixture();
    let BlockKind::Observe { condition } = &mut draft.definition.blocks[0].kind else {
        panic!()
    };
    let Condition::Text { mode, .. } = condition else {
        panic!()
    };
    *mode = ObserveMode::WaitForTrue {
        timeout_ms: Limit::Finite(100),
        timeout_outcome: TimeoutOutcome::RunBody { body: vec![] },
    };
    draft.definition.blocks.push(Block {
        id: "observe-1-timeout".into(),
        enabled: true,
        kind: BlockKind::Comment {
            text: "real imported block".into(),
        },
    });

    let EditorCommand::InsertBlock { target, .. } =
        palette_command(&draft, Some("observe-1-timeout"), PaletteKind::Wait).unwrap()
    else {
        panic!()
    };
    assert_eq!(target.container, ContainerPath::Root);
    assert_eq!(target.index, draft.definition.blocks.len());
}

#[test]
fn inspector_intents_share_transactional_dispatch_and_surface_run_lock() {
    let mut state = MacroPageState {
        draft: Some(fixture()),
        ..MacroPageState::default()
    };
    let mut rule = state.draft.as_ref().unwrap().text_rules[0].clone();
    rule.expected = "Retry".into();
    let command = inspector_editor_command(
        state.draft.as_ref(),
        &InspectorIntent::ReplaceTextRule { rule },
    )
    .unwrap()
    .unwrap();
    dispatch_editor_command(&mut state, command).unwrap();
    assert_eq!(
        state.draft.as_ref().unwrap().text_rules[0].expected,
        "Retry"
    );

    state.draft.as_mut().unwrap().editability = DraftEditability::Running { revision: 2 };
    let path = locate_block_path(state.draft.as_ref().unwrap(), "observe-1").unwrap();
    let result = dispatch_editor_command(
        &mut state,
        EditorCommand::SetConditionMode {
            path,
            mode: ObserveMode::CheckNow,
        },
    );
    assert_eq!(result, Err(EditorError::RunInProgress));
    assert!(
        state
            .editor_feedback
            .as_deref()
            .unwrap()
            .contains("RunInProgress")
    );
}

#[test]
fn inspector_dispatch_persists_required_text_and_image_rule_fields() {
    let mut state = MacroPageState {
        draft: Some(fixture()),
        ..MacroPageState::default()
    };
    let mut text = state.draft.as_ref().unwrap().text_rules[0].clone();
    text.match_mode = TextMatchMode::Absent;
    text.case_sensitive = true;
    text.allow_cross_line = true;
    text.preprocess = PreprocessProfile::HighContrast;
    text.match_policy = MatchSelectionPolicy::Topmost;
    text.timeout_ms = Limit::Finite(7_500);
    text.stable_frames = 4;
    let command = inspector_editor_command(
        state.draft.as_ref(),
        &InspectorIntent::ReplaceTextRule { rule: text },
    )
    .unwrap()
    .unwrap();
    dispatch_editor_command(&mut state, command).unwrap();
    let text = &state.draft.as_ref().unwrap().text_rules[0];
    assert_eq!(text.match_mode, TextMatchMode::Absent);
    assert!(text.case_sensitive && text.allow_cross_line);
    assert_eq!(text.preprocess, PreprocessProfile::HighContrast);
    assert_eq!(text.match_policy, MatchSelectionPolicy::Topmost);
    assert_eq!(text.timeout_ms, Limit::Finite(7_500));
    assert_eq!(text.stable_frames, 4);

    let template = |id: &str| AssetRef {
        id: id.into(),
        revision: 1,
        content_hash: format!("hash-{id}"),
    };
    state.draft.as_mut().unwrap().definition.image_rules.push(ImageRule {
        id: "image-rule".into(),
        revision: 1,
        region_id: "scan".into(),
        template: template("old"),
        transparent_mask: None,
        threshold: single(0.9),
        scales_percent: vec![100],
        stable_frames: 2,
        maximum_center_drift_px: 5,
        minimum_runner_up_margin: single(0.05),
        verification: None,
        match_policy: MatchSelectionPolicy::ExactlyOne,
        poll_interval_ms: 250,
        timeout_ms: Limit::Unlimited,
    });
    let mut image = state.draft.as_ref().unwrap().image_rules[0].clone();
    image.template = template("new");
    image.match_policy = MatchSelectionPolicy::Bottommost;
    image.timeout_ms = Limit::Finite(9_000);
    let command = inspector_editor_command(
        state.draft.as_ref(),
        &InspectorIntent::ReplaceImageRule { rule: image },
    )
    .unwrap()
    .unwrap();
    dispatch_editor_command(&mut state, command).unwrap();
    let image = &state.draft.as_ref().unwrap().image_rules[0];
    assert_eq!(image.template.id, "new");
    assert_eq!(image.match_policy, MatchSelectionPolicy::Bottommost);
    assert_eq!(image.timeout_ms, Limit::Finite(9_000));
    assert_eq!(image.verification, None);
}

#[test]
fn conversion_previews_expose_replace_confirmation_and_required_values() {
    let draft = fixture();
    let block = &draft.definition.blocks[0];
    let path = locate_block_path(&draft, &block.id).unwrap();
    let compatible = conversion_choices(&draft, block, &path)
        .into_iter()
        .next()
        .unwrap()
        .1;
    assert!(matches!(
        compatible.preview,
        ConversionPreview::Compatible { .. }
    ));

    let replacement = replace_block_preview(block, path, ReplacementKind::Wait);
    assert!(matches!(
        replacement.preview,
        ConversionPreview::ReplaceRequired { .. }
    ));
    assert_eq!(
        replacement.required_values,
        vec![("duration_ms".into(), "250".into())]
    );
}

#[test]
fn observe_timeout_body_requires_explicit_replacement_disposition() {
    let mut draft = fixture();
    let BlockKind::Observe { condition } = &mut draft.definition.blocks[0].kind else {
        panic!()
    };
    let Condition::Text { mode, .. } = condition else {
        panic!()
    };
    *mode = ObserveMode::WaitForTrue {
        timeout_ms: Limit::Finite(100),
        timeout_outcome: TimeoutOutcome::RunBody {
            body: vec![Block {
                id: "fallback".into(),
                enabled: true,
                kind: BlockKind::Comment {
                    text: "keep".into(),
                },
            }],
        },
    };
    let block = &draft.definition.blocks[0];
    let path = locate_block_path(&draft, &block.id).unwrap();
    let pending = replace_block_preview(block, path, ReplacementKind::Wait);
    assert!(pending.structural_children);
}

#[test]
fn conversion_choices_cover_saved_targets_buttons_and_replacement_families() {
    let mut draft = fixture();
    draft.definition.points.push(PointDefinition {
        id: "point".into(),
        revision: 1,
        point: PointRatio { x: double(0.5), y: double(0.5) },
    });
    draft.definition.regions.push(RegionDefinition {
        id: "region".into(),
        revision: 1,
        rect: RectRatio {
            x: double(0.1),
            y: double(0.1),
            width: double(0.2),
            height: double(0.2),
        },
    });
    draft.definition.image_rules.push(ImageRule {
        id: "image-rule".into(),
        revision: 1,
        region_id: "region".into(),
        template: AssetRef {
            id: "template".into(),
            revision: 1,
            content_hash: "hash".into(),
        },
        transparent_mask: None,
        threshold: single(0.9),
        scales_percent: vec![100],
        stable_frames: 2,
        maximum_center_drift_px: 5,
        minimum_runner_up_margin: single(0.05),
        verification: None,
        match_policy: MatchSelectionPolicy::ExactlyOne,
        poll_interval_ms: 250,
        timeout_ms: Limit::Unlimited,
    });
    draft.definition.blocks.push(Block {
        id: "observe-image".into(),
        enabled: true,
        kind: BlockKind::Observe {
            condition: Condition::Image {
                source_block_id: "observe-image".into(),
                rule_id: "image-rule".into(),
                mode: ObserveMode::CheckNow,
            },
        },
    });
    draft.definition.blocks.push(Block {
        id: "saved-click".into(),
        enabled: true,
        kind: BlockKind::Action {
            action: Action::ClickPoint {
                point_id: "point".into(),
                button: MouseButton::Left,
            },
        },
    });
    let block = draft.definition.blocks.last().unwrap();
    let path = locate_block_path(&draft, &block.id).unwrap();
    let labels = conversion_choices(&draft, block, &path)
        .into_iter()
        .map(|(label, _)| label)
        .collect::<Vec<_>>();
    assert!(!labels.contains(&"Point: point (Left)".into()));
    assert!(labels.contains(&"Point: point (Right)".into()));
    assert!(labels.contains(&"Region: region (Left)".into()));
    assert!(labels.contains(&"Region: region (Right)".into()));

    let replacements = replacement_choices(&draft, block, &path)
        .into_iter()
        .map(|(label, _)| label)
        .collect::<Vec<_>>();
    assert!(replacements.contains(&"Detector: Text rule".into()));
    assert!(replacements.contains(&"Detector: Image image-rule".into()));
    assert!(replacements.contains(&"Action: Text source observe-1".into()));
    assert!(replacements.contains(&"Action: Image source observe-image".into()));
    assert!(replacements.contains(&"Replace as Loop".into()));
}

#[test]
fn observation_conversion_choices_preserve_configured_wait_outcomes() {
    let mut draft = fixture();
    let BlockKind::Observe { condition } = &mut draft.definition.blocks[0].kind else {
        panic!()
    };
    let Condition::Text { mode, .. } = condition else {
        panic!()
    };
    *mode = ObserveMode::WaitForTrue {
        timeout_ms: Limit::Finite(812),
        timeout_outcome: TimeoutOutcome::RunBody {
            body: vec![Block {
                id: "fallback".into(),
                enabled: true,
                kind: BlockKind::Comment {
                    text: "keep".into(),
                },
            }],
        },
    };
    let block = &draft.definition.blocks[0];
    let path = locate_block_path(&draft, &block.id).unwrap();
    let (_, pending) = conversion_choices(&draft, block, &path)
        .into_iter()
        .find(|(label, _)| label == "Text: Wait false")
        .unwrap();
    assert!(matches!(
        pending.command,
        EditorCommand::ConvertBlock {
            target: ConversionTarget::TextObservation {
                mode: ObserveMode::WaitForFalse {
                    timeout_ms: Limit::Finite(812),
                    timeout_outcome: TimeoutOutcome::RunBody { ref body },
                },
            },
            ..
        } if body[0].id == "fallback"
    ));
}

#[test]
fn conversion_confirm_cancel_and_invalid_requirements_are_transactional() {
    let mut state = MacroPageState {
        draft: Some(fixture()),
        ..MacroPageState::default()
    };
    let before = state.draft.as_ref().unwrap().definition.clone();
    let block = state.draft.as_ref().unwrap().blocks[0].clone();
    let path = locate_block_path(state.draft.as_ref().unwrap(), &block.id).unwrap();
    state.pending_conversion = Some(replace_block_preview(
        &block,
        path.clone(),
        ReplacementKind::Wait,
    ));
    cancel_pending_conversion(&mut state);
    assert_eq!(state.draft.as_ref().unwrap().definition, before);
    assert!(state.pending_conversion.is_none());

    state.pending_conversion = Some(replace_block_preview(
        &block,
        path.clone(),
        ReplacementKind::Wait,
    ));
    confirm_pending_conversion(&mut state).unwrap();
    assert!(matches!(
        state.draft.as_ref().unwrap().blocks[0].kind,
        BlockKind::Wait { duration_ms: 250 }
    ));

    let mut state = MacroPageState {
        draft: Some(fixture()),
        ..MacroPageState::default()
    };
    state.pending_conversion = Some(PendingConversion {
        block_id: "observe-1".into(),
        preview: ConversionPreview::Compatible {
            preserved_fields: vec![],
            required_fields: vec!["count"],
            removed_fields: vec![],
        },
        required_values: vec![("count".into(), "0".into())],
        command: EditorCommand::ConvertBlock {
            path,
            target: ConversionTarget::RepeatN { count: 0 },
        },
        structural_children: false,
    });
    assert_eq!(
        confirm_pending_conversion(&mut state),
        Err(EditorError::IncompatibleConversion)
    );
    assert!(state.pending_conversion.is_some());
    assert_eq!(state.draft.as_ref().unwrap().definition, before);
}

#[test]
fn replacement_preview_validates_sources_against_the_post_replacement_candidate() {
    let draft = fixture();
    let block = &draft.definition.blocks[0];
    let path = locate_block_path(&draft, &block.id).unwrap();
    let pending =
        replace_block_preview(block, path, ReplacementKind::ActionText(block.id.clone()));
    assert!(!pending_conversion_valid(&draft, &pending));
}

#[test]
fn observation_source_discovery_traverses_every_canonical_owned_container() {
    let observe = |id: &str| Block {
        id: id.into(),
        enabled: true,
        kind: BlockKind::Observe {
            condition: Condition::Text {
                source_block_id: id.into(),
                rule_id: "rule".into(),
                mode: ObserveMode::CheckNow,
            },
        },
    };
    let timeout_condition = |owner: &str, child: &str| Condition::Text {
        source_block_id: owner.into(),
        rule_id: "rule".into(),
        mode: ObserveMode::WaitForTrue {
            timeout_ms: Limit::Finite(100),
            timeout_outcome: TimeoutOutcome::RunBody {
                body: vec![observe(child)],
            },
        },
    };
    let mut draft = fixture();
    draft.definition.blocks = vec![
        Block {
            id: "observe-owner".into(),
            enabled: true,
            kind: BlockKind::Observe {
                condition: timeout_condition("observe-owner", "observe-timeout-source"),
            },
        },
        Block {
            id: "if-owner".into(),
            enabled: true,
            kind: BlockKind::If {
                condition: timeout_condition("if-owner", "if-timeout-source"),
                then_body: vec![observe("if-then-source")],
                else_body: vec![observe("if-else-source")],
            },
        },
        Block {
            id: "repeat-n".into(),
            enabled: true,
            kind: BlockKind::RepeatN {
                count: 2,
                body: vec![observe("repeat-n-source")],
            },
        },
        Block {
            id: "repeat-until".into(),
            enabled: true,
            kind: BlockKind::RepeatUntil {
                condition: timeout_condition("repeat-until", "repeat-timeout-source"),
                max_iterations: Limit::Finite(2),
                body: vec![observe("repeat-body-source")],
            },
        },
        Block {
            id: "continuous".into(),
            enabled: true,
            kind: BlockKind::Continuous {
                body: vec![observe("continuous-source")],
            },
        },
        Block {
            id: "watch".into(),
            enabled: true,
            kind: BlockKind::WatchGroup {
                group: WatchGroup {
                    lanes: vec![WatchLane {
                        id: "lane".into(),
                        enabled: true,
                        condition: PassiveCondition::Text {
                            source_block_id: "lane".into(),
                            rule_id: "rule".into(),
                        },
                        then_body: vec![observe("watch-lane-source")],
                    }],
                    timeout_ms: Limit::Finite(100),
                    timeout_outcome: TimeoutOutcome::RunBody {
                        body: vec![observe("watch-timeout-source")],
                    },
                    cooldown_ms: 0,
                },
            },
        },
    ];

    let sources = observation_sources(&draft)
        .into_iter()
        .map(|(id, _)| id)
        .collect::<std::collections::BTreeSet<_>>();
    for expected in [
        "observe-timeout-source",
        "if-then-source",
        "if-else-source",
        "if-timeout-source",
        "repeat-n-source",
        "repeat-body-source",
        "repeat-timeout-source",
        "continuous-source",
        "watch-lane-source",
        "watch-timeout-source",
    ] {
        assert!(sources.contains(expected), "missing {expected}");
    }

    let owner = &draft.definition.blocks[0];
    let path = locate_block_path(&draft, &owner.id).unwrap();
    let pending = replacement_choices(&draft, owner, &path)
        .into_iter()
        .find(|(label, _)| label == "Action: Text source observe-timeout-source")
        .map(|(_, pending)| pending)
        .expect("timeout source replacement choice");
    assert!(pending_conversion_valid(&draft, &pending));
}

#[test]
fn text_absent_observations_are_not_offered_as_matched_click_sources() {
    let mut draft = fixture();
    draft.definition.text_rules[0].match_mode = TextMatchMode::Absent;

    assert!(palette_command(&draft, Some("observe-1"), PaletteKind::Action).is_err());
    let block = &draft.definition.blocks[0];
    let path = locate_block_path(&draft, &block.id).unwrap();
    let labels = replacement_choices(&draft, block, &path)
        .into_iter()
        .map(|(label, _)| label)
        .collect::<Vec<_>>();
    assert!(!labels.contains(&"Action: Text source observe-1".into()));
}

#[test]
fn starter_draft_opens_a_native_editor_surface() {
    let draft = EditorDraft::new(starter_macro_definition());
    assert_eq!(draft.definition.blocks.len(), 1);
    assert!(locate_block_path(&draft, "observe-1").is_some());
    assert!(!draft.definition.text_rules.is_empty());
}

#[test]
fn guided_wizard_finish_opens_unsaved_canonical_editor_draft() {
    let mut wizard = WizardState::default();
    wizard.step = WizardStep::Finish;
    wizard.target_bound = true;
    wizard.target_generation = 1;
    wizard.region_capture_generation = Some(1);
    wizard.text_expected = "Ancestral".into();
    wizard.record_detector_test(true, "Ancestral", 9);
    wizard.mark_dry_run_reviewed();
    let output = wizard.finish(no_problems).unwrap();
    let mut state = MacroPageState {
        wizard: Some(wizard),
        ..MacroPageState::default()
    };

    apply_wizard_ui_action(&mut state, WizardUiAction::Finish(output));

    assert!(state.wizard.is_none());
    assert_eq!(state.saved_revision, None);
    let draft = state.draft.as_ref().unwrap();
    assert_eq!(draft.name, "New Macro");
    assert!(locate_block_path(draft, "check-text").is_some());
}

#[test]
fn wizard_rejects_stale_and_out_of_order_authoring_results() {
    let mut wizard = WizardState::default();
    wizard.target_bound = true;
    wizard.text_expected = "Ancestral".into();
    let mut state = MacroPageState {
        wizard: Some(wizard),
        ..MacroPageState::default()
    };
    apply_wizard_ui_action(
        &mut state,
        WizardUiAction::CaptureRegion(WizardDetectorKind::Text),
    );
    let current = state.take_wizard_request().unwrap();
    apply_wizard_ui_action(&mut state, WizardUiAction::CaptureClickPoint);
    assert!(state.take_wizard_request().is_none());

    let out_of_order = WizardAuthoringResult {
        session: current.session,
        id: WizardRequestId(current.id.0 + 1),
        fingerprint: current.fingerprint.clone(),
        outcome: WizardAuthoringOutcome::Region(RectRatio {
            x: double(0.1),
            y: double(0.1),
            width: double(0.2),
            height: double(0.2),
        }),
    };
    assert_eq!(
        state.apply_wizard_result(out_of_order),
        Err(WizardResultError::UnexpectedResult)
    );
    assert_eq!(state.active_wizard_request.as_ref().unwrap().id, current.id);

    state.wizard.as_mut().unwrap().text_expected = "Changed".into();
    let stale = WizardAuthoringResult {
        session: current.session,
        id: current.id,
        fingerprint: current.fingerprint,
        outcome: WizardAuthoringOutcome::Point(PointRatio {
            x: double(0.4),
            y: double(0.6),
        }),
    };
    assert_eq!(
        state.apply_wizard_result(stale),
        Err(WizardResultError::StaleWizard)
    );
}

#[test]
fn wizard_session_rejects_results_after_close_reopen_and_finish_cancels_pending() {
    let mut state = MacroPageState::default();
    state.begin_wizard_session();
    state.wizard = Some(WizardState::default());
    apply_wizard_ui_action(&mut state, WizardUiAction::CaptureTarget);
    let old = state.take_wizard_request().unwrap();

    state.wizard = None;
    state.wizard_session = None;
    state.cancel_wizard_authoring();
    state.begin_wizard_session();
    state.wizard = Some(WizardState::default());
    assert_ne!(state.active_wizard_session(), Some(old.session));
    assert_eq!(
        state.apply_wizard_result(WizardAuthoringResult {
            session: old.session,
            id: old.id,
            fingerprint: old.fingerprint,
            outcome: WizardAuthoringOutcome::Cancelled,
        }),
        Err(WizardResultError::UnexpectedResult)
    );

    let mut completed = WizardState::default();
    completed.step = WizardStep::Finish;
    completed.target_bound = true;
    completed.target_generation = 1;
    completed.region_capture_generation = Some(1);
    completed.text_expected = "Ancestral".into();
    completed.record_detector_test(true, "matched", 1);
    completed.mark_dry_run_reviewed();
    let output = completed.finish(no_problems).unwrap();
    state.wizard = Some(completed);
    apply_wizard_ui_action(&mut state, WizardUiAction::CaptureTarget);
    assert!(state.active_wizard_request.is_some());
    apply_wizard_ui_action(&mut state, WizardUiAction::Finish(output));
    assert!(state.active_wizard_request.is_none());
    assert!(state.wizard.is_none());
}

#[test]
fn wizard_session_isolated_from_existing_draft_and_finish_transfers_ownership() {
    let original = EditorDraft::new(starter_macro_definition());
    let mut state = MacroPageState {
        draft: Some(original.clone()),
        ..MacroPageState::default()
    };
    state.begin_draft_session();
    let original_session = state.active_draft_session().unwrap();

    state.begin_wizard_session();
    state.wizard = Some(WizardState::default());
    let wizard_session = state.active_wizard_session().unwrap();
    assert_ne!(wizard_session, original_session);
    assert_eq!(state.active_draft_session(), Some(original_session));
    assert_eq!(state.draft.as_ref(), Some(&original));
    assert_eq!(
        dispatch_editor_command(&mut state, EditorCommand::MarkValidated { runtime_problems: vec![] }),
        Err(EditorError::RunInProgress)
    );
    handle_inspector_intent(
        &mut state,
        InspectorIntent::TestOcr {
            block_id: "observe-1".into(),
        },
    );
    assert!(state.active_editor_authoring_request.is_none());

    state.wizard = None;
    state.wizard_session = None;
    state.cancel_wizard_authoring();
    assert_eq!(state.active_draft_session(), Some(original_session));
    assert_eq!(state.draft.as_ref(), Some(&original));

    state.begin_wizard_session();
    let mut completed = WizardState::default();
    completed.step = WizardStep::Finish;
    completed.target_bound = true;
    completed.target_generation = 1;
    completed.region_capture_generation = Some(1);
    completed.text_expected = "Ancestral".into();
    completed.record_detector_test(true, "matched", 1);
    completed.mark_dry_run_reviewed();
    let output = completed.finish(no_problems).unwrap();
    state.wizard = Some(completed);
    let generated_session = state.active_wizard_session().unwrap();
    apply_wizard_ui_action(&mut state, WizardUiAction::Finish(output));
    assert_eq!(state.active_draft_session(), Some(generated_session));
    assert_ne!(state.active_draft_session(), Some(original_session));
}

#[test]
fn request_envelopes_are_read_only_stale_safe_and_exact_discard_preserves_newer() {
    let mut state = MacroPageState::default();
    state.begin_wizard_session();
    state.wizard = Some(WizardState::default());
    apply_wizard_ui_action(&mut state, WizardUiAction::CaptureTarget);
    let old_wizard = state.take_wizard_request().unwrap();
    assert!(state.wizard_request_envelope_is_current(
        &old_wizard,
        WizardAuthoringKind::CaptureTarget
    ));
    state.wizard.as_mut().unwrap().text_expected = "edited".into();
    assert!(!state.wizard_request_envelope_is_current(
        &old_wizard,
        WizardAuthoringKind::CaptureTarget
    ));
    assert!(state.discard_wizard_result_envelope(&old_wizard));
    apply_wizard_ui_action(&mut state, WizardUiAction::CaptureTarget);
    let newer_wizard = state.active_wizard_request.clone().unwrap();
    assert!(!state.discard_wizard_result_envelope(&old_wizard));
    assert_eq!(state.active_wizard_request.as_ref(), Some(&newer_wizard));
    state.wizard = None;
    state.wizard_session = None;
    assert!(!state.wizard_request_envelope_is_current(
        &newer_wizard,
        WizardAuthoringKind::CaptureTarget
    ));

    let mut state = MacroPageState {
        draft: Some(EditorDraft::new(starter_macro_definition())),
        ..MacroPageState::default()
    };
    state.begin_draft_session();
    let kind = EditorAuthoringKind::TestOcr {
        block_id: "observe-1".into(),
    };
    begin_editor_authoring(&mut state, kind.clone());
    let old_editor = state.take_editor_authoring_request().unwrap();
    assert!(state.editor_request_envelope_is_current(&old_editor, &kind));
    apply_editor_command(
        state.draft.as_mut().unwrap(),
        EditorCommand::InsertBlock {
            target: InsertionTarget {
                container: ContainerPath::Root,
                index: 1,
            },
            block: Block {
                id: "edited".into(),
                enabled: true,
                kind: BlockKind::Comment {
                    text: "stale request".into(),
                },
            },
        },
    )
    .unwrap();
    assert!(!state.editor_request_envelope_is_current(&old_editor, &kind));
    assert!(state.discard_editor_result_envelope(&old_editor));
    begin_editor_authoring(&mut state, kind.clone());
    let newer_editor = state.active_editor_authoring_request.clone().unwrap();
    assert!(!state.discard_editor_result_envelope(&old_editor));
    assert_eq!(
        state.active_editor_authoring_request.as_ref(),
        Some(&newer_editor)
    );
}

#[test]
fn accepted_target_capture_binds_durable_profile_and_invalidates_proofs() {
    let mut wizard = WizardState::default();
    wizard.text_expected = "Ancestral".into();
    wizard.target_bound = true;
    wizard.record_detector_test(true, "old", 1);
    wizard.mark_dry_run_reviewed();
    let mut state = MacroPageState {
        wizard: Some(wizard),
        ..MacroPageState::default()
    };
    apply_wizard_ui_action(&mut state, WizardUiAction::CaptureTarget);
    let request = state.take_wizard_request().unwrap();
    state
        .apply_wizard_result(WizardAuthoringResult {
            session: request.session,
            id: request.id,
            fingerprint: request.fingerprint,
            outcome: WizardAuthoringOutcome::TargetGeometry {
                process_path: r#"C:\Games\Diablo IV.exe"#.into(),
                window_class: "Diablo IV Main Window".into(),
                title: "Diablo IV".into(),
                width: 1920,
                height: 1080,
                dpi: 144,
            },
        })
        .unwrap();
    let wizard = state.wizard.as_ref().unwrap();
    assert_eq!(wizard.target.process_path, r#"C:\Games\Diablo IV.exe"#);
    assert_eq!(wizard.target.window_class, "Diablo IV Main Window");
    assert_eq!(wizard.target.captured_client_width, 1920);
    assert_eq!(wizard.target.captured_client_height, 1080);
    assert_eq!(wizard.target.captured_dpi, 144);
    assert!(wizard.detector_test.is_none());
    assert!(!wizard.dry_run_reviewed);
    assert_eq!(wizard.target_generation, 1);
    assert!(wizard.region_capture_generation.is_none());
    assert!(wizard.action_capture_generation.is_none());
}

#[test]
fn starter_draft_can_capture_target_then_author_with_the_same_session() {
    let mut state = MacroPageState {
        draft: Some(EditorDraft::new(starter_macro_definition())),
        ..MacroPageState::default()
    };
    state.begin_draft_session();
    let session = state.active_draft_session().unwrap();

    begin_editor_authoring(&mut state, EditorAuthoringKind::CaptureTarget);
    let capture = state.take_editor_authoring_request().unwrap();
    assert_eq!(capture.session, session);
    state
        .apply_editor_authoring_result(EditorAuthoringResult {
            session,
            id: capture.id,
            fingerprint: capture.fingerprint,
            outcome: EditorAuthoringOutcome::TargetGeometry {
                process_path: r#"C:\Games\Diablo IV.exe"#.into(),
                window_class: "Diablo IV Main Window".into(),
                title: "Diablo IV".into(),
                width: 1920,
                height: 1080,
                dpi: 144,
            },
        })
        .unwrap();

    let draft = state.draft.as_ref().unwrap();
    assert_eq!(draft.target.process_path, r#"C:\Games\Diablo IV.exe"#);
    assert_eq!(draft.target.captured_client_width, 1920);
    assert_eq!(draft.target.captured_client_height, 1080);
    assert_eq!(draft.target.captured_dpi, 144);
    assert_eq!(draft.status, DraftStatus::NeedsValidation);

    begin_editor_authoring(
        &mut state,
        EditorAuthoringKind::TestOcr {
            block_id: "observe-1".into(),
        },
    );
    assert_eq!(
        state.take_editor_authoring_request().unwrap().session,
        session,
        "retargeting must preserve the draft session's native binding key"
    );
}

#[test]
fn inspector_authoring_results_are_revision_bound_and_recapture_transactional() {
    let mut state = MacroPageState {
        draft: Some(fixture()),
        ..MacroPageState::default()
    };
    state
        .draft
        .as_mut()
        .unwrap()
        .definition.regions
        .push(RegionDefinition {
            id: "scan".into(),
            revision: 1,
            rect: RectRatio {
                x: double(0.1),
                y: double(0.1),
                width: double(0.2),
                height: double(0.2),
            },
        });
    handle_inspector_intent(
        &mut state,
        InspectorIntent::RecaptureRegion {
            region_id: "scan".into(),
        },
    );
    let request = state.take_editor_authoring_request().unwrap();
    let result = EditorAuthoringResult {
        session: request.session,
        id: request.id,
        fingerprint: request.fingerprint.clone(),
        outcome: EditorAuthoringOutcome::Region(RectRatio {
            x: double(0.2),
            y: double(0.2),
            width: double(0.3),
            height: double(0.2),
        }),
    };
    state.apply_editor_authoring_result(result).unwrap();
    assert_eq!(state.draft.as_ref().unwrap().regions[0].revision, 2);

    handle_inspector_intent(
        &mut state,
        InspectorIntent::TestOcr {
            block_id: "observe-1".into(),
        },
    );
    let request = state.take_editor_authoring_request().unwrap();
    state.draft.as_mut().unwrap().definition.revision += 1;
    let result = EditorAuthoringResult {
        session: request.session,
        id: request.id,
        fingerprint: request.fingerprint,
        outcome: EditorAuthoringOutcome::DetectorTest {
            passed: true,
            evidence: "stale".into(),
            elapsed_ms: 1,
            rule_id: None,
            image_verification: None,
        },
    };
    assert_eq!(
        state.apply_editor_authoring_result(result),
        Err(EditorAuthoringError::StaleDraft)
    );
}

#[test]
fn failed_ocr_test_tracks_detector_fingerprint_until_success_or_detector_edit() {
    let mut state = MacroPageState {
        draft: Some(EditorDraft::new(starter_macro_definition())),
        ..MacroPageState::default()
    };
    handle_inspector_intent(
        &mut state,
        InspectorIntent::TestOcr {
            block_id: "observe-1".into(),
        },
    );
    let failed = state.take_editor_authoring_request().unwrap();
    state
        .apply_editor_authoring_result(EditorAuthoringResult {
            session: failed.session,
            id: failed.id,
            fingerprint: failed.fingerprint,
            outcome: EditorAuthoringOutcome::DetectorTest {
                passed: false,
                evidence: "expected text not found".into(),
                elapsed_ms: 5,
                rule_id: None,
                image_verification: None,
            },
        })
        .unwrap();
    assert!(
        editor_validation_problems(state.draft.as_ref().unwrap(), &vec![])
            .iter()
            .any(|problem| problem.code == "editor.detector_test_failed")
    );
    assert_eq!(
        apply_editor_command(state.draft.as_mut().unwrap(), EditorCommand::MarkValidated { runtime_problems: vec![] }),
        Err(EditorError::ValidationFailed)
    );

    apply_editor_command(
        state.draft.as_mut().unwrap(),
        EditorCommand::InsertBlock {
            target: InsertionTarget {
                container: ContainerPath::Root,
                index: 1,
            },
            block: Block {
                id: "unrelated-comment".into(),
                enabled: true,
                kind: BlockKind::Comment {
                    text: "does not change OCR".into(),
                },
            },
        },
    )
    .unwrap();
    assert!(
        editor_validation_problems(state.draft.as_ref().unwrap(), &vec![])
            .iter()
            .any(|problem| problem.code == "editor.detector_test_failed")
    );
    assert_eq!(
        apply_editor_command(state.draft.as_mut().unwrap(), EditorCommand::MarkValidated { runtime_problems: vec![] }),
        Err(EditorError::ValidationFailed)
    );

    handle_inspector_intent(
        &mut state,
        InspectorIntent::TestOcr {
            block_id: "observe-1".into(),
        },
    );
    let passed = state.take_editor_authoring_request().unwrap();
    state
        .apply_editor_authoring_result(EditorAuthoringResult {
            session: passed.session,
            id: passed.id,
            fingerprint: passed.fingerprint,
            outcome: EditorAuthoringOutcome::DetectorTest {
                passed: true,
                evidence: "matched".into(),
                elapsed_ms: 4,
                rule_id: None,
                image_verification: None,
            },
        })
        .unwrap();
    assert!(
        !editor_validation_problems(state.draft.as_ref().unwrap(), &vec![])
            .iter()
            .any(|problem| problem.code == "editor.detector_test_failed")
    );
    assert!(
        apply_editor_command(state.draft.as_mut().unwrap(), EditorCommand::MarkValidated { runtime_problems: vec![] })
            .is_ok()
    );

    handle_inspector_intent(
        &mut state,
        InspectorIntent::TestOcr {
            block_id: "observe-1".into(),
        },
    );
    let failed_again = state.take_editor_authoring_request().unwrap();
    state
        .apply_editor_authoring_result(EditorAuthoringResult {
            session: failed_again.session,
            id: failed_again.id,
            fingerprint: failed_again.fingerprint,
            outcome: EditorAuthoringOutcome::DetectorTest {
                passed: false,
                evidence: "expected text not found".into(),
                elapsed_ms: 5,
                rule_id: None,
                image_verification: None,
            },
        })
        .unwrap();
    let mut edited_rule = state.draft.as_ref().unwrap().text_rules[0].clone();
    edited_rule.expected = "different detector input".into();
    apply_editor_command(
        state.draft.as_mut().unwrap(),
        EditorCommand::ReplaceTextRule { rule: edited_rule },
    )
    .unwrap();
    assert!(
        !editor_validation_problems(state.draft.as_ref().unwrap(), &vec![])
            .iter()
            .any(|problem| problem.code == "editor.detector_test_failed")
    );
    assert!(
        apply_editor_command(state.draft.as_mut().unwrap(), EditorCommand::MarkValidated { runtime_problems: vec![] })
            .is_ok()
    );
}

#[test]
fn editor_image_recapture_negative_test_restores_canonical_validity() {
    let template_ref = AssetRef {
        id: "template".into(),
        revision: 1,
        content_hash: "aa".repeat(32),
    };
    let mut definition = fixture().definition;
    definition.text_rules.clear();
    definition.regions.push(RegionDefinition {
        id: "image-region".into(),
        revision: 1,
        rect: RectRatio {
            x: double(0.1),
            y: double(0.1),
            width: double(0.3),
            height: double(0.2),
        },
    });
    definition.image_rules.push(ImageRule {
        id: "image-rule".into(),
        revision: 1,
        region_id: "image-region".into(),
        template: template_ref,
        transparent_mask: None,
        threshold: single(0.9),
        scales_percent: vec![100],
        stable_frames: 2,
        maximum_center_drift_px: 5,
        minimum_runner_up_margin: single(0.05),
        verification: None,
        match_policy: MatchSelectionPolicy::ExactlyOne,
        poll_interval_ms: 100,
        timeout_ms: Limit::Unlimited,
    });
    definition.blocks[0].kind = BlockKind::Observe {
        condition: Condition::Image {
            source_block_id: "observe-1".into(),
            rule_id: "image-rule".into(),
            mode: ObserveMode::CheckNow,
        },
    };
    let mut state = MacroPageState {
        draft: Some(EditorDraft::new(definition)),
        ..MacroPageState::default()
    };

    handle_inspector_intent(
        &mut state,
        InspectorIntent::RecaptureRegion {
            region_id: "image-region".into(),
        },
    );
    let recapture = state.take_editor_authoring_request().unwrap();
    state
        .apply_editor_authoring_result(EditorAuthoringResult {
            session: recapture.session,
            id: recapture.id,
            fingerprint: recapture.fingerprint,
            outcome: EditorAuthoringOutcome::Region(RectRatio {
                x: double(0.2),
                y: double(0.2),
                width: double(0.3),
                height: double(0.2),
            }),
        })
        .unwrap();
    assert!(
        state.draft.as_ref().unwrap().image_rules[0]
            .verification
            .is_none()
    );

    let sample = NegativeCorpusSample {
        stable_id: "editor/observe-1/negative/1".into(),
        content_sha256: "11".repeat(32),
        measured_score: double(0.1),
        evaluation: "inputs".into(),
    };
    handle_inspector_intent(
        &mut state,
        InspectorIntent::CaptureImageNegative {
            block_id: "observe-1".into(),
        },
    );
    let negative = state.take_editor_authoring_request().unwrap();
    state
        .apply_editor_authoring_result(EditorAuthoringResult {
            session: negative.session,
            id: negative.id,
            fingerprint: negative.fingerprint,
            outcome: EditorAuthoringOutcome::ImageNegativeSample {
                block_id: "observe-1".into(),
                sample: sample.clone(),
            },
        })
        .unwrap();

    handle_inspector_intent(
        &mut state,
        InspectorIntent::TestImage {
            block_id: "observe-1".into(),
        },
    );
    let test = state.take_editor_authoring_request().unwrap();
    assert_eq!(test.image_negative_samples, vec![sample.clone()]);
    let verification = ImageRuleVerificationArtifact { digest: "verified".into() };
    assert_eq!(
        state.apply_editor_authoring_result(EditorAuthoringResult {
            session: test.session,
            id: test.id,
            fingerprint: test.fingerprint,
            outcome: EditorAuthoringOutcome::DetectorTest {
                passed: true,
                evidence: "mismatched rule".into(),
                elapsed_ms: 4,
                rule_id: Some("other-rule".into()),
                image_verification: Some(verification.clone()),
            },
        }),
        Err(EditorAuthoringError::OutcomeMismatch)
    );
    assert!(
        state.draft.as_ref().unwrap().image_rules[0]
            .verification
            .is_none()
    );

    handle_inspector_intent(
        &mut state,
        InspectorIntent::TestImage {
            block_id: "observe-1".into(),
        },
    );
    let test = state.take_editor_authoring_request().unwrap();
    state
        .apply_editor_authoring_result(EditorAuthoringResult {
            session: test.session,
            id: test.id,
            fingerprint: test.fingerprint,
            outcome: EditorAuthoringOutcome::DetectorTest {
                passed: true,
                evidence: "matched and verified".into(),
                elapsed_ms: 4,
                rule_id: Some("image-rule".into()),
                image_verification: Some(verification.clone()),
            },
        })
        .unwrap();

    assert!(
        state.draft.as_ref().unwrap().image_rules[0]
            .verification
            .is_some()
    );
    assert!(editor_validation_problems(state.draft.as_ref().unwrap(), &vec![]).is_empty());

    handle_inspector_intent(
        &mut state,
        InspectorIntent::TestImage {
            block_id: "observe-1".into(),
        },
    );
    let failed = state.take_editor_authoring_request().unwrap();
    state
        .apply_editor_authoring_result(EditorAuthoringResult {
            session: failed.session,
            id: failed.id,
            fingerprint: failed.fingerprint,
            outcome: EditorAuthoringOutcome::DetectorTest {
                passed: true,
                evidence: "ambiguous candidates".into(),
                elapsed_ms: 4,
                rule_id: None,
                image_verification: None,
            },
        })
        .unwrap();
    assert!(
        state.draft.as_ref().unwrap().image_rules[0]
            .verification
            .is_none()
    );
    assert!(
        editor_validation_problems(state.draft.as_ref().unwrap(), &vec![])
            .iter()
            .any(|problem| problem.code == "editor.detector_test_failed")
    );

    handle_inspector_intent(
        &mut state,
        InspectorIntent::TestImage {
            block_id: "observe-1".into(),
        },
    );
    let recovered = state.take_editor_authoring_request().unwrap();
    state
        .apply_editor_authoring_result(EditorAuthoringResult {
            session: recovered.session,
            id: recovered.id,
            fingerprint: recovered.fingerprint,
            outcome: EditorAuthoringOutcome::DetectorTest {
                passed: true,
                evidence: "matched and verified".into(),
                elapsed_ms: 4,
                rule_id: Some("image-rule".into()),
                image_verification: Some(verification),
            },
        })
        .unwrap();
    assert!(
        state.draft.as_ref().unwrap().image_rules[0]
            .verification
            .is_some()
    );
    assert!(
        !editor_validation_problems(state.draft.as_ref().unwrap(), &vec![])
            .iter()
            .any(|problem| problem.code == "editor.detector_test_failed")
    );

    let mut edited = state.draft.as_ref().unwrap().image_rules[0].clone();
    edited.threshold = single(0.92);
    dispatch_editor_command(&mut state, EditorCommand::ReplaceImageRule { rule: edited })
        .unwrap();
    handle_inspector_intent(
        &mut state,
        InspectorIntent::TestImage {
            block_id: "observe-1".into(),
        },
    );
    assert!(
        state
            .take_editor_authoring_request()
            .unwrap()
            .image_negative_samples
            .is_empty()
    );
}

#[test]
fn validation_status_honors_editor_draft_staleness() {
    let mut state = MacroPageState {
        draft: Some(fixture()),
        ..MacroPageState::default()
    };
    assert_eq!(validation_summary(&state, &[]), "Valid");
    dispatch_editor_command(
        &mut state,
        EditorCommand::InsertBlock {
            target: InsertionTarget {
                container: ContainerPath::Root,
                index: 1,
            },
            block: Block {
                id: "note".into(),
                enabled: true,
                kind: BlockKind::Comment {
                    text: "changed".into(),
                },
            },
        },
    )
    .unwrap();
    assert_eq!(validation_summary(&state, &[]), "Needs revalidation");
    state.draft.as_mut().unwrap().status = DraftStatus::Ready;
    assert_eq!(validation_summary(&state, &[]), "Valid");
}

#[test]
fn image_package_import_is_ui_progress_only_and_cancel_discards_it() {
    let mut state = MacroPageState::default();
    state.begin_image_package_reverification(vec!["image-a".into(), "image-b".into()]);

    let progress = state.image_package_reverification.as_ref().unwrap();
    assert_eq!(progress.active_rule_id(), Some("image-a"));
    assert_eq!(
        progress.stage,
        ImagePackageReverificationStage::CaptureTarget
    );

    state.clear_image_package_reverification();
    assert!(state.image_package_reverification.is_none());
}
