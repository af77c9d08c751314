//! The editor as a whole.
use macro_ui::canvas::{CanvasHit, finish_connection};
use macro_ui::canvas_layout::{MacroCanvasLayout, Position, reconcile_layout};
use macro_ui::canvas_model::{
    CanvasConnectionError, CanvasEdgeKind, CanvasGroupKind, CanvasSelection, OutputPort,
    connection_command, project_canvas,
};
use macro_ui::draft::EditorDraft;
use macro_ui::intents::{MacroIntent, SavedMacroIdentity};
use macro_ui::macro_engine::{
    Action, Block, BlockKind, Condition, F32Bits, F64Bits, FocusLossPolicy, Limit,
    MACRO_SCHEMA_VERSION, MacroDefinition, MatchSelectionPolicy, MouseButton, ObserveMode,
    PassiveCondition, PreprocessProfile, RectRatio, RegionDefinition, SafetyPolicy,
    TargetProfile, TextMatchMode, TextRule, TimeoutOutcome, WatchGroup, WatchLane,
};
use macro_ui::monitor::RunDefinitionSnapshot;
use macro_ui::page::MacroPageState;
use macro_ui::page_edit::select_canvas;
use macro_ui::page_status::run_control_availability;
use macro_ui::places::editor_validation_problems;
use macro_ui::run_events::SavedRevision;

fn double(value: f64) -> F64Bits {
    F64Bits(value.to_bits())
}

fn single(value: f32) -> F32Bits {
    F32Bits(value.to_bits())
}

fn at(x: f32, y: f32) -> Position {
    Position { x: single(x), y: single(y) }
}

fn placed(layout: &MacroCanvasLayout, id: &str) -> Position {
    *layout.node_positions.get(id).unwrap()
}

fn fixture_definition() -> MacroDefinition {
    MacroDefinition {
        schema_version: MACRO_SCHEMA_VERSION,
        id: "macro".into(),
        name: "Macro".into(),
        revision: 1,
        target: TargetProfile {
            process_path: "game.exe".into(),
            window_class: "d4".into(),
            title_contains: "Diablo".into(),
            captured_client_width: 1280,
            captured_client_height: 720,
            captured_dpi: 96,
        },
        regions: vec![RegionDefinition {
            id: "scan".into(),
            revision: 1,
            rect: RectRatio {
                x: double(0.1),
                y: double(0.1),
                width: double(0.3),
                height: double(0.2),
            },
        }],
        points: vec![],
        text_rules: vec![TextRule {
            id: "rule".into(),
            revision: 1,
            region_id: "scan".into(),
            language: "en-US".into(),
            preprocess: PreprocessProfile::Grayscale,
            expected: "Salvage".into(),
            match_mode: TextMatchMode::Contains,
            threshold: double(0.9),
            case_sensitive: false,
            allow_cross_line: false,
            match_policy: MatchSelectionPolicy::ExactlyOne,
            poll_interval_ms: 250,
            timeout_ms: Limit::Unlimited,
            stable_frames: 2,
        }],
        image_rules: vec![],
        blocks: vec![observe_block("observe")],
        safety: SafetyPolicy {
            max_runtime_ms: Limit::Unlimited,
            max_clicks: Limit::Unlimited,
            max_observation_retries: Limit::Unlimited,
            max_observations_per_second: 20,
            minimum_click_interval_ms: 100,
            focus_loss: FocusLossPolicy::Stop,
        },
    }
}

fn fixture_draft() -> EditorDraft {
    EditorDraft::new(fixture_definition())
}

fn fixture_continuous_with_observe_and_action() -> MacroDefinition {
    let mut definition = fixture_definition();
    definition.blocks = vec![Block {
        id: "loop".into(),
        enabled: true,
        kind: BlockKind::Continuous {
            body: vec![
                observe_block("observe"),
                Block {
                    id: "action".into(),
                    enabled: true,
                    kind: BlockKind::Action {
                        action: Action::ClickTextMatch {
                            source_block_id: "observe".into(),
                            button: MouseButton::Left,
                        },
                    },
                },
            ],
        },
    }];
    definition
}

fn fixture_nested_loop_draft() -> EditorDraft {
    let mut definition = fixture_definition();
    definition.blocks = vec![Block {
        id: "loop".into(),
        enabled: true,
        kind: BlockKind::Continuous {
            body: vec![comment_block("child")],
        },
    }];
    EditorDraft::new(definition)
}

fn fixture_ready_state() -> MacroPageState {
    let mut state = MacroPageState::default();
    state.draft = Some(fixture_draft());
    state
}

fn fixture_with_pinned_run() -> MacroPageState {
    let definition = fixture_definition();
    let mut state = fixture_ready_state();
    state.running_snapshot = Some(RunDefinitionSnapshot::from_saved(
        "run-1",
        SavedRevision {
            definition,
            definition_hash: "fixture-hash".into(),
            pinned_assets: vec![],
        },
    ));
    state
}

fn corrupt_layout() -> MacroCanvasLayout {
    let mut layout = MacroCanvasLayout::default();
    layout.node_positions.insert("observe".into(), at(f32::NAN, f32::INFINITY));
    layout
}

fn observe_block(id: &str) -> Block {
    Block {
        id: id.into(),
        enabled: true,
        kind: BlockKind::Observe {
            condition: text_condition(id),
        },
    }
}

fn comment_block(id: &str) -> Block {
    Block {
        id: id.into(),
        enabled: true,
        kind: BlockKind::Comment {
            text: "Note".into(),
        },
    }
}

fn text_condition(source_block_id: &str) -> Condition {
    Condition::Text {
        source_block_id: source_block_id.into(),
        rule_id: "rule".into(),
        mode: ObserveMode::CheckNow,
    }
}

#[test]
fn layout_edits_do_not_change_saved_or_running_identity() {
    let mut state = fixture_with_pinned_run();
    state.set_selected_saved(SavedMacroIdentity {
        macro_id: "macro".into(),
        revision: 1,
        definition_hash: "fixture-hash".into(),
    });
    let saved = state.selected_saved.clone();
    let running = format!("{:?}", state.running_snapshot.as_ref().unwrap());

    state.move_canvas_node("observe", at(440.0, 210.0)).unwrap();

    assert_eq!(state.selected_saved, saved);
    assert_eq!(
        format!("{:?}", state.running_snapshot.as_ref().unwrap()),
        running
    );
}

#[test]
fn persisted_layout_round_trip_leaves_definition_unchanged() {
    let definition = fixture_definition();
    let definition_before = definition.clone();
    let saved = SavedMacroIdentity {
        macro_id: definition.id.clone(),
        revision: definition.revision,
        definition_hash: "definition-hash".into(),
    };
    let mut state = MacroPageState::default();
    state.load_saved_draft(definition.clone(), saved.clone());
    state.move_canvas_node("observe", at(440.0, 210.0)).unwrap();
    let (stored_for, stored) = state.persist_canvas_layout().unwrap();
    assert_eq!(stored_for, "macro");

    let mut reopened = MacroPageState::default();
    reopened.load_saved_draft(definition, saved);
    reopened.hydrate_canvas_layout(Some(stored));

    assert_eq!(
        placed(&reopened.canvas_layout, "observe"),
        at(440.0, 210.0)
    );
    assert_eq!(
        reopened.draft.as_ref().unwrap().definition,
        definition_before
    );
}

#[test]
fn corrupt_layout_recovery_preserves_canonical_definition() {
    let definition = fixture_definition();
    let recovered = reconcile_layout(&project_canvas(&definition), corrupt_layout());

    assert!(editor_validation_problems(&EditorDraft::new(definition), &vec![]).is_empty());
    assert!(recovered.is_finite());
    assert!(recovered.node_positions.contains_key("observe"));
}

#[test]
fn stop_replaces_oldest_non_stop_intent_when_queue_is_full() {
    let mut state = fixture_ready_state();
    for index in 0..64 {
        state.push_intent(MacroIntent::Rename {
            saved: SavedMacroIdentity {
                macro_id: "macro".into(),
                revision: 1,
                definition_hash: "fixture-hash".into(),
            },
            name: format!("name-{index}"),
        });
    }
    state.push_intent(MacroIntent::Stop);

    assert_eq!(state.pending_intent_count(), 64);
    let intents = state.drain_intents();
    assert!(matches!(intents.last(), Some(MacroIntent::Stop)));
    assert_eq!(intents.len(), 64);
    for (expected, intent) in (1..64).zip(&intents[..63]) {
        assert!(matches!(
            intent,
            MacroIntent::Rename { name, .. } if name == &format!("name-{expected}")
        ));
    }
}

#[test]
fn invalid_cross_branch_link_and_generated_loop_return_cannot_mutate_the_draft() {
    let draft = fixture_nested_loop_draft();
    let before = draft.definition.clone();
    assert_eq!(
        connection_command(&draft, OutputPort::Next("child".into()), "loop"),
        Err(CanvasConnectionError::IllegalDescendant)
    );
    assert_eq!(draft.definition, before);

    let loop_draft =
        EditorDraft::new(fixture_continuous_with_observe_and_action());
    let response = finish_connection(
        &loop_draft,
        OutputPort::LoopReturn("loop".into()),
        CanvasHit::Node("observe".into()),
    );
    assert!(response.editor_command.is_none());
    assert_eq!(
        loop_draft.definition,
        fixture_continuous_with_observe_and_action()
    );
}

#[test]
fn watch_lane_projection_keeps_canonical_lane_order() {
    let mut definition = fixture_definition();
    let lane = |id: &str| WatchLane {
        id: id.into(),
        enabled: true,
        condition: PassiveCondition::Text {
            source_block_id: "observe".into(),
            rule_id: "rule".into(),
        },
        then_body: vec![],
    };
    definition.blocks = vec![Block {
        id: "watch".into(),
        enabled: true,
        kind: BlockKind::WatchGroup {
            group: WatchGroup {
                lanes: vec![lane("first"), lane("second"), lane("third")],
                timeout_ms: Limit::Unlimited,
                timeout_outcome: TimeoutOutcome::Continue,
                cooldown_ms: 1,
            },
        },
    }];

    let priorities = project_canvas(&definition)
        .groups
        .iter()
        .filter(|group| group.id.kind == CanvasGroupKind::WatchLaneThen)
        .map(|group| group.lane_priority)
        .collect::<Vec<_>>();

    assert_eq!(priorities, vec![Some(1), Some(2), Some(3)]);
}

#[test]
fn fit_view_and_active_node_reveal_are_presentation_only() {
    let mut state = fixture_ready_state();
    state.canvas_layout = corrupt_layout();
    state.load_canvas_layout(state.canvas_layout.clone());
    state.set_canvas_view(at(310.0, 306.0), single(1.0));
    let layout_after_fit = state.canvas_layout.clone();

    select_canvas(
        &mut state,
        CanvasSelection::Block("observe".into()),
    );

    assert!(state.canvas_layout.is_finite());
    assert_eq!(state.selected_block_id.as_deref(), Some("observe"));
    assert_eq!(state.canvas_layout, layout_after_fit);
}

#[test]
fn disabled_run_controls_explain_why_the_action_is_unavailable() {
    let state = fixture_ready_state();
    let controls = run_control_availability(&state);

    assert!(!controls.can_dry_run);
    assert!(!controls.can_run_live);
    assert_eq!(
        controls.disabled_reason.as_deref(),
        Some("Save and select a validated macro before running.")
    );
}

#[test]
fn continuous_loop_return_remains_a_generated_noneditable_edge() {
    let graph = project_canvas(&fixture_continuous_with_observe_and_action());
    assert!(graph.edges.iter().any(|edge| {
        edge.kind == CanvasEdgeKind::LoopReturn
            && edge.from == OutputPort::LoopReturn("loop".into())
            && !edge.editable
    }));
}
