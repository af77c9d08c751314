//! Gestures on the canvas.
use macro_ui::canvas::{
    CanvasAction, CanvasHit, CanvasInputFrame, finish_connection, reduce_canvas_input,
};
use macro_ui::canvas_layout::Position;
use macro_ui::canvas_model::OutputPort;
use macro_ui::draft::EditorDraft;
use macro_ui::macro_engine::{
    Block, BlockKind, Condition, F32Bits, F64Bits, FocusLossPolicy, Limit, MACRO_SCHEMA_VERSION,
    MacroDefinition, MatchSelectionPolicy, ObserveMode, PreprocessProfile, RectRatio,
    RegionDefinition, SafetyPolicy, TargetProfile, TextMatchMode, TextRule,
};

fn double(value: f64) -> F64Bits {
    F64Bits(value.to_bits())
}

fn single(value: f32) -> F32Bits {
    F32Bits(value.to_bits())
}

fn at(x: f32, y: f32) -> Position {
    Position { x: single(x), y: single(y) }
}

fn fixture_definition() -> MacroDefinition {
    MacroDefinition {
        schema_version: MACRO_SCHEMA_VERSION,
        id: "macro".into(),
        name: "Macro".into(),
        revision: 1,
        target: TargetProfile {
            process_path: "game.exe".into(),
            window_class: "d4".into(),
            title_contains: "Diablo".into(),
            captured_client_width: 1280,
            captured_client_height: 720,
            captured_dpi: 96,
        },
        regions: vec![RegionDefinition {
            id: "scan".into(),
            revision: 1,
            rect: RectRatio {
                x: double(0.1),
                y: double(0.1),
                width: double(0.3),
                height: double(0.2),
            },
        }],
        points: vec![],
        text_rules: vec![TextRule {
            id: "rule".into(),
            revision: 1,
            region_id: "scan".into(),
            language: "en-US".into(),
            preprocess: PreprocessProfile::Grayscale,
            expected: "Salvage".into(),
            match_mode: TextMatchMode::Contains,
            threshold: double(0.9),
            case_sensitive: false,
            allow_cross_line: false,
            match_policy: MatchSelectionPolicy::ExactlyOne,
            poll_interval_ms: 250,
            timeout_ms: Limit::Unlimited,
            stable_frames: 2,
        }],
        image_rules: vec![],
        blocks: vec![observe_block("observe")],
        safety: SafetyPolicy {
            max_runtime_ms: Limit::Unlimited,
            max_clicks: Limit::Unlimited,
            max_observation_retries: Limit::Unlimited,
            max_observations_per_second: 20,
            minimum_click_interval_ms: 100,
            focus_loss: FocusLossPolicy::Stop,
        },
    }
}

fn fixture_draft() -> EditorDraft {
    EditorDraft::new(fixture_definition())
}

fn observe_block(id: &str) -> Block {
    Block {
        id: id.into(),
        enabled: true,
        kind: BlockKind::Observe {
            condition: text_condition(id),
        },
    }
}

fn text_condition(source_block_id: &str) -> Condition {
    Condition::Text {
        source_block_id: source_block_id.into(),
        rule_id: "rule".into(),
        mode: ObserveMode::CheckNow,
    }
}

#[test]
fn primary_drag_on_empty_space_pans() {
    let action = reduce_canvas_input(CanvasInputFrame {
        hovered: true,
        hit: CanvasHit::Background,
        primary_drag_delta: at(24.0, -8.0),
        ..Default::default()
    });
    assert_eq!(action, CanvasAction::Pan { middle: at(0.0, 0.0), primary: at(24.0, -8.0) });
}

#[test]
fn node_drag_moves_node_and_does_not_pan() {
    let action = reduce_canvas_input(CanvasInputFrame {
        hovered: true,
        hit: CanvasHit::Node("observe".into()),
        primary_drag_delta: at(24.0, -8.0),
        ..Default::default()
    });
    assert_eq!(
        action,
        CanvasAction::MoveNode {
            id: "observe".into(),
            delta: at(24.0, -8.0),
        }
    );
}

#[test]
fn invalid_connector_drop_returns_reason_without_command() {
    let response = finish_connection(
        &fixture_draft(),
        OutputPort::LoopBody("loop".into()),
        CanvasHit::Node("loop".into()),
    );
    assert!(matches!(
        response.action,
        Some(CanvasAction::RejectedConnection(_))
    ));
    assert!(response.editor_command.is_none());
}
