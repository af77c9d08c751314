//! Layouts of the canvas.
use macro_ui::canvas_layout::{
    CanvasLayoutEngine, MacroCanvasLayout, Position, auto_arrange, reconcile_layout,
};
use macro_ui::canvas_model::project_canvas;
use macro_ui::draft::EditorDraft;
use macro_ui::macro_engine::{
    Block, BlockKind, Condition, F32Bits, F64Bits, FocusLossPolicy, Limit, MACRO_SCHEMA_VERSION,
    MacroDefinition, MatchSelectionPolicy, ObserveMode, PreprocessProfile, RectRatio,
    RegionDefinition, SafetyPolicy, TargetProfile, TextMatchMode, TextRule,
};

fn double(value: f64) -> F64Bits {
    F64Bits(value.to_bits())
}

fn single(value: f32) -> F32Bits {
    F32Bits(value.to_bits())
}

fn at(x: f32, y: f32) -> Position {
    Position { x: single(x), y: single(y) }
}

fn placed(layout: &MacroCanvasLayout, id: &str) -> Position {
    *layout.node_positions.get(id).unwrap()
}

fn fixture_definition() -> MacroDefinition {
    MacroDefinition {
        schema_version: MACRO_SCHEMA_VERSION,
        id: "macro".into(),
        name: "Macro".into(),
        revision: 1,
        target: TargetProfile {
            process_path: "game.exe".into(),
            window_class: "d4".into(),
            title_contains: "Diablo".into(),
            captured_client_width: 1280,
            captured_client_height: 720,
            captured_dpi: 96,
        },
        regions: vec![RegionDefinition {
            id: "scan".into(),
            revision: 1,
            rect: RectRatio {
                x: double(0.1),
                y: double(0.1),
                width: double(0.3),
                height: double(0.2),
            },
        }],
        points: vec![],
        text_rules: vec![TextRule {
            id: "rule".into(),
            revision: 1,
            region_id: "scan".into(),
            language: "en-US".into(),
            preprocess: PreprocessProfile::Grayscale,
            expected: "Salvage".into(),
            match_mode: TextMatchMode::Contains,
            threshold: double(0.9),
            case_sensitive: false,
            allow_cross_line: false,
            match_policy: MatchSelectionPolicy::ExactlyOne,
            poll_interval_ms: 250,
            timeout_ms: Limit::Unlimited,
            stable_frames: 2,
        }],
        image_rules: vec![],
        blocks: vec![observe_block("observe")],
        safety: SafetyPolicy {
            max_runtime_ms: Limit::Unlimited,
            max_clicks: Limit::Unlimited,
            max_observation_retries: Limit::Unlimited,
            max_observations_per_second: 20,
            minimum_click_interval_ms: 100,
            focus_loss: FocusLossPolicy::Stop,
        },
    }
}

fn fixture_draft() -> EditorDraft {
    EditorDraft::new(fixture_definition())
}

fn fixture_large_definition() -> MacroDefinition {
    let mut definition = fixture_definition();
    definition.blocks = (0..500)
        .map(|index| comment_block(&format!("comment-{index:03}")))
        .collect();
    definition
}

fn observe_block(id: &str) -> Block {
    Block {
        id: id.into(),
        enabled: true,
        kind: BlockKind::Observe {
            condition: text_condition(id),
        },
    }
}

fn comment_block(id: &str) -> Block {
    Block {
        id: id.into(),
        enabled: true,
        kind: BlockKind::Comment {
            text: "Note".into(),
        },
    }
}

fn text_condition(source_block_id: &str) -> Condition {
    Condition::Text {
        source_block_id: source_block_id.into(),
        rule_id: "rule".into(),
        mode: ObserveMode::CheckNow,
    }
}

#[test]
fn moving_node_changes_layout_only() {
    let draft = fixture_draft();
    let executable_before = draft.definition.clone();
    let mut layout = MacroCanvasLayout::default();
    CanvasLayoutEngine::move_node(&mut layout, "observe", at(320.0, 180.0)).unwrap();
    assert_eq!(draft.definition, executable_before);
    assert_eq!(placed(&layout, "observe"), at(320.0, 180.0));
}

#[test]
fn reconcile_keeps_a_valid_positive_subminimum_fit_zoom() {
    let graph = project_canvas(&fixture_large_definition());
    let mut saved = auto_arrange(&graph);
    saved.zoom = single(0.01);

    assert_eq!(reconcile_layout(&graph, saved).zoom, single(0.01));
}

#[test]
fn corrupt_positions_are_rebuilt_not_applied() {
    let mut saved = MacroCanvasLayout::default();
    saved.node_positions.insert("observe".into(), at(f32::NAN, f32::INFINITY));
    let repaired = reconcile_layout(&project_canvas(&fixture_definition()), saved);
    assert!(!repaired.node_positions.ids().is_empty());
    for id in repaired.node_positions.ids() {
        let position = placed(&repaired, &id);
        assert!(f32::from_bits(position.x.0).is_finite());
        assert!(f32::from_bits(position.y.0).is_finite());
    }
}
