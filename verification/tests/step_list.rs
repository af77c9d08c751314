//! The list of steps.
use macro_ui::canvas_model::CanvasSelection;
use macro_ui::container::ContainerPath;
use macro_ui::draft::{EditorDraft, apply_editor_command};
use macro_ui::editor_types::{EditorCommand, InsertionTarget};
use macro_ui::macro_engine::{
    Block, BlockKind, Condition, F64Bits, FocusLossPolicy, Limit, MACRO_SCHEMA_VERSION,
    MacroDefinition, MatchSelectionPolicy, ObserveMode, PreprocessProfile, RectRatio,
    RegionDefinition, SafetyPolicy, TargetProfile, TextMatchMode, TextRule,
};
use macro_ui::places::locate_block_path;
use macro_ui::step_list::{StepListRow, project_step_list};

fn double(value: f64) -> F64Bits {
    F64Bits(value.to_bits())
}

fn fixture_definition() -> MacroDefinition {
    MacroDefinition {
        schema_version: MACRO_SCHEMA_VERSION,
        id: "macro".into(),
        name: "Macro".into(),
        revision: 1,
        target: TargetProfile {
            process_path: "game.exe".into(),
            window_class: "d4".into(),
            title_contains: "Diablo".into(),
            captured_client_width: 1280,
            captured_client_height: 720,
            captured_dpi: 96,
        },
        regions: vec![RegionDefinition {
            id: "scan".into(),
            revision: 1,
            rect: RectRatio {
                x: double(0.1),
                y: double(0.1),
                width: double(0.3),
                height: double(0.2),
            },
        }],
        points: vec![],
        text_rules: vec![TextRule {
            id: "rule".into(),
            revision: 1,
            region_id: "scan".into(),
            language: "en-US".into(),
            preprocess: PreprocessProfile::Grayscale,
            expected: "Salvage".into(),
            match_mode: TextMatchMode::Contains,
            threshold: double(0.9),
            case_sensitive: false,
            allow_cross_line: false,
            match_policy: MatchSelectionPolicy::ExactlyOne,
            poll_interval_ms: 250,
            timeout_ms: Limit::Unlimited,
            stable_frames: 2,
        }],
        image_rules: vec![],
        blocks: vec![observe_block("observe")],
        safety: SafetyPolicy {
            max_runtime_ms: Limit::Unlimited,
            max_clicks: Limit::Unlimited,
            max_observation_retries: Limit::Unlimited,
            max_observations_per_second: 20,
            minimum_click_interval_ms: 100,
            focus_loss: FocusLossPolicy::Stop,
        },
    }
}

fn fixture_if() -> MacroDefinition {
    let mut definition = fixture_definition();
    definition.blocks = vec![Block {
        id: "if-1".into(),
        enabled: true,
        kind: BlockKind::If {
            condition: text_condition("if-1"),
            then_body: vec![observe_block("then-observe")],
            else_body: vec![comment_block("else-note")],
        },
    }];
    definition
}

fn observe_block(id: &str) -> Block {
    Block {
        id: id.into(),
        enabled: true,
        kind: BlockKind::Observe {
            condition: text_condition(id),
        },
    }
}

fn comment_block(id: &str) -> Block {
    Block {
        id: id.into(),
        enabled: true,
        kind: BlockKind::Comment {
            text: "Note".into(),
        },
    }
}

fn text_condition(source_block_id: &str) -> Condition {
    Condition::Text {
        source_block_id: source_block_id.into(),
        rule_id: "rule".into(),
        mode: ObserveMode::CheckNow,
    }
}

fn wait_block(id: &str) -> Block {
    Block {
        id: id.into(),
        enabled: true,
        kind: BlockKind::Wait { duration_ms: 250 },
    }
}

fn row_titles(rows: &[StepListRow]) -> Vec<(usize, String, Option<String>)> {
    rows.iter()
        .map(|row| {
            (
                row.indent(),
                row.title().to_string(),
                row.block_id().map(str::to_string),
            )
        })
        .collect()
}

#[test]
fn step_list_if_then_else_indent() {
    let rows = project_step_list(&fixture_if());
    assert_eq!(
        row_titles(&rows),
        vec![
            (0, "If".into(), Some("if-1".into())),
            (1, "THEN".into(), None),
            (2, "Check text".into(), Some("then-observe".into())),
            (1, "ELSE".into(), None),
            (2, "Note".into(), Some("else-note".into())),
        ]
    );
    assert_eq!(
        rows[1].selection(),
        Some(&CanvasSelection::IfThen {
            if_id: "if-1".into()
        })
    );
    assert_eq!(
        rows[3].selection(),
        Some(&CanvasSelection::IfElse {
            if_id: "if-1".into()
        })
    );
}

#[test]
fn step_list_insert_into_else() {
    let mut definition = fixture_if();
    let BlockKind::If { else_body, .. } = &mut definition.blocks[0].kind else {
        panic!("fixture_if must start with If");
    };
    else_body.clear();
    let mut draft = EditorDraft::new(definition);
    apply_editor_command(
        &mut draft,
        EditorCommand::InsertBlock {
            target: InsertionTarget {
                container: ContainerPath::IfElse {
                    if_id: "if-1".into(),
                },
                index: 0,
            },
            block: wait_block("wait-else"),
        },
    )
    .unwrap();

    let rows = project_step_list(&draft.definition);
    let else_index = rows
        .iter()
        .position(|row| row.title() == "ELSE")
        .expect("ELSE section");
    assert_eq!(rows[else_index].indent(), 1);
    assert_eq!(rows[else_index + 1].block_id(), Some("wait-else"));
    assert_eq!(rows[else_index + 1].indent(), 2);
    assert_eq!(
        rows[else_index].selection(),
        Some(&CanvasSelection::IfElse {
            if_id: "if-1".into()
        })
    );
    let path = locate_block_path(&draft, "wait-else").unwrap();
    assert_eq!(
        path.container,
        ContainerPath::IfElse {
            if_id: "if-1".into()
        }
    );
}

#[test]
fn step_list_reorder_else_siblings() {
    let mut definition = fixture_if();
    let BlockKind::If { else_body, .. } = &mut definition.blocks[0].kind else {
        panic!("fixture_if must start with If");
    };
    *else_body = vec![wait_block("wait-a"), wait_block("wait-b")];
    let mut draft = EditorDraft::new(definition);
    let path = locate_block_path(&draft, "wait-b").unwrap();
    apply_editor_command(
        &mut draft,
        EditorCommand::ReorderSibling {
            path,
            to_index: 0,
        },
    )
    .unwrap();

    let rows = project_step_list(&draft.definition);
    let else_index = rows
        .iter()
        .position(|row| row.title() == "ELSE")
        .expect("ELSE section");
    assert_eq!(rows[else_index + 1].block_id(), Some("wait-b"));
    assert_eq!(rows[else_index + 2].block_id(), Some("wait-a"));
    assert_eq!(rows[else_index + 1].indent(), 2);
    assert_eq!(rows[else_index + 2].indent(), 2);
}
