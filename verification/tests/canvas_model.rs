//! What is drawn of a macro, and what connections stand for.
use macro_ui::canvas_model::{
    CanvasConnectionError, CanvasEdgeKind, CanvasGroupId, CanvasGroupKind, CanvasSelection,
    OutputPort, connection_command, project_canvas,
};
use macro_ui::container::ContainerPath;
use macro_ui::draft::{EditorDraft, apply_editor_command};
use macro_ui::editor_types::{BlockPath, EditorCommand, InsertionTarget};
use macro_ui::macro_engine::{
    Action, Block, BlockKind, Condition, F64Bits, FocusLossPolicy, Limit, MACRO_SCHEMA_VERSION,
    MacroDefinition, MatchSelectionPolicy, MouseButton, ObserveMode, PassiveCondition,
    PreprocessProfile, RectRatio, RegionDefinition, SafetyPolicy, TargetProfile, TextMatchMode,
    TextRule, TimeoutOutcome, WatchGroup, WatchLane,
};

fn double(value: f64) -> F64Bits {
    F64Bits(value.to_bits())
}

fn fixture_definition() -> MacroDefinition {
    MacroDefinition {
        schema_version: MACRO_SCHEMA_VERSION,
        id: "macro".into(),
        name: "Macro".into(),
        revision: 1,
        target: TargetProfile {
            process_path: "game.exe".into(),
            window_class: "d4".into(),
            title_contains: "Diablo".into(),
            captured_client_width: 1280,
            captured_client_height: 720,
            captured_dpi: 96,
        },
        regions: vec![RegionDefinition {
            id: "scan".into(),
            revision: 1,
            rect: RectRatio {
                x: double(0.1),
                y: double(0.1),
                width: double(0.3),
                height: double(0.2),
            },
        }],
        points: vec![],
        text_rules: vec![TextRule {
            id: "rule".into(),
            revision: 1,
            region_id: "scan".into(),
            language: "en-US".into(),
            preprocess: PreprocessProfile::Grayscale,
            expected: "Salvage".into(),
            match_mode: TextMatchMode::Contains,
            threshold: double(0.9),
            case_sensitive: false,
            allow_cross_line: false,
            match_policy: MatchSelectionPolicy::ExactlyOne,
            poll_interval_ms: 250,
            timeout_ms: Limit::Unlimited,
            stable_frames: 2,
        }],
        image_rules: vec![],
        blocks: vec![observe_block("observe")],
        safety: SafetyPolicy {
            max_runtime_ms: Limit::Unlimited,
            max_clicks: Limit::Unlimited,
            max_observation_retries: Limit::Unlimited,
            max_observations_per_second: 20,
            minimum_click_interval_ms: 100,
            focus_loss: FocusLossPolicy::Stop,
        },
    }
}

fn fixture_if() -> MacroDefinition {
    let mut definition = fixture_definition();
    definition.blocks = vec![Block {
        id: "if-1".into(),
        enabled: true,
        kind: BlockKind::If {
            condition: text_condition("if-1"),
            then_body: vec![observe_block("then-observe")],
            else_body: vec![comment_block("else-note")],
        },
    }];
    definition
}

fn fixture_continuous_with_observe_and_action() -> MacroDefinition {
    let mut definition = fixture_definition();
    definition.blocks = vec![Block {
        id: "loop".into(),
        enabled: true,
        kind: BlockKind::Continuous {
            body: vec![
                observe_block("observe"),
                Block {
                    id: "action".into(),
                    enabled: true,
                    kind: BlockKind::Action {
                        action: Action::ClickTextMatch {
                            source_block_id: "observe".into(),
                            button: MouseButton::Left,
                        },
                    },
                },
            ],
        },
    }];
    definition
}

fn fixture_nested_loop_draft() -> EditorDraft {
    let mut definition = fixture_definition();
    definition.blocks = vec![Block {
        id: "loop".into(),
        enabled: true,
        kind: BlockKind::Continuous {
            body: vec![comment_block("child")],
        },
    }];
    EditorDraft::new(definition)
}

fn observe_block(id: &str) -> Block {
    Block {
        id: id.into(),
        enabled: true,
        kind: BlockKind::Observe {
            condition: text_condition(id),
        },
    }
}

fn comment_block(id: &str) -> Block {
    Block {
        id: id.into(),
        enabled: true,
        kind: BlockKind::Comment {
            text: "Note".into(),
        },
    }
}

fn text_condition(source_block_id: &str) -> Condition {
    Condition::Text {
        source_block_id: source_block_id.into(),
        rule_id: "rule".into(),
        mode: ObserveMode::CheckNow,
    }
}

#[test]
fn continuous_loop_projects_as_owned_group_with_generated_return_edge() {
    let definition = fixture_continuous_with_observe_and_action();
    let graph = project_canvas(&definition);
    assert!(
        graph
            .groups
            .iter()
            .any(|group| group.id.kind == CanvasGroupKind::LoopBody)
    );
    assert!(
        graph
            .edges
            .iter()
            .any(|edge| edge.kind == CanvasEdgeKind::LoopReturn && !edge.editable)
    );
    assert!(
        graph
            .node("observe")
            .unwrap()
            .groups
            .contains(&CanvasGroupId::loop_body("loop"))
    );
}

#[test]
fn if_ports_are_fixed_then_and_else_roles() {
    let graph = project_canvas(&fixture_if());
    let node = graph.node("if-1").unwrap();
    assert_eq!(
        node.outputs,
        vec![
            OutputPort::IfThen("if-1".into()),
            OutputPort::IfElse("if-1".into()),
            OutputPort::Next("if-1".into()),
        ]
    );
}

#[test]
fn if_groups_expose_typed_then_and_else_insert_targets() {
    let graph = project_canvas(&fixture_if());
    let then_group = graph
        .groups
        .iter()
        .find(|group| group.id.kind == CanvasGroupKind::IfThen)
        .unwrap();
    let else_group = graph
        .groups
        .iter()
        .find(|group| group.id.kind == CanvasGroupKind::IfElse)
        .unwrap();
    assert_eq!(then_group.label, "THEN");
    assert_eq!(else_group.label, "ELSE");
    assert_eq!(
        then_group.selection,
        Some(CanvasSelection::IfThen {
            if_id: "if-1".into()
        })
    );
    assert_eq!(
        else_group.selection,
        Some(CanvasSelection::IfElse {
            if_id: "if-1".into()
        })
    );
}

#[test]
fn control_blocks_keep_structural_continuations_and_loop_return_port() {
    let mut definition = fixture_continuous_with_observe_and_action();
    definition.blocks.push(Block {
        id: "after-loop".into(),
        enabled: true,
        kind: BlockKind::Comment {
            text: "after".into(),
        },
    });
    definition.blocks.push(Block {
        id: "watch".into(),
        enabled: true,
        kind: BlockKind::WatchGroup {
            group: WatchGroup {
                lanes: vec![WatchLane {
                    id: "lane-1".into(),
                    enabled: true,
                    condition: PassiveCondition::Text {
                        source_block_id: "observe".into(),
                        rule_id: "rule".into(),
                    },
                    then_body: vec![],
                }],
                timeout_ms: Limit::Unlimited,
                timeout_outcome: TimeoutOutcome::Continue,
                cooldown_ms: 1,
            },
        },
    });
    definition.blocks.push(Block {
        id: "after-watch".into(),
        enabled: true,
        kind: BlockKind::Comment {
            text: "after".into(),
        },
    });

    let graph = project_canvas(&definition);
    let loop_node = graph.node("loop").unwrap();
    assert!(loop_node.outputs.contains(&OutputPort::Next("loop".into())));
    assert!(
        loop_node
            .outputs
            .contains(&OutputPort::LoopReturn("loop".into()))
    );
    assert!(
        graph
            .node("watch")
            .unwrap()
            .outputs
            .contains(&OutputPort::Next("watch".into()))
    );
    assert!(graph.edges.iter().any(|edge| {
        edge.from == OutputPort::Next("loop".into())
            && edge.to == "after-loop"
            && edge.kind == CanvasEdgeKind::Sequence
    }));
    assert!(graph.edges.iter().any(|edge| {
        edge.from == OutputPort::Next("watch".into())
            && edge.to == "after-watch"
            && edge.kind == CanvasEdgeKind::Sequence
    }));
    assert!(graph.edges.iter().any(|edge| {
        edge.from == OutputPort::LoopReturn("loop".into())
            && edge.to == "loop"
            && edge.kind == CanvasEdgeKind::LoopReturn
            && !edge.editable
    }));
}

#[test]
fn if_next_port_derives_the_following_sibling_edge() {
    let mut definition = fixture_if();
    definition.blocks.push(Block {
        id: "after-if".into(),
        enabled: true,
        kind: BlockKind::Comment {
            text: "after".into(),
        },
    });
    let graph = project_canvas(&definition);
    assert!(graph.edges.iter().any(|edge| {
        edge.from == OutputPort::Next("if-1".into())
            && edge.to == "after-if"
            && edge.kind == CanvasEdgeKind::Sequence
            && edge.editable
    }));
}

#[test]
fn watch_lane_groups_preserve_vector_priority_and_typed_selection() {
    let lane = |id: &str| WatchLane {
        id: id.into(),
        enabled: true,
        condition: PassiveCondition::Text {
            source_block_id: "observe".into(),
            rule_id: "rule".into(),
        },
        then_body: vec![],
    };
    let mut definition = fixture_if();
    definition.blocks = vec![Block {
        id: "watch".into(),
        enabled: true,
        kind: BlockKind::WatchGroup {
            group: WatchGroup {
                lanes: vec![lane("first"), lane("second"), lane("third")],
                timeout_ms: Limit::Unlimited,
                timeout_outcome: TimeoutOutcome::Continue,
                cooldown_ms: 1,
            },
        },
    }];

    let graph = project_canvas(&definition);
    let lanes = graph
        .groups
        .iter()
        .filter(|group| group.id.kind == CanvasGroupKind::WatchLaneThen)
        .collect::<Vec<_>>();
    assert_eq!(
        lanes
            .iter()
            .map(|group| group.lane_priority)
            .collect::<Vec<_>>(),
        vec![Some(1), Some(2), Some(3)]
    );
    assert_eq!(
        lanes[1].selection,
        Some(CanvasSelection::Lane {
            group_id: "watch".into(),
            lane_id: "second".into(),
        })
    );
}

#[test]
fn timeout_bodies_project_as_owned_typed_groups_without_id_collisions() {
    let timeout_condition = |owner: &str, child: &str| Condition::Text {
        source_block_id: owner.into(),
        rule_id: "rule".into(),
        mode: ObserveMode::WaitForTrue {
            timeout_ms: Limit::Finite(100),
            timeout_outcome: TimeoutOutcome::RunBody {
                body: vec![Block {
                    id: child.into(),
                    enabled: true,
                    kind: BlockKind::Comment {
                        text: "fallback".into(),
                    },
                }],
            },
        },
    };
    let mut definition = fixture_if();
    definition.blocks = vec![
        Block {
            id: "owner".into(),
            enabled: true,
            kind: BlockKind::Observe {
                condition: timeout_condition("owner", "timeout-child"),
            },
        },
        Block {
            id: "owner-timeout".into(),
            enabled: true,
            kind: BlockKind::Comment {
                text: "real block".into(),
            },
        },
    ];

    let graph = project_canvas(&definition);
    assert!(graph.groups.iter().any(|group| group.selection
        == Some(CanvasSelection::TimeoutBody {
            owner_id: "owner".into(),
        })));
    assert_eq!(
        graph.node("timeout-child").unwrap().groups,
        vec![CanvasGroupId {
            owner_id: "owner".into(),
            kind: CanvasGroupKind::TimeoutBody,
        }]
    );
    assert_eq!(
        graph.node("owner-timeout").unwrap().selection,
        CanvasSelection::Block("owner-timeout".into())
    );
}

#[test]
fn cross_descendant_connection_is_rejected_without_mutation() {
    let draft = fixture_nested_loop_draft();
    let before = draft.definition.clone();
    assert_eq!(
        connection_command(&draft, OutputPort::Next("child".into()), "loop"),
        Err(CanvasConnectionError::IllegalDescendant)
    );
    assert_eq!(draft.definition, before);
}

#[test]
fn projection_keeps_plain_language_block_labels_and_summaries() {
    let graph = project_canvas(&fixture_continuous_with_observe_and_action());
    assert_eq!(graph.node("loop").unwrap().title, "Continuous Loop");
    assert_eq!(
        graph.node("action").unwrap().summary,
        "Left-click text match"
    );
}

#[test]
fn branch_connection_translates_to_the_existing_move_command() {
    let mut draft = EditorDraft::new(fixture_if());
    let command =
        connection_command(&draft, OutputPort::IfThen("if-1".into()), "else-note").unwrap();
    assert_eq!(
        command,
        EditorCommand::MoveBlock {
            source: BlockPath {
                container: ContainerPath::IfElse {
                    if_id: "if-1".into(),
                },
                block_id: "else-note".into(),
            },
            target: InsertionTarget {
                container: ContainerPath::IfThen {
                    if_id: "if-1".into(),
                },
                index: 1,
            },
        }
    );
    apply_editor_command(&mut draft, command).unwrap();
    let graph = project_canvas(&draft.definition);
    assert!(
        graph
            .node("else-note")
            .unwrap()
            .groups
            .contains(&CanvasGroupId {
                owner_id: "if-1".into(),
                kind: CanvasGroupKind::IfThen,
            })
    );
}
