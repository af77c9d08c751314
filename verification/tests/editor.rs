//! Edits of a draft.
use macro_ui::block_edit::preview_conversion;
use macro_ui::container::ContainerPath;
use macro_ui::draft::{EDITOR_UNDO_LIMIT, EditorDraft, apply_editor_command};
use macro_ui::editor_types::{
    BlockFamily, BlockPath, ConversionPreview, ConversionTarget, DraftEditability, DraftStatus,
    EditOutcome, EditorCommand, EditorError, IfBranch, InsertionTarget, LoopDeletionChoice,
};
use macro_ui::macro_engine::{
    Action, Block, BlockKind, Condition, F64Bits, FocusLossPolicy, Limit, MACRO_SCHEMA_VERSION,
    MacroDefinition, MatchSelectionPolicy, MouseButton, ObserveMode, PassiveCondition,
    PreprocessProfile, RectRatio, RegionDefinition, SafetyPolicy, TargetProfile, TextMatchMode,
    TextRule, TimeoutOutcome, WatchGroup, WatchLane,
};
use macro_ui::places::editor_validation_problems;

fn double(value: f64) -> F64Bits {
    F64Bits(value.to_bits())
}

fn def(blocks: Vec<Block>) -> MacroDefinition {
    MacroDefinition {
        schema_version: MACRO_SCHEMA_VERSION,
        id: "m".into(),
        name: "m".into(),
        revision: 4,
        target: TargetProfile {
            process_path: "g".into(),
            window_class: "w".into(),
            title_contains: "d".into(),
            captured_client_width: 1280,
            captured_client_height: 720,
            captured_dpi: 96,
        },
        regions: vec![],
        points: vec![],
        text_rules: vec![],
        image_rules: vec![],
        blocks,
        safety: SafetyPolicy {
            max_runtime_ms: Limit::Finite(1000),
            max_clicks: Limit::Finite(2),
            max_observation_retries: Limit::Finite(2),
            max_observations_per_second: 20,
            minimum_click_interval_ms: 50,
            focus_loss: FocusLossPolicy::Stop,
        },
    }
}
fn comment(id: &str) -> Block {
    Block {
        id: id.into(),
        enabled: true,
        kind: BlockKind::Comment { text: id.into() },
    }
}
fn path(id: &str) -> BlockPath {
    BlockPath {
        container: ContainerPath::Root,
        block_id: id.into(),
    }
}
fn mode_wait_true() -> ObserveMode {
    ObserveMode::WaitForTrue {
        timeout_ms: Limit::Finite(50),
        timeout_outcome: TimeoutOutcome::Continue,
    }
}
fn mode_wait_false() -> ObserveMode {
    ObserveMode::WaitForFalse {
        timeout_ms: Limit::Unlimited,
        timeout_outcome: TimeoutOutcome::Continue,
    }
}

#[test]
fn all_compatible_conversion_directions_preserve_identity_and_owned_bodies() {
    let obs = |id: &str, text: bool| Block {
        id: id.into(),
        enabled: true,
        kind: BlockKind::Observe {
            condition: if text {
                Condition::Text {
                    source_block_id: id.into(),
                    rule_id: "r".into(),
                    mode: ObserveMode::CheckNow,
                }
            } else {
                Condition::Image {
                    source_block_id: id.into(),
                    rule_id: "i".into(),
                    mode: ObserveMode::CheckNow,
                }
            },
        },
    };
    let mut draft = EditorDraft::new(def(vec![
        obs("text", true),
        obs("image", false),
        Block {
            id: "tc".into(),
            enabled: true,
            kind: BlockKind::Action {
                action: Action::ClickTextMatch {
                    source_block_id: "text".into(),
                    button: MouseButton::Left,
                },
            },
        },
        Block {
            id: "ic".into(),
            enabled: true,
            kind: BlockKind::Action {
                action: Action::ClickImageMatch {
                    source_block_id: "image".into(),
                    button: MouseButton::Left,
                },
            },
        },
        Block {
            id: "fixed".into(),
            enabled: true,
            kind: BlockKind::Action {
                action: Action::ClickPoint {
                    point_id: "p".into(),
                    button: MouseButton::Left,
                },
            },
        },
        Block {
            id: "loop".into(),
            enabled: true,
            kind: BlockKind::RepeatN {
                count: 2,
                body: vec![comment("owned")],
            },
        },
    ]));
    let convert = |draft: &mut EditorDraft, id: &str, target| {
        apply_editor_command(
            draft,
            EditorCommand::ConvertBlock {
                path: path(id),
                target,
            },
        )
        .unwrap()
    };
    for mode in [mode_wait_true(), mode_wait_false(), ObserveMode::CheckNow] {
        convert(
            &mut draft,
            "text",
            ConversionTarget::TextObservation { mode },
        );
    }
    for mode in [mode_wait_false(), mode_wait_true(), ObserveMode::CheckNow] {
        convert(
            &mut draft,
            "image",
            ConversionTarget::ImageObservation { mode },
        );
    }
    convert(
        &mut draft,
        "tc",
        ConversionTarget::ClickTextMatch {
            button: MouseButton::Right,
        },
    );
    convert(
        &mut draft,
        "ic",
        ConversionTarget::ClickImageMatch {
            button: MouseButton::Right,
        },
    );
    convert(
        &mut draft,
        "fixed",
        ConversionTarget::ClickRegion {
            region_id: "region".into(),
            button: MouseButton::Right,
        },
    );
    convert(
        &mut draft,
        "fixed",
        ConversionTarget::ClickPoint {
            point_id: "point2".into(),
            button: MouseButton::Left,
        },
    );
    convert(
        &mut draft,
        "loop",
        ConversionTarget::RepeatUntil {
            condition: Condition::Text {
                source_block_id: "loop".into(),
                rule_id: "r".into(),
                mode: ObserveMode::CheckNow,
            },
            max_iterations: Limit::Finite(9),
        },
    );
    convert(&mut draft, "loop", ConversionTarget::RepeatN { count: 3 });
    assert!(matches!(
        draft.definition.blocks[2].kind,
        BlockKind::Action {
            action: Action::ClickTextMatch {
                button: MouseButton::Right,
                ..
            }
        }
    ));
    assert!(matches!(
        draft.definition.blocks[3].kind,
        BlockKind::Action {
            action: Action::ClickImageMatch {
                button: MouseButton::Right,
                ..
            }
        }
    ));
    assert!(
        matches!(draft.definition.blocks[4].kind,BlockKind::Action{action:Action::ClickPoint{ref point_id,..}} if point_id=="point2")
    );
    assert!(
        matches!(draft.definition.blocks[5].kind,BlockKind::RepeatN{ref body,..} if body[0].id=="owned")
    );
}

#[test]
fn structural_commands_are_transactional_and_revisioned() {
    let lane = |id: &str| WatchLane {
        id: id.into(),
        enabled: true,
        condition: PassiveCondition::Text {
            source_block_id: id.into(),
            rule_id: "r".into(),
        },
        then_body: vec![comment(&format!("{id}-body"))],
    };
    let watch = Block {
        id: "watch".into(),
        enabled: true,
        kind: BlockKind::WatchGroup {
            group: WatchGroup {
                lanes: vec![lane("a"), lane("b"), lane("c")],
                timeout_ms: Limit::Finite(100),
                timeout_outcome: TimeoutOutcome::Continue,
                cooldown_ms: 25,
            },
        },
    };
    let mut draft = EditorDraft::new(def(vec![watch]));
    assert_eq!(
        apply_editor_command(
            &mut draft,
            EditorCommand::MoveLane {
                group_id: "watch".into(),
                lane_id: "c".into(),
                to_index: 0
            }
        ),
        Ok(EditOutcome::Changed)
    );
    assert_eq!(draft.watch_lane_ids("watch"), vec!["c", "a", "b"]);
    assert_eq!(draft.definition.revision, 5);
    assert_eq!(draft.status, DraftStatus::NeedsValidation);
    let before = draft.clone();
    let nested = Block {
        id: "nested".into(),
        enabled: true,
        kind: BlockKind::WatchGroup {
            group: WatchGroup {
                lanes: vec![],
                timeout_ms: Limit::Finite(1),
                timeout_outcome: TimeoutOutcome::Continue,
                cooldown_ms: 0,
            },
        },
    };
    assert_eq!(
        apply_editor_command(
            &mut draft,
            EditorCommand::InsertBlock {
                target: InsertionTarget {
                    container: ContainerPath::WatchLaneBody {
                        watch_id: "watch".into(),
                        lane_id: "a".into()
                    },
                    index: 0
                },
                block: nested
            }
        ),
        Err(EditorError::NestedWatchGroup)
    );
    assert_eq!(draft, before);
}

#[test]
fn running_and_duplicate_ids_reject_without_mutation() {
    let mut running = EditorDraft::new(def(vec![comment("x")]));
    running.editability = DraftEditability::Running { revision: 4 };
    let before = running.clone();
    assert_eq!(
        apply_editor_command(
            &mut running,
            EditorCommand::SetBlockEnabled {
                path: path("x"),
                enabled: false
            }
        ),
        Err(EditorError::RunInProgress)
    );
    assert_eq!(running, before);
    let mut duplicate = EditorDraft::new(def(vec![comment("x"), comment("x")]));
    let before = duplicate.clone();
    assert_eq!(
        apply_editor_command(
            &mut duplicate,
            EditorCommand::SetBlockEnabled {
                path: path("x"),
                enabled: false
            }
        ),
        Err(EditorError::DuplicateIdentity("x".into()))
    );
    assert_eq!(duplicate, before);
}

#[test]
fn rule_and_recapture_invalidate_dependent_matched_click_until_validation() {
    let source = Block {
        id: "source".into(),
        enabled: true,
        kind: BlockKind::Observe {
            condition: Condition::Text {
                source_block_id: "source".into(),
                rule_id: "r".into(),
                mode: ObserveMode::CheckNow,
            },
        },
    };
    let click = Block {
        id: "click".into(),
        enabled: true,
        kind: BlockKind::Action {
            action: Action::ClickTextMatch {
                source_block_id: "source".into(),
                button: MouseButton::Left,
            },
        },
    };
    let mut definition = def(vec![source, click]);
    definition.regions.push(RegionDefinition {
        id: "region".into(),
        revision: 1,
        rect: RectRatio {
            x: double(0.1),
            y: double(0.1),
            width: double(0.2),
            height: double(0.2),
        },
    });
    definition.text_rules.push(TextRule {
        id: "r".into(),
        revision: 1,
        region_id: "region".into(),
        language: "en-US".into(),
        preprocess: PreprocessProfile::Grayscale,
        expected: "Salvage".into(),
        match_mode: TextMatchMode::Contains,
        threshold: double(0.9),
        case_sensitive: false,
        allow_cross_line: false,
        match_policy: MatchSelectionPolicy::ExactlyOne,
        poll_interval_ms: 250,
        timeout_ms: Limit::Finite(1000),
        stable_frames: 1,
    });
    let mut draft = EditorDraft::new(definition);
    let mut rule = draft.definition.text_rules[0].clone();
    rule.expected = "Retry".into();
    apply_editor_command(&mut draft, EditorCommand::ReplaceTextRule { rule }).unwrap();
    assert!(draft.invalidated_source_ids().contains("source"));
    assert!(
        editor_validation_problems(&draft, &vec![])
            .iter()
            .any(|p| p.code == "editor.dependent_action_needs_revalidation"
                && p.block_id.as_deref() == Some("click"))
    );
    apply_editor_command(
        &mut draft,
        EditorCommand::RecaptureRegion {
            region_id: "region".into(),
            rect: RectRatio {
                x: double(0.2),
                y: double(0.1),
                width: double(0.2),
                height: double(0.2),
            },
        },
    )
    .unwrap();
    assert_eq!(draft.definition.regions[0].revision, 2);
    assert_eq!(draft.definition.text_rules[0].expected, "Retry");
}

#[test]
fn unrelated_conversion_requires_replace_preview() {
    let block = Block {
        id: "o".into(),
        enabled: true,
        kind: BlockKind::Observe {
            condition: Condition::Text {
                source_block_id: "o".into(),
                rule_id: "r".into(),
                mode: ObserveMode::CheckNow,
            },
        },
    };
    assert!(matches!(
        preview_conversion(&block, BlockFamily::Loop),
        ConversionPreview::ReplaceRequired { .. }
    ));
}

#[test]
fn moving_container_into_descendant_is_transactional() {
    let outer = Block {
        id: "outer".into(),
        enabled: true,
        kind: BlockKind::RepeatN {
            count: 2,
            body: vec![Block {
                id: "inner".into(),
                enabled: true,
                kind: BlockKind::RepeatN {
                    count: 2,
                    body: vec![comment("leaf")],
                },
            }],
        },
    };
    let mut draft = EditorDraft::new(def(vec![outer]));
    let before = draft.clone();
    let result = apply_editor_command(
        &mut draft,
        EditorCommand::MoveBlock {
            source: path("outer"),
            target: InsertionTarget {
                container: ContainerPath::LoopBody {
                    loop_id: "inner".into(),
                },
                index: 0,
            },
        },
    );
    assert_eq!(result, Err(EditorError::IllegalDescendantMove));
    assert_eq!(draft, before);
}

#[test]
fn explicit_then_else_transfer_preserves_whole_loop() {
    let branch = Block {
        id: "if".into(),
        enabled: true,
        kind: BlockKind::If {
            condition: Condition::Text {
                source_block_id: "if".into(),
                rule_id: "r".into(),
                mode: ObserveMode::CheckNow,
            },
            then_body: vec![Block {
                id: "loop".into(),
                enabled: true,
                kind: BlockKind::RepeatN {
                    count: 2,
                    body: vec![comment("inside")],
                },
            }],
            else_body: vec![comment("fallback")],
        },
    };
    let mut draft = EditorDraft::new(def(vec![branch]));
    apply_editor_command(
        &mut draft,
        EditorCommand::TransferIfBranch {
            if_id: "if".into(),
            branch: IfBranch::Then,
            block_id: "loop".into(),
            to_index: 1,
        },
    )
    .unwrap();
    let BlockKind::If {
        then_body,
        else_body,
        ..
    } = &draft.definition.blocks[0].kind
    else {
        panic!()
    };
    assert!(then_body.is_empty());
    assert_eq!(else_body[1].id, "loop");
    assert!(matches!(else_body[1].kind,BlockKind::RepeatN{ref body,..}if body[0].id=="inside"));
}

#[test]
fn loop_deletion_requires_choice_and_can_keep_contents() {
    let loop_block = Block {
        id: "loop".into(),
        enabled: true,
        kind: BlockKind::RepeatN {
            count: 2,
            body: vec![comment("a"), comment("b")],
        },
    };
    let mut draft = EditorDraft::new(def(vec![loop_block]));
    let before = draft.clone();
    assert_eq!(
        apply_editor_command(
            &mut draft,
            EditorCommand::RemoveBlock {
                path: path("loop"),
                loop_choice: None
            }
        ),
        Err(EditorError::LoopDeletionChoiceRequired)
    );
    assert_eq!(draft, before);
    apply_editor_command(
        &mut draft,
        EditorCommand::RemoveBlock {
            path: path("loop"),
            loop_choice: Some(LoopDeletionChoice::KeepContents),
        },
    )
    .unwrap();
    assert_eq!(
        draft
            .definition
            .blocks
            .iter()
            .map(|b| b.id.as_str())
            .collect::<Vec<_>>(),
        vec!["a", "b"]
    );
}

#[test]
fn no_op_preserves_revision_status_and_undo() {
    let mut draft = EditorDraft::new(def(vec![comment("x")]));
    assert_eq!(
        apply_editor_command(
            &mut draft,
            EditorCommand::SetBlockEnabled {
                path: path("x"),
                enabled: true
            }
        ),
        Ok(EditOutcome::NoChange)
    );
    assert_eq!(draft.definition.revision, 4);
    assert_eq!(draft.status, DraftStatus::Ready);
    assert_eq!(draft.undo_len(), 0);
}

#[test]
fn inspector_flow_commands_edit_mode_repeat_and_watch_settings() {
    let condition = || Condition::Text {
        source_block_id: "observe".into(),
        rule_id: "r".into(),
        mode: ObserveMode::CheckNow,
    };
    let mut draft = EditorDraft::new(def(vec![
        Block {
            id: "observe".into(),
            enabled: true,
            kind: BlockKind::Observe {
                condition: condition(),
            },
        },
        Block {
            id: "repeat-n".into(),
            enabled: true,
            kind: BlockKind::RepeatN {
                count: 2,
                body: vec![],
            },
        },
        Block {
            id: "repeat-until".into(),
            enabled: true,
            kind: BlockKind::RepeatUntil {
                condition: condition(),
                max_iterations: Limit::Finite(10),
                body: vec![],
            },
        },
        Block {
            id: "watch".into(),
            enabled: true,
            kind: BlockKind::WatchGroup {
                group: WatchGroup {
                    lanes: vec![],
                    timeout_ms: Limit::Finite(1_000),
                    timeout_outcome: TimeoutOutcome::Continue,
                    cooldown_ms: 100,
                },
            },
        },
    ]));

    apply_editor_command(
        &mut draft,
        EditorCommand::SetConditionMode {
            path: path("observe"),
            mode: ObserveMode::WaitForTrue {
                timeout_ms: Limit::Unlimited,
                timeout_outcome: TimeoutOutcome::Continue,
            },
        },
    )
    .unwrap();
    apply_editor_command(
        &mut draft,
        EditorCommand::SetRepeatCount {
            path: path("repeat-n"),
            count: 7,
        },
    )
    .unwrap();
    apply_editor_command(
        &mut draft,
        EditorCommand::SetRepeatUntilMax {
            path: path("repeat-until"),
            max_iterations: Limit::Unlimited,
        },
    )
    .unwrap();
    apply_editor_command(
        &mut draft,
        EditorCommand::SetWatchSettings {
            path: path("watch"),
            timeout_ms: Limit::Unlimited,
            cooldown_ms: 275,
        },
    )
    .unwrap();

    let BlockKind::Observe { condition } = &draft.blocks[0].kind else {
        panic!()
    };
    assert!(matches!(
        condition,
        Condition::Text {
            mode: ObserveMode::WaitForTrue {
                timeout_ms: Limit::Unlimited,
                ..
            },
            ..
        }
    ));
    assert!(matches!(
        draft.blocks[1].kind,
        BlockKind::RepeatN { count: 7, .. }
    ));
    assert!(matches!(
        draft.blocks[2].kind,
        BlockKind::RepeatUntil {
            max_iterations: Limit::Unlimited,
            ..
        }
    ));
    let BlockKind::WatchGroup { group } = &draft.blocks[3].kind else {
        panic!()
    };
    assert_eq!(group.timeout_ms, Limit::Unlimited);
    assert_eq!(group.cooldown_ms, 275);
}

#[test]
fn duplication_remaps_internal_dependency_and_undo_is_bounded() {
    let subtree = Block {
        id: "loop".into(),
        enabled: true,
        kind: BlockKind::RepeatN {
            count: 1,
            body: vec![
                Block {
                    id: "source".into(),
                    enabled: true,
                    kind: BlockKind::Observe {
                        condition: Condition::Text {
                            source_block_id: "source".into(),
                            rule_id: "r".into(),
                            mode: ObserveMode::CheckNow,
                        },
                    },
                },
                Block {
                    id: "click".into(),
                    enabled: true,
                    kind: BlockKind::Action {
                        action: Action::ClickTextMatch {
                            source_block_id: "source".into(),
                            button: MouseButton::Left,
                        },
                    },
                },
            ],
        },
    };
    let mut draft = EditorDraft::new(def(vec![subtree]));
    apply_editor_command(
        &mut draft,
        EditorCommand::DuplicateBlock {
            source: path("loop"),
            target: InsertionTarget {
                container: ContainerPath::Root,
                index: 1,
            },
        },
    )
    .unwrap();
    let BlockKind::RepeatN { body, .. } = &draft.definition.blocks[1].kind else {
        panic!()
    };
    assert!(
        matches!(body[1].kind,BlockKind::Action{action:Action::ClickTextMatch{ref source_block_id,..}}if source_block_id=="source-copy")
    );
    for _ in 0..40 {
        let enabled = !draft.definition.blocks[0].enabled;
        apply_editor_command(
            &mut draft,
            EditorCommand::SetBlockEnabled {
                path: path("loop"),
                enabled,
            },
        )
        .unwrap();
    }
    assert_eq!(draft.undo_len(), EDITOR_UNDO_LIMIT);
}

#[test]
fn sibling_reorder_and_lane_enable_are_revisioned() {
    let mut draft = EditorDraft::new(def(vec![comment("a"), comment("b"), comment("c")]));
    apply_editor_command(
        &mut draft,
        EditorCommand::ReorderSibling {
            path: path("c"),
            to_index: 0,
        },
    )
    .unwrap();
    assert_eq!(
        draft
            .definition
            .blocks
            .iter()
            .map(|b| b.id.as_str())
            .collect::<Vec<_>>(),
        vec!["c", "a", "b"]
    );
    assert_eq!(draft.definition.revision, 5);
}
