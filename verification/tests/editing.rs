//! What editing promises of every draft, on chosen drafts.
use macro_ui::authoring::editor_authoring_fingerprint;
use macro_ui::canvas_model::{OutputPort, connection_command, insertion_target_for_port};
use macro_ui::container::ContainerPath;
use macro_ui::conversion::{ReplacementKind, pending_conversion_valid, replace_block_preview};
use macro_ui::draft::{EditorDraft, apply_editor_command, detector_fingerprint_for_block};
use macro_ui::duplicate::unique_copy_id;
use macro_ui::editor_types::{
    BlockPath, ChildDisposition, ConversionTarget, DraftEditability, DraftStatus, EditOutcome,
    EditorCommand, EditorError, IfBranch, InsertionTarget, LoopDeletionChoice,
};
use macro_ui::id_set::IdSet;
use macro_ui::identities::all_ids;
use macro_ui::inspector::{image_rule_edit, text_rule_edit};
use macro_ui::macro_engine::{
    AssetRef, Block, BlockKind, Condition, F32Bits, F64Bits, FocusLossPolicy, ImageRule,
    ImageRuleVerificationArtifact, Limit, MACRO_SCHEMA_VERSION, MacroDefinition,
    MatchSelectionPolicy, ObserveMode, PassiveCondition, PreprocessProfile, RectRatio,
    RegionDefinition, SafetyPolicy, TargetProfile, TextMatchMode, TextRule, TimeoutOutcome,
    ValidationProblem, WatchGroup, WatchLane,
};
use macro_ui::page_edit::error_text;
use macro_ui::places::{block_at_path, locate_block_path, sibling_position};
use macro_ui::tree::walk;

fn double(value: f64) -> F64Bits {
    F64Bits(value.to_bits())
}

fn rect(x: f64) -> RectRatio {
    RectRatio { x: double(x), y: double(0.0), width: double(0.5), height: double(0.5) }
}

fn text_rule(id: &str) -> TextRule {
    TextRule {
        id: id.into(),
        revision: 1,
        region_id: "scan".into(),
        language: "en-US".into(),
        preprocess: PreprocessProfile::Grayscale,
        expected: "Salvage".into(),
        match_mode: TextMatchMode::Contains,
        threshold: double(0.9),
        case_sensitive: false,
        allow_cross_line: false,
        match_policy: MatchSelectionPolicy::ExactlyOne,
        poll_interval_ms: 250,
        timeout_ms: Limit::Unlimited,
        stable_frames: 2,
    }
}

fn image_rule(id: &str) -> ImageRule {
    ImageRule {
        id: id.into(),
        revision: 4,
        region_id: "scan".into(),
        template: AssetRef { id: "icon".into(), revision: 1, content_hash: "hash".into() },
        transparent_mask: None,
        threshold: F32Bits(0.9f32.to_bits()),
        scales_percent: vec![100],
        stable_frames: 2,
        maximum_center_drift_px: 5,
        minimum_runner_up_margin: F32Bits(0.05f32.to_bits()),
        verification: Some(ImageRuleVerificationArtifact { digest: "verified".into() }),
        match_policy: MatchSelectionPolicy::ExactlyOne,
        poll_interval_ms: 100,
        timeout_ms: Limit::Unlimited,
    }
}

fn definition(blocks: Vec<Block>) -> MacroDefinition {
    MacroDefinition {
        schema_version: MACRO_SCHEMA_VERSION,
        id: "macro".into(),
        name: "Macro".into(),
        revision: 7,
        target: TargetProfile {
            process_path: "game.exe".into(),
            window_class: "window".into(),
            title_contains: "Game".into(),
            captured_client_width: 1280,
            captured_client_height: 720,
            captured_dpi: 96,
        },
        regions: vec![RegionDefinition { id: "scan".into(), revision: 1, rect: rect(0.1) }],
        points: vec![],
        text_rules: vec![text_rule("rule")],
        image_rules: vec![image_rule("icon-rule")],
        blocks,
        safety: SafetyPolicy {
            max_runtime_ms: Limit::Unlimited,
            max_clicks: Limit::Unlimited,
            max_observation_retries: Limit::Unlimited,
            max_observations_per_second: 20,
            minimum_click_interval_ms: 100,
            focus_loss: FocusLossPolicy::Stop,
        },
    }
}

fn draft(blocks: Vec<Block>) -> EditorDraft {
    EditorDraft::new(definition(blocks))
}

fn block(id: &str, kind: BlockKind) -> Block {
    Block { id: id.into(), enabled: true, kind }
}

fn wait(id: &str) -> Block {
    block(id, BlockKind::Wait { duration_ms: 250 })
}

fn condition(id: &str, mode: ObserveMode) -> Condition {
    Condition::Text { source_block_id: id.into(), rule_id: "rule".into(), mode }
}

fn observe(id: &str) -> Block {
    block(id, BlockKind::Observe { condition: condition(id, ObserveMode::CheckNow) })
}

fn observe_with_timeout(id: &str, body: Vec<Block>) -> Block {
    let mode = ObserveMode::WaitForTrue {
        timeout_ms: Limit::Finite(100),
        timeout_outcome: TimeoutOutcome::RunBody { body },
    };
    block(id, BlockKind::Observe { condition: condition(id, mode) })
}

fn choice(id: &str, then_body: Vec<Block>, else_body: Vec<Block>) -> Block {
    let condition = condition(id, ObserveMode::CheckNow);
    block(id, BlockKind::If { condition, then_body, else_body })
}

fn repeat(id: &str, body: Vec<Block>) -> Block {
    block(id, BlockKind::RepeatN { count: 3, body })
}

fn watch(id: &str, lanes: Vec<(&str, Vec<Block>)>) -> Block {
    let lanes = lanes
        .into_iter()
        .map(|(lane, then_body)| WatchLane {
            id: lane.into(),
            enabled: true,
            condition: PassiveCondition::Text {
                source_block_id: lane.into(),
                rule_id: "rule".into(),
            },
            then_body,
        })
        .collect();
    block(
        id,
        BlockKind::WatchGroup {
            group: WatchGroup {
                lanes,
                timeout_ms: Limit::Finite(500),
                timeout_outcome: TimeoutOutcome::Continue,
                cooldown_ms: 10,
            },
        },
    )
}

/// One block of every shape, with blocks in every body.
fn forest() -> Vec<Block> {
    vec![
        wait("w1"),
        choice("if", vec![wait("t1"), repeat("loop", vec![wait("l1"), wait("l2")])], vec![wait("e1")]),
        watch("watch", vec![("lane-a", vec![wait("a1")]), ("lane-b", vec![])]),
        observe_with_timeout("seen", vec![wait("late")]),
    ]
}

fn at_root(block_id: &str) -> BlockPath {
    BlockPath { container: ContainerPath::Root, block_id: block_id.into() }
}

fn root(index: usize) -> InsertionTarget {
    InsertionTarget { container: ContainerPath::Root, index }
}

fn then_of(if_id: &str) -> ContainerPath {
    ContainerPath::IfThen { if_id: if_id.into() }
}

fn ids(draft: &EditorDraft) -> Vec<String> {
    all_ids(&draft.definition.blocks).into_iter().cloned().collect()
}

fn sorted_ids(draft: &EditorDraft) -> Vec<String> {
    let mut all = ids(draft);
    all.sort();
    all
}

fn refused(blocks: Vec<Block>, command: EditorCommand) -> EditorError {
    let mut draft = draft(blocks);
    let before = draft.clone();
    let error = apply_editor_command(&mut draft, command).unwrap_err();
    assert_eq!(draft, before, "a refused command leaves the draft as it was");
    error
}

#[test]
fn every_error_names_its_cause_and_changes_nothing() {
    let insert = |target: InsertionTarget, block: Block| EditorCommand::InsertBlock { target, block };
    assert_eq!(
        refused(forest(), insert(root(0), wait("a1"))),
        EditorError::DuplicateIdentity("a1".into())
    );
    let elsewhere = InsertionTarget { container: then_of("nowhere"), index: 0 };
    assert_eq!(refused(forest(), insert(elsewhere, wait("new"))), EditorError::MissingContainer);
    assert_eq!(refused(forest(), insert(root(5), wait("new"))), EditorError::InvalidIndex);
    let inside = InsertionTarget {
        container: ContainerPath::WatchLaneBody { watch_id: "watch".into(), lane_id: "lane-b".into() },
        index: 0,
    };
    assert_eq!(
        refused(forest(), insert(inside, watch("inner", vec![("lane-c", vec![])]))),
        EditorError::NestedWatchGroup
    );
    let remove = |id: &str, loop_choice: Option<LoopDeletionChoice>| EditorCommand::RemoveBlock {
        path: at_root(id),
        loop_choice,
    };
    assert_eq!(
        refused(forest(), remove("t1", None)),
        EditorError::MissingBlock("t1".into())
    );
    let looped = || vec![repeat("loop", vec![wait("l1")])];
    assert_eq!(refused(looped(), remove("loop", None)), EditorError::LoopDeletionChoiceRequired);
    assert_eq!(
        refused(forest(), remove("w1", Some(LoopDeletionChoice::KeepContents))),
        EditorError::InvalidLoopDeletionChoice
    );
    let lane = |lane_id: &str| EditorCommand::MoveLane {
        group_id: "watch".into(),
        lane_id: lane_id.into(),
        to_index: 0,
    };
    assert_eq!(refused(forest(), lane("lane-x")), EditorError::MissingLane("lane-x".into()));
    assert_eq!(
        refused(forest(), EditorCommand::ReplaceTextRule { rule: text_rule("other") }),
        EditorError::MissingRule("other".into())
    );
    assert_eq!(
        refused(
            forest(),
            EditorCommand::RecaptureRegion { region_id: "gone".into(), rect: rect(0.2) },
        ),
        EditorError::MissingRegion("gone".into())
    );
    let below = InsertionTarget { container: then_of("if"), index: 0 };
    assert_eq!(
        refused(forest(), EditorCommand::MoveBlock { source: at_root("if"), target: below }),
        EditorError::IllegalDescendantMove
    );
    assert_eq!(
        refused(
            forest(),
            EditorCommand::ConvertBlock {
                path: at_root("w1"),
                target: ConversionTarget::RepeatN { count: 2 },
            },
        ),
        EditorError::IncompatibleConversion
    );
    assert_eq!(
        refused(
            forest(),
            EditorCommand::ReplaceBlock {
                path: at_root("w1"),
                replacement: wait("w2"),
                children: ChildDisposition::KeepOwnedContents,
            },
        ),
        EditorError::ReplacementIdMismatch
    );
    let problem = ValidationProblem {
        code: "broken".into(),
        message: "Broken".into(),
        block_id: None,
    };
    assert_eq!(
        refused(forest(), EditorCommand::MarkValidated { runtime_problems: vec![problem] }),
        EditorError::ValidationFailed
    );
    assert_eq!(refused(forest(), EditorCommand::Undo), EditorError::NothingToUndo);
    assert_eq!(refused(forest(), EditorCommand::Redo), EditorError::NothingToRedo);
}

#[test]
fn a_running_draft_refuses_every_command() {
    let mut draft = draft(forest());
    draft.editability = DraftEditability::Running { revision: 7 };
    let before = draft.clone();
    for command in [
        EditorCommand::Undo,
        EditorCommand::MarkValidated { runtime_problems: vec![] },
        EditorCommand::SetBlockEnabled { path: at_root("w1"), enabled: false },
    ] {
        assert_eq!(apply_editor_command(&mut draft, command), Err(EditorError::RunInProgress));
        assert_eq!(draft, before);
    }
}

#[test]
fn undo_and_redo_differ_only_in_the_revision() {
    let mut draft = draft(forest());
    let before = draft.definition.clone();
    let disable = EditorCommand::SetBlockEnabled { path: at_root("w1"), enabled: false };
    assert_eq!(apply_editor_command(&mut draft, disable), Ok(EditOutcome::Changed));
    assert_eq!(draft.definition.revision, 8);
    assert_eq!(draft.status, DraftStatus::NeedsValidation);
    let edited = draft.definition.clone();

    assert_eq!(apply_editor_command(&mut draft, EditorCommand::Undo), Ok(EditOutcome::Changed));
    assert_eq!(draft.definition.revision, 9);
    assert_eq!(draft.definition.blocks, before.blocks);
    assert_eq!((draft.undo_len(), draft.redo_len()), (0, 1));

    assert_eq!(apply_editor_command(&mut draft, EditorCommand::Redo), Ok(EditOutcome::Changed));
    assert_eq!(draft.definition.revision, 10);
    assert_eq!(draft.definition.blocks, edited.blocks);
    assert_eq!((draft.undo_len(), draft.redo_len()), (1, 0));
}

#[test]
fn a_new_edit_leaves_nothing_to_redo() {
    let mut draft = draft(forest());
    let set = |enabled: bool| EditorCommand::SetBlockEnabled { path: at_root("w1"), enabled };
    apply_editor_command(&mut draft, set(false)).unwrap();
    apply_editor_command(&mut draft, EditorCommand::Undo).unwrap();
    assert_eq!(draft.redo_len(), 1);
    apply_editor_command(&mut draft, set(false)).unwrap();
    assert_eq!(draft.redo_len(), 0);
}

#[test]
fn the_history_keeps_the_last_thirty_two_edits() {
    let mut draft = draft(vec![wait("w1")]);
    for duration_ms in 1..=40 {
        let path = at_root("w1");
        apply_editor_command(&mut draft, EditorCommand::SetWaitDuration { path, duration_ms })
            .unwrap();
    }
    assert_eq!(draft.undo_len(), 32);
    for _ in 0..32 {
        apply_editor_command(&mut draft, EditorCommand::Undo).unwrap();
    }
    assert_eq!(
        apply_editor_command(&mut draft, EditorCommand::Undo),
        Err(EditorError::NothingToUndo)
    );
    assert_eq!(draft.definition.blocks[0].kind, BlockKind::Wait { duration_ms: 8 });
}

#[test]
fn an_edit_that_changes_nothing_is_no_change() {
    let mut draft = draft(forest());
    let before = draft.clone();
    let same = EditorCommand::SetBlockEnabled { path: at_root("w1"), enabled: true };
    assert_eq!(apply_editor_command(&mut draft, same), Ok(EditOutcome::NoChange));
    assert_eq!(draft, before);
}

#[test]
fn only_a_clean_validation_makes_a_draft_ready() {
    let mut draft = draft(forest());
    apply_editor_command(
        &mut draft,
        EditorCommand::SetBlockEnabled { path: at_root("w1"), enabled: false },
    )
    .unwrap();
    assert_eq!(draft.status, DraftStatus::NeedsValidation);
    let validate = || EditorCommand::MarkValidated { runtime_problems: vec![] };
    assert_eq!(apply_editor_command(&mut draft, validate()), Ok(EditOutcome::Validated));
    assert_eq!(draft.status, DraftStatus::Ready);
    assert_eq!(apply_editor_command(&mut draft, validate()), Ok(EditOutcome::NoChange));
}

#[test]
fn insertion_keeps_everything_and_adds_the_block() {
    let mut draft = draft(forest());
    let mut expected = ids(&draft);
    expected.push("new".into());
    expected.sort();
    let target = InsertionTarget { container: then_of("if"), index: 1 };
    apply_editor_command(&mut draft, EditorCommand::InsertBlock { target, block: wait("new") })
        .unwrap();
    assert_eq!(sorted_ids(&draft), expected);
    let path = BlockPath { container: then_of("if"), block_id: "new".into() };
    assert_eq!(locate_block_path(&draft, "new"), Some(path.clone()));
    assert_eq!(block_at_path(&draft, &path), Some(&wait("new")));
    assert_eq!(sibling_position(&draft, &path), Some((1, 3)));
}

#[test]
fn removal_takes_the_block_with_its_contents_or_leaves_them() {
    let path = BlockPath { container: then_of("if"), block_id: "loop".into() };
    let remove = |choice| EditorCommand::RemoveBlock { path: path.clone(), loop_choice: Some(choice) };
    let mut emptied = draft(forest());
    apply_editor_command(&mut emptied, remove(LoopDeletionChoice::DeleteWithContents)).unwrap();
    for gone in ["loop", "l1", "l2"] {
        assert!(locate_block_path(&emptied, gone).is_none());
    }
    assert_eq!(ids(&emptied).len(), ids(&draft(forest())).len() - 3);

    let mut unwrapped = draft(forest());
    apply_editor_command(&mut unwrapped, remove(LoopDeletionChoice::KeepContents)).unwrap();
    assert!(locate_block_path(&unwrapped, "loop").is_none());
    for kept in ["l1", "l2"] {
        assert_eq!(locate_block_path(&unwrapped, kept).unwrap().container, then_of("if"));
    }
    assert_eq!(ids(&unwrapped).len(), ids(&draft(forest())).len() - 1);
}

#[test]
fn moving_reordering_and_transfer_keep_every_block() {
    let commands = [
        EditorCommand::ReorderSibling { path: at_root("w1"), to_index: 3 },
        EditorCommand::MoveBlock {
            source: BlockPath { container: then_of("if"), block_id: "loop".into() },
            target: root(0),
        },
        EditorCommand::TransferIfBranch {
            if_id: "if".into(),
            branch: IfBranch::Then,
            block_id: "t1".into(),
            to_index: 1,
        },
        EditorCommand::MoveLane { group_id: "watch".into(), lane_id: "lane-a".into(), to_index: 1 },
    ];
    for command in commands {
        let mut draft = draft(forest());
        let before = sorted_ids(&draft);
        assert_eq!(apply_editor_command(&mut draft, command), Ok(EditOutcome::Changed));
        assert_eq!(sorted_ids(&draft), before);
    }
    let mut moved = draft(forest());
    apply_editor_command(
        &mut moved,
        EditorCommand::MoveLane { group_id: "watch".into(), lane_id: "lane-a".into(), to_index: 1 },
    )
    .unwrap();
    assert_eq!(moved.watch_lane_ids("watch"), vec!["lane-b", "lane-a"]);
}

#[test]
fn a_copy_has_identities_of_its_own() {
    let mut draft = draft(forest());
    for (index, expected) in [(2, "if-copy"), (3, "if-copy-2")] {
        let command = EditorCommand::DuplicateBlock { source: at_root("if"), target: root(index) };
        apply_editor_command(&mut draft, command).unwrap();
        assert_eq!(draft.definition.blocks[index].id, expected);
    }
    let mut all = ids(&draft);
    let count = all.len();
    all.sort();
    all.dedup();
    assert_eq!(all.len(), count);
    for copied in ["t1-copy", "loop-copy", "l1-copy-2", "e1-copy"] {
        assert!(locate_block_path(&draft, copied).is_some(), "missing {copied}");
    }
}

#[test]
fn a_copy_of_a_timeout_body_is_refused_as_a_repetition() {
    let command = EditorCommand::DuplicateBlock { source: at_root("seen"), target: root(0) };
    assert_eq!(refused(forest(), command), EditorError::DuplicateIdentity("late".into()));
}

#[test]
fn copies_count_on_until_a_name_is_free() {
    let mut used = IdSet::new();
    assert_eq!(unique_copy_id("step", &mut used), "step-copy");
    assert_eq!(unique_copy_id("step", &mut used), "step-copy-2");
    assert_eq!(unique_copy_id("step", &mut used), "step-copy-3");
}

#[test]
fn every_block_is_found_where_it_is_located() {
    let draft = draft(forest());
    for block in walk(&draft.definition.blocks) {
        let path = locate_block_path(&draft, &block.id).unwrap();
        assert_eq!(block_at_path(&draft, &path), Some(block));
    }
    assert!(locate_block_path(&draft, "nowhere").is_none());
}

#[test]
fn a_block_is_read_only_where_it_is_located() {
    let draft = draft(forest());
    let containers = [
        ContainerPath::Root,
        then_of("if"),
        ContainerPath::IfElse { if_id: "if".into() },
        ContainerPath::LoopBody { loop_id: "loop".into() },
    ];
    for block in walk(&draft.definition.blocks) {
        let located = locate_block_path(&draft, &block.id).unwrap();
        for container in &containers {
            let path = BlockPath { container: container.clone(), block_id: block.id.clone() };
            let read = block_at_path(&draft, &path);
            assert_eq!(read.is_some(), path == located, "{path:?}");
        }
    }
}

#[test]
fn numbers_of_rules_and_regions_are_compared_as_numbers() {
    let nan = f64::NAN;
    for (before, after, outcome) in [
        (0.0, -0.0, EditOutcome::NoChange),
        (0.25, 0.25, EditOutcome::NoChange),
        (0.25, 0.5, EditOutcome::Changed),
        (nan, nan, EditOutcome::Changed),
    ] {
        let mut rule = text_rule("rule");
        rule.threshold = double(before);
        let mut macro_definition = definition(vec![observe("seen")]);
        macro_definition.text_rules = vec![rule.clone()];
        macro_definition.regions[0].rect = rect(before);
        macro_definition.image_rules[0].threshold = F32Bits((before as f32).to_bits());

        let mut draft = EditorDraft::new(macro_definition.clone());
        rule.threshold = double(after);
        let command = EditorCommand::ReplaceTextRule { rule };
        assert_eq!(apply_editor_command(&mut draft, command), Ok(outcome));

        let mut draft = EditorDraft::new(macro_definition.clone());
        let command = EditorCommand::RecaptureRegion { region_id: "scan".into(), rect: rect(after) };
        assert_eq!(apply_editor_command(&mut draft, command), Ok(outcome));

        let mut rule = macro_definition.image_rules[0].clone();
        rule.threshold = F32Bits((after as f32).to_bits());
        let mut draft = EditorDraft::new(macro_definition);
        let command = EditorCommand::ReplaceImageRule { rule };
        assert_eq!(apply_editor_command(&mut draft, command), Ok(outcome));
    }
}

#[test]
fn prints_of_definitions_do_not_tell_what_is_no_number_apart() {
    let prints = |bits: u64, single: u32| {
        let mut macro_definition = definition(vec![observe("seen")]);
        macro_definition.text_rules[0].threshold = F64Bits(bits);
        macro_definition.regions[0].rect.width = F64Bits(bits);
        macro_definition.image_rules[0].threshold = F32Bits(single);
        let detector = detector_fingerprint_for_block(&macro_definition, "seen").unwrap();
        (detector, editor_authoring_fingerprint(&EditorDraft::new(macro_definition)))
    };
    let (double_nan, single_nan) = (f64::NAN.to_bits(), f32::NAN.to_bits());
    let plain = prints(double_nan, single_nan);
    assert_eq!(plain, prints((-f64::NAN).to_bits(), (-f32::NAN).to_bits()));
    assert_eq!(plain, prints(double_nan + 1, single_nan + 1));
    assert_ne!(plain, prints(1.0f64.to_bits(), single_nan));
    assert_ne!(plain.1, prints(double_nan, 1.0f32.to_bits()).1);
    assert_ne!(
        prints(0.0f64.to_bits(), single_nan).0,
        prints((-0.0f64).to_bits(), single_nan).0
    );
}

#[test]
fn a_definition_that_holds_no_number_differs_from_itself() {
    let mut macro_definition = definition(vec![wait("one")]);
    macro_definition.regions[0].rect = rect(f64::NAN);
    assert_ne!(macro_definition, macro_definition.clone());
    let mut draft = EditorDraft::new(macro_definition);
    let command = EditorCommand::SetBlockEnabled { path: at_root("one"), enabled: true };
    assert_eq!(apply_editor_command(&mut draft, command), Ok(EditOutcome::Changed));
}

#[test]
fn editing_a_rule_asks_for_a_change_of_its_numbers_only_if_they_differ() {
    let mut rule = text_rule("rule");
    rule.threshold = double(0.0);
    let mut negative = rule.clone();
    negative.threshold = double(-0.0);
    assert_eq!(text_rule_edit(&rule, negative), None);
    let mut unknown = rule.clone();
    unknown.threshold = double(f64::NAN);
    assert!(text_rule_edit(&unknown.clone(), unknown).is_some());
    let mut icon = image_rule("icon-rule");
    icon.minimum_runner_up_margin = F32Bits(f32::NAN.to_bits());
    assert!(image_rule_edit(&icon.clone(), icon, false).is_some());
}

#[test]
fn sets_are_equal_whatever_the_order() {
    let set = |ids: [&str; 3]| {
        let mut set = IdSet::new();
        for id in ids {
            set.insert(id.into());
        }
        set
    };
    assert!(set(["a", "b", "c"]) == set(["c", "a", "b"]));
    assert!(set(["a", "b", "c"]) != set(["a", "b", "d"]));
    assert!(set(["a", "b", "b"]) == set(["b", "a", "a"]));
}

#[test]
fn a_connected_block_stands_where_the_port_leads() {
    for (port, moved, container, position) in [
        (OutputPort::Next("w1".into()), "t1", ContainerPath::Root, (1, 5)),
        (OutputPort::Next("watch".into()), "w1", ContainerPath::Root, (2, 4)),
        (OutputPort::Next("w1".into()), "seen", ContainerPath::Root, (1, 4)),
        (
            OutputPort::LoopBody("loop".into()),
            "w1",
            ContainerPath::LoopBody { loop_id: "loop".into() },
            (2, 3),
        ),
        (OutputPort::IfThen("if".into()), "t1", then_of("if"), (1, 2)),
    ] {
        let mut draft = draft(forest());
        let target = insertion_target_for_port(&draft, &port).unwrap();
        assert_eq!(target.container, container);
        let command = connection_command(&draft, port, moved).unwrap();
        apply_editor_command(&mut draft, command).unwrap();
        let path = locate_block_path(&draft, moved).unwrap();
        assert_eq!(path.container, container);
        assert_eq!(sibling_position(&draft, &path), Some(position));
    }
}

#[test]
fn a_connection_that_nests_a_watch_group_is_refused_by_the_editor() {
    let mut blocks = forest();
    blocks.push(watch("other", vec![("lane-c", vec![])]));
    let port = || OutputPort::WatchLane { group_id: "other".into(), lane_id: "lane-c".into() };
    let mut draft = draft(blocks);
    let nesting = connection_command(&draft, port(), "watch").unwrap();
    let before = draft.clone();
    assert_eq!(apply_editor_command(&mut draft, nesting), Err(EditorError::NestedWatchGroup));
    assert_eq!(draft, before);

    let plain = connection_command(&draft, port(), "if").unwrap();
    let all = sorted_ids(&draft);
    assert_eq!(apply_editor_command(&mut draft, plain), Ok(EditOutcome::Changed));
    assert_eq!(sorted_ids(&draft), all);
    assert_eq!(
        locate_block_path(&draft, "if").unwrap().container,
        ContainerPath::WatchLaneBody { watch_id: "other".into(), lane_id: "lane-c".into() }
    );
}

#[test]
fn rule_edits_count_revisions_and_drop_proofs() {
    let mut draft = draft(vec![observe("seen")]);
    let mut rule = text_rule("rule");
    rule.expected = "Other".into();
    apply_editor_command(&mut draft, EditorCommand::ReplaceTextRule { rule }).unwrap();
    assert_eq!(draft.definition.text_rules[0].revision, 2);
    assert!(draft.invalidated_source_ids().contains("seen"));

    let mut rule = image_rule("icon-rule");
    rule.stable_frames = 3;
    apply_editor_command(&mut draft, EditorCommand::ReplaceImageRule { rule }).unwrap();
    assert_eq!(draft.definition.image_rules[0].revision, 5);
    assert_eq!(draft.definition.image_rules[0].verification, None);

    let command = EditorCommand::RecaptureRegion { region_id: "scan".into(), rect: rect(0.3) };
    apply_editor_command(&mut draft, command).unwrap();
    assert_eq!(draft.definition.regions[0].revision, 2);
    assert_eq!(draft.definition.regions[0].rect, rect(0.3));
}

#[test]
fn a_replacement_clicks_only_on_what_outlives_it() {
    let draft = draft(vec![
        observe("outside"),
        choice("if", vec![observe("inside")], vec![]),
        observe_with_timeout("seen", vec![observe("late")]),
    ]);
    let valid = |id: &str, source: &str, children: ChildDisposition| {
        let path = at_root(id);
        let old = block_at_path(&draft, &path).unwrap();
        let kind = ReplacementKind::ActionText(source.into());
        let mut pending = replace_block_preview(old, path, kind);
        if let EditorCommand::ReplaceBlock { children: given, .. } = &mut pending.command {
            *given = children;
        }
        pending_conversion_valid(&draft, &pending)
    };
    let (keep, delete) =
        (ChildDisposition::KeepOwnedContents, ChildDisposition::DeleteOwnedContents);
    assert!(valid("if", "outside", keep));
    assert!(valid("if", "outside", delete));
    assert!(valid("if", "inside", keep));
    assert!(!valid("if", "inside", delete));
    assert!(valid("seen", "late", keep));
    assert!(!valid("seen", "late", delete));
    assert!(!valid("seen", "seen", keep));
    assert!(!valid("seen", "seen", delete));
    assert!(!valid("seen", "nowhere", keep));
}

#[test]
fn errors_are_shown_with_quoted_names() {
    assert_eq!(error_text(&EditorError::InvalidIndex), "InvalidIndex");
    assert_eq!(
        error_text(&EditorError::MissingBlock("a \"b\"\n".into())),
        "MissingBlock(\"a \\\"b\\\"\\n\")"
    );
    assert_eq!(
        error_text(&EditorError::DuplicateIdentity("wait-1".into())),
        format!("{:?}", EditorError::DuplicateIdentity("wait-1".into()))
    );
}
