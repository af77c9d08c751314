//! What the drawings and lists of a macro promise, on chosen macros.
use macro_ui::canvas::truncate;
use macro_ui::canvas_layout::{
    CanvasLayoutEngine, CanvasLayoutError, MacroCanvasLayout, Position, auto_arrange,
    reconcile_layout, valid_persisted_zoom,
};
use macro_ui::canvas_model::{
    CanvasConnectionError, CanvasEdgeKind, OutputPort, connection_command,
    insertion_target_for_port, port_owner_id, project_canvas,
};
use macro_ui::draft::{EditorDraft, apply_editor_command};
use macro_ui::editor_types::{EditorCommand, InsertionTarget};
use macro_ui::history::{EditDomain, HistoryError, LayoutHistory, UiEditHistory};
use macro_ui::container::ContainerPath;
use macro_ui::macro_engine::{
    Block, BlockKind, Condition, F32Bits, FocusLossPolicy, Limit, MACRO_SCHEMA_VERSION,
    MacroDefinition, ObserveMode, SafetyPolicy, TargetProfile,
};
use macro_ui::palette::{PaletteKind, palette_command};
use macro_ui::presentation::{format_duration, format_limit};
use macro_ui::sources::next_unique_id;
use macro_ui::step_list::{StepListRow, project_step_list};
use macro_ui::timeline::project_timeline;
use macro_ui::tree::walk;

fn single(value: f32) -> F32Bits {
    F32Bits(value.to_bits())
}

fn at(x: f32, y: f32) -> Position {
    Position { x: single(x), y: single(y) }
}

fn block(id: &str, kind: BlockKind) -> Block {
    Block { id: id.into(), enabled: true, kind }
}

fn wait(id: &str) -> Block {
    block(id, BlockKind::Wait { duration_ms: 250 })
}

fn choice(id: &str, then_body: Vec<Block>, else_body: Vec<Block>) -> Block {
    let condition = Condition::Text {
        source_block_id: id.into(),
        rule_id: "rule".into(),
        mode: ObserveMode::CheckNow,
    };
    block(id, BlockKind::If { condition, then_body, else_body })
}

fn repeat(id: &str, body: Vec<Block>) -> Block {
    block(id, BlockKind::RepeatN { count: 3, body })
}

fn definition(blocks: Vec<Block>) -> MacroDefinition {
    MacroDefinition {
        schema_version: MACRO_SCHEMA_VERSION,
        id: "macro".into(),
        name: "Macro".into(),
        revision: 1,
        target: TargetProfile {
            process_path: "game.exe".into(),
            window_class: "window".into(),
            title_contains: "Game".into(),
            captured_client_width: 1280,
            captured_client_height: 720,
            captured_dpi: 96,
        },
        regions: vec![],
        points: vec![],
        text_rules: vec![],
        image_rules: vec![],
        blocks,
        safety: SafetyPolicy {
            max_runtime_ms: Limit::Unlimited,
            max_clicks: Limit::Unlimited,
            max_observation_retries: Limit::Unlimited,
            max_observations_per_second: 20,
            minimum_click_interval_ms: 100,
            focus_loss: FocusLossPolicy::Stop,
        },
    }
}

fn forest() -> MacroDefinition {
    definition(vec![
        wait("first"),
        choice("if", vec![wait("then")], vec![wait("else")]),
        repeat("loop", vec![wait("body")]),
    ])
}

fn walked(definition: &MacroDefinition) -> Vec<String> {
    walk(&definition.blocks).into_iter().map(|block| block.id.clone()).collect()
}

#[test]
fn every_block_is_drawn_and_listed_once() {
    let definition = forest();
    let ids = walked(&definition);
    let graph = project_canvas(&definition);
    let drawn = graph.nodes.iter().map(|node| node.id.clone()).collect::<Vec<_>>();
    assert_eq!(drawn, ids);
    let listed = project_step_list(&definition)
        .iter()
        .filter_map(|row| row.block_id().map(String::from))
        .collect::<Vec<_>>();
    assert_eq!(listed, ids);
    let timed = project_timeline(&definition.blocks)
        .into_iter()
        .filter(|row| !row.is_loop_marker)
        .filter_map(|row| row.identity)
        .collect::<Vec<_>>();
    assert_eq!(timed, ids);
}

#[test]
fn the_canvas_and_the_step_list_tell_the_same() {
    let definition = forest();
    let told = project_step_list(&definition)
        .into_iter()
        .filter_map(|row| match row {
            StepListRow::Block { id, title, summary, category, selection, .. } => {
                Some((id, title, summary, category, selection))
            }
            StepListRow::Section { .. } => None,
        })
        .collect::<Vec<_>>();
    let drawn = project_canvas(&definition)
        .nodes
        .into_iter()
        .map(|node| (node.id, node.title, node.summary, node.category, node.selection))
        .collect::<Vec<_>>();
    assert_eq!(told, drawn);
    assert_eq!(drawn.len(), 6);
}

#[test]
fn a_port_leads_somewhere_where_a_node_shows_it() {
    let definition = forest();
    let graph = project_canvas(&definition);
    for id in ["first", "if", "then", "loop", "nowhere"] {
        let node = graph.nodes.iter().find(|node| node.id == id);
        for port in [
            OutputPort::Next(id.into()),
            OutputPort::IfThen(id.into()),
            OutputPort::IfElse(id.into()),
            OutputPort::LoopBody(id.into()),
            OutputPort::TimeoutBody(id.into()),
            OutputPort::LoopReturn(id.into()),
        ] {
            let target = insertion_target_for_port(&definition, &port);
            let shown = node.is_some_and(|node| node.outputs.contains(&port));
            if matches!(port, OutputPort::LoopReturn(_)) {
                assert_eq!(target, Err(CanvasConnectionError::InvalidPort));
                assert_eq!(shown, id == "loop");
            } else if node.is_none() {
                assert_eq!(target, Err(CanvasConnectionError::MissingSource(id.into())));
            } else if shown {
                assert!(target.is_ok(), "{port:?}");
            } else {
                assert_eq!(target, Err(CanvasConnectionError::InvalidPort));
            }
        }
    }
    assert_eq!(
        insertion_target_for_port(&definition, &OutputPort::Next("if".into())),
        Ok(InsertionTarget { container: ContainerPath::Root, index: 2 })
    );
    assert_eq!(
        insertion_target_for_port(&definition, &OutputPort::IfElse("if".into())),
        Ok(InsertionTarget { container: ContainerPath::IfElse { if_id: "if".into() }, index: 1 })
    );
}

#[test]
fn layouts_are_equal_whatever_the_order_of_their_nodes() {
    let layout = |ids: [&str; 2]| {
        let mut layout = MacroCanvasLayout::default();
        for id in ids {
            let x = if id == "a" { 1.0 } else { 2.0 };
            layout.node_positions.insert(id.into(), at(x, 0.0));
        }
        layout
    };
    assert_eq!(layout(["a", "b"]), layout(["b", "a"]));
    let mut moved = layout(["a", "b"]);
    moved.node_positions.insert("a".into(), at(9.0, 0.0));
    assert_ne!(moved, layout(["a", "b"]));
    moved.node_positions.insert("a".into(), at(1.0, -0.0));
    assert_eq!(moved, layout(["a", "b"]));
    moved.zoom = single(f32::NAN);
    assert_ne!(moved, moved.clone());
}

#[test]
fn edges_join_blocks_and_only_loops_lead_back() {
    let definition = forest();
    let ids = walked(&definition);
    let place = |id: &String| ids.iter().position(|other| other == id).unwrap();
    for edge in project_canvas(&definition).edges {
        let (from, to) = (place(port_owner_id(&edge.from)), place(&edge.to));
        if edge.kind == CanvasEdgeKind::LoopReturn {
            assert!(to <= from && !edge.editable);
        } else {
            assert!(from < to && edge.editable);
        }
    }
}

#[test]
fn an_arrangement_centres_each_layer() {
    let graph = project_canvas(&definition(vec![wait("only")]));
    let layout = auto_arrange(&graph);
    assert_eq!(layout.node_positions.get("only"), Some(&at(-140.0, 0.0)));

    let graph = project_canvas(&definition(vec![choice("if", vec![wait("a")], vec![wait("b")])]));
    let layout = auto_arrange(&graph);
    assert_eq!(layout.node_positions.get("if"), Some(&at(-140.0, 0.0)));
    assert_eq!(layout.node_positions.get("a"), Some(&at(-298.0, 160.0)));
    assert_eq!(layout.node_positions.get("b"), Some(&at(18.0, 160.0)));
    assert_eq!(layout.node_positions.ids().len(), 3);
}

#[test]
fn reconciling_keeps_good_positions_and_settles() {
    let graph = project_canvas(&forest());
    let mut saved = MacroCanvasLayout::default();
    saved.node_positions.insert("first".into(), at(5.0, 6.0));
    saved.node_positions.insert("then".into(), at(f32::NAN, 6.0));
    saved.node_positions.insert("gone".into(), at(1.0, 2.0));
    let layout = reconcile_layout(&graph, saved);
    assert_eq!(layout.node_positions.get("first"), Some(&at(5.0, 6.0)));
    assert_eq!(
        layout.node_positions.get("then"),
        auto_arrange(&graph).node_positions.get("then")
    );
    assert!(!layout.node_positions.contains_key("gone"));
    assert_eq!(layout.node_positions.ids().len(), graph.nodes.len());
    let again = reconcile_layout(&graph, layout.clone());
    assert_eq!(again, layout);
}

#[test]
fn a_kept_zoom_is_within_its_bounds() {
    for (zoom, kept) in [
        (1.0, 1.0),
        (0.25, 0.25),
        (0.0, 1.0),
        (0.0001, 0.001),
        (5.0, 1.75),
        (f32::NAN, 1.0),
        (f32::INFINITY, 1.0),
    ] {
        let first = valid_persisted_zoom(single(zoom));
        assert_eq!(first, single(kept), "{zoom}");
        assert_eq!(valid_persisted_zoom(first), first);
    }
}

#[test]
fn a_node_moves_only_to_a_finite_place() {
    let mut layout = MacroCanvasLayout::default();
    assert_eq!(
        CanvasLayoutEngine::move_node(&mut layout, "first", at(f32::INFINITY, 0.0)).unwrap_err(),
        CanvasLayoutError::NonFinitePosition
    );
    assert_eq!(layout, MacroCanvasLayout::default());
    let edit = CanvasLayoutEngine::move_node(&mut layout, "first", at(1.0, 2.0)).unwrap();
    assert_eq!(layout.node_positions.get("first"), Some(&at(1.0, 2.0)));
    edit.apply_before(&mut layout);
    assert_eq!(layout, MacroCanvasLayout::default());
    edit.apply_after(&mut layout);
    assert_eq!(layout.node_positions.get("first"), Some(&at(1.0, 2.0)));
}

#[test]
fn an_empty_history_has_nothing_to_take_back() {
    let mut layout = MacroCanvasLayout::default();
    let mut history = LayoutHistory::default();
    assert_eq!(history.undo(&mut layout), Err(HistoryError::NothingToUndo));
    assert_eq!(history.redo(&mut layout), Err(HistoryError::NothingToRedo));
    let mut draft = EditorDraft::new(forest());
    let mut shared = UiEditHistory::default();
    assert_eq!(shared.undo(&mut draft, &mut layout), Err(HistoryError::NothingToUndo));
    assert_eq!(shared.redo(&mut draft, &mut layout), Err(HistoryError::NothingToRedo));
}

#[test]
fn steps_of_the_shared_history_stay_in_their_domain() {
    let mut draft = EditorDraft::new(forest());
    let mut layout = MacroCanvasLayout::default();
    let mut history = UiEditHistory::default();
    let insert = EditorCommand::InsertBlock {
        target: InsertionTarget { container: ContainerPath::Root, index: 0 },
        block: wait("new"),
    };
    apply_editor_command(&mut draft, insert).unwrap();
    history.record_definition();
    history
        .record_layout(CanvasLayoutEngine::move_node(&mut layout, "first", at(1.0, 2.0)).unwrap());
    let edited = draft.clone();

    assert_eq!(history.undo(&mut draft, &mut layout), Ok(EditDomain::Layout));
    assert_eq!(draft, edited);
    assert!(!layout.node_positions.contains_key("first"));
    assert_eq!(history.undo(&mut draft, &mut layout), Ok(EditDomain::Definition));
    assert_eq!(walked(&draft.definition), walked(&forest()));
    assert_eq!((history.undo_len(), history.redo_len()), (0, 2));
    assert_eq!(history.redo(&mut draft, &mut layout), Ok(EditDomain::Definition));
    assert_eq!(history.redo(&mut draft, &mut layout), Ok(EditDomain::Layout));
    assert_eq!(draft.definition.blocks, edited.definition.blocks);
    assert_eq!(layout.node_positions.get("first"), Some(&at(1.0, 2.0)));
}

#[test]
fn the_shared_history_keeps_a_hundred_edits() {
    let mut layout = MacroCanvasLayout::default();
    let mut history = UiEditHistory::default();
    for step in 0..130 {
        let edit = CanvasLayoutEngine::move_node(&mut layout, "first", at(step as f32, 0.0));
        history.record_layout(edit.unwrap());
    }
    assert_eq!(history.undo_len(), 100);
}

#[test]
fn a_refused_definition_step_names_the_reason() {
    let mut draft = EditorDraft::new(forest());
    let mut layout = MacroCanvasLayout::default();
    let mut history = UiEditHistory::default();
    history.record_definition();
    assert_eq!(
        history.undo(&mut draft, &mut layout),
        Err(HistoryError::Definition(macro_ui::editor_types::EditorError::NothingToUndo))
    );
}

#[test]
fn every_connection_error_has_an_input() {
    let draft = EditorDraft::new(forest());
    let connect = |port: OutputPort, target: &str| connection_command(&draft, port, target).unwrap_err();
    assert_eq!(
        connect(OutputPort::Next("gone".into()), "first"),
        CanvasConnectionError::MissingSource("gone".into())
    );
    assert_eq!(
        connect(OutputPort::Next("first".into()), "gone"),
        CanvasConnectionError::MissingTarget("gone".into())
    );
    assert_eq!(
        connect(OutputPort::IfThen("first".into()), "loop"),
        CanvasConnectionError::InvalidPort
    );
    assert_eq!(
        connect(OutputPort::Next("first".into()), "first"),
        CanvasConnectionError::IllegalSelf
    );
    assert_eq!(
        connect(OutputPort::Next("then".into()), "if"),
        CanvasConnectionError::IllegalDescendant
    );
}

#[test]
fn an_accepted_connection_is_a_move_that_the_draft_accepts() {
    let mut draft = EditorDraft::new(forest());
    let command = connection_command(&draft, OutputPort::LoopBody("loop".into()), "first").unwrap();
    apply_editor_command(&mut draft, command).unwrap();
    assert_eq!(walked(&draft.definition), ["if", "then", "else", "loop", "body", "first"]);
}

#[test]
fn new_identities_count_on_until_one_is_free() {
    let draft = EditorDraft::new(definition(vec![wait("wait-1"), wait("wait-3")]));
    assert_eq!(next_unique_id(&draft, "wait"), "wait-2");
    assert_eq!(next_unique_id(&draft, "note"), "note-1");
}

#[test]
fn what_the_palette_inserts_is_accepted() {
    let mut draft = EditorDraft::new(forest());
    for selected in [None, Some("then"), Some("loop"), Some("nowhere")] {
        let command = palette_command(&draft, selected, PaletteKind::Wait).unwrap();
        apply_editor_command(&mut draft, command).unwrap();
    }
    assert_eq!(walked(&draft.definition).len(), 10);
}

#[test]
fn long_texts_are_cut_and_durations_are_worded() {
    assert_eq!(truncate("abc", 3), "abc");
    assert_eq!(truncate("abcd", 3), "abc\u{2026}");
    assert_eq!(truncate("\u{e4}\u{f6}\u{fc}x", 3), "\u{e4}\u{f6}\u{fc}\u{2026}");
    assert_eq!(format_duration(999), "999 ms");
    assert_eq!(format_duration(1_000), "1 seconds");
    assert_eq!(format_duration(1_500), "1500 ms");
    assert_eq!(format_duration(0), "0 ms");
    assert_eq!(format_limit(&Limit::Finite(250)), "250");
}
