//! The history of the layout.
use macro_ui::canvas_layout::{CanvasLayoutEngine, MacroCanvasLayout, Position};
use macro_ui::history::LayoutHistory;
use macro_ui::macro_engine::F32Bits;

fn single(value: f32) -> F32Bits {
    F32Bits(value.to_bits())
}

fn at(x: f32, y: f32) -> Position {
    Position { x: single(x), y: single(y) }
}

fn placed(layout: &MacroCanvasLayout, id: &str) -> Position {
    *layout.node_positions.get(id).unwrap()
}

#[test]
fn layout_history_restores_node_move() {
    let mut layout = MacroCanvasLayout::default();
    let mut history = LayoutHistory::default();
    let edit = CanvasLayoutEngine::move_node(&mut layout, "observe", at(20.0, 40.0)).unwrap();
    history.record(edit);
    history.undo(&mut layout).unwrap();
    assert!(!layout.node_positions.contains_key("observe"));
    history.redo(&mut layout).unwrap();
    assert_eq!(placed(&layout, "observe"), at(20.0, 40.0));
}
