//! What holds of what is done on the canvas with the pointer.
use crate::canvas::{
    clicked, drag_edit, dragged, dropped, gesture, held, pinches, wheels, ActionView,
    CanvasInputFrame, HitView, ZoomFactor,
};
use crate::canvas_laws::{every_block_is_one_node, stands_for};
use crate::canvas_layout::{
    equal_positions, group_key, key_rank, origin, position_of, with_position,
    LayoutEditView, LayoutView, Position,
};
use crate::canvas_model::{
    canvas_of, connection, node_is, GroupIdView, GroupView, PortView, SelectionView,
};
use crate::command_view::CommandView;
use crate::macro_engine::BlockView;
use crate::tree::{first_where, flatten, found_block, has_id, lemma_first_where_found};
use vstd::prelude::*;

verus! {

/// A gesture counts only over the canvas. A pinch or a turn of the wheel zooms at the pointer, by
/// what it was. Otherwise the middle button pans, and so does the first with the space bar; without
/// it, the first drags the node that it is on by as much as it moved, and pans on the background.
pub proof fn gestures_do_what_they_look_like(frame: CanvasInputFrame)
    ensures
        ({
            let done = gesture(frame);
            let at = if frame.pointer is Some {
                frame.pointer->0
            } else {
                origin()
            };
            let zooms = pinches(frame.pinch_zoom) || wheels(frame.wheel_y);
            let pans = dragged(frame.middle_drag_delta) || (frame.space_down && dragged(
                frame.primary_drag_delta,
            ));
            let drags = !frame.command_down && dragged(frame.primary_drag_delta);
            &&& !frame.hovered ==> done is CancelGesture
            &&& done is Zoom <==> frame.hovered && zooms
            &&& done is Zoom ==> done->pointer == at
            &&& done is Zoom && pinches(frame.pinch_zoom) ==> done->factor == ZoomFactor::Pinch(
                frame.pinch_zoom,
            )
            &&& done is Zoom && !pinches(frame.pinch_zoom) ==> done->factor == ZoomFactor::Wheel(
                frame.wheel_y,
            )
            &&& frame.hovered && !zooms && pans ==> done == (ActionView::Pan {
                middle: frame.middle_drag_delta,
                primary: frame.primary_drag_delta,
            })
            &&& done is MoveNode <==> frame.hovered && !zooms && !pans && drags && frame.hit@ is Node
            &&& done is MoveNode ==> done->MoveNode_id == frame.hit@->Node_0 && done->delta
                == frame.primary_drag_delta
            &&& frame.hovered && !zooms && !pans && drags && frame.hit@ is Background ==> done == (
            ActionView::Pan { middle: origin(), primary: frame.primary_drag_delta })
            &&& frame.hovered && !zooms && !pans && (!drags || frame.hit@ is Input
                || frame.hit@ is Output) ==> done is CancelGesture
        }),
{
}

/// A click on a node or its input selects the block of that node, and one elsewhere selects nothing.
pub proof fn clicks_select_the_block(blocks: Seq<BlockView>, hit: HitView)
    ensures
        ({
            let selected = clicked(canvas_of(blocks), hit);
            &&& hit is Background || hit is Output ==> selected is None
            &&& hit is Node ==> selected == (if found_block(blocks, hit->Node_0) is Some {
                Some(SelectionView::Block(hit->Node_0))
            } else {
                None
            })
            &&& hit is Input ==> selected == (if found_block(blocks, hit->Input_0) is Some {
                Some(SelectionView::Block(hit->Input_0))
            } else {
                None
            })
        }),
{
    every_block_is_one_node(blocks);
    let nodes = canvas_of(blocks).nodes;
    let flat = flatten(blocks);
    let id = match hit {
        HitView::Node(id) => id,
        HitView::Input(id) => id,
        _ => Seq::empty(),
    };
    let a = lemma_first_where_found(nodes, node_is(id));
    let b = lemma_first_where_found(flat, has_id(id));
    if first_where(nodes, node_is(id)) is Some {
        assert(stands_for(nodes[a], flat[a]));
        assert(has_id(id)(flat[a]));
    }
    if found_block(blocks, id) is Some {
        assert(stands_for(nodes[b], flat[b]));
        assert(node_is(id)(nodes[b]));
    }
}

/// A connector that is dropped on a node or its input moves that node's block to where the connector
/// leads, or is refused; one that is dropped on the background offers a new step at that place.
pub proof fn connectors_move_what_they_are_dropped_on(
    blocks: Seq<BlockView>,
    source: PortView,
    target: HitView,
    place: Position,
)
    ensures
        ({
            let done = dropped(Some(blocks), source, target, place);
            let id = if target is Node {
                target->Node_0
            } else {
                target->Input_0
            };
            let led = connection(blocks, source, id);
            &&& target is Background ==> done.editor_command is None && done.action is Some
                && done.action->0 is OpenAddStep && done.action->0->OpenAddStep_source == source
                && done.action->0->world_position == place
            &&& target is Node || target is Input ==> {
                &&& done.editor_command is Some <==> led is Ok
                &&& led is Ok ==> done.editor_command == Some(
                    CommandView::MoveBlock { source: (led->Ok_0).0, target: (led->Ok_0).1 },
                )
                &&& led is Err ==> done.action is Some && done.action->0 is RejectedConnection
            }
            &&& dropped(None, source, target, place).editor_command is None
            &&& !done.layout_changed && done.selection is None
        }),
{
}

/// What a press of the first button takes hold of: a node with the place that it has, or a connector
/// where the macro may be edited; with the space bar or the command key it takes hold of nothing.
pub proof fn presses_take_hold_of_what_is_there(
    layout: LayoutView,
    hit: HitView,
    space_down: bool,
    command_down: bool,
    editable: bool,
)
    ensures
        ({
            let taken = held(layout, hit, space_down, command_down, editable);
            let free = !space_down && !command_down;
            &&& taken is Node <==> free && hit is Node
            &&& taken is Node ==> taken->Node_id == hit->Node_0
            &&& taken is Node && position_of(layout, hit->Node_0) is Some ==> Some(taken->before)
                == position_of(layout, hit->Node_0)
            &&& taken is Connector <==> free && hit is Output && editable
            &&& taken is Connector ==> taken->Connector_0 == hit->Output_0
        }),
{
}

/// A drag of a node is an edit of the layout exactly where the node is elsewhere than before; the edit
/// leads from where it was to where it is.
pub proof fn drags_are_edits_where_the_node_moved(
    layout: LayoutView,
    id: Seq<char>,
    before: Position,
    now: Position,
)
    ensures
        ({
            let moved = with_position(layout, id, Some(now));
            let edit = drag_edit(moved, id, before);
            &&& position_of(moved, id) == Some(now)
            &&& edit is None <==> equal_positions(now, before)
            &&& edit is Some ==> edit == Some(
                LayoutEditView::NodePosition { id, before: Some(before), after: Some(now) },
            )
            &&& forall|other: Seq<char>|
                other != id ==> #[trigger] position_of(moved, other) == position_of(layout, other)
        }),
{
}

/// The order in which groups are laid out side by side: THEN before all others, then loops and lanes,
/// then ELSE, and what runs on timeout last; of two lanes the one with the higher priority first.
pub proof fn branches_stand_in_order(groups: Seq<GroupView>, a: GroupIdView, b: GroupIdView)
    ensures
        ({
            let rank = key_rank(group_key(groups, a), group_key(groups, b));
            &&& a.kind is IfThen && b.kind !is IfThen ==> rank is Before
            &&& (a.kind is LoopBody || a.kind is WatchLaneThen) && (b.kind is IfElse
                || b.kind is TimeoutBody) ==> rank is Before
            &&& a.kind is IfElse && b.kind is TimeoutBody ==> rank is Before
            &&& b.kind is IfThen && a.kind !is IfThen ==> rank is After
            &&& a.kind is TimeoutBody && b.kind !is TimeoutBody ==> rank is After
            &&& a.kind == b.kind && group_key(groups, a).ordinal < group_key(groups, b).ordinal
                ==> rank is Before
        }),
{
}

} // verus!
