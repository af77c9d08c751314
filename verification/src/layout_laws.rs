//! What holds of the layout of the canvas and of the history that it shares with the definition.
use crate::canvas_layout::{
    after_edit, arranged, arranged_positions, before_edit, deeper, depths_after, equal_positions,
    finite_layout, finite_position, graph_has, half_width, kept_zoom, layer_nodes, layer_of,
    lemma_within, links, moved_node, position_of, ranked, reconciled, slot, usable, with_row,
    LayoutEditView, LayoutView, Position, LAYER_GAP, MAX_ZOOM, MIN_FIT_ZOOM, NODE_HEIGHT,
    NODE_WIDTH, SIBLING_GAP,
};
use crate::canvas_model::{node_is, CanvasView};
use crate::history::{
    layout_redone, layout_undone, noted, recorded, ui_redone, ui_undone, EditDomain, EditState,
    HistoryErrorView, LayoutHistoryView, UiHistoryView, UI_HISTORY_LIMIT,
};
use crate::single::{finite, lemma_bits_finite, lemma_rounded_bounds, rounded};
use crate::tree::{first_index, lemma_first_index};
use vstd::prelude::*;

verus! {

/// Moving a node moves that node alone, to where it was asked, and the edit that it answers takes
/// the move back exactly.
pub proof fn move_can_be_taken_back(layout: LayoutView, id: Seq<char>, position: Position)
    requires
        moved_node(layout, id, position) is Ok,
    ensures
        ({
            let edit = moved_node(layout, id, position)->Ok_0;
            let after = after_edit(layout, edit);
            &&& before_edit(after, edit) == layout
            &&& forall|other: Seq<char>|
                other != id ==> #[trigger] position_of(after, other) == position_of(layout, other)
            &&& position_of(after, id) == Some(position) || position_of(after, id) == position_of(
                layout,
                id,
            )
            &&& after.pan == layout.pan && after.zoom == layout.zoom
        }),
{
    let edit = moved_node(layout, id, position)->Ok_0;
    let after = after_edit(layout, edit);
    assert(before_edit(after, edit).positions =~= layout.positions);
}

/// A node that is moved to a finite place stands there afterwards, unless it stood there before; to any
/// other place it is not moved.
pub proof fn moved_nodes_stand_where_they_were_put(
    layout: LayoutView,
    id: Seq<char>,
    position: Position,
)
    ensures
        moved_node(layout, id, position) is Ok <==> finite_position(position),
        moved_node(layout, id, position) is Ok && !(position_of(layout, id) is Some
            && equal_positions(position_of(layout, id)->0, position)) ==> position_of(
            after_edit(layout, moved_node(layout, id, position)->Ok_0),
            id,
        ) == Some(position),
        moved_node(layout, id, position) is Ok && position_of(layout, id) is Some && equal_positions(
            position_of(layout, id)->0,
            position,
        ) ==> position_of(after_edit(layout, moved_node(layout, id, position)->Ok_0), id)
            == position_of(layout, id),
{
}

/// An edit was made on a layout: taking it back from what it leads to gives the layout.
pub open spec fn made_on(layout: LayoutView, edit: LayoutEditView) -> bool {
    before_edit(after_edit(layout, edit), edit) == layout
}

/// Undo takes back the recorded edit of the layout, and redo after it brings it back.
pub proof fn layout_undo_and_redo(
    history: LayoutHistoryView,
    layout: LayoutView,
    edit: LayoutEditView,
)
    requires
        made_on(layout, edit),
        history.undo.len() <= UI_HISTORY_LIMIT,
    ensures
        ({
            let undone = layout_undone(recorded(history, edit), after_edit(layout, edit));
            match undone {
                None => false,
                Some((left, back)) => {
                    &&& back == layout
                    &&& left.redo == seq![edit]
                    &&& history.undo.len() < UI_HISTORY_LIMIT ==> left.undo == history.undo
                    &&& match layout_redone(left, back) {
                        None => false,
                        Some((_, again)) => again == after_edit(layout, edit),
                    }
                },
            }
        }),
{
    let before = recorded(history, edit);
    assert(before.undo.last() == edit);
    let (left, _) = layout_undone(before, after_edit(layout, edit))->0;
    assert(left.redo =~= seq![edit]);
    if history.undo.len() < UI_HISTORY_LIMIT {
        assert(left.undo =~= history.undo);
    }
}

/// The shared history is within its limits.
pub open spec fn bounded(history: UiHistoryView) -> bool {
    &&& history.undo.len() <= UI_HISTORY_LIMIT
    &&& history.redo.len() <= UI_HISTORY_LIMIT
    &&& history.layout.undo.len() <= UI_HISTORY_LIMIT
    &&& history.layout.redo.len() <= UI_HISTORY_LIMIT
}

/// Recording, undo and redo keep the shared history within its limits.
pub proof fn shared_history_stays_bounded(state: EditState, domain: EditDomain, edit: LayoutEditView)
    requires
        bounded(state.history),
    ensures
        bounded(noted(state.history, domain)),
        bounded(
            UiHistoryView {
                layout: recorded(state.history.layout, edit),
                ..noted(state.history, EditDomain::Layout)
            },
        ),
        bounded(ui_undone(state).0.history),
        bounded(ui_redone(state).0.history),
{
}

/// A refused undo or redo leaves the history, the definition and the layout as they were.
pub proof fn refused_history_step_changes_nothing(state: EditState)
    ensures
        ui_undone(state).1 is Err ==> ui_undone(state).0 == state,
        ui_redone(state).1 is Err ==> ui_redone(state).0 == state,
{
}

/// A step of the shared history touches only what it belongs to: one of the layout leaves the
/// draft alone, and one of the definition the layout.
pub proof fn history_steps_stay_in_their_domain(state: EditState)
    ensures
        ui_undone(state).1 == Ok::<_, HistoryErrorView>(EditDomain::Layout) ==> ui_undone(
            state,
        ).0.draft == state.draft,
        ui_undone(state).1 == Ok::<_, HistoryErrorView>(EditDomain::Definition) ==> ui_undone(
            state,
        ).0.layout == state.layout,
        ui_redone(state).1 == Ok::<_, HistoryErrorView>(EditDomain::Layout) ==> ui_redone(
            state,
        ).0.draft == state.draft,
        ui_redone(state).1 == Ok::<_, HistoryErrorView>(EditDomain::Definition) ==> ui_redone(
            state,
        ).0.layout == state.layout,
{
}

/// A kept zoom is within its bounds, and is kept again as it is.
pub proof fn kept_zoom_is_stable(zoom: crate::macro_engine::F32Bits)
    ensures
        MIN_FIT_ZOOM <= kept_zoom(zoom).0 <= MAX_ZOOM,
        kept_zoom(kept_zoom(zoom)) == kept_zoom(zoom),
        finite(kept_zoom(zoom)),
{
}

/// Depths count ways, which are no longer than the number of rounds.
proof fn lemma_depth_bound(count: nat, list: Seq<(int, int)>, rounds: nat, node: int)
    requires
        forall|k: int| 0 <= k < list.len() ==> 0 <= (#[trigger] list[k]).0 < count,
        0 <= node < count,
    ensures
        depths_after(count, list, rounds).len() == count,
        depths_after(count, list, rounds)[node] matches Some(depth) ==> depth <= rounds,
    decreases rounds,
{
    if rounds > 0 {
        let before = depths_after(count, list, (rounds - 1) as nat);
        assert forall|i: int| 0 <= i < count implies (#[trigger] before[i] matches Some(
            depth,
        ) ==> depth <= rounds - 1) by {
            lemma_depth_bound(count, list, (rounds - 1) as nat, i);
        }
        lemma_depth_bound(count, list, (rounds - 1) as nat, node);
        lemma_deeper_bound(list, before, node, (rounds - 1) as nat);
    }
}

proof fn lemma_deeper_bound(
    list: Seq<(int, int)>,
    depths: Seq<Option<nat>>,
    node: int,
    most: nat,
)
    requires
        0 <= node < depths.len(),
        forall|k: int| 0 <= k < list.len() ==> 0 <= (#[trigger] list[k]).0 < depths.len(),
        forall|i: int|
            0 <= i < depths.len() ==> (#[trigger] depths[i] matches Some(depth) ==> depth <= most),
    ensures
        deeper(list, depths, node) matches Some(depth) ==> depth <= most + 1,
    decreases list.len(),
{
    if list.len() > 0 {
        let rest = list.drop_last();
        assert forall|k: int| 0 <= k < rest.len() implies 0 <= (#[trigger] rest[k]).0
            < depths.len() by {
            assert(rest[k] == list[k]);
        }
        lemma_deeper_bound(rest, depths, node, most);
        assert(0 <= list[list.len() - 1].0 < depths.len());
    }
}

/// The ends of a link are nodes of the graph.
pub proof fn lemma_links(nodes: Seq<crate::canvas_model::NodeView>, edges: Seq<crate::canvas_model::EdgeView>)
    ensures
        forall|k: int|
            0 <= k < links(nodes, edges).len() ==> 0 <= (#[trigger] links(nodes, edges)[k]).0
                < nodes.len() && 0 <= links(nodes, edges)[k].1 < nodes.len(),
    decreases edges.len(),
{
    if edges.len() > 0 {
        lemma_links(nodes, edges.drop_last());
        lemma_first_index(
            nodes,
            node_is(crate::canvas_model::port_owner(edges.last().from)),
        );
        lemma_first_index(nodes, node_is(edges.last().to));
        let rest = links(nodes, edges.drop_last());
        let all = links(nodes, edges);
        assert forall|k: int| 0 <= k < all.len() implies 0 <= (#[trigger] all[k]).0 < nodes.len()
            && 0 <= all[k].1 < nodes.len() by {
            if k < rest.len() {
                assert(all[k] == rest[k]);
            }
        }
    }
}

/// No node stands in a deeper layer than there are nodes.
proof fn lemma_layer_bound(graph: CanvasView, node: int)
    requires
        0 <= node < graph.nodes.len(),
    ensures
        layer_of(graph, node) <= graph.nodes.len(),
{
    lemma_links(graph.nodes, graph.edges);
    lemma_first_index(graph.nodes, node_is(graph.nodes[node].id));
    assert(node_is(graph.nodes[node].id)(graph.nodes[node]));
    let i = first_index(graph.nodes, node_is(graph.nodes[node].id))->0;
    lemma_depth_bound(
        graph.nodes.len(),
        links(graph.nodes, graph.edges),
        graph.nodes.len(),
        i,
    );
}

proof fn lemma_ranked_members(graph: CanvasView, list: Seq<int>, node: int, other: int)
    ensures
        ranked(graph, list, node).contains(other) <==> (list.contains(other) || other == node),
    decreases list.len(),
{
    let after = ranked(graph, list, node);
    if list.len() > 0 && crate::canvas_layout::node_rank(graph, list.last(), node)
        == crate::text::Rank::After {
        let inner = ranked(graph, list.drop_last(), node);
        lemma_ranked_members(graph, list.drop_last(), node, other);
        assert(after == inner.push(list.last()));
        if after.contains(other) {
            let k = after.index_of(other);
            if k < inner.len() {
                assert(inner[k] == other);
                if list.drop_last().contains(other) {
                    let j = list.drop_last().index_of(other);
                    assert(list[j] == other);
                }
            } else {
                assert(list[list.len() - 1] == other);
            }
        }
        if list.contains(other) || other == node {
            if other == list.last() {
                assert(after[after.len() - 1] == other);
            } else {
                if list.contains(other) {
                    let j = list.index_of(other);
                    assert(list.drop_last()[j] == other);
                }
                let k = inner.index_of(other);
                assert(after[k] == other);
            }
        }
    } else {
        assert(after == list.push(node));
        if list.contains(other) {
            let k = list.index_of(other);
            assert(after[k] == other);
        }
        assert(after[list.len() as int] == node);
    }
}

proof fn lemma_layer_members(graph: CanvasView, layer: nat, upto: nat, node: int)
    ensures
        layer_nodes(graph, layer, upto).contains(node) <==> (0 <= node < upto && layer_of(
            graph,
            node,
        ) == layer),
    decreases upto,
{
    if upto > 0 {
        lemma_layer_members(graph, layer, (upto - 1) as nat, node);
        let rest = layer_nodes(graph, layer, (upto - 1) as nat);
        if layer_of(graph, upto - 1) == layer {
            lemma_ranked_members(graph, rest, upto - 1, node);
        }
    }
}

proof fn lemma_row_members(
    graph: CanvasView,
    positions: Map<Seq<char>, Position>,
    row: Seq<int>,
    layer: nat,
    upto: nat,
    id: Seq<char>,
)
    requires
        upto <= row.len(),
    ensures
        with_row(graph, positions, row, layer, upto).dom().contains(id) <==> (
        positions.dom().contains(id) || exists|k: int|
            0 <= k < upto && graph.nodes[#[trigger] row[k]].id == id),
    decreases upto,
{
    if upto > 0 {
        lemma_row_members(graph, positions, row, layer, (upto - 1) as nat, id);
        if graph.nodes[row[upto - 1]].id == id {
            assert(exists|k: int| 0 <= k < upto && graph.nodes[#[trigger] row[k]].id == id);
        }
    }
}

proof fn lemma_arranged_members(graph: CanvasView, layers: nat, id: Seq<char>)
    ensures
        arranged_positions(graph, layers).dom().contains(id) <==> exists|n: int|
            0 <= n < graph.nodes.len() && layer_of(graph, n) < layers && (
            #[trigger] graph.nodes[n]).id == id,
    decreases layers,
{
    if layers > 0 {
        let layer = (layers - 1) as nat;
        lemma_arranged_members(graph, layer, id);
        let row = layer_nodes(graph, layer, graph.nodes.len());
        lemma_row_members(graph, arranged_positions(graph, layer), row, layer, row.len(), id);
        if arranged_positions(graph, layers).dom().contains(id)
            && !arranged_positions(graph, layer).dom().contains(id) {
            let k = choose|k: int|
                0 <= k < row.len() && graph.nodes[#[trigger] row[k]].id == id;
            assert(row.contains(row[k]));
            lemma_layer_members(graph, layer, graph.nodes.len(), row[k]);
            assert(graph.nodes[row[k]].id == id);
        }
        if exists|n: int|
            0 <= n < graph.nodes.len() && layer_of(graph, n) < layers && (
            #[trigger] graph.nodes[n]).id == id {
            let n = choose|n: int|
                0 <= n < graph.nodes.len() && layer_of(graph, n) < layers && (
                #[trigger] graph.nodes[n]).id == id;
            if layer_of(graph, n) == layer {
                lemma_layer_members(graph, layer, graph.nodes.len(), n);
                let k = row.index_of(n);
                assert(graph.nodes[row[k]].id == id);
            } else {
                assert(arranged_positions(graph, layer).dom().contains(id));
            }
        }
    }
}

/// Arranging gives a position to every node and to nothing else.
pub proof fn arrangement_covers_the_graph(graph: CanvasView, id: Seq<char>)
    ensures
        arranged(graph).positions.dom().contains(id) <==> graph_has(graph, id),
{
    lemma_arranged_members(graph, graph.nodes.len() + 1, id);
    lemma_first_index(graph.nodes, node_is(id));
    if graph_has(graph, id) {
        let n = first_index(graph.nodes, node_is(id))->0;
        lemma_layer_bound(graph, n);
        assert(graph.nodes[n].id == id);
    }
    if arranged(graph).positions.dom().contains(id) {
        let n = choose|n: int|
            0 <= n < graph.nodes.len() && layer_of(graph, n) < graph.nodes.len() + 1 && (
            #[trigger] graph.nodes[n]).id == id;
        assert(node_is(id)(graph.nodes[n]));
    }
}

/// What a row does to the position of a node: it is that of one of its places in the row, or as before
/// where it has none.
proof fn lemma_row_places(
    graph: CanvasView,
    positions: Map<Seq<char>, Position>,
    row: Seq<int>,
    layer: nat,
    upto: nat,
    id: Seq<char>,
)
    requires
        upto <= row.len(),
    ensures
        (exists|k: int|
            0 <= k < upto && graph.nodes[#[trigger] row[k]].id == id && with_row(
                graph,
                positions,
                row,
                layer,
                upto,
            )[id] == slot(k, row.len() as int, layer as int)) || ((forall|k: int|
            0 <= k < upto ==> graph.nodes[#[trigger] row[k]].id != id) && with_row(
            graph,
            positions,
            row,
            layer,
            upto,
        )[id] == positions[id]),
    decreases upto,
{
    if upto > 0 {
        lemma_row_places(graph, positions, row, layer, (upto - 1) as nat, id);
        if graph.nodes[row[upto - 1]].id == id {
            assert(with_row(graph, positions, row, layer, upto)[id] == slot(
                upto - 1,
                row.len() as int,
                layer as int,
            ));
        }
    }
}

/// Nodes of one identity stand in one layer.
proof fn lemma_same_layer(graph: CanvasView, a: int, b: int)
    requires
        graph.nodes[a].id == graph.nodes[b].id,
    ensures
        layer_of(graph, a) == layer_of(graph, b),
{
}

proof fn lemma_arranged_place(graph: CanvasView, layers: nat, node: int)
    requires
        0 <= node < graph.nodes.len(),
        layer_of(graph, node) < layers,
    ensures
        stands_in_row(graph, arranged_positions(graph, layers), node),
    decreases layers,
{
    let layer = (layers - 1) as nat;
    let row = layer_nodes(graph, layer, graph.nodes.len());
    let before = arranged_positions(graph, layer);
    let id = graph.nodes[node].id;
    lemma_row_places(graph, before, row, layer, row.len(), id);
    if layer_of(graph, node) == layer {
        lemma_layer_members(graph, layer, graph.nodes.len(), node);
        let k = row.index_of(node);
        assert(graph.nodes[row[k]].id == id);
    } else {
        lemma_arranged_place(graph, layer, node);
        assert forall|k: int| 0 <= k < row.len() implies graph.nodes[#[trigger] row[k]].id != id by {
            lemma_layer_members(graph, layer, graph.nodes.len(), row[k]);
            assert(row.contains(row[k]));
            if graph.nodes[row[k]].id == id {
                lemma_same_layer(graph, row[k], node);
            }
        }
    }
}

/// A node has the position of its place in the row of its layer.
pub open spec fn stands_in_row(
    graph: CanvasView,
    positions: Map<Seq<char>, Position>,
    node: int,
) -> bool {
    let layer = layer_of(graph, node);
    let row = layer_nodes(graph, layer, graph.nodes.len());
    exists|k: int|
        0 <= k < row.len() && graph.nodes[#[trigger] row[k]].id == graph.nodes[node].id
            && positions[graph.nodes[node].id] == slot(k, row.len() as int, layer as int)
}

/// Arranged nodes of one layer stand at one height, each in a place of the layer's row.
pub proof fn layers_stand_at_one_height(graph: CanvasView, a: int, b: int)
    requires
        0 <= a < graph.nodes.len(),
        0 <= b < graph.nodes.len(),
        layer_of(graph, a) == layer_of(graph, b),
    ensures
        stands_in_row(graph, arranged(graph).positions, a),
        arranged(graph).positions[graph.nodes[a].id].y == arranged(
            graph,
        ).positions[graph.nodes[b].id].y,
{
    lemma_layer_bound(graph, a);
    lemma_layer_bound(graph, b);
    lemma_arranged_place(graph, graph.nodes.len() + 1, a);
    lemma_arranged_place(graph, graph.nodes.len() + 1, b);
}

/// A reconciled layout gives a position to every node and to nothing else; a saved position that
/// is still of use is kept, and a corrupt or missing one is arranged anew.
pub proof fn reconciling_covers_the_graph(graph: CanvasView, saved: LayoutView, id: Seq<char>)
    ensures
        reconciled(graph, saved).positions.dom().contains(id) <==> graph_has(graph, id),
        usable(graph, saved, id) ==> reconciled(graph, saved).positions[id]
            == saved.positions[id],
        graph_has(graph, id) && !usable(graph, saved, id) ==> reconciled(
            graph,
            saved,
        ).positions[id] == arranged(graph).positions[id],
{
    arrangement_covers_the_graph(graph, id);
}

/// The largest number of things that a macro can hold.
pub open spec fn most() -> int {
    0xFFFF_FFFF_FFFF_FFFF
}

/// A graph is one that a macro can have.
pub open spec fn holdable(graph: CanvasView) -> bool {
    graph.nodes.len() <= most()
}

proof fn lemma_slot_finite(index: int, count: int, layer: int)
    requires
        0 <= index < count <= most(),
        0 <= layer <= most(),
    ensures
        finite_position(slot(index, count, layer)),
{
    lemma_rounded_bounds(index);
    lemma_rounded_bounds(count);
    lemma_rounded_bounds(count - 1);
    lemma_rounded_bounds(layer);
    let left = rounded(index) * (NODE_WIDTH + SIBLING_GAP);
    let wide = rounded(count) * NODE_WIDTH;
    let gaps = rounded(count - 1) * SIBLING_GAP;
    let down = rounded(layer) * (NODE_HEIGHT + LAYER_GAP);
    lemma_within(rounded(index), NODE_WIDTH + SIBLING_GAP, 2 * most());
    lemma_within(rounded(count), NODE_WIDTH as int, 2 * most());
    lemma_within(rounded(count - 1), SIBLING_GAP as int, 2 * most());
    lemma_within(rounded(layer), NODE_HEIGHT + LAYER_GAP, 2 * most());
    lemma_rounded_bounds(left);
    lemma_rounded_bounds(wide);
    lemma_rounded_bounds(gaps);
    lemma_rounded_bounds(down);
    lemma_rounded_bounds(rounded(wide) + rounded(gaps));
    lemma_rounded_bounds(rounded(left) - half_width(count));
    lemma_bits_finite(rounded(rounded(left) - half_width(count)));
    lemma_bits_finite(rounded(down));
}

proof fn lemma_ranked_len(graph: CanvasView, list: Seq<int>, node: int)
    ensures
        ranked(graph, list, node).len() == list.len() + 1,
    decreases list.len(),
{
    if list.len() > 0 {
        lemma_ranked_len(graph, list.drop_last(), node);
    }
}

proof fn lemma_row_len(graph: CanvasView, layer: nat, upto: nat)
    ensures
        layer_nodes(graph, layer, upto).len() <= upto,
    decreases upto,
{
    if upto > 0 {
        lemma_row_len(graph, layer, (upto - 1) as nat);
        lemma_ranked_len(graph, layer_nodes(graph, layer, (upto - 1) as nat), upto - 1);
    }
}

/// Positions that are all finite.
spec fn finite_places(positions: Map<Seq<char>, Position>) -> bool {
    forall|id: Seq<char>|
        positions.dom().contains(id) ==> finite_position(#[trigger] positions[id])
}

proof fn lemma_row_finite(
    graph: CanvasView,
    positions: Map<Seq<char>, Position>,
    row: Seq<int>,
    layer: nat,
    upto: nat,
)
    requires
        finite_places(positions),
        upto <= row.len() <= most(),
        layer <= most(),
    ensures
        finite_places(with_row(graph, positions, row, layer, upto)),
    decreases upto,
{
    if upto > 0 {
        lemma_row_finite(graph, positions, row, layer, (upto - 1) as nat);
        lemma_slot_finite(upto - 1, row.len() as int, layer as int);
    }
}

proof fn lemma_layers_finite(graph: CanvasView, layers: nat)
    requires
        holdable(graph),
        layers <= graph.nodes.len() + 1,
    ensures
        finite_places(arranged_positions(graph, layers)),
    decreases layers,
{
    if layers > 0 {
        let layer = (layers - 1) as nat;
        lemma_layers_finite(graph, layer);
        lemma_row_len(graph, layer, graph.nodes.len());
        let row = layer_nodes(graph, layer, graph.nodes.len());
        lemma_row_finite(graph, arranged_positions(graph, layer), row, layer, row.len());
    }
}

/// Every position that arranging gives is finite.
pub proof fn arrangement_is_finite(graph: CanvasView)
    requires
        holdable(graph),
    ensures
        finite_layout(arranged(graph)),
{
    lemma_layers_finite(graph, graph.nodes.len() + 1);
}

/// Reconciling a second time changes nothing.
pub proof fn reconciling_settles(graph: CanvasView, saved: LayoutView)
    requires
        holdable(graph),
    ensures
        reconciled(graph, reconciled(graph, saved)) == reconciled(graph, saved),
{
    arrangement_is_finite(graph);
    let once = reconciled(graph, saved);
    let twice = reconciled(graph, once);
    let fresh = arranged(graph).positions;
    kept_zoom_is_stable(saved.zoom);
    assert forall|id: Seq<char>|
        once.positions.dom().contains(id) == twice.positions.dom().contains(id) && (
        once.positions.dom().contains(id) ==> #[trigger] twice.positions[id]
            == once.positions[id]) by {
        reconciling_covers_the_graph(graph, saved, id);
        reconciling_covers_the_graph(graph, once, id);
        if graph_has(graph, id) && !usable(graph, saved, id) {
            assert(fresh.dom().contains(id));
            assert(finite_position(fresh[id]));
        }
    }
    assert forall|id: Seq<char>|
        once.positions.dom().contains(id) == twice.positions.dom().contains(id) by {
        assert(twice.positions[id] == twice.positions[id]);
    }
    assert(twice.positions =~= once.positions);
    assert(crate::canvas_layout::finite_position(crate::canvas_layout::origin()));
}

} // verus!
