//! What holds of the drawing of a macro: which nodes there are, what edges join, and how layers
//! follow edges.
use crate::canvas_layout::{
    deeper, depths_after, entered, layer_of, link, links, next_depths, node_depths,
};
use crate::canvas_model::{
    block_canvas, blocks_canvas, bodies_canvas, canvas_of, entry_edges, node_is, node_of,
    port_owner, return_edges, sequence_edges, CanvasEdgeKind, EdgeView, GroupIdView, NodeView,
};
use crate::identities::structural_ids;
use crate::macro_engine::{BlockView, BodyView};
use crate::place_laws::lemma_distinct_blocks;
use crate::tree::{
    first_index, flatten, flatten_block, flatten_bodies, lemma_flatten_take, lemma_is_first_index,
};
use vstd::prelude::*;

verus! {

/// A node stands for a block.
pub open spec fn stands_for(node: NodeView, block: BlockView) -> bool {
    exists|groups: Seq<GroupIdView>| node == #[trigger] node_of(block, groups)
}

/// The nodes stand for the blocks of a flat list, one for one and in order.
pub open spec fn nodes_stand(nodes: Seq<NodeView>, flat: Seq<BlockView>) -> bool {
    nodes.len() == flat.len() && forall|i: int|
        0 <= i < flat.len() ==> stands_for(#[trigger] nodes[i], flat[i])
}

proof fn lemma_stand_joined(
    a: Seq<NodeView>,
    x: Seq<BlockView>,
    b: Seq<NodeView>,
    y: Seq<BlockView>,
)
    requires
        nodes_stand(a, x),
        nodes_stand(b, y),
    ensures
        nodes_stand(a + b, x + y),
{
    assert forall|i: int| 0 <= i < (x + y).len() implies stands_for(
        #[trigger] (a + b)[i],
        (x + y)[i],
    ) by {
        if i < a.len() {
            assert(stands_for(a[i], x[i]));
        } else {
            assert(stands_for(b[i - a.len()], y[i - a.len()]));
        }
    }
}

proof fn lemma_blocks_nodes(blocks: Seq<BlockView>, groups: Seq<GroupIdView>)
    ensures
        nodes_stand(blocks_canvas(blocks, groups).nodes, flatten(blocks)),
    decreases blocks,
{
    if blocks.len() > 0 {
        let last = blocks[blocks.len() - 1];
        assert(decreases_to!(blocks => blocks.drop_last()));
        assert(decreases_to!(blocks => last));
        lemma_blocks_nodes(blocks.drop_last(), groups);
        lemma_block_nodes(last, groups);
        lemma_stand_joined(
            blocks_canvas(blocks.drop_last(), groups).nodes,
            flatten(blocks.drop_last()),
            block_canvas(last, groups).nodes,
            flatten_block(last),
        );
    }
}

proof fn lemma_block_nodes(block: BlockView, groups: Seq<GroupIdView>)
    ensures
        nodes_stand(block_canvas(block, groups).nodes, flatten_block(block)),
    decreases block,
{
    assert(decreases_to!(block => block.bodies));
    lemma_bodies_nodes(block.id, block.bodies, groups);
    assert(stands_for(node_of(block, groups), block));
    lemma_stand_joined(
        seq![node_of(block, groups)],
        seq![block],
        bodies_canvas(block.id, block.bodies, groups).nodes,
        flatten_bodies(block.bodies),
    );
}

proof fn lemma_bodies_nodes(owner: Seq<char>, bodies: Seq<BodyView>, groups: Seq<GroupIdView>)
    ensures
        nodes_stand(bodies_canvas(owner, bodies, groups).nodes, flatten_bodies(bodies)),
    decreases bodies,
{
    if bodies.len() > 0 {
        let last = bodies[bodies.len() - 1];
        assert(bodies.last() == last);
        assert(decreases_to!(bodies => bodies.drop_last()));
        assert(decreases_to!(bodies => last.blocks));
        let inner = groups.push(crate::canvas_model::group_id(owner, last.role));
        lemma_bodies_nodes(owner, bodies.drop_last(), groups);
        lemma_blocks_nodes(last.blocks, inner);
        lemma_stand_joined(
            bodies_canvas(owner, bodies.drop_last(), groups).nodes,
            flatten_bodies(bodies.drop_last()),
            blocks_canvas(last.blocks, inner).nodes,
            flatten(last.blocks),
        );
        assert(bodies_canvas(owner, bodies, groups).nodes =~= bodies_canvas(
            owner,
            bodies.drop_last(),
            groups,
        ).nodes + blocks_canvas(last.blocks, inner).nodes);
    }
}

/// Every block is drawn as one node, in the order of the walk, and there is no other node.
pub proof fn every_block_is_one_node(blocks: Seq<BlockView>)
    ensures
        nodes_stand(canvas_of(blocks).nodes, flatten(blocks)),
{
    lemma_blocks_nodes(blocks, Seq::empty());
    assert(canvas_of(blocks).nodes =~= blocks_canvas(blocks, Seq::empty()).nodes);
}

/// An edge leads from a block of a flat list to a later one, or is the return of a loop, which
/// leads back to the block it leaves and cannot be edited.
pub open spec fn well_joined(edge: EdgeView, flat: Seq<BlockView>) -> bool {
    if edge.kind == CanvasEdgeKind::LoopReturn {
        !edge.editable && port_owner(edge.from) == edge.to && exists|a: int|
            0 <= a < flat.len() && (#[trigger] flat[a]).id == edge.to
    } else {
        edge.editable && leads_on(edge, flat)
    }
}

pub open spec fn leads_on(edge: EdgeView, flat: Seq<BlockView>) -> bool {
    exists|a: int, b: int|
        0 <= a < b < flat.len() && (#[trigger] flat[a]).id == port_owner(edge.from) && (
        #[trigger] flat[b]).id == edge.to
}

pub open spec fn all_joined(edges: Seq<EdgeView>, flat: Seq<BlockView>) -> bool {
    forall|e: int| 0 <= e < edges.len() ==> well_joined(#[trigger] edges[e], flat)
}

/// Edges of a part of a flat list are edges of the whole.
proof fn lemma_within(edges: Seq<EdgeView>, before: Seq<BlockView>, flat: Seq<BlockView>, after: Seq<BlockView>)
    requires
        all_joined(edges, flat),
    ensures
        all_joined(edges, before + flat + after),
{
    let whole = before + flat + after;
    assert forall|e: int| 0 <= e < edges.len() implies well_joined(
        #[trigger] edges[e],
        whole,
    ) by {
        let edge = edges[e];
        assert(well_joined(edge, flat));
        if edge.kind == CanvasEdgeKind::LoopReturn {
            let a = choose|a: int| 0 <= a < flat.len() && (#[trigger] flat[a]).id == edge.to;
            assert(whole[before.len() + a] == flat[a]);
        } else {
            let (a, b) = choose|a: int, b: int|
                0 <= a < b < flat.len() && (#[trigger] flat[a]).id == port_owner(edge.from) && (
                #[trigger] flat[b]).id == edge.to;
            assert(whole[before.len() + a] == flat[a]);
            assert(whole[before.len() + b] == flat[b]);
        }
    }
}

proof fn lemma_joined_edges(a: Seq<EdgeView>, b: Seq<EdgeView>, flat: Seq<BlockView>)
    requires
        all_joined(a, flat),
        all_joined(b, flat),
    ensures
        all_joined(a + b, flat),
{
    assert forall|e: int| 0 <= e < (a + b).len() implies well_joined(
        #[trigger] (a + b)[e],
        flat,
    ) by {
        if e < a.len() {
            assert(well_joined(a[e], flat));
        } else {
            assert(well_joined(b[e - a.len()], flat));
        }
    }
}

/// The place of a block of a list in the walk over the list.
proof fn lemma_place_in_walk(blocks: Seq<BlockView>, i: int)
    requires
        0 <= i < blocks.len(),
    ensures
        flatten(blocks.take(i)).len() < flatten(blocks).len(),
        flatten(blocks)[flatten(blocks.take(i)).len() as int] == blocks[i],
        i > 0 ==> flatten(blocks.take(i - 1)).len() < flatten(blocks.take(i)).len(),
    decreases blocks.len(),
{
    let rest = blocks.drop_last();
    if i < blocks.len() - 1 {
        lemma_place_in_walk(rest, i);
        assert(rest.take(i) =~= blocks.take(i));
        assert(flatten(blocks)[flatten(blocks.take(i)).len() as int] == flatten(rest)[flatten(
            blocks.take(i),
        ).len() as int]);
    } else {
        assert(blocks.take(i) =~= rest);
        assert(flatten_block(blocks[i])[0] == blocks[i]);
    }
    if i > 0 {
        lemma_flatten_take(blocks, i - 1);
        assert(blocks.take(i - 1 + 1) =~= blocks.take(i));
    }
}

proof fn lemma_sequence_edges(blocks: Seq<BlockView>)
    ensures
        all_joined(sequence_edges(blocks), flatten(blocks)),
    decreases blocks.len(),
{
    if blocks.len() >= 2 {
        let n = blocks.len() as int;
        let rest = blocks.drop_last();
        lemma_sequence_edges(rest);
        let tail = flatten_block(blocks.last());
        lemma_within(sequence_edges(rest), Seq::empty(), flatten(rest), tail);
        assert(Seq::<BlockView>::empty() + flatten(rest) + tail =~= flatten(blocks));
        lemma_place_in_walk(blocks, n - 2);
        lemma_place_in_walk(blocks, n - 1);
        let a = flatten(blocks.take(n - 2)).len() as int;
        let b = flatten(blocks.take(n - 1)).len() as int;
        assert(blocks.take(n - 1 - 1) =~= blocks.take(n - 2));
        assert(flatten(blocks)[a].id == blocks[n - 2].id);
        assert(flatten(blocks)[b].id == blocks[n - 1].id);
        let all = sequence_edges(blocks);
        assert forall|e: int| 0 <= e < all.len() implies well_joined(
            #[trigger] all[e],
            flatten(blocks),
        ) by {
            if e < sequence_edges(rest).len() {
                assert(all[e] == sequence_edges(rest)[e]);
            } else {
                assert(leads_on(all[e], flatten(blocks)));
            }
        }
    }
}

proof fn lemma_blocks_edges(blocks: Seq<BlockView>, groups: Seq<GroupIdView>)
    ensures
        all_joined(blocks_canvas(blocks, groups).edges, flatten(blocks)),
    decreases blocks,
{
    if blocks.len() > 0 {
        let last = blocks[blocks.len() - 1];
        let rest = blocks.drop_last();
        assert(decreases_to!(blocks => rest));
        assert(decreases_to!(blocks => last));
        lemma_blocks_edges(rest, groups);
        lemma_block_edges(last, groups);
        let a = blocks_canvas(rest, groups).edges;
        let b = block_canvas(last, groups).edges;
        lemma_within(a, Seq::empty(), flatten(rest), flatten_block(last));
        lemma_within(b, flatten(rest), flatten_block(last), Seq::empty());
        assert(Seq::<BlockView>::empty() + flatten(rest) + flatten_block(last) =~= flatten(
            blocks,
        ));
        assert(flatten(rest) + flatten_block(last) + Seq::<BlockView>::empty() =~= flatten(
            blocks,
        ));
        lemma_joined_edges(a, b, flatten(blocks));
    }
}

proof fn lemma_block_edges(block: BlockView, groups: Seq<GroupIdView>)
    ensures
        all_joined(block_canvas(block, groups).edges, flatten_block(block)),
    decreases block,
{
    assert(decreases_to!(block => block.bodies));
    lemma_bodies_edges(block, block.bodies, groups);
    assert(block_canvas(block, groups).edges =~= bodies_canvas(
        block.id,
        block.bodies,
        groups,
    ).edges);
}

/// The edges of some bodies join their owner and the blocks of the bodies.
proof fn lemma_bodies_edges(owner: BlockView, bodies: Seq<BodyView>, groups: Seq<GroupIdView>)
    ensures
        all_joined(
            bodies_canvas(owner.id, bodies, groups).edges,
            seq![owner] + flatten_bodies(bodies),
        ),
    decreases bodies,
{
    let flat = seq![owner] + flatten_bodies(bodies);
    if bodies.len() > 0 {
        let last = bodies[bodies.len() - 1];
        assert(bodies.last() == last);
        assert(decreases_to!(bodies => bodies.drop_last()));
        assert(decreases_to!(bodies => last.blocks));
        let rest = bodies.drop_last();
        let inner = groups.push(crate::canvas_model::group_id(owner.id, last.role));
        let front = seq![owner] + flatten_bodies(rest);
        let tail = flatten(last.blocks);
        assert(flat =~= Seq::<BlockView>::empty() + front + tail);
        assert(flat =~= front + tail + Seq::<BlockView>::empty());
        lemma_bodies_edges(owner, rest, groups);
        lemma_blocks_edges(last.blocks, inner);
        lemma_sequence_edges(last.blocks);
        let a = bodies_canvas(owner.id, rest, groups).edges;
        let b = entry_edges(owner.id, last);
        let c = blocks_canvas(last.blocks, inner).edges;
        let d = sequence_edges(last.blocks);
        let e = return_edges(owner.id, last.role);
        lemma_within(a, Seq::empty(), front, tail);
        lemma_within(c, front, tail, Seq::empty());
        lemma_within(d, front, tail, Seq::empty());
        assert(flat[0].id == owner.id);
        assert forall|k: int| 0 <= k < b.len() implies well_joined(#[trigger] b[k], flat) by {
            lemma_place_in_walk(last.blocks, 0);
            assert(last.blocks.take(0) =~= Seq::empty());
            assert(tail[0] == last.blocks[0]);
            assert(flat[front.len() as int] == last.blocks[0]);
            assert(leads_on(b[k], flat));
        }
        assert forall|k: int| 0 <= k < e.len() implies well_joined(#[trigger] e[k], flat) by {
            assert(flat[0].id == e[k].to);
        }
        lemma_joined_edges(a, b, flat);
        lemma_joined_edges(a + b, c, flat);
        lemma_joined_edges(a + b + c, d, flat);
        lemma_joined_edges(a + b + c + d, e, flat);
        assert(bodies_canvas(owner.id, bodies, groups).edges =~= a + b + c + d + e);
    }
}

/// Every edge joins blocks of the macro. An edge that can be edited leads on in the order of the
/// walk; the only others are the returns of loops, which lead back to their loop.
pub proof fn edges_join_blocks(blocks: Seq<BlockView>)
    ensures
        all_joined(canvas_of(blocks).edges, flatten(blocks)),
{
    lemma_blocks_edges(blocks, Seq::empty());
    lemma_sequence_edges(blocks);
    lemma_joined_edges(
        blocks_canvas(blocks, Seq::empty()).edges,
        sequence_edges(blocks),
        flatten(blocks),
    );
}

/// A link follows a list of nodes onward.
spec fn onward(list: Seq<(int, int)>, count: nat) -> bool {
    forall|k: int| 0 <= k < list.len() ==> 0 <= (#[trigger] list[k]).0 < list[k].1 < count
}

/// What following every edge once makes of a depth: it is no less than it was, exceeds that of
/// every node that leads to it, and comes from one of these.
proof fn lemma_deeper(list: Seq<(int, int)>, depths: Seq<Option<nat>>, node: int)
    ensures
        depths[node] matches Some(d) ==> deeper(list, depths, node) matches Some(n) && n >= d,
        forall|k: int|
            0 <= k < list.len() && (#[trigger] list[k]).1 == node ==> (depths[list[k].0] matches Some(
                d,
            ) ==> deeper(list, depths, node) matches Some(n) && n >= d + 1),
        deeper(list, depths, node) == depths[node] || exists|k: int|
            0 <= k < list.len() && (#[trigger] list[k]).1 == node && depths[list[k].0] is Some
                && deeper(list, depths, node) == Some(depths[list[k].0]->0 + 1),
    decreases list.len(),
{
    if list.len() > 0 {
        let rest = list.drop_last();
        lemma_deeper(rest, depths, node);
        assert forall|k: int| 0 <= k < list.len() && (#[trigger] list[k]).1 == node implies (
        depths[list[k].0] matches Some(d) ==> deeper(list, depths, node) matches Some(n) && n >= d
            + 1) by {
            if k < rest.len() {
                assert(rest[k] == list[k]);
            }
        }
        if deeper(list, depths, node) == deeper(rest, depths, node) {
            if deeper(rest, depths, node) != depths[node] {
                let k = choose|k: int|
                    0 <= k < rest.len() && (#[trigger] rest[k]).1 == node && depths[rest[k].0] is Some
                        && deeper(rest, depths, node) == Some(depths[rest[k].0]->0 + 1);
                assert(list[k] == rest[k]);
            }
        } else {
            assert(list[list.len() - 1].1 == node);
        }
    }
}

/// Along edges that lead onward, the depth of a node settles after as many rounds as there are
/// nodes before it.
proof fn lemma_settles(count: nat, list: Seq<(int, int)>, node: int, rounds: nat)
    requires
        onward(list, count),
        0 <= node < count,
        rounds >= node,
    ensures
        depths_after(count, list, rounds).len() == count,
        depths_after(count, list, rounds)[node] is Some,
        depths_after(count, list, rounds + 1)[node] == depths_after(count, list, rounds)[node],
    decreases node, rounds,
{
    let now = depths_after(count, list, rounds);
    let next = depths_after(count, list, rounds + 1);
    assert(next == next_depths(list, now));
    lemma_length(count, list, rounds);
    lemma_deeper(list, now, node);
    assert(next[node] == deeper(list, now, node));
    if rounds == 0 {
        assert(node == 0);
        assert forall|k: int| 0 <= k < list.len() implies (#[trigger] list[k]).1 != node by {}
        assert(!entered(list, node));
        if next[node] != now[node] {
            let k = choose|k: int|
                0 <= k < list.len() && (#[trigger] list[k]).1 == node && now[list[k].0] is Some
                    && deeper(list, now, node) == Some(now[list[k].0]->0 + 1);
            assert(list[k].1 == node);
        }
    } else {
        let before = depths_after(count, list, (rounds - 1) as nat);
        lemma_length(count, list, (rounds - 1) as nat);
        lemma_deeper(list, before, node);
        assert(now == next_depths(list, before));
        assert(now[node] == deeper(list, before, node));
        assert forall|k: int| 0 <= k < list.len() && (#[trigger] list[k]).1 == node implies now[list[k].0]
            == before[list[k].0] && now[list[k].0] is Some by {
            lemma_settles(count, list, list[k].0, (rounds - 1) as nat);
        }
        if entered(list, node) {
            let k = choose|k: int| 0 <= k < list.len() && (#[trigger] list[k]).1 == node;
            assert(before[list[k].0] is Some);
            assert(now[node] is Some);
        } else {
            if rounds > node {
                lemma_settles(count, list, node, (rounds - 1) as nat);
            } else {
                lemma_top(count, list, node, (rounds - 1) as nat);
            }
            assert(now[node] is Some);
        }
        if next[node] != now[node] {
            let k = choose|k: int|
                0 <= k < list.len() && (#[trigger] list[k]).1 == node && now[list[k].0] is Some
                    && deeper(list, now, node) == Some(now[list[k].0]->0 + 1);
            assert(now[list[k].0] == before[list[k].0]);
            assert(now[node]->0 >= before[list[k].0]->0 + 1);
            assert(next[node]->0 >= now[node]->0);
        }
    }
}

proof fn lemma_length(count: nat, list: Seq<(int, int)>, rounds: nat)
    ensures
        depths_after(count, list, rounds).len() == count,
    decreases rounds,
{
    if rounds > 0 {
        lemma_length(count, list, (rounds - 1) as nat);
    }
}

/// A node that no edge leads to stays at the top.
proof fn lemma_top(count: nat, list: Seq<(int, int)>, node: int, rounds: nat)
    requires
        0 <= node < count,
        !entered(list, node),
    ensures
        depths_after(count, list, rounds)[node] is Some,
    decreases rounds,
{
    if rounds > 0 {
        let before = depths_after(count, list, (rounds - 1) as nat);
        lemma_top(count, list, node, (rounds - 1) as nat);
        lemma_length(count, list, (rounds - 1) as nat);
        lemma_deeper(list, before, node);
    }
}

/// The nodes of the blocks of a macro are found where the blocks are in the walk.
proof fn lemma_node_found(blocks: Seq<BlockView>, i: int)
    requires
        structural_ids(blocks).no_duplicates(),
        0 <= i < flatten(blocks).len(),
    ensures
        first_index(canvas_of(blocks).nodes, node_is(flatten(blocks)[i].id)) == Some(i),
        canvas_of(blocks).nodes[i].id == flatten(blocks)[i].id,
{
    let nodes = canvas_of(blocks).nodes;
    let flat = flatten(blocks);
    every_block_is_one_node(blocks);
    lemma_distinct_blocks(flat);
    assert(stands_for(nodes[i], flat[i]));
    assert forall|j: int| 0 <= j < i implies !node_is(flat[i].id)(#[trigger] nodes[j]) by {
        assert(stands_for(nodes[j], flat[j]));
        assert(flat[j].id != flat[i].id);
    }
    lemma_is_first_index(nodes, node_is(flat[i].id), i);
}

/// The links of a macro's drawing lead onward.
proof fn lemma_links_onward(blocks: Seq<BlockView>, edges: Seq<EdgeView>)
    requires
        structural_ids(blocks).no_duplicates(),
        all_joined(edges, flatten(blocks)),
    ensures
        onward(links(canvas_of(blocks).nodes, edges), canvas_of(blocks).nodes.len()),
    decreases edges.len(),
{
    let nodes = canvas_of(blocks).nodes;
    let flat = flatten(blocks);
    every_block_is_one_node(blocks);
    if edges.len() > 0 {
        let rest = edges.drop_last();
        assert forall|e: int| 0 <= e < rest.len() implies well_joined(
            #[trigger] rest[e],
            flat,
        ) by {
            assert(rest[e] == edges[e]);
        }
        lemma_links_onward(blocks, rest);
        let edge = edges[edges.len() - 1];
        assert(edges.last() == edge);
        assert(well_joined(edge, flat));
        if edge.kind != CanvasEdgeKind::LoopReturn {
            let (a, b) = choose|a: int, b: int|
                0 <= a < b < flat.len() && (#[trigger] flat[a]).id == port_owner(edge.from) && (
                #[trigger] flat[b]).id == edge.to;
            lemma_node_found(blocks, a);
            lemma_node_found(blocks, b);
            assert(link(nodes, edge) == Some((a, b)));
        }
        let all = links(nodes, edges);
        let few = links(nodes, rest);
        assert forall|k: int| 0 <= k < all.len() implies 0 <= (#[trigger] all[k]).0 < all[k].1
            < nodes.len() by {
            if k < few.len() {
                assert(all[k] == few[k]);
            }
        }
    }
}

proof fn lemma_link_listed(nodes: Seq<NodeView>, edges: Seq<EdgeView>, e: int)
    requires
        0 <= e < edges.len(),
        link(nodes, edges[e]) is Some,
    ensures
        links(nodes, edges).contains(link(nodes, edges[e])->0),
    decreases edges.len(),
{
    let all = links(nodes, edges);
    let rest = links(nodes, edges.drop_last());
    if e < edges.len() - 1 {
        assert(edges.drop_last()[e] == edges[e]);
        lemma_link_listed(nodes, edges.drop_last(), e);
        let k = rest.index_of(link(nodes, edges[e])->0);
        assert(all[k] == rest[k]);
    } else {
        assert(all[all.len() - 1] == link(nodes, edges[e])->0);
    }
}

/// In the arranged drawing of a macro every edge but the returns of loops leads to a deeper layer.
pub proof fn edges_lead_to_deeper_layers(blocks: Seq<BlockView>, e: int, from: int, to: int)
    requires
        structural_ids(blocks).no_duplicates(),
        0 <= e < canvas_of(blocks).edges.len(),
        canvas_of(blocks).edges[e].kind != CanvasEdgeKind::LoopReturn,
        0 <= from < canvas_of(blocks).nodes.len(),
        0 <= to < canvas_of(blocks).nodes.len(),
        canvas_of(blocks).nodes[from].id == port_owner(canvas_of(blocks).edges[e].from),
        canvas_of(blocks).nodes[to].id == canvas_of(blocks).edges[e].to,
    ensures
        layer_of(canvas_of(blocks), from) < layer_of(canvas_of(blocks), to),
{
    let graph = canvas_of(blocks);
    let flat = flatten(blocks);
    let edge = graph.edges[e];
    let list = links(graph.nodes, graph.edges);
    let count = graph.nodes.len();
    every_block_is_one_node(blocks);
    edges_join_blocks(blocks);
    lemma_links_onward(blocks, graph.edges);
    lemma_node_found(blocks, from);
    lemma_node_found(blocks, to);
    assert(link(graph.nodes, edge) == Some((from, to)));
    lemma_link_listed(graph.nodes, graph.edges, e);
    let k = list.index_of((from, to));
    assert(list[k].0 == from && list[k].1 == to);
    let before = depths_after(count, list, (count - 1) as nat);
    let depths = depths_after(count, list, count);
    assert(depths == next_depths(list, before));
    lemma_length(count, list, (count - 1) as nat);
    lemma_settles(count, list, from, (count - 1) as nat);
    lemma_settles(count, list, to, (count - 1) as nat);
    lemma_deeper(list, before, to);
    assert(depths[to] == deeper(list, before, to));
    assert(depths[from] == before[from]);
    assert(depths == node_depths(graph));
}

} // verus!
