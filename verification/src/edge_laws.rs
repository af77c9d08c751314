//! What holds of the edges of the canvas: where each leads, and that none is drawn twice.
use crate::bodies::body_container;
use crate::canvas_model::{
    block_canvas, blocks_canvas, bodies_canvas, body_port, canvas_of, entry_edges,
    group_id, offers, port_owner, port_target, return_edges, sequence_edges, CanvasEdgeKind, EdgeView,
    GroupIdView, PortView,
};
use crate::container::{body_index, container, owns, plays, ContainerView};
use crate::editor_types::BlockPathView;
use crate::edits::{is_lane, is_loop};
use crate::context_laws::{distinct, lemma_distinct_parts};
use crate::identities::{ids_of, structural_ids};
use crate::macro_engine::{BlockView, BodyView, RoleView};
use crate::place_laws::{
    in_role, in_roles, lemma_body_found, lemma_distinct_blocks,
    lemma_distinct_lanes, lemma_lane_twice, lemma_listed, located_block_reads_back, only_located_paths_read,
    same_name, shaped, well_shaped,
};
use crate::places::{lanes_of, located};
use crate::tree::{
    first_index, flatten, flatten_block, flatten_bodies, found_block, has_id, lemma_first_index,
    lemma_first_where_found,
};
use vstd::prelude::*;

verus! {

/// How many edges of a list a predicate picks.
pub open spec fn counted(edges: Seq<EdgeView>, pick: spec_fn(EdgeView) -> bool) -> nat
    decreases edges.len(),
{
    if edges.len() == 0 {
        0
    } else {
        counted(edges.drop_last(), pick) + (if pick(edges.last()) {
            1nat
        } else {
            0nat
        })
    }
}

proof fn lemma_counted_add(a: Seq<EdgeView>, b: Seq<EdgeView>, pick: spec_fn(EdgeView) -> bool)
    ensures
        counted(a + b, pick) == counted(a, pick) + counted(b, pick),
    decreases b.len(),
{
    if b.len() == 0 {
        assert(a + b =~= a);
    } else {
        assert((a + b).drop_last() =~= a + b.drop_last());
        lemma_counted_add(a, b.drop_last(), pick);
    }
}

proof fn lemma_counted_one(edges: Seq<EdgeView>, pick: spec_fn(EdgeView) -> bool, e: int)
    requires
        0 <= e < edges.len(),
        pick(edges[e]),
    ensures
        counted(edges, pick) >= 1,
    decreases edges.len(),
{
    if e < edges.len() - 1 {
        lemma_counted_one(edges.drop_last(), pick, e);
    }
}

proof fn lemma_counted_two(edges: Seq<EdgeView>, pick: spec_fn(EdgeView) -> bool, e: int, f: int)
    requires
        0 <= e < f < edges.len(),
        pick(edges[e]),
        pick(edges[f]),
    ensures
        counted(edges, pick) >= 2,
    decreases edges.len(),
{
    if f < edges.len() - 1 {
        lemma_counted_two(edges.drop_last(), pick, e, f);
    } else {
        lemma_counted_one(edges.drop_last(), pick, e);
    }
}

proof fn lemma_picked(edges: Seq<EdgeView>, pick: spec_fn(EdgeView) -> bool) -> (e: int)
    requires
        counted(edges, pick) > 0,
    ensures
        0 <= e < edges.len(),
        pick(edges[e]),
    decreases edges.len(),
{
    if pick(edges.last()) {
        edges.len() - 1
    } else {
        lemma_picked(edges.drop_last(), pick)
    }
}

/// The predicate that picks the edges out of a port.
pub open spec fn leaves(port: PortView) -> spec_fn(EdgeView) -> bool {
    |edge: EdgeView| edge.from == port
}

/// The predicate that picks one edge.
pub open spec fn is_edge(edge: EdgeView) -> spec_fn(EdgeView) -> bool {
    |other: EdgeView| other == edge
}

/// Among edges, exactly one leaves a port, and it is a given one.
pub open spec fn only_edge(edges: Seq<EdgeView>, port: PortView, edge: EdgeView) -> bool {
    exists|e: int|
        #![trigger edges[e]]
        0 <= e < edges.len() && edges[e] == edge && edge.from == port && forall|f: int|
            0 <= f < edges.len() && f != e ==> (#[trigger] edges[f]).from != port
}

/// Among edges, none leaves a port.
pub open spec fn no_edge(edges: Seq<EdgeView>, port: PortView) -> bool {
    forall|f: int| 0 <= f < edges.len() ==> (#[trigger] edges[f]).from != port
}

proof fn lemma_only_edge(edges: Seq<EdgeView>, port: PortView, edge: EdgeView)
    requires
        edge.from == port,
        counted(edges, leaves(port)) == 1,
        counted(edges, is_edge(edge)) == 1,
    ensures
        only_edge(edges, port, edge),
{
    let e = lemma_picked(edges, is_edge(edge));
    assert forall|f: int| 0 <= f < edges.len() && f != e implies (#[trigger] edges[f]).from
        != port by {
        if edges[f].from == port {
            if e < f {
                lemma_counted_two(edges, leaves(port), e, f);
            } else {
                lemma_counted_two(edges, leaves(port), f, e);
            }
        }
    }
    assert(edges[e] == edge);
}

proof fn lemma_no_edge(edges: Seq<EdgeView>, port: PortView)
    requires
        counted(edges, leaves(port)) == 0,
    ensures
        no_edge(edges, port),
{
    assert forall|f: int| 0 <= f < edges.len() implies (#[trigger] edges[f]).from != port by {
        if edges[f].from == port {
            lemma_counted_one(edges, leaves(port), f);
        }
    }
}

/// How many edges a predicate picks of those that a body brings: the one into it, those between its
/// blocks and the return of a loop.
spec fn body_counted(owner: Seq<char>, body: BodyView, pick: spec_fn(EdgeView) -> bool) -> nat {
    counted(entry_edges(owner, body), pick) + counted(sequence_edges(body.blocks), pick) + counted(
        return_edges(owner, body.role),
        pick,
    )
}

spec fn bodies_counted(
    owner: Seq<char>,
    bodies: Seq<BodyView>,
    pick: spec_fn(EdgeView) -> bool,
) -> nat
    decreases bodies.len(),
{
    if bodies.len() == 0 {
        0
    } else {
        bodies_counted(owner, bodies.drop_last(), pick) + body_counted(owner, bodies.last(), pick)
    }
}

spec fn flat_counted(flat: Seq<BlockView>, pick: spec_fn(EdgeView) -> bool) -> nat
    decreases flat.len(),
{
    if flat.len() == 0 {
        0
    } else {
        flat_counted(flat.drop_last(), pick) + bodies_counted(
            flat.last().id,
            flat.last().bodies,
            pick,
        )
    }
}

proof fn lemma_flat_add(a: Seq<BlockView>, b: Seq<BlockView>, pick: spec_fn(EdgeView) -> bool)
    ensures
        flat_counted(a + b, pick) == flat_counted(a, pick) + flat_counted(b, pick),
    decreases b.len(),
{
    if b.len() == 0 {
        assert(a + b =~= a);
    } else {
        assert((a + b).drop_last() =~= a + b.drop_last());
        lemma_flat_add(a, b.drop_last(), pick);
    }
}

/// The edges of the canvas are those that the bodies of the blocks bring, and no more.
proof fn lemma_blocks_counted(
    blocks: Seq<BlockView>,
    groups: Seq<GroupIdView>,
    pick: spec_fn(EdgeView) -> bool,
)
    ensures
        counted(blocks_canvas(blocks, groups).edges, pick) == flat_counted(flatten(blocks), pick),
    decreases blocks,
{
    if blocks.len() > 0 {
        let rest = blocks.drop_last();
        let last = blocks.last();
        assert(decreases_to!(blocks => rest));
        assert(decreases_to!(blocks => last));
        lemma_blocks_counted(rest, groups, pick);
        lemma_block_counted(last, groups, pick);
        lemma_counted_add(
            blocks_canvas(rest, groups).edges,
            block_canvas(last, groups).edges,
            pick,
        );
        lemma_flat_add(flatten(rest), flatten_block(last), pick);
    }
}

proof fn lemma_block_counted(
    block: BlockView,
    groups: Seq<GroupIdView>,
    pick: spec_fn(EdgeView) -> bool,
)
    ensures
        counted(block_canvas(block, groups).edges, pick) == flat_counted(
            flatten_block(block),
            pick,
        ),
    decreases block,
{
    assert(decreases_to!(block => block.bodies));
    lemma_bodies_counted(block.id, block.bodies, groups, pick);
    assert(block_canvas(block, groups).edges =~= bodies_canvas(
        block.id,
        block.bodies,
        groups,
    ).edges);
    let own = seq![block];
    assert(own.drop_last() =~= Seq::empty());
    assert(own.last() == block);
    reveal_with_fuel(flat_counted, 2);
    lemma_flat_add(own, flatten_bodies(block.bodies), pick);
}

proof fn lemma_bodies_counted(
    owner: Seq<char>,
    bodies: Seq<BodyView>,
    groups: Seq<GroupIdView>,
    pick: spec_fn(EdgeView) -> bool,
)
    ensures
        counted(bodies_canvas(owner, bodies, groups).edges, pick) == bodies_counted(
            owner,
            bodies,
            pick,
        ) + flat_counted(flatten_bodies(bodies), pick),
    decreases bodies,
{
    if bodies.len() > 0 {
        let rest = bodies.drop_last();
        let last = bodies.last();
        assert(decreases_to!(bodies => rest));
        assert(decreases_to!(bodies => last.blocks));
        let inner = groups.push(group_id(owner, last.role));
        lemma_bodies_counted(owner, rest, groups, pick);
        lemma_blocks_counted(last.blocks, inner, pick);
        lemma_flat_add(flatten_bodies(rest), flatten(last.blocks), pick);
        let a = bodies_canvas(owner, rest, groups).edges;
        let b = entry_edges(owner, last);
        let c = blocks_canvas(last.blocks, inner).edges;
        let d = sequence_edges(last.blocks);
        let e = return_edges(owner, last.role);
        assert(bodies_canvas(owner, bodies, groups).edges =~= a + (b + (c + (d + e))));
        lemma_counted_add(a, b + (c + (d + e)), pick);
        lemma_counted_add(b, c + (d + e), pick);
        lemma_counted_add(c, d + e, pick);
        lemma_counted_add(d, e, pick);
    }
}

proof fn lemma_canvas_counted(blocks: Seq<BlockView>, pick: spec_fn(EdgeView) -> bool)
    ensures
        counted(canvas_of(blocks).edges, pick) == flat_counted(flatten(blocks), pick) + counted(
            sequence_edges(blocks),
            pick,
        ),
{
    lemma_blocks_counted(blocks, Seq::empty(), pick);
    lemma_counted_add(
        blocks_canvas(blocks, Seq::empty()).edges,
        sequence_edges(blocks),
        pick,
    );
}

/// Where only one block of the walk brings picked edges, these are all.
proof fn lemma_alone(flat: Seq<BlockView>, at: int, pick: spec_fn(EdgeView) -> bool)
    requires
        forall|j: int|
            0 <= j < flat.len() && j != at ==> bodies_counted(
                (#[trigger] flat[j]).id,
                flat[j].bodies,
                pick,
            ) == 0,
    ensures
        flat_counted(flat, pick) == (if 0 <= at < flat.len() {
            bodies_counted(flat[at].id, flat[at].bodies, pick)
        } else {
            0
        }),
    decreases flat.len(),
{
    if flat.len() > 0 {
        let rest = flat.drop_last();
        assert(flat.last() == flat[flat.len() - 1]);
        assert forall|j: int| 0 <= j < rest.len() && j != at implies bodies_counted(
            (#[trigger] rest[j]).id,
            rest[j].bodies,
            pick,
        ) == 0 by {
            assert(rest[j] == flat[j]);
        }
        lemma_alone(rest, at, pick);
    }
}

/// Where only one body of a block brings picked edges, these are all.
proof fn lemma_body_alone(
    owner: Seq<char>,
    bodies: Seq<BodyView>,
    at: int,
    pick: spec_fn(EdgeView) -> bool,
)
    requires
        forall|k: int|
            0 <= k < bodies.len() && k != at ==> body_counted(owner, #[trigger] bodies[k], pick)
                == 0,
    ensures
        bodies_counted(owner, bodies, pick) == (if 0 <= at < bodies.len() {
            body_counted(owner, bodies[at], pick)
        } else {
            0
        }),
    decreases bodies.len(),
{
    if bodies.len() > 0 {
        let rest = bodies.drop_last();
        assert(bodies.last() == bodies[bodies.len() - 1]);
        assert forall|k: int| 0 <= k < rest.len() && k != at implies body_counted(
            owner,
            #[trigger] rest[k],
            pick,
        ) == 0 by {
            assert(rest[k] == bodies[k]);
        }
        lemma_body_alone(owner, rest, at, pick);
    }
}

/// A predicate picks only edges out of one port.
spec fn picks_at(pick: spec_fn(EdgeView) -> bool, port: PortView) -> bool {
    forall|edge: EdgeView| #[trigger] pick(edge) ==> edge.from == port
}

/// Edges between the blocks of a list leave by the way on.
proof fn lemma_sequence_other(
    blocks: Seq<BlockView>,
    port: PortView,
    pick: spec_fn(EdgeView) -> bool,
)
    requires
        picks_at(pick, port),
        !(port is Next),
    ensures
        counted(sequence_edges(blocks), pick) == 0,
    decreases blocks.len(),
{
    if blocks.len() >= 2 {
        let rest = sequence_edges(blocks.drop_last());
        lemma_sequence_other(blocks.drop_last(), port, pick);
        let all = sequence_edges(blocks);
        if all != rest {
            assert(all.drop_last() =~= rest);
            assert(!pick(all.last()));
        }
    }
}

/// The edge into a body.
spec fn entry(owner: Seq<char>, body: BodyView) -> EdgeView {
    entry_edges(owner, body)[0]
}

/// Out of a port that leads into a body, a body brings at most the edge into it.
proof fn lemma_entry(
    owner: Seq<char>,
    body: BodyView,
    port: PortView,
    pick: spec_fn(EdgeView) -> bool,
)
    requires
        picks_at(pick, port),
        !(port is Next) && !(port is LoopReturn),
    ensures
        body_counted(owner, body, pick) == (if body.blocks.len() > 0 && pick(
            entry(owner, body),
        ) {
            1nat
        } else {
            0
        }),
{
    lemma_sequence_other(body.blocks, port, pick);
    reveal_with_fuel(counted, 2);
    let a = entry_edges(owner, body);
    let b = return_edges(owner, body.role);
    if body.blocks.len() > 0 {
        assert(a.drop_last() =~= Seq::empty());
        assert(a.last() == entry(owner, body));
    }
    if body.role is Loop {
        assert(b.drop_last() =~= Seq::empty());
        assert(!pick(b.last()));
    }
}

/// A port leads into the body of a block that plays a role: THEN and ELSE of an IF block, the body of
/// a loop, a lane by its identity, what runs on timeout.
pub open spec fn names_body(port: PortView, owner: Seq<char>, role: RoleView) -> bool {
    match (port, role) {
        (PortView::IfThen(id), RoleView::Then) => id == owner,
        (PortView::IfElse(id), RoleView::Else) => id == owner,
        (PortView::LoopBody(id), RoleView::Loop) => id == owner,
        (
            PortView::WatchLane { group_id, lane_id },
            RoleView::Lane { id, .. },
        ) => group_id == owner && lane_id == id,
        (PortView::TimeoutBody(id), RoleView::Timeout) => id == owner,
        _ => false,
    }
}

/// A container is the one that a port leads into.
pub open spec fn names_container(port: PortView, inside: ContainerView) -> bool {
    match (port, inside) {
        (PortView::IfThen(id), ContainerView::IfThen { if_id }) => if_id == id,
        (PortView::IfElse(id), ContainerView::IfElse { if_id }) => if_id == id,
        (PortView::LoopBody(id), ContainerView::LoopBody { loop_id }) => loop_id == id,
        (
            PortView::WatchLane { group_id, lane_id },
            ContainerView::WatchLaneBody { watch_id, lane_id: inner },
        ) => watch_id == group_id && inner == lane_id,
        (PortView::TimeoutBody(id), ContainerView::TimeoutBody { owner_id }) => owner_id == id,
        _ => false,
    }
}

/// The kind of the edge out of a port.
pub open spec fn kind_of_port(port: PortView) -> CanvasEdgeKind {
    match port {
        PortView::Next(_) => CanvasEdgeKind::Sequence,
        PortView::IfThen(_) => CanvasEdgeKind::Branch,
        PortView::IfElse(_) => CanvasEdgeKind::Branch,
        PortView::LoopBody(_) => CanvasEdgeKind::Sequence,
        PortView::WatchLane { .. } => CanvasEdgeKind::WatchLane,
        PortView::TimeoutBody(_) => CanvasEdgeKind::Timeout,
        PortView::LoopReturn(_) => CanvasEdgeKind::LoopReturn,
    }
}

proof fn lemma_entry_edge(owner: Seq<char>, body: BodyView, port: PortView)
    requires
        body.blocks.len() > 0,
        !(port is Next) && !(port is LoopReturn),
    ensures
        entry(owner, body).from == port <==> names_body(port, owner, body.role),
        names_body(port, owner, body.role) ==> entry(owner, body) == (EdgeView {
            from: port,
            to: body.blocks[0].id,
            kind: kind_of_port(port),
            editable: true,
        }),
{
}

/// At most one body of a block is led into by a port.
proof fn lemma_one_body(flat: Seq<BlockView>, at: int, port: PortView, j: int, k: int)
    requires
        0 <= at < flat.len(),
        ids_of(flat).no_duplicates(),
        well_shaped(flat[at]),
        0 <= j < k < flat[at].bodies.len(),
        names_body(port, flat[at].id, flat[at].bodies[j].role),
    ensures
        !names_body(port, flat[at].id, flat[at].bodies[k].role),
{
    let bodies = flat[at].bodies;
    if names_body(port, flat[at].id, bodies[k].role) {
        assert(same_name(bodies[j].role, bodies[k].role));
        if bodies[j].role is Lane {
            lemma_distinct_lanes(flat, at);
            lemma_lane_twice(bodies, j, k, bodies[j].role->Lane_id);
        }
    }
}

/// How many picked edges leave a port that leads into a body: one where the body is there, is not
/// empty, and the edge into it is picked.
proof fn lemma_port_counted(
    blocks: Seq<BlockView>,
    port: PortView,
    pick: spec_fn(EdgeView) -> bool,
    at: int,
    k: int,
)
    requires
        shaped(blocks),
        structural_ids(blocks).no_duplicates(),
        !(port is Next) && !(port is LoopReturn),
        picks_at(pick, port),
        0 <= at < flatten(blocks).len() ==> flatten(blocks)[at].id == port_owner(port),
        !(0 <= at < flatten(blocks).len()) ==> forall|j: int|
            0 <= j < flatten(blocks).len() ==> (#[trigger] flatten(blocks)[j]).id
                != port_owner(port),
        0 <= at < flatten(blocks).len() && 0 <= k < flatten(blocks)[at].bodies.len() ==> names_body(
            port,
            flatten(blocks)[at].id,
            flatten(blocks)[at].bodies[k].role,
        ),
        0 <= at < flatten(blocks).len() && !(0 <= k < flatten(blocks)[at].bodies.len())
            ==> forall|j: int|
            0 <= j < flatten(blocks)[at].bodies.len() ==> !names_body(
                port,
                flatten(blocks)[at].id,
                (#[trigger] flatten(blocks)[at].bodies[j]).role,
            ),
    ensures
        counted(canvas_of(blocks).edges, pick) == (if 0 <= at < flatten(blocks).len() && 0 <= k
            < flatten(blocks)[at].bodies.len() && flatten(blocks)[at].bodies[k].blocks.len() > 0
            && pick(entry(flatten(blocks)[at].id, flatten(blocks)[at].bodies[k])) {
            1nat
        } else {
            0
        }),
{
    let flat = flatten(blocks);
    lemma_canvas_counted(blocks, pick);
    lemma_sequence_other(blocks, port, pick);
    lemma_distinct_blocks(flat);
    assert forall|j: int| 0 <= j < flat.len() && j != at implies bodies_counted(
        (#[trigger] flat[j]).id,
        flat[j].bodies,
        pick,
    ) == 0 by {
        assert(flat[j].id != port_owner(port));
        let bodies = flat[j].bodies;
        assert forall|x: int| 0 <= x < bodies.len() && x != -1 implies body_counted(
            flat[j].id,
            #[trigger] bodies[x],
            pick,
        ) == 0 by {
            lemma_entry(flat[j].id, bodies[x], port, pick);
            if bodies[x].blocks.len() > 0 {
                lemma_entry_edge(flat[j].id, bodies[x], port);
            }
        }
        lemma_body_alone(flat[j].id, bodies, -1, pick);
    }
    lemma_alone(flat, at, pick);
    if 0 <= at < flat.len() {
        let bodies = flat[at].bodies;
        assert(well_shaped(flat[at]));
        assert forall|x: int| 0 <= x < bodies.len() && x != k implies body_counted(
            flat[at].id,
            #[trigger] bodies[x],
            pick,
        ) == 0 by {
            lemma_entry(flat[at].id, bodies[x], port, pick);
            if names_body(port, flat[at].id, bodies[x].role) {
                if x < k {
                    lemma_one_body(flat, at, port, x, k);
                } else {
                    lemma_one_body(flat, at, port, k, x);
                }
            }
            if bodies[x].blocks.len() > 0 {
                lemma_entry_edge(flat[at].id, bodies[x], port);
            }
        }
        lemma_body_alone(flat[at].id, bodies, k, pick);
        if 0 <= k < bodies.len() {
            lemma_entry(flat[at].id, bodies[k], port, pick);
        }
    }
}

/// A block offers a port that leads into a body exactly where it has the body.
proof fn lemma_offers_body(block: BlockView, port: PortView) -> (k: int)
    requires
        well_shaped(block),
        in_role(block),
        port_owner(port) == block.id,
        !(port is Next) && !(port is LoopReturn),
    ensures
        offers(block, port) <==> 0 <= k < block.bodies.len(),
        0 <= k < block.bodies.len() ==> names_body(port, block.id, block.bodies[k].role)
            && names_container(port, body_container(block.id, block.bodies[k].role)),
        !(0 <= k < block.bodies.len()) ==> forall|j: int|
            0 <= j < block.bodies.len() ==> !names_body(
                port,
                block.id,
                (#[trigger] block.bodies[j]).role,
            ),
{
    if offers(block, port) {
        match port {
            PortView::IfElse(_) => 1,
            PortView::TimeoutBody(_) => block.bodies.len() - 1,
            PortView::WatchLane { lane_id, .. } => {
                lemma_first_index(lanes_of(block), is_lane(lane_id));
                let k = first_index(lanes_of(block), is_lane(lane_id))->0;
                assert(lanes_of(block)[k].role is Lane);
                assert(lanes_of(block)[k] == block.bodies[k]);
                k
            },
            _ => 0,
        }
    } else {
        assert forall|j: int| 0 <= j < block.bodies.len() implies !names_body(
            port,
            block.id,
            (#[trigger] block.bodies[j]).role,
        ) by {
            if names_body(port, block.id, block.bodies[j].role) {
                if let PortView::WatchLane { lane_id, .. } = port {
                    lemma_first_index(lanes_of(block), is_lane(lane_id));
                    assert(lanes_of(block)[j] == block.bodies[j]);
                    assert(is_lane(lane_id)(lanes_of(block)[j]));
                }
            }
        }
        -1
    }
}

/// In a macro with distinct identities, a port of a branch, a loop, a lane or a timeout leads to the
/// first block of the container that a block dropped on the port goes into: from THEN into THEN,
/// from ELSE into ELSE, from a lane into that lane. There is exactly one such edge where the
/// container is not empty, and none where it is empty or where there is no such container.
pub proof fn ports_lead_to_the_first_block(blocks: Seq<BlockView>, port: PortView)
    requires
        shaped(blocks),
        in_roles(blocks),
        structural_ids(blocks).no_duplicates(),
        !(port is Next) && !(port is LoopReturn),
    ensures
        ({
            let edges = canvas_of(blocks).edges;
            match port_target(blocks, port) {
                Err(_) => no_edge(edges, port),
                Ok(target) => {
                    &&& names_container(port, target.container)
                    &&& container(blocks, target.container) is Some
                    &&& {
                        let list = container(blocks, target.container)->0;
                        &&& list.len() == 0 ==> no_edge(edges, port)
                        &&& list.len() > 0 ==> only_edge(
                            edges,
                            port,
                            EdgeView {
                                from: port,
                                to: list[0].id,
                                kind: kind_of_port(port),
                                editable: true,
                            },
                        )
                        &&& exists|k: int|
                            #![trigger found_block(blocks, port_owner(port))->0.bodies[k]]
                            0 <= k < found_block(blocks, port_owner(port))->0.bodies.len()
                                && names_body(
                                port,
                                port_owner(port),
                                found_block(blocks, port_owner(port))->0.bodies[k].role,
                            ) && list == found_block(blocks, port_owner(port))->0.bodies[k].blocks
                    }
                },
            }
        }),
{
    let flat = flatten(blocks);
    let edges = canvas_of(blocks).edges;
    let id = port_owner(port);
    located_block_reads_back(blocks, id);
    let found = lemma_first_where_found(flat, has_id(id));
    if found_block(blocks, id) is None {
        assert forall|j: int| 0 <= j < flat.len() implies (#[trigger] flat[j]).id != id by {
            assert(!has_id(id)(flat[j]));
        }
        lemma_port_counted(blocks, port, leaves(port), -1, -1);
        lemma_no_edge(edges, port);
    } else {
        let owner = flat[found];
        assert(well_shaped(flat[found]));
        assert(in_role(flat[found]));
        let k = lemma_offers_body(owner, port);
        lemma_port_counted(blocks, port, leaves(port), found, k);
        if 0 <= k < owner.bodies.len() {
            assert(flat.contains(owner));
            lemma_body_found(blocks, owner, k);
            let list = owner.bodies[k].blocks;
            if list.len() > 0 {
                lemma_entry_edge(id, owner.bodies[k], port);
                let edge = entry(id, owner.bodies[k]);
                lemma_port_counted(blocks, port, is_edge(edge), found, k);
                lemma_only_edge(edges, port, edge);
            } else {
                lemma_no_edge(edges, port);
            }
            let target = port_target(blocks, port)->Ok_0;
            assert(target.container == body_container(id, owner.bodies[k].role));
            assert(found_block(blocks, id)->0.bodies[k] == owner.bodies[k]);
        } else {
            lemma_no_edge(edges, port);
        }
    }
}

/// The lists in the bodies of each block of a walk have distinct identities.
spec fn lists_distinct(flat: Seq<BlockView>) -> bool {
    forall|j: int, k: int|
        0 <= j < flat.len() && 0 <= k < flat[j].bodies.len() ==> distinct(
            (#[trigger] flat[j].bodies[k]).blocks,
        )
}

proof fn lemma_lists_joined(a: Seq<BlockView>, b: Seq<BlockView>)
    requires
        lists_distinct(a),
        lists_distinct(b),
    ensures
        lists_distinct(a + b),
{
    let all = a + b;
    assert forall|j: int, k: int|
        0 <= j < all.len() && 0 <= k < all[j].bodies.len() implies distinct(
        (#[trigger] all[j].bodies[k]).blocks,
    ) by {
        if j < a.len() {
            assert(all[j] == a[j]);
            assert(distinct(a[j].bodies[k].blocks));
        } else {
            assert(all[j] == b[j - a.len()]);
            assert(distinct(b[j - a.len()].bodies[k].blocks));
        }
    }
}

proof fn lemma_lists_distinct(blocks: Seq<BlockView>)
    requires
        distinct(flatten(blocks)),
    ensures
        distinct(blocks),
        lists_distinct(flatten(blocks)),
    decreases blocks,
{
    if blocks.len() > 0 {
        let rest = blocks.drop_last();
        let last = blocks.last();
        let flat = flatten(blocks);
        assert(decreases_to!(blocks => rest));
        assert(decreases_to!(blocks => last));
        lemma_distinct_parts(flatten(rest), flatten_block(last));
        lemma_lists_distinct(rest);
        lemma_block_lists_distinct(last);
        lemma_lists_joined(flatten(rest), flatten_block(last));
        assert forall|a: int, b: int| 0 <= a < b < blocks.len() implies (#[trigger] blocks[a]).id
            != (#[trigger] blocks[b]).id by {
            assert(rest[a] == blocks[a]);
            if b < rest.len() {
                assert(rest[b] == blocks[b]);
            } else {
                lemma_listed(rest, a);
                let i = flatten(rest).index_of(rest[a]);
                let n = flatten(rest).len() as int;
                assert(flat[i] == rest[a]);
                assert(flatten_block(last)[0] == last);
                assert(flat[n] == last);
            }
        }
    }
}

proof fn lemma_block_lists_distinct(block: BlockView)
    requires
        distinct(flatten_block(block)),
    ensures
        lists_distinct(flatten_block(block)),
    decreases block,
{
    assert(decreases_to!(block => block.bodies));
    let own = seq![block];
    lemma_distinct_parts(own, flatten_bodies(block.bodies));
    lemma_body_lists_distinct(block.bodies);
    assert(lists_distinct(own));
    lemma_lists_joined(own, flatten_bodies(block.bodies));
}

proof fn lemma_body_lists_distinct(bodies: Seq<BodyView>)
    requires
        distinct(flatten_bodies(bodies)),
    ensures
        forall|k: int| 0 <= k < bodies.len() ==> distinct((#[trigger] bodies[k]).blocks),
        lists_distinct(flatten_bodies(bodies)),
    decreases bodies,
{
    if bodies.len() > 0 {
        let rest = bodies.drop_last();
        let last = bodies.last();
        assert(decreases_to!(bodies => rest));
        assert(decreases_to!(bodies => last.blocks));
        lemma_distinct_parts(flatten_bodies(rest), flatten(last.blocks));
        lemma_body_lists_distinct(rest);
        lemma_lists_distinct(last.blocks);
        lemma_lists_joined(flatten_bodies(rest), flatten(last.blocks));
        assert forall|k: int| 0 <= k < bodies.len() implies distinct(
            (#[trigger] bodies[k]).blocks,
        ) by {
            if k < rest.len() {
                assert(rest[k] == bodies[k]);
            }
        }
    }
}

/// The edge from a block of a list to the next.
spec fn step(list: Seq<BlockView>, i: int) -> EdgeView {
    EdgeView {
        from: PortView::Next(list[i].id),
        to: list[i + 1].id,
        kind: CanvasEdgeKind::Sequence,
        editable: true,
    }
}

/// A block of a list is followed by another that the run goes on to.
spec fn goes_on(list: Seq<BlockView>, i: int) -> bool {
    0 <= i < list.len() - 1 && !(list[i].head is StopSuccess) && !(list[i].head is StopError)
}

proof fn lemma_next_in_list(
    list: Seq<BlockView>,
    id: Seq<char>,
    i: int,
    pick: spec_fn(EdgeView) -> bool,
)
    requires
        picks_at(pick, PortView::Next(id)),
        forall|j: int| 0 <= j < list.len() && j != i ==> (#[trigger] list[j]).id != id,
    ensures
        counted(sequence_edges(list), pick) == (if goes_on(list, i) && pick(step(list, i)) {
            1nat
        } else {
            0
        }),
    decreases list.len(),
{
    if list.len() >= 2 {
        let rest = list.drop_last();
        let n = list.len() - 2;
        assert forall|j: int| 0 <= j < rest.len() && j != i implies (#[trigger] rest[j]).id
            != id by {
            assert(rest[j] == list[j]);
        }
        lemma_next_in_list(rest, id, i, pick);
        let all = sequence_edges(list);
        if all != sequence_edges(rest) {
            assert(all.drop_last() =~= sequence_edges(rest));
            assert(all.last() == step(list, n));
        }
        if i < n && 0 <= i {
            assert(step(rest, i) == step(list, i));
        }
        assert(list[n].id == rest[n].id);
    }
}

/// A block in a body is located in the container of that body.
proof fn lemma_located_in_body(blocks: Seq<BlockView>, j: int, k: int, x: int)
    requires
        shaped(blocks),
        structural_ids(blocks).no_duplicates(),
        0 <= j < flatten(blocks).len(),
        0 <= k < flatten(blocks)[j].bodies.len(),
        0 <= x < flatten(blocks)[j].bodies[k].blocks.len(),
    ensures
        ({
            let owner = flatten(blocks)[j];
            let inside = body_container(owner.id, owner.bodies[k].role);
            &&& container(blocks, inside) == Some(owner.bodies[k].blocks)
            &&& located(blocks, owner.bodies[k].blocks[x].id) == Some(
                BlockPathView { container: inside, block_id: owner.bodies[k].blocks[x].id },
            )
        }),
{
    let owner = flatten(blocks)[j];
    let inside = body_container(owner.id, owner.bodies[k].role);
    let list = owner.bodies[k].blocks;
    let id = list[x].id;
    assert(flatten(blocks).contains(owner));
    lemma_body_found(blocks, owner, k);
    lemma_first_index(list, has_id(id));
    assert(has_id(id)(list[x]));
    only_located_paths_read(blocks, BlockPathView { container: inside, block_id: id });
}

proof fn lemma_located_at_top(blocks: Seq<BlockView>, x: int)
    requires
        shaped(blocks),
        structural_ids(blocks).no_duplicates(),
        0 <= x < blocks.len(),
    ensures
        located(blocks, blocks[x].id) == Some(
            BlockPathView { container: ContainerView::Root, block_id: blocks[x].id },
        ),
{
    let id = blocks[x].id;
    lemma_first_index(blocks, has_id(id));
    assert(has_id(id)(blocks[x]));
    only_located_paths_read(
        blocks,
        BlockPathView { container: ContainerView::Root, block_id: id },
    );
}

/// A body brings, out of the way on from a block, only the edge from that block in its list.
proof fn lemma_next_in_body(
    owner: Seq<char>,
    body: BodyView,
    id: Seq<char>,
    i: int,
    pick: spec_fn(EdgeView) -> bool,
)
    requires
        picks_at(pick, PortView::Next(id)),
        forall|j: int| 0 <= j < body.blocks.len() && j != i ==> (#[trigger] body.blocks[j]).id != id,
    ensures
        body_counted(owner, body, pick) == (if goes_on(body.blocks, i) && pick(
            step(body.blocks, i),
        ) {
            1nat
        } else {
            0
        }),
{
    lemma_next_in_list(body.blocks, id, i, pick);
    reveal_with_fuel(counted, 2);
    let a = entry_edges(owner, body);
    let b = return_edges(owner, body.role);
    if body.blocks.len() > 0 {
        assert(a.drop_last() =~= Seq::empty());
        assert(a.last().from == body_port(owner, body.role));
        assert(!pick(a.last()));
    }
    if body.role is Loop {
        assert(b.drop_last() =~= Seq::empty());
        assert(!pick(b.last()));
    }
}

/// How many picked edges leave the way on from a block that stands at the top, or nowhere.
proof fn lemma_next_at_top(
    blocks: Seq<BlockView>,
    id: Seq<char>,
    i: int,
    pick: spec_fn(EdgeView) -> bool,
)
    requires
        shaped(blocks),
        structural_ids(blocks).no_duplicates(),
        picks_at(pick, PortView::Next(id)),
        0 <= i < blocks.len() ==> blocks[i].id == id,
        !(0 <= i < blocks.len()) ==> located(blocks, id) is None,
    ensures
        counted(canvas_of(blocks).edges, pick) == (if goes_on(blocks, i) && pick(
            step(blocks, i),
        ) {
            1nat
        } else {
            0
        }),
{
    let flat = flatten(blocks);
    lemma_canvas_counted(blocks, pick);
    lemma_distinct_blocks(flat);
    lemma_lists_distinct(blocks);
    assert forall|j: int| 0 <= j < blocks.len() && j != i implies (#[trigger] blocks[j]).id
        != id by {
        lemma_located_at_top(blocks, j);
    }
    lemma_next_in_list(blocks, id, i, pick);
    if 0 <= i < blocks.len() {
        lemma_located_at_top(blocks, i);
    }
    assert forall|j: int| 0 <= j < flat.len() && j != -1 implies bodies_counted(
        (#[trigger] flat[j]).id,
        flat[j].bodies,
        pick,
    ) == 0 by {
        let bodies = flat[j].bodies;
        assert forall|k: int| 0 <= k < bodies.len() && k != -1 implies body_counted(
            flat[j].id,
            #[trigger] bodies[k],
            pick,
        ) == 0 by {
            assert forall|x: int| 0 <= x < bodies[k].blocks.len() && x != -1 implies (
            #[trigger] bodies[k].blocks[x]).id != id by {
                lemma_located_in_body(blocks, j, k, x);
            }
            lemma_next_in_body(flat[j].id, bodies[k], id, -1, pick);
        }
        lemma_body_alone(flat[j].id, bodies, -1, pick);
    }
    lemma_alone(flat, -1, pick);
}

/// How many picked edges leave the way on from a block in a body.
proof fn lemma_next_below(
    blocks: Seq<BlockView>,
    id: Seq<char>,
    at: int,
    k: int,
    i: int,
    pick: spec_fn(EdgeView) -> bool,
)
    requires
        shaped(blocks),
        structural_ids(blocks).no_duplicates(),
        picks_at(pick, PortView::Next(id)),
        0 <= at < flatten(blocks).len(),
        0 <= k < flatten(blocks)[at].bodies.len(),
        0 <= i < flatten(blocks)[at].bodies[k].blocks.len(),
        flatten(blocks)[at].bodies[k].blocks[i].id == id,
    ensures
        counted(canvas_of(blocks).edges, pick) == (if goes_on(
            flatten(blocks)[at].bodies[k].blocks,
            i,
        ) && pick(step(flatten(blocks)[at].bodies[k].blocks, i)) {
            1nat
        } else {
            0
        }),
{
    let flat = flatten(blocks);
    let owner = flat[at];
    let inside = body_container(owner.id, owner.bodies[k].role);
    lemma_canvas_counted(blocks, pick);
    lemma_distinct_blocks(flat);
    lemma_lists_distinct(blocks);
    lemma_located_in_body(blocks, at, k, i);
    assert forall|j: int| 0 <= j < blocks.len() && j != -1 implies (#[trigger] blocks[j]).id
        != id by {
        lemma_located_at_top(blocks, j);
    }
    lemma_next_in_list(blocks, id, -1, pick);
    assert forall|j: int| 0 <= j < flat.len() && j != at implies bodies_counted(
        (#[trigger] flat[j]).id,
        flat[j].bodies,
        pick,
    ) == 0 by {
        let bodies = flat[j].bodies;
        assert forall|y: int| 0 <= y < bodies.len() && y != -1 implies body_counted(
            flat[j].id,
            #[trigger] bodies[y],
            pick,
        ) == 0 by {
            assert forall|x: int| 0 <= x < bodies[y].blocks.len() && x != -1 implies (
            #[trigger] bodies[y].blocks[x]).id != id by {
                lemma_located_in_body(blocks, j, y, x);
                assert(flat[j].id != owner.id);
            }
            lemma_next_in_body(flat[j].id, bodies[y], id, -1, pick);
        }
        lemma_body_alone(flat[j].id, bodies, -1, pick);
    }
    lemma_alone(flat, at, pick);
    let bodies = owner.bodies;
    assert(well_shaped(flat[at]));
    assert forall|y: int| 0 <= y < bodies.len() && y != k implies body_counted(
        owner.id,
        #[trigger] bodies[y],
        pick,
    ) == 0 by {
        assert forall|x: int| 0 <= x < bodies[y].blocks.len() && x != -1 implies (
        #[trigger] bodies[y].blocks[x]).id != id by {
            lemma_located_in_body(blocks, at, y, x);
            if bodies[y].blocks[x].id == id {
                assert(same_name(bodies[y].role, bodies[k].role));
                assert(same_name(bodies[k].role, bodies[y].role));
                if bodies[y].role is Lane {
                    lemma_distinct_lanes(flat, at);
                    if y < k {
                        lemma_lane_twice(bodies, y, k, bodies[y].role->Lane_id);
                    } else {
                        lemma_lane_twice(bodies, k, y, bodies[y].role->Lane_id);
                    }
                }
            }
        }
        lemma_next_in_body(owner.id, bodies[y], id, -1, pick);
    }
    lemma_body_alone(owner.id, bodies, k, pick);
    assert(distinct(flat[at].bodies[k].blocks));
    assert forall|x: int| 0 <= x < bodies[k].blocks.len() && x != i implies (
    #[trigger] bodies[k].blocks[x]).id != id by {}
    lemma_next_in_body(owner.id, bodies[k], id, i, pick);
}

/// A block leads on to the block behind it in the container that it is located in, by exactly one
/// edge, unless it is the last there or ends the run; then, and where there is no such block, no edge
/// leads on from it.
pub proof fn blocks_lead_on_to_the_next(blocks: Seq<BlockView>, id: Seq<char>)
    requires
        shaped(blocks),
        structural_ids(blocks).no_duplicates(),
    ensures
        ({
            let edges = canvas_of(blocks).edges;
            match located(blocks, id) {
                None => no_edge(edges, PortView::Next(id)),
                Some(path) => {
                    let list = container(blocks, path.container)->0;
                    &&& container(blocks, path.container) is Some
                    &&& exists|i: int|
                        #![trigger list[i]]
                        0 <= i < list.len() && list[i].id == id && if i < list.len() - 1
                            && !(list[i].head is StopSuccess) && !(list[i].head is StopError) {
                            only_edge(
                                edges,
                                PortView::Next(id),
                                EdgeView {
                                    from: PortView::Next(id),
                                    to: list[i + 1].id,
                                    kind: CanvasEdgeKind::Sequence,
                                    editable: true,
                                },
                            )
                        } else {
                            no_edge(edges, PortView::Next(id))
                        }
                },
            }
        }),
{
    let flat = flatten(blocks);
    let edges = canvas_of(blocks).edges;
    let port = PortView::Next(id);
    if located(blocks, id) is None {
        lemma_next_at_top(blocks, id, -1, leaves(port));
        lemma_no_edge(edges, port);
    } else {
        let path = located(blocks, id)->0;
        located_block_reads_back(blocks, id);
        only_located_paths_read(blocks, path);
        let list = container(blocks, path.container)->0;
        let named = lemma_first_where_found(flat, has_id(id));
        lemma_first_index(list, has_id(path.block_id));
        let i = first_index(list, has_id(path.block_id))->0;
        assert(list[i].id == id);
        let edge = step(list, i);
        if path.container is Root {
            lemma_next_at_top(blocks, id, i, leaves(port));
            lemma_next_at_top(blocks, id, i, is_edge(edge));
        } else {
            let at = lemma_first_where_found(flat, owns(path.container));
            let k = body_index(flat[at], path.container)->0;
            lemma_first_index(flat[at].bodies, plays(path.container));
            assert(flat[at].bodies[k].blocks == list);
            lemma_next_below(blocks, id, at, k, i, leaves(port));
            lemma_next_below(blocks, id, at, k, i, is_edge(edge));
        }
        if goes_on(list, i) {
            lemma_only_edge(edges, port, edge);
        } else {
            lemma_no_edge(edges, port);
        }
    }
}

/// Out of the return of a loop, a body brings at most the edge back to the loop.
proof fn lemma_return(owner: Seq<char>, body: BodyView, id: Seq<char>, pick: spec_fn(EdgeView) -> bool)
    requires
        picks_at(pick, PortView::LoopReturn(id)),
    ensures
        body_counted(owner, body, pick) == (if body.role is Loop && pick(back(owner)) {
            1nat
        } else {
            0
        }),
{
    lemma_sequence_other(body.blocks, PortView::LoopReturn(id), pick);
    reveal_with_fuel(counted, 2);
    let a = entry_edges(owner, body);
    let b = return_edges(owner, body.role);
    if body.blocks.len() > 0 {
        assert(a.drop_last() =~= Seq::empty());
        assert(a.last().from == body_port(owner, body.role));
        assert(!pick(a.last()));
    }
    if body.role is Loop {
        assert(b.drop_last() =~= Seq::empty());
        assert(b.last() == back(owner));
    }
}

/// The edge from the end of a loop back to it.
spec fn back(id: Seq<char>) -> EdgeView {
    EdgeView {
        from: PortView::LoopReturn(id),
        to: id,
        kind: CanvasEdgeKind::LoopReturn,
        editable: false,
    }
}

proof fn lemma_return_counted(
    blocks: Seq<BlockView>,
    id: Seq<char>,
    at: int,
    pick: spec_fn(EdgeView) -> bool,
)
    requires
        shaped(blocks),
        in_roles(blocks),
        structural_ids(blocks).no_duplicates(),
        picks_at(pick, PortView::LoopReturn(id)),
        0 <= at < flatten(blocks).len() ==> flatten(blocks)[at].id == id,
        !(0 <= at < flatten(blocks).len()) ==> forall|j: int|
            0 <= j < flatten(blocks).len() ==> (#[trigger] flatten(blocks)[j]).id != id,
    ensures
        counted(canvas_of(blocks).edges, pick) == (if 0 <= at < flatten(blocks).len() && is_loop(
            flatten(blocks)[at].head,
        ) && pick(back(id)) {
            1nat
        } else {
            0
        }),
{
    let flat = flatten(blocks);
    lemma_canvas_counted(blocks, pick);
    lemma_sequence_other(blocks, PortView::LoopReturn(id), pick);
    lemma_distinct_blocks(flat);
    assert forall|j: int| 0 <= j < flat.len() && j != at implies bodies_counted(
        (#[trigger] flat[j]).id,
        flat[j].bodies,
        pick,
    ) == 0 by {
        let bodies = flat[j].bodies;
        assert(flat[j].id != id);
        assert forall|k: int| 0 <= k < bodies.len() && k != -1 implies body_counted(
            flat[j].id,
            #[trigger] bodies[k],
            pick,
        ) == 0 by {
            lemma_return(flat[j].id, bodies[k], id, pick);
            assert(back(flat[j].id).from != PortView::LoopReturn(id));
        }
        lemma_body_alone(flat[j].id, bodies, -1, pick);
    }
    lemma_alone(flat, at, pick);
    if 0 <= at < flat.len() {
        let bodies = flat[at].bodies;
        assert(well_shaped(flat[at]));
        assert(in_role(flat[at]));
        assert forall|k: int| 0 <= k < bodies.len() && k != 0 implies body_counted(
            id,
            #[trigger] bodies[k],
            pick,
        ) == 0 by {
            lemma_return(id, bodies[k], id, pick);
            if bodies[k].role is Loop {
                assert(same_name(bodies[0].role, bodies[k].role));
            }
        }
        lemma_body_alone(id, bodies, 0, pick);
        if bodies.len() > 0 {
            lemma_return(id, bodies[0], id, pick);
        }
    }
}

/// Every loop leads from its end back to itself, by exactly one edge, which cannot be edited; no
/// other block does.
pub proof fn loops_lead_back(blocks: Seq<BlockView>, id: Seq<char>)
    requires
        shaped(blocks),
        in_roles(blocks),
        structural_ids(blocks).no_duplicates(),
    ensures
        ({
            let edges = canvas_of(blocks).edges;
            let block = found_block(blocks, id);
            if block is Some && (block->0.head is RepeatN || block->0.head is RepeatUntil
                || block->0.head is Continuous) {
                only_edge(
                    edges,
                    PortView::LoopReturn(id),
                    EdgeView {
                        from: PortView::LoopReturn(id),
                        to: id,
                        kind: CanvasEdgeKind::LoopReturn,
                        editable: false,
                    },
                )
            } else {
                no_edge(edges, PortView::LoopReturn(id))
            }
        }),
{
    let flat = flatten(blocks);
    let edges = canvas_of(blocks).edges;
    let port = PortView::LoopReturn(id);
    let at = lemma_first_where_found(flat, has_id(id));
    if found_block(blocks, id) is None {
        assert forall|j: int| 0 <= j < flat.len() implies (#[trigger] flat[j]).id != id by {
            assert(!has_id(id)(flat[j]));
        }
        lemma_return_counted(blocks, id, -1, leaves(port));
        lemma_no_edge(edges, port);
    } else {
        lemma_return_counted(blocks, id, at, leaves(port));
        if is_loop(flat[at].head) {
            lemma_return_counted(blocks, id, at, is_edge(back(id)));
            lemma_only_edge(edges, port, back(id));
        } else {
            lemma_no_edge(edges, port);
        }
    }
}

} // verus!
