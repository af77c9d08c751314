//! What holds of the ports of the canvas: those that a node shows are those that lead somewhere.
use crate::bodies::body_container;
use crate::canvas_laws::{every_block_is_one_node, stands_for};
use crate::canvas_model::{
    canvas_of, has_timeout, lane_ports, loop_ports, node_of, offers, port_container, port_owner,
    port_target, ports, ConnectionErrorView, GroupIdView, PortView,
};
use crate::container::{container, ContainerView};
use crate::editor_types::InsertionTargetView;
use crate::edits::{is_lane, is_loop, place};
use crate::identities::structural_ids;
use crate::macro_engine::{BlockView, HeadView};
use crate::place_laws::{
    lemma_body_found, lemma_distinct_blocks, located_block_reads_back, shaped, well_shaped,
};
use crate::places::{lanes_of, located};
use crate::tree::{
    first_index, flatten, found_block, has_id, lemma_first_index, lemma_first_where_found,
};
use vstd::prelude::*;

verus! {

/// A node of the canvas shows a port.
pub open spec fn shows_port(blocks: Seq<BlockView>, port: PortView) -> bool {
    exists|i: int|
        0 <= i < canvas_of(blocks).nodes.len() && (#[trigger] canvas_of(blocks).nodes[i]).id
            == port_owner(port) && canvas_of(blocks).nodes[i].outputs.contains(port)
}

/// The canvas has a node of an identity.
pub open spec fn shows_node(blocks: Seq<BlockView>, id: Seq<char>) -> bool {
    exists|i: int|
        0 <= i < canvas_of(blocks).nodes.len() && (#[trigger] canvas_of(blocks).nodes[i]).id == id
}

/// A block offers the ports that its node shows, but for the return of a loop.
proof fn lemma_offers(block: BlockView, port: PortView)
    requires
        well_shaped(block),
        port_owner(port) == block.id,
    ensures
        ports(block).contains(port) <==> offers(block, port) || (port is LoopReturn
            && is_loop(block.head)),
{
    let all = ports(block);
    let own = match block.head {
        HeadView::If { .. } => seq![
            PortView::IfThen(block.id),
            PortView::IfElse(block.id),
            PortView::Next(block.id),
        ],
        HeadView::RepeatN { .. } => loop_ports(block.id),
        HeadView::RepeatUntil { .. } => loop_ports(block.id),
        HeadView::Continuous => loop_ports(block.id),
        HeadView::WatchGroup { .. } => lane_ports(block.id, lanes_of(block)).push(
            PortView::Next(block.id),
        ),
        HeadView::StopSuccess => Seq::empty(),
        HeadView::StopError { .. } => Seq::empty(),
        _ => seq![PortView::Next(block.id)],
    };
    let late = if has_timeout(block) {
        seq![PortView::TimeoutBody(block.id)]
    } else {
        Seq::<PortView>::empty()
    };
    assert(all == own + late);
    assert(own.contains(port) || late.contains(port) <==> all.contains(port)) by {
        if own.contains(port) {
            let i = own.index_of(port);
            assert(all[i] == port);
        }
        if late.contains(port) {
            let i = late.index_of(port);
            assert(all[own.len() + i] == port);
        }
        if all.contains(port) {
            let i = all.index_of(port);
            if i < own.len() {
                assert(own[i] == port);
            } else {
                assert(late[i - own.len()] == port);
            }
        }
    }
    let lanes = lanes_of(block);
    match port {
        PortView::WatchLane { lane_id, .. } => {
            lemma_first_index(lanes, is_lane(lane_id));
            if own.contains(port) {
                let i = own.index_of(port);
                assert(lanes[i].role is Lane);
                assert(is_lane(lane_id)(lanes[i]));
            }
            if offers(block, port) {
                let i = first_index(lanes, is_lane(lane_id))->0;
                assert(own[i] == port);
            }
        },
        PortView::Next(_) => {
            if own.len() > 0 {
                assert(own[own.len() - 1] == port || own[1] == port || own[2] == port);
            }
        },
        PortView::IfThen(_) => {
            if block.head is If {
                assert(own[0] == port);
            }
        },
        PortView::IfElse(_) => {
            if block.head is If {
                assert(own[1] == port);
            }
        },
        PortView::LoopBody(_) => {
            if is_loop(block.head) {
                assert(own[0] == port);
            }
        },
        PortView::LoopReturn(_) => {
            if is_loop(block.head) {
                assert(own[2] == port);
            }
        },
        PortView::TimeoutBody(_) => {
            if has_timeout(block) {
                assert(late[0] == port);
            }
        },
    }
}

/// A port that a block offers leads into one of its bodies, if it leads into a container.
pub open spec fn leads_into(block: BlockView, inside: ContainerView, k: int) -> bool {
    0 <= k < block.bodies.len() && body_container(block.id, block.bodies[k].role) == inside
}

proof fn lemma_leads_into(block: BlockView, port: PortView) -> (k: int)
    requires
        well_shaped(block),
        port_owner(port) == block.id,
        offers(block, port),
        port_container(port) is Some,
    ensures
        leads_into(block, port_container(port)->0, k),
{
    match port {
        PortView::IfElse(_) => 1,
        PortView::TimeoutBody(_) => block.bodies.len() - 1,
        PortView::WatchLane { lane_id, .. } => {
            lemma_first_index(lanes_of(block), is_lane(lane_id));
            let k = first_index(lanes_of(block), is_lane(lane_id))->0;
            assert(lanes_of(block)[k].role is Lane);
            assert(lanes_of(block)[k] == block.bodies[k]);
            k
        },
        _ => 0,
    }
}

/// A port leads somewhere exactly where the node of its owner shows it; only the return of a loop
/// is shown and leads nowhere. A port whose owner is not on the canvas misses its source, and any
/// other that leads nowhere is invalid. A port leads right behind its owner, or to the end of the
/// owner's body that it is for.
pub proof fn shown_ports_lead_somewhere(blocks: Seq<BlockView>, port: PortView)
    requires
        shaped(blocks),
        structural_ids(blocks).no_duplicates(),
    ensures
        port_target(blocks, port) is Ok <==> shows_port(blocks, port) && !(port is LoopReturn),
        match port_target(blocks, port) {
            Err(error) => error == (if port is LoopReturn || shows_node(blocks, port_owner(port)) {
                ConnectionErrorView::InvalidPort
            } else {
                ConnectionErrorView::MissingSource(port_owner(port))
            }),
            Ok(target) => found_block(blocks, port_owner(port)) matches Some(owner) && match port_container(
                port,
            ) {
                None => located(blocks, owner.id) matches Some(path) && target == (
                InsertionTargetView {
                    container: path.container,
                    index: place(blocks, path)->Ok_0 + 1,
                }),
                Some(inside) => exists|k: int| #[trigger]
                    leads_into(owner, inside, k) && container(blocks, inside) == Some(
                        owner.bodies[k].blocks,
                    ) && target == (InsertionTargetView {
                        container: inside,
                        index: owner.bodies[k].blocks.len() as int,
                    }),
            },
        },
{
    let id = port_owner(port);
    let flat = flatten(blocks);
    let nodes = canvas_of(blocks).nodes;
    every_block_is_one_node(blocks);
    located_block_reads_back(blocks, id);
    lemma_distinct_blocks(flat);
    let at = lemma_first_where_found(flat, has_id(id));
    if found_block(blocks, id) is Some {
        let owner = flat[at];
        assert(well_shaped(flat[at]));
        lemma_offers(owner, port);
        assert(stands_for(nodes[at], flat[at]));
        let groups = choose|groups: Seq<GroupIdView>| nodes[at] == #[trigger] node_of(owner, groups);
        assert(nodes[at].id == id);
        assert(nodes[at].outputs == ports(owner));
        if shows_port(blocks, port) {
            let i = choose|i: int|
                0 <= i < nodes.len() && (#[trigger] nodes[i]).id == id && nodes[i].outputs.contains(
                    port,
                );
            assert(stands_for(nodes[i], flat[i]));
            assert(flat[i].id == flat[at].id);
            assert(i == at);
        }
        if offers(owner, port) && port_container(port) is Some {
            let k = lemma_leads_into(owner, port);
            assert(flat.contains(owner));
            lemma_body_found(blocks, owner, k);
            assert(leads_into(owner, port_container(port)->0, k));
        }
    } else if shows_node(blocks, id) {
        let i = choose|i: int| 0 <= i < nodes.len() && (#[trigger] nodes[i]).id == id;
        assert(stands_for(nodes[i], flat[i]));
        assert(has_id(id)(flat[i]));
    }
}

} // verus!
