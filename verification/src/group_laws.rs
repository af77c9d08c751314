//! What holds of the groups of the canvas: each body is drawn as one, and each node knows those that
//! it stands in.
use crate::canvas_model::{
    block_canvas, blocks_canvas, bodies_canvas, canvas_of, group_id, group_of, GroupIdView,
    GroupView, NodeView, SelectionView,
};
use crate::macro_engine::{BlockView, BodyView, RoleView};
use crate::tree::{flatten, flatten_block, flatten_bodies};
use vstd::prelude::*;

verus! {

/// A group is that of a body with a role.
pub open spec fn group_names(id: GroupIdView, owner: Seq<char>, role: RoleView) -> bool {
    match role {
        RoleView::Then => id.kind is IfThen && id.owner_id == owner,
        RoleView::Else => id.kind is IfElse && id.owner_id == owner,
        RoleView::Loop => id.kind is LoopBody && id.owner_id == owner,
        RoleView::Lane { id: lane, .. } => id.kind is WatchLaneThen && id.owner_id == owner + ":"@
            + lane,
        RoleView::Timeout => id.kind is TimeoutBody && id.owner_id == owner,
    }
}

/// A group draws a body: its members are the blocks of the body in their order, its label tells the
/// role, selecting it selects the branch, the lane or the timeout, and a lane shows its place in the
/// order of priorities.
#[verifier::opaque]
pub open spec fn draws(group: GroupView, owner: Seq<char>, body: BodyView, k: int) -> bool {
    &&& group_names(group.id, owner, body.role)
    &&& group.member_ids.len() == body.blocks.len() && forall|i: int|
        0 <= i < body.blocks.len() ==> #[trigger] group.member_ids[i] == body.blocks[i].id
    &&& match body.role {
        RoleView::Then => group.label == "THEN"@ && group.selection == Some(
            SelectionView::IfThen { if_id: owner },
        ) && group.lane_priority is None,
        RoleView::Else => group.label == "ELSE"@ && group.selection == Some(
            SelectionView::IfElse { if_id: owner },
        ) && group.lane_priority is None,
        RoleView::Loop => group.label == "LOOP BODY"@ && group.selection is None
            && group.lane_priority is None,
        RoleView::Lane { id, .. } => group.label == "THEN"@ && group.selection == Some(
            SelectionView::Lane { group_id: owner, lane_id: id },
        ) && group.lane_priority == Some(k + 1),
        RoleView::Timeout => group.label == "ON TIMEOUT"@ && group.selection == Some(
            SelectionView::TimeoutBody { owner_id: owner },
        ) && group.lane_priority is None,
    }
}

/// A group draws some body of the blocks of a walk.
pub open spec fn draws_some(group: GroupView, flat: Seq<BlockView>) -> bool {
    exists|i: int, k: int|
        0 <= i < flat.len() && 0 <= k < flat[i].bodies.len() && draws(
            group,
            flat[i].id,
            #[trigger] flat[i].bodies[k],
            k,
        )
}

/// Some group draws a body.
pub open spec fn is_drawn(groups: Seq<GroupView>, owner: Seq<char>, body: BodyView, k: int) -> bool {
    exists|g: int| 0 <= g < groups.len() && draws(#[trigger] groups[g], owner, body, k)
}

/// How many bodies the blocks of a walk have.
pub open spec fn body_count(flat: Seq<BlockView>) -> nat
    decreases flat.len(),
{
    if flat.len() == 0 {
        0
    } else {
        body_count(flat.drop_last()) + flat.last().bodies.len()
    }
}

/// Groups draw the bodies of the blocks of a walk, each once.
#[verifier::opaque]
pub open spec fn draw_all(groups: Seq<GroupView>, flat: Seq<BlockView>) -> bool {
    &&& groups.len() == body_count(flat)
    &&& forall|g: int| 0 <= g < groups.len() ==> draws_some(#[trigger] groups[g], flat)
    &&& forall|i: int, k: int|
        0 <= i < flat.len() && 0 <= k < flat[i].bodies.len() ==> is_drawn(
            groups,
            flat[i].id,
            #[trigger] flat[i].bodies[k],
            k,
        )
}

proof fn lemma_count_add(a: Seq<BlockView>, b: Seq<BlockView>)
    ensures
        body_count(a + b) == body_count(a) + body_count(b),
    decreases b.len(),
{
    if b.len() == 0 {
        assert(a + b =~= a);
    } else {
        assert((a + b).drop_last() =~= a + b.drop_last());
        lemma_count_add(a, b.drop_last());
    }
}

proof fn lemma_draw_joined(
    a: Seq<GroupView>,
    x: Seq<BlockView>,
    b: Seq<GroupView>,
    y: Seq<BlockView>,
)
    requires
        draw_all(a, x),
        draw_all(b, y),
    ensures
        draw_all(a + b, x + y),
{
    reveal(draw_all);
    lemma_count_add(x, y);
    let groups = a + b;
    let flat = x + y;
    assert forall|g: int| 0 <= g < groups.len() implies draws_some(#[trigger] groups[g], flat) by {
        if g < a.len() {
            assert(draws_some(a[g], x));
            let (i, k) = choose|i: int, k: int|
                0 <= i < x.len() && 0 <= k < x[i].bodies.len() && draws(
                    a[g],
                    x[i].id,
                    #[trigger] x[i].bodies[k],
                    k,
                );
            assert(flat[i] == x[i]);
            assert(draws(groups[g], flat[i].id, flat[i].bodies[k], k));
        } else {
            let h = g - a.len();
            assert(draws_some(b[h], y));
            let (i, k) = choose|i: int, k: int|
                0 <= i < y.len() && 0 <= k < y[i].bodies.len() && draws(
                    b[h],
                    y[i].id,
                    #[trigger] y[i].bodies[k],
                    k,
                );
            assert(flat[x.len() + i] == y[i]);
            assert(draws(groups[g], flat[x.len() + i].id, flat[x.len() + i].bodies[k], k));
        }
    }
    assert forall|i: int, k: int| 0 <= i < flat.len() && 0 <= k < flat[i].bodies.len() implies is_drawn(
        groups,
        flat[i].id,
        #[trigger] flat[i].bodies[k],
        k,
    ) by {
        if i < x.len() {
            assert(is_drawn(a, x[i].id, x[i].bodies[k], k));
            let g = choose|g: int|
                0 <= g < a.len() && draws(#[trigger] a[g], x[i].id, x[i].bodies[k], k);
            assert(groups[g] == a[g]);
        } else {
            let j = i - x.len();
            assert(is_drawn(b, y[j].id, y[j].bodies[k], k));
            let g = choose|g: int|
                0 <= g < b.len() && draws(#[trigger] b[g], y[j].id, y[j].bodies[k], k);
            assert(groups[a.len() + g] == b[g]);
        }
    }
}

proof fn lemma_blocks_groups(blocks: Seq<BlockView>, inside: Seq<GroupIdView>)
    ensures
        draw_all(blocks_canvas(blocks, inside).groups, flatten(blocks)),
    decreases blocks,
{
    if blocks.len() > 0 {
        let rest = blocks.drop_last();
        let last = blocks.last();
        assert(decreases_to!(blocks => rest));
        assert(decreases_to!(blocks => last));
        lemma_blocks_groups(rest, inside);
        lemma_block_groups(last, inside);
        lemma_draw_joined(
            blocks_canvas(rest, inside).groups,
            flatten(rest),
            block_canvas(last, inside).groups,
            flatten_block(last),
        );
    } else {
        reveal(draw_all);
    }
}

/// The groups of the bodies themselves, and of those below them.
spec fn draw_bodies(groups: Seq<GroupView>, owner: Seq<char>, bodies: Seq<BodyView>) -> bool {
    let flat = flatten_bodies(bodies);
    &&& groups.len() == bodies.len() + body_count(flat)
    &&& forall|g: int|
        0 <= g < groups.len() ==> draws_own(#[trigger] groups[g], owner, bodies) || draws_some(
            groups[g],
            flat,
        )
    &&& forall|k: int|
        0 <= k < bodies.len() ==> is_drawn(groups, owner, #[trigger] bodies[k], k)
    &&& forall|i: int, k: int|
        0 <= i < flat.len() && 0 <= k < flat[i].bodies.len() ==> is_drawn(
            groups,
            flat[i].id,
            #[trigger] flat[i].bodies[k],
            k,
        )
}

spec fn draws_own(group: GroupView, owner: Seq<char>, bodies: Seq<BodyView>) -> bool {
    exists|k: int| 0 <= k < bodies.len() && draws(group, owner, #[trigger] bodies[k], k)
}

proof fn lemma_block_groups(block: BlockView, inside: Seq<GroupIdView>)
    ensures
        draw_all(block_canvas(block, inside).groups, flatten_block(block)),
    decreases block,
{
    assert(decreases_to!(block => block.bodies));
    lemma_bodies_groups(block.id, block.bodies, inside);
    let groups = block_canvas(block, inside).groups;
    let own = bodies_canvas(block.id, block.bodies, inside).groups;
    assert(groups =~= own);
    let inner = flatten_bodies(block.bodies);
    let flat = flatten_block(block);
    reveal(draw_all);
    lemma_count_add(seq![block], inner);
    reveal_with_fuel(body_count, 2);
    assert(seq![block].drop_last() =~= Seq::empty());
    assert(flat[0] == block);
    assert forall|g: int| 0 <= g < groups.len() implies draws_some(#[trigger] groups[g], flat) by {
        if draws_own(own[g], block.id, block.bodies) {
            let k = choose|k: int|
                0 <= k < block.bodies.len() && draws(
                    own[g],
                    block.id,
                    #[trigger] block.bodies[k],
                    k,
                );
            assert(draws(groups[g], flat[0].id, flat[0].bodies[k], k));
        } else {
            assert(draws_some(own[g], inner));
            let (i, k) = choose|i: int, k: int|
                0 <= i < inner.len() && 0 <= k < inner[i].bodies.len() && draws(
                    own[g],
                    inner[i].id,
                    #[trigger] inner[i].bodies[k],
                    k,
                );
            assert(flat[i + 1] == inner[i]);
            assert(draws(groups[g], flat[i + 1].id, flat[i + 1].bodies[k], k));
        }
    }
    assert forall|i: int, k: int| 0 <= i < flat.len() && 0 <= k < flat[i].bodies.len() implies is_drawn(
        groups,
        flat[i].id,
        #[trigger] flat[i].bodies[k],
        k,
    ) by {
        if i > 0 {
            assert(flat[i] == inner[i - 1]);
            assert(is_drawn(own, inner[i - 1].id, inner[i - 1].bodies[k], k));
        } else {
            assert(is_drawn(own, block.id, block.bodies[k], k));
        }
    }
}

proof fn lemma_bodies_groups(owner: Seq<char>, bodies: Seq<BodyView>, inside: Seq<GroupIdView>)
    ensures
        draw_bodies(bodies_canvas(owner, bodies, inside).groups, owner, bodies),
    decreases bodies,
{
    if bodies.len() > 0 {
        let rest = bodies.drop_last();
        let last = bodies.last();
        let n = rest.len() as int;
        assert(decreases_to!(bodies => rest));
        assert(decreases_to!(bodies => last.blocks));
        let deeper = inside.push(group_id(owner, last.role));
        lemma_bodies_groups(owner, rest, inside);
        lemma_blocks_groups(last.blocks, deeper);
        reveal(draw_all);
        let a = bodies_canvas(owner, rest, inside).groups;
        let own = group_of(owner, n, last);
        let b = blocks_canvas(last.blocks, deeper).groups;
        let groups = bodies_canvas(owner, bodies, inside).groups;
        let x = flatten_bodies(rest);
        let y = flatten(last.blocks);
        let flat = flatten_bodies(bodies);
        assert(groups =~= a + seq![own] + b);
        lemma_count_add(x, y);
        assert(draws(own, owner, last, n)) by {
            reveal(draws);
        }
        assert(bodies[n] == last);
        assert forall|g: int| 0 <= g < groups.len() implies draws_own(
            #[trigger] groups[g],
            owner,
            bodies,
        ) || draws_some(groups[g], flat) by {
            if g < a.len() {
                assert(groups[g] == a[g]);
                if draws_own(a[g], owner, rest) {
                    let k = choose|k: int|
                        0 <= k < rest.len() && draws(a[g], owner, #[trigger] rest[k], k);
                    assert(bodies[k] == rest[k]);
                } else {
                    let (i, k) = choose|i: int, k: int|
                        0 <= i < x.len() && 0 <= k < x[i].bodies.len() && draws(
                            a[g],
                            x[i].id,
                            #[trigger] x[i].bodies[k],
                            k,
                        );
                    assert(flat[i] == x[i]);
                    assert(draws(groups[g], flat[i].id, flat[i].bodies[k], k));
                }
            } else if g == a.len() {
                assert(draws(groups[g], owner, bodies[n], n));
            } else {
                let h = g - a.len() - 1;
                assert(groups[g] == b[h]);
                assert(draws_some(b[h], y));
                let (i, k) = choose|i: int, k: int|
                    0 <= i < y.len() && 0 <= k < y[i].bodies.len() && draws(
                        b[h],
                        y[i].id,
                        #[trigger] y[i].bodies[k],
                        k,
                    );
                assert(flat[x.len() + i] == y[i]);
                assert(draws(groups[g], flat[x.len() + i].id, flat[x.len() + i].bodies[k], k));
            }
        }
        assert forall|k: int| 0 <= k < bodies.len() implies is_drawn(
            groups,
            owner,
            #[trigger] bodies[k],
            k,
        ) by {
            if k < n {
                assert(rest[k] == bodies[k]);
                assert(is_drawn(a, owner, rest[k], k));
                let g = choose|g: int| 0 <= g < a.len() && draws(#[trigger] a[g], owner, rest[k], k);
                assert(groups[g] == a[g]);
            } else {
                assert(groups[a.len() as int] == own);
            }
        }
        assert forall|i: int, k: int|
            0 <= i < flat.len() && 0 <= k < flat[i].bodies.len() implies is_drawn(
            groups,
            flat[i].id,
            #[trigger] flat[i].bodies[k],
            k,
        ) by {
            if i < x.len() {
                assert(flat[i] == x[i]);
                assert(is_drawn(a, x[i].id, x[i].bodies[k], k));
                let g = choose|g: int|
                    0 <= g < a.len() && draws(#[trigger] a[g], x[i].id, x[i].bodies[k], k);
                assert(groups[g] == a[g]);
            } else {
                let j = i - x.len();
                assert(flat[i] == y[j]);
                assert(is_drawn(b, y[j].id, y[j].bodies[k], k));
                let g = choose|g: int|
                    0 <= g < b.len() && draws(#[trigger] b[g], y[j].id, y[j].bodies[k], k);
                assert(groups[a.len() + 1 + g] == b[g]);
            }
        }
    }
}

/// Every body of every block is drawn as a group, and there are no more groups than bodies and none
/// of anything else.
pub proof fn every_body_is_one_group(blocks: Seq<BlockView>)
    ensures
        ({
            let groups = canvas_of(blocks).groups;
            let flat = flatten(blocks);
            &&& groups.len() == body_count(flat)
            &&& forall|g: int| 0 <= g < groups.len() ==> draws_some(#[trigger] groups[g], flat)
            &&& forall|i: int, k: int|
                0 <= i < flat.len() && 0 <= k < flat[i].bodies.len() ==> is_drawn(
                    groups,
                    flat[i].id,
                    #[trigger] flat[i].bodies[k],
                    k,
                )
        }),
{
    lemma_blocks_groups(blocks, Seq::empty());
    assert(canvas_of(blocks).groups =~= blocks_canvas(blocks, Seq::empty()).groups);
    reveal(draw_all);
}

/// A node stands in the groups of an earlier node and in one more: that of the body of the earlier
/// node's block that holds its own block.
pub open spec fn stands_in_body(
    nodes: Seq<NodeView>,
    flat: Seq<BlockView>,
    i: int,
    j: int,
    k: int,
) -> bool {
    &&& 0 <= j < i && 0 <= k < flat[j].bodies.len()
    &&& flat[j].bodies[k].blocks.contains(flat[i])
    &&& nodes[i].groups.len() == nodes[j].groups.len() + 1
    &&& nodes[i].groups.drop_last() == nodes[j].groups
    &&& group_names(nodes[i].groups.last(), flat[j].id, flat[j].bodies[k].role)
}

/// A node stands in given groups for one of given blocks, or inside another node.
pub open spec fn grouped(
    nodes: Seq<NodeView>,
    flat: Seq<BlockView>,
    tops: Seq<BlockView>,
    inside: Seq<GroupIdView>,
    i: int,
) -> bool {
    ||| tops.contains(flat[i]) && nodes[i].groups == inside
    ||| exists|j: int, k: int| #[trigger] stands_in_body(nodes, flat, i, j, k)
}

spec fn all_grouped(
    nodes: Seq<NodeView>,
    flat: Seq<BlockView>,
    tops: Seq<BlockView>,
    inside: Seq<GroupIdView>,
) -> bool {
    nodes.len() == flat.len() && forall|i: int|
        0 <= i < flat.len() ==> #[trigger] grouped(nodes, flat, tops, inside, i)
}

/// What stands inside another node does so with more nodes around both.
proof fn lemma_stands_on(
    a: Seq<NodeView>,
    x: Seq<BlockView>,
    nodes: Seq<NodeView>,
    flat: Seq<BlockView>,
    shift: int,
    i: int,
)
    requires
        0 <= shift,
        0 <= i < x.len(),
        a.len() == x.len(),
        shift + x.len() <= flat.len(),
        nodes.len() == flat.len(),
        forall|j: int| 0 <= j < x.len() ==> #[trigger] flat[shift + j] == x[j],
        forall|j: int| 0 <= j < x.len() ==> #[trigger] nodes[shift + j] == a[j],
        exists|j: int, k: int| #[trigger] stands_in_body(a, x, i, j, k),
    ensures
        exists|j: int, k: int| #[trigger] stands_in_body(nodes, flat, shift + i, j, k),
{
    let (j, k) = choose|j: int, k: int| #[trigger] stands_in_body(a, x, i, j, k);
    assert(flat[shift + i] == x[i] && flat[shift + j] == x[j]);
    assert(nodes[shift + i] == a[i] && nodes[shift + j] == a[j]);
    assert(stands_in_body(nodes, flat, shift + i, shift + j, k));
}

proof fn lemma_blocks_grouped(blocks: Seq<BlockView>, inside: Seq<GroupIdView>)
    ensures
        all_grouped(blocks_canvas(blocks, inside).nodes, flatten(blocks), blocks, inside),
    decreases blocks,
{
    if blocks.len() > 0 {
        let rest = blocks.drop_last();
        let last = blocks.last();
        assert(decreases_to!(blocks => rest));
        assert(decreases_to!(blocks => last));
        lemma_blocks_grouped(rest, inside);
        lemma_block_grouped(last, inside);
        let a = blocks_canvas(rest, inside).nodes;
        let b = block_canvas(last, inside).nodes;
        let x = flatten(rest);
        let y = flatten_block(last);
        let nodes = blocks_canvas(blocks, inside).nodes;
        let flat = flatten(blocks);
        assert(nodes == a + b && flat == x + y);
        assert forall|i: int| 0 <= i < flat.len() implies #[trigger] grouped(
            nodes,
            flat,
            blocks,
            inside,
            i,
        ) by {
            if i < x.len() {
                assert(grouped(a, x, rest, inside, i));
                assert(nodes[i] == a[i] && flat[i] == x[i]);
                if rest.contains(x[i]) && a[i].groups == inside {
                    let p = rest.index_of(x[i]);
                    assert(blocks[p] == x[i]);
                } else {
                    lemma_stands_on(a, x, nodes, flat, 0, i);
                }
            } else {
                let h = i - x.len();
                assert(grouped(b, y, seq![last], inside, h));
                assert(nodes[i] == b[h] && flat[i] == y[h]);
                if seq![last].contains(y[h]) && b[h].groups == inside {
                    assert(blocks[blocks.len() - 1] == y[h]);
                } else {
                    lemma_stands_on(b, y, nodes, flat, x.len() as int, h);
                }
            }
        }
    }
}

proof fn lemma_block_grouped(block: BlockView, inside: Seq<GroupIdView>)
    ensures
        all_grouped(
            block_canvas(block, inside).nodes,
            flatten_block(block),
            seq![block],
            inside,
        ),
    decreases block,
{
    assert(decreases_to!(block => block.bodies));
    lemma_bodies_grouped(block.id, block.bodies, inside);
    let inner = bodies_canvas(block.id, block.bodies, inside).nodes;
    let deep = flatten_bodies(block.bodies);
    let nodes = block_canvas(block, inside).nodes;
    let flat = flatten_block(block);
    assert(nodes[0].groups == inside && flat[0] == block);
    assert(forall|j: int| 0 <= j < deep.len() ==> #[trigger] flat[1 + j] == deep[j]);
    assert(forall|j: int| 0 <= j < deep.len() ==> #[trigger] nodes[1 + j] == inner[j]);
    assert forall|i: int| 0 <= i < flat.len() implies #[trigger] grouped(
        nodes,
        flat,
        seq![block],
        inside,
        i,
    ) by {
        if i == 0 {
            assert(seq![block][0] == flat[0]);
        } else {
            let h = i - 1;
            assert(flat[1 + h] == deep[h] && nodes[1 + h] == inner[h]);
            assert(grouped_below(inner, deep, block.id, block.bodies, inside, h));
            if exists|k: int| #[trigger]
                stands_directly(inner[h], deep[h], block.id, block.bodies, inside, k) {
                let k = choose|k: int| #[trigger]
                    stands_directly(inner[h], deep[h], block.id, block.bodies, inside, k);
                assert(stands_in_body(nodes, flat, i, 0, k));
            } else {
                lemma_stands_on(inner, deep, nodes, flat, 1, h);
            }
        }
    }
}

spec fn stands_directly(
    node: NodeView,
    block: BlockView,
    owner: Seq<char>,
    bodies: Seq<BodyView>,
    inside: Seq<GroupIdView>,
    k: int,
) -> bool {
    &&& 0 <= k < bodies.len() && bodies[k].blocks.contains(block)
    &&& node.groups.len() == inside.len() + 1 && node.groups.drop_last() == inside
    &&& group_names(node.groups.last(), owner, bodies[k].role)
}

spec fn grouped_below(
    nodes: Seq<NodeView>,
    flat: Seq<BlockView>,
    owner: Seq<char>,
    bodies: Seq<BodyView>,
    inside: Seq<GroupIdView>,
    i: int,
) -> bool {
    ||| exists|k: int| #[trigger] stands_directly(nodes[i], flat[i], owner, bodies, inside, k)
    ||| exists|j: int, k: int| #[trigger] stands_in_body(nodes, flat, i, j, k)
}

proof fn lemma_bodies_grouped(owner: Seq<char>, bodies: Seq<BodyView>, inside: Seq<GroupIdView>)
    ensures
        bodies_canvas(owner, bodies, inside).nodes.len() == flatten_bodies(bodies).len(),
        forall|i: int|
            0 <= i < flatten_bodies(bodies).len() ==> #[trigger] grouped_below(
                bodies_canvas(owner, bodies, inside).nodes,
                flatten_bodies(bodies),
                owner,
                bodies,
                inside,
                i,
            ),
    decreases bodies,
{
    if bodies.len() > 0 {
        let rest = bodies.drop_last();
        let last = bodies.last();
        let n = rest.len() as int;
        assert(decreases_to!(bodies => rest));
        assert(decreases_to!(bodies => last.blocks));
        let id = group_id(owner, last.role);
        let deeper = inside.push(id);
        lemma_bodies_grouped(owner, rest, inside);
        lemma_blocks_grouped(last.blocks, deeper);
        let a = bodies_canvas(owner, rest, inside).nodes;
        let b = blocks_canvas(last.blocks, deeper).nodes;
        let x = flatten_bodies(rest);
        let y = flatten(last.blocks);
        let nodes = bodies_canvas(owner, bodies, inside).nodes;
        let flat = flatten_bodies(bodies);
        assert(nodes =~= a + b);
        assert(flat == x + y);
        assert(deeper.drop_last() =~= inside && deeper.last() == id);
        assert forall|i: int| 0 <= i < flat.len() implies #[trigger] grouped_below(
            nodes,
            flat,
            owner,
            bodies,
            inside,
            i,
        ) by {
            if i < x.len() {
                assert(grouped_below(a, x, owner, rest, inside, i));
                assert(nodes[i] == a[i] && flat[i] == x[i]);
                if exists|k: int| #[trigger] stands_directly(a[i], x[i], owner, rest, inside, k) {
                    let k = choose|k: int| #[trigger]
                        stands_directly(a[i], x[i], owner, rest, inside, k);
                    assert(bodies[k] == rest[k]);
                    assert(stands_directly(nodes[i], flat[i], owner, bodies, inside, k));
                } else {
                    lemma_stands_on(a, x, nodes, flat, 0, i);
                }
            } else {
                let h = i - x.len();
                assert(grouped(b, y, last.blocks, deeper, h));
                assert(nodes[i] == b[h] && flat[i] == y[h]);
                if last.blocks.contains(y[h]) && b[h].groups == deeper {
                    assert(bodies[n] == last);
                    assert(stands_directly(nodes[i], flat[i], owner, bodies, inside, n));
                } else {
                    lemma_stands_on(b, y, nodes, flat, x.len() as int, h);
                }
            }
        }
    }
}

/// A node at the top stands in no group. Every other node stands in the groups of the node whose
/// block holds its own, and in the group of the body that holds it.
pub proof fn nodes_know_their_groups(blocks: Seq<BlockView>, i: int)
    requires
        0 <= i < flatten(blocks).len(),
    ensures
        grouped(canvas_of(blocks).nodes, flatten(blocks), blocks, Seq::empty(), i),
{
    lemma_blocks_grouped(blocks, Seq::empty());
    assert(canvas_of(blocks).nodes =~= blocks_canvas(blocks, Seq::empty()).nodes);
    assert(grouped(
        blocks_canvas(blocks, Seq::empty()).nodes,
        flatten(blocks),
        blocks,
        Seq::empty(),
        i,
    ));
}

} // verus!
