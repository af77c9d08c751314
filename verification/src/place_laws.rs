//! What holds of the places of blocks: a block is read where it is located, and nowhere else.
use crate::bodies::body_container;
use crate::container::{
    body_index, container, lemma_roles, owns, plays, role_fits, ContainerView,
};
use crate::editor_types::{BlockPathView, EditorErrorView};
use crate::edits::{block_at, is_loop};
use crate::identities::{ids_of, lane_ids, own_ids, structural_ids};
use crate::macro_engine::{
    blocks_view, condition_bodies, kind_bodies, lane_view, mode_bodies, outcome_bodies, Block,
    BlockKind, BlockView, BodyView, Condition, ObserveMode, RoleView, TimeoutOutcome,
};
use crate::places::{block_places, body_places, lanes_of, lemma_lanes_of, located, place_of, places, PlaceView};
use crate::tree::{
    first_index, flatten, flatten_block, flatten_bodies, found_block, has_id, lemma_first_index,
    lemma_first_where_found, lemma_is_first_index,
};
use vstd::prelude::*;

verus! {

broadcast use crate::macro_engine::group_block_views;

/// Two bodies of a block answer to the same name.
pub open spec fn same_name(a: RoleView, b: RoleView) -> bool {
    match (a, b) {
        (RoleView::Lane { id: left, .. }, RoleView::Lane { id: right, .. }) => left == right,
        (RoleView::Then, RoleView::Then) => true,
        (RoleView::Else, RoleView::Else) => true,
        (RoleView::Loop, RoleView::Loop) => true,
        (RoleView::Timeout, RoleView::Timeout) => true,
        _ => false,
    }
}

/// No two bodies of a block, other than lanes, play the same role; an IF block has both its
/// branches, a loop has a body, and the first bodies of a watch group are its lanes.
pub open spec fn well_shaped(block: BlockView) -> bool {
    &&& forall|j: int, k: int|
        0 <= j < k < block.bodies.len() && !((#[trigger] block.bodies[j]).role is Lane)
            ==> !same_name(block.bodies[j].role, (#[trigger] block.bodies[k]).role)
    &&& block.head is If ==> block.bodies.len() >= 2 && block.bodies[0].role is Then
        && block.bodies[1].role is Else
    &&& is_loop(block.head) ==> block.bodies.len() >= 1 && block.bodies[0].role is Loop
    &&& lanes_of(block).len() > 0 ==> block.bodies.len() > 0 && lanes_of(block)[0]
        == block.bodies[0] && block.bodies[0].role is Lane
    &&& forall|k: int|
        0 <= k < lanes_of(block).len() ==> (#[trigger] lanes_of(block)[k]).role is Lane
}

/// Every block of a tree is well shaped.
pub open spec fn shaped(blocks: Seq<BlockView>) -> bool {
    forall|i: int| 0 <= i < flatten(blocks).len() ==> well_shaped(#[trigger] flatten(blocks)[i])
}

/// Every body of a block plays a role that the block has: branches stand in an IF block, a loop's
/// body in a loop, lanes in a watch group, and a body that runs on timeout is the last.
pub open spec fn in_role(block: BlockView) -> bool {
    forall|k: int|
        0 <= k < block.bodies.len() ==> match (#[trigger] block.bodies[k]).role {
            RoleView::Then => block.head is If,
            RoleView::Else => block.head is If,
            RoleView::Loop => is_loop(block.head),
            RoleView::Lane { .. } => k < lanes_of(block).len(),
            RoleView::Timeout => k == block.bodies.len() - 1,
        }
}

/// The bodies of every block of a tree play roles that the block has.
pub open spec fn in_roles(blocks: Seq<BlockView>) -> bool {
    forall|i: int| 0 <= i < flatten(blocks).len() ==> in_role(#[trigger] flatten(blocks)[i])
}

/// The blocks that the places name are the blocks of the walk.
proof fn lemma_places_blocks(blocks: Seq<BlockView>, at: ContainerView, live: bool)
    ensures
        places(blocks, at, live).map_values(|p: PlaceView| p.block) == flatten(blocks),
    decreases blocks,
{
    let of = |p: PlaceView| p.block;
    if blocks.len() == 0 {
        assert(places(blocks, at, live).map_values(of) =~= flatten(blocks));
    } else {
        let rest = blocks.drop_last();
        assert(decreases_to!(blocks => rest));
        assert(blocks.last() == blocks[blocks.len() - 1]);
        assert(decreases_to!(blocks => blocks[blocks.len() - 1]));
        lemma_places_blocks(rest, at, live);
        lemma_block_places_blocks(blocks.last(), at, live);
        let a = places(rest, at, live);
        let b = block_places(blocks.last(), at, live);
        assert((a + b).map_values(of) =~= a.map_values(of) + b.map_values(of));
    }
}

proof fn lemma_block_places_blocks(block: BlockView, at: ContainerView, live: bool)
    ensures
        block_places(block, at, live).map_values(|p: PlaceView| p.block) == flatten_block(block),
    decreases block,
{
    let of = |p: PlaceView| p.block;
    let on = live && block.enabled;
    assert(decreases_to!(block => block.bodies));
    lemma_body_places_blocks(block.id, on, block.bodies);
    let head = seq![PlaceView { container: at, live: on, block }];
    let rest = body_places(block.id, on, block.bodies);
    assert((head + rest).map_values(of) =~= seq![block] + rest.map_values(of));
}

proof fn lemma_body_places_blocks(owner: Seq<char>, live: bool, bodies: Seq<BodyView>)
    ensures
        body_places(owner, live, bodies).map_values(|p: PlaceView| p.block) == flatten_bodies(
            bodies,
        ),
    decreases bodies,
{
    let of = |p: PlaceView| p.block;
    if bodies.len() == 0 {
        assert(body_places(owner, live, bodies).map_values(of) =~= flatten_bodies(bodies));
    } else {
        let last = bodies[bodies.len() - 1];
        assert(bodies.last() == last);
        assert(decreases_to!(bodies => bodies.drop_last()));
        assert(decreases_to!(bodies => last.blocks));
        lemma_body_places_blocks(owner, live, bodies.drop_last());
        let name = body_container(owner, last.role);
        lemma_places_blocks(last.blocks, name, live);
        let a = body_places(owner, live, bodies.drop_last());
        let b = places(last.blocks, name, live);
        assert((a + b).map_values(of) =~= a.map_values(of) + b.map_values(of));
    }
}

/// What stands below a block of a tree stands in the tree.
pub proof fn lemma_below_in_tree(blocks: Seq<BlockView>, owner: BlockView, one: BlockView)
    requires
        flatten(blocks).contains(owner),
        flatten_bodies(owner.bodies).contains(one),
    ensures
        flatten(blocks).contains(one),
    decreases blocks,
{
    let last = blocks[blocks.len() - 1];
    let head = flatten(blocks.drop_last());
    let tail = flatten_block(last);
    assert(flatten(blocks) == head + tail);
    if head.contains(owner) {
        assert(decreases_to!(blocks => blocks.drop_last()));
        lemma_below_in_tree(blocks.drop_last(), owner, one);
        let j = head.index_of(one);
        assert(flatten(blocks)[j] == one);
    } else {
        let i = flatten(blocks).index_of(owner);
        assert(i >= head.len()) by {
            if i < head.len() {
                assert(head[i] == owner);
            }
        }
        assert(tail[i - head.len()] == owner);
        assert(tail.contains(owner));
        assert(decreases_to!(blocks => last));
        lemma_below_in_block(last, owner, one);
        let j = tail.index_of(one);
        assert(flatten(blocks)[head.len() + j] == one);
    }
}

pub proof fn lemma_below_in_block(block: BlockView, owner: BlockView, one: BlockView)
    requires
        flatten_block(block).contains(owner),
        flatten_bodies(owner.bodies).contains(one),
    ensures
        flatten_block(block).contains(one),
    decreases block,
{
    let rest = flatten_bodies(block.bodies);
    let i = flatten_block(block).index_of(owner);
    if i == 0 {
        assert(owner == block);
    } else {
        assert(rest[i - 1] == owner);
        assert(rest.contains(owner));
        assert(decreases_to!(block => block.bodies));
        lemma_below_in_bodies(block.bodies, owner, one);
    }
    let j = rest.index_of(one);
    assert(flatten_block(block)[j + 1] == one);
}

pub proof fn lemma_below_in_bodies(bodies: Seq<BodyView>, owner: BlockView, one: BlockView)
    requires
        flatten_bodies(bodies).contains(owner),
        flatten_bodies(owner.bodies).contains(one),
    ensures
        flatten_bodies(bodies).contains(one),
    decreases bodies,
{
    let last = bodies[bodies.len() - 1];
    let head = flatten_bodies(bodies.drop_last());
    let tail = flatten(last.blocks);
    assert(flatten_bodies(bodies) == head + tail);
    let i = flatten_bodies(bodies).index_of(owner);
    if i < head.len() {
        assert(head[i] == owner);
        assert(decreases_to!(bodies => bodies.drop_last()));
        lemma_below_in_bodies(bodies.drop_last(), owner, one);
        let j = head.index_of(one);
        assert(flatten_bodies(bodies)[j] == one);
    } else {
        assert(tail[i - head.len()] == owner);
        assert(tail.contains(owner));
        assert(decreases_to!(bodies => last.blocks));
        lemma_below_in_tree(last.blocks, owner, one);
        let j = tail.index_of(one);
        assert(flatten_bodies(bodies)[head.len() + j] == one);
    }
}

/// A block of a list stands in the tree of the list.
pub proof fn lemma_listed(blocks: Seq<BlockView>, i: int)
    requires
        0 <= i < blocks.len(),
    ensures
        flatten(blocks).contains(blocks[i]),
    decreases blocks.len(),
{
    let head = flatten(blocks.drop_last());
    if i < blocks.len() - 1 {
        lemma_listed(blocks.drop_last(), i);
        assert(blocks.drop_last()[i] == blocks[i]);
        let j = head.index_of(blocks[i]);
        assert(flatten(blocks)[j] == blocks[i]);
    } else {
        assert(flatten_block(blocks[i])[0] == blocks[i]);
        assert(flatten(blocks)[head.len() as int] == blocks[i]);
    }
}

/// A block of a body stands below the owner of the body.
pub proof fn lemma_body_listed(bodies: Seq<BodyView>, k: int, i: int)
    requires
        0 <= k < bodies.len(),
        0 <= i < bodies[k].blocks.len(),
    ensures
        flatten_bodies(bodies).contains(bodies[k].blocks[i]),
    decreases bodies.len(),
{
    let head = flatten_bodies(bodies.drop_last());
    let one = bodies[k].blocks[i];
    if k < bodies.len() - 1 {
        lemma_body_listed(bodies.drop_last(), k, i);
        let j = head.index_of(one);
        assert(flatten_bodies(bodies)[j] == one);
    } else {
        lemma_listed(bodies[k].blocks, i);
        let tail = flatten(bodies[k].blocks);
        let j = tail.index_of(one);
        assert(flatten_bodies(bodies)[head.len() + j] == one);
    }
}

/// Where identities are distinct, two blocks of one identity are the same block of the walk.
pub proof fn lemma_distinct_blocks(flat: Seq<BlockView>)
    requires
        ids_of(flat).no_duplicates(),
    ensures
        forall|i: int, j: int|
            0 <= i < j < flat.len() ==> (#[trigger] flat[i]).id != (#[trigger] flat[j]).id,
    decreases flat.len(),
{
    if flat.len() > 0 {
        let rest = flat.drop_last();
        let head = ids_of(rest);
        let last = own_ids(flat.last());
        let all = ids_of(flat);
        assert(all == head + last);
        assert(head.no_duplicates()) by {
            assert forall|i: int, j: int| 0 <= i < head.len() && 0 <= j < head.len() && i
                != j implies head[i] != head[j] by {
                assert(all[i] == head[i] && all[j] == head[j]);
            }
        }
        lemma_distinct_blocks(rest);
        assert forall|i: int, j: int| 0 <= i < j < flat.len() implies (#[trigger] flat[i]).id != (
        #[trigger] flat[j]).id by {
            assert(rest[i] == flat[i]);
            if j < rest.len() {
                assert(rest[j] == flat[j]);
            } else {
                lemma_own_listed(rest, i);
                let at = head.index_of(rest[i].id);
                assert(all[at] == flat[i].id);
                assert(last[0] == flat[j].id);
                assert(all[head.len() as int] == flat[j].id);
            }
        }
    }
}

pub proof fn lemma_own_listed(flat: Seq<BlockView>, i: int)
    requires
        0 <= i < flat.len(),
    ensures
        ids_of(flat).contains(flat[i].id),
        forall|x: Seq<char>|
            lane_ids(flat[i].bodies).contains(x) ==> #[trigger] ids_of(flat).contains(x),
    decreases flat.len(),
{
    let head = ids_of(flat.drop_last());
    if i < flat.len() - 1 {
        assert(flat.drop_last()[i] == flat[i]);
        lemma_own_listed(flat.drop_last(), i);
        assert forall|x: Seq<char>| head.contains(x) implies #[trigger] ids_of(flat).contains(
            x,
        ) by {
            let at = head.index_of(x);
            assert(ids_of(flat)[at] == x);
        }
    } else {
        let own = own_ids(flat[i]);
        assert(own[0] == flat[i].id);
        assert(ids_of(flat)[head.len() as int] == flat[i].id);
        assert forall|x: Seq<char>| lane_ids(flat[i].bodies).contains(
            x,
        ) implies #[trigger] ids_of(flat).contains(x) by {
            let at = lane_ids(flat[i].bodies).index_of(x);
            assert(own[at + 1] == x);
            assert(ids_of(flat)[head.len() + at + 1] == x);
        }
    }
}

/// The lanes of a block of a tree with distinct identities have distinct identities.
pub proof fn lemma_distinct_lanes(flat: Seq<BlockView>, i: int)
    requires
        0 <= i < flat.len(),
        ids_of(flat).no_duplicates(),
    ensures
        lane_ids(flat[i].bodies).no_duplicates(),
    decreases flat.len(),
{
    let head = ids_of(flat.drop_last());
    let last = own_ids(flat.last());
    let all = ids_of(flat);
    assert(all == head + last);
    if i < flat.len() - 1 {
        assert forall|a: int, b: int| 0 <= a < head.len() && 0 <= b < head.len() && a
            != b implies head[a] != head[b] by {
            assert(all[a] == head[a] && all[b] == head[b]);
        }
        assert(flat.drop_last()[i] == flat[i]);
        lemma_distinct_lanes(flat.drop_last(), i);
    } else {
        let lanes = lane_ids(flat[i].bodies);
        assert forall|a: int, b: int| 0 <= a < lanes.len() && 0 <= b < lanes.len() && a
            != b implies lanes[a] != lanes[b] by {
            assert(all[head.len() + 1 + a] == lanes[a]);
            assert(all[head.len() + 1 + b] == lanes[b]);
        }
    }
}

/// Two bodies of a list that are lanes of one identity name it twice.
pub proof fn lemma_lane_twice(bodies: Seq<BodyView>, j: int, k: int, id: Seq<char>)
    requires
        0 <= j < k < bodies.len(),
        bodies[j].role matches RoleView::Lane { id: left, .. } && left == id,
        bodies[k].role matches RoleView::Lane { id: right, .. } && right == id,
    ensures
        !lane_ids(bodies).no_duplicates(),
    decreases bodies.len(),
{
    let rest = lane_ids(bodies.drop_last());
    let all = lane_ids(bodies);
    if k < bodies.len() - 1 {
        lemma_lane_twice(bodies.drop_last(), j, k, id);
        if all.no_duplicates() {
            assert forall|a: int, b: int| 0 <= a < rest.len() && 0 <= b < rest.len() && a
                != b implies rest[a] != rest[b] by {
                assert(all[a] == rest[a] && all[b] == rest[b]);
            }
        }
    } else {
        lemma_lane_listed(bodies.drop_last(), j, id);
        let at = rest.index_of(id);
        assert(all[at] == id);
        assert(all[all.len() - 1] == id);
    }
}

pub proof fn lemma_lane_listed(bodies: Seq<BodyView>, j: int, id: Seq<char>)
    requires
        0 <= j < bodies.len(),
        bodies[j].role matches RoleView::Lane { id: left, .. } && left == id,
    ensures
        lane_ids(bodies).contains(id),
    decreases bodies.len(),
{
    let rest = lane_ids(bodies.drop_last());
    if j < bodies.len() - 1 {
        lemma_lane_listed(bodies.drop_last(), j, id);
        let at = rest.index_of(id);
        assert(lane_ids(bodies)[at] == id);
    } else {
        assert(lane_ids(bodies)[rest.len() as int] == id);
    }
}

/// In a well-shaped tree with distinct identities, the name of a body finds that body.
pub proof fn lemma_body_found(all: Seq<BlockView>, owner: BlockView, k: int)
    requires
        shaped(all),
        structural_ids(all).no_duplicates(),
        flatten(all).contains(owner),
        0 <= k < owner.bodies.len(),
    ensures
        container(all, body_container(owner.id, owner.bodies[k].role)) == Some(
            owner.bodies[k].blocks,
        ),
{
    let flat = flatten(all);
    let path = body_container(owner.id, owner.bodies[k].role);
    let i = flat.index_of(owner);
    lemma_distinct_lanes(flat, i);
    assert(well_shaped(flat[i]));
    assert(plays(path)(owner.bodies[k]));
    assert forall|j: int| 0 <= j < k implies !plays(path)(#[trigger] owner.bodies[j]) by {
        if plays(path)(owner.bodies[j]) {
            assert(same_name(owner.bodies[j].role, owner.bodies[k].role));
            if owner.bodies[j].role is Lane {
                lemma_lane_twice(owner.bodies, j, k, owner.bodies[j].role->Lane_id);
            }
        }
    }
    lemma_is_first_index(owner.bodies, plays(path), k);
    assert(body_index(owner, path) == Some(k));
    let at = lemma_first_where_found(flat, owns(path));
    assert(owns(path)(flat[i]));
    lemma_distinct_blocks(flat);
    assert(flat[at].id == owner.id);
    assert(at == i);
}

/// Every place names a container that holds its block.
proof fn lemma_places_hold(all: Seq<BlockView>, blocks: Seq<BlockView>, at: ContainerView, live: bool, whole: Seq<BlockView>)
    requires
        shaped(all),
        structural_ids(all).no_duplicates(),
        container(all, at) == Some(whole),
        forall|i: int| 0 <= i < blocks.len() ==> whole.contains(#[trigger] blocks[i]),
        forall|i: int| 0 <= i < blocks.len() ==> flatten(all).contains(#[trigger] blocks[i]),
    ensures
        forall|p: int|
            0 <= p < places(blocks, at, live).len() ==> held(
                all,
                #[trigger] places(blocks, at, live)[p],
            ),
    decreases blocks,
{
    if blocks.len() > 0 {
        let last = blocks[blocks.len() - 1];
        let a = places(blocks.drop_last(), at, live);
        let b = block_places(last, at, live);
        assert(decreases_to!(blocks => blocks.drop_last()));
        assert(decreases_to!(blocks => last));
        assert forall|i: int| 0 <= i < blocks.drop_last().len() implies whole.contains(
            #[trigger] blocks.drop_last()[i],
        ) && flatten(all).contains(blocks.drop_last()[i]) by {
            assert(blocks.drop_last()[i] == blocks[i]);
        }
        lemma_places_hold(all, blocks.drop_last(), at, live, whole);
        lemma_block_places_hold(all, last, at, live, whole);
        assert forall|p: int| 0 <= p < (a + b).len() implies held(all, #[trigger] (a + b)[p]) by {
            if p < a.len() {
                assert((a + b)[p] == a[p]);
            } else {
                assert((a + b)[p] == b[p - a.len()]);
            }
        }
    }
}

/// The container of a place holds the block of the place.
pub open spec fn held(all: Seq<BlockView>, at: PlaceView) -> bool {
    container(all, at.container) is Some && container(all, at.container)->0.contains(at.block)
        && flatten(all).contains(at.block)
}

proof fn lemma_block_places_hold(all: Seq<BlockView>, block: BlockView, at: ContainerView, live: bool, whole: Seq<BlockView>)
    requires
        shaped(all),
        structural_ids(all).no_duplicates(),
        container(all, at) == Some(whole),
        whole.contains(block),
        flatten(all).contains(block),
    ensures
        forall|p: int|
            0 <= p < block_places(block, at, live).len() ==> held(
                all,
                #[trigger] block_places(block, at, live)[p],
            ),
    decreases block,
{
    let on = live && block.enabled;
    assert(decreases_to!(block => block.bodies));
    assert(block.bodies.take(block.bodies.len() as int) =~= block.bodies);
    lemma_body_places_hold(all, block, on, block.bodies, block.bodies.len() as int);
    let head = seq![PlaceView { container: at, live: on, block }];
    let rest = body_places(block.id, on, block.bodies);
    assert forall|p: int| 0 <= p < (head + rest).len() implies held(
        all,
        #[trigger] (head + rest)[p],
    ) by {
        if p > 0 {
            assert((head + rest)[p] == rest[p - 1]);
        }
    }
}

proof fn lemma_body_places_hold(all: Seq<BlockView>, owner: BlockView, live: bool, bodies: Seq<BodyView>, n: int)
    requires
        shaped(all),
        structural_ids(all).no_duplicates(),
        flatten(all).contains(owner),
        0 <= n <= owner.bodies.len(),
        bodies == owner.bodies.take(n),
    ensures
        forall|p: int|
            0 <= p < body_places(owner.id, live, bodies).len() ==> held(
                all,
                #[trigger] body_places(owner.id, live, bodies)[p],
            ),
    decreases bodies,
{
    if n > 0 {
        let last = bodies[n - 1];
        assert(last == owner.bodies[n - 1]);
        assert(decreases_to!(bodies => bodies.drop_last()));
        assert(decreases_to!(bodies => last.blocks));
        assert(bodies.drop_last() =~= owner.bodies.take(n - 1));
        let name = body_container(owner.id, last.role);
        lemma_body_places_hold(all, owner, live, bodies.drop_last(), n - 1);
        lemma_body_found(all, owner, n - 1);
        assert forall|i: int| 0 <= i < last.blocks.len() implies last.blocks.contains(
            #[trigger] last.blocks[i],
        ) && flatten(all).contains(last.blocks[i]) by {
            lemma_body_listed(owner.bodies, n - 1, i);
            lemma_below_in_tree(all, owner, last.blocks[i]);
        }
        lemma_places_hold(all, last.blocks, name, live, last.blocks);
        let a = body_places(owner.id, live, bodies.drop_last());
        let b = places(last.blocks, name, live);
        assert forall|p: int| 0 <= p < (a + b).len() implies held(all, #[trigger] (a + b)[p]) by {
            if p < a.len() {
                assert((a + b)[p] == a[p]);
            } else {
                assert((a + b)[p] == b[p - a.len()]);
            }
        }
    }
}

/// Locating a block and reading at the located path gives the block of that identity, and a block
/// is located exactly where there is one.
pub proof fn located_block_reads_back(blocks: Seq<BlockView>, id: Seq<char>)
    requires
        shaped(blocks),
        structural_ids(blocks).no_duplicates(),
    ensures
        located(blocks, id) is Some <==> found_block(blocks, id) is Some,
        located(blocks, id) matches Some(path) ==> block_at(blocks, path) == Ok::<
            _,
            EditorErrorView,
        >(found_block(blocks, id)->0),
{
    let flat = flatten(blocks);
    let all = places(blocks, ContainerView::Root, true);
    lemma_places_blocks(blocks, ContainerView::Root, true);
    assert(all.map_values(|p: PlaceView| p.block) == flat);
    assert(all.len() == flat.len());
    assert forall|i: int| 0 <= i < all.len() implies (#[trigger] all[i]).block == flat[i] by {
        assert(all.map_values(|p: PlaceView| p.block)[i] == all[i].block);
    }
    let a = lemma_first_where_found(all, place_of(id));
    let b = lemma_first_where_found(flat, has_id(id));
    if located(blocks, id) is Some {
        assert(has_id(id)(flat[a]));
        assert(found_block(blocks, id) is Some);
    }
    if found_block(blocks, id) is Some {
        assert(place_of(id)(all[b]));
        assert(located(blocks, id) is Some);
        lemma_distinct_blocks(flat);
        assert(a == b);
        assert forall|i: int| 0 <= i < blocks.len() implies blocks.contains(#[trigger] blocks[i])
            && flat.contains(blocks[i]) by {
            lemma_listed(blocks, i);
        }
        lemma_places_hold(blocks, blocks, ContainerView::Root, true, blocks);
        let at = all[a];
        assert(held(blocks, at));
        let path = located(blocks, id)->0;
        let list = container(blocks, at.container)->0;
        let k = list.index_of(at.block);
        lemma_first_index(list, has_id(id));
        assert(has_id(id)(list[k]));
        let i = first_index(list, has_id(id))->0;
        assert(flat.contains(list[i])) by {
            lemma_container_in_tree(blocks, at.container, i);
        }
        let x = flat.index_of(list[i]);
        assert(flat[x].id == flat[b].id);
        assert(x == b);
    }
}

/// A list of places names a block in a container.
spec fn names_place(all: Seq<PlaceView>, at: ContainerView, block: BlockView) -> bool {
    exists|p: int| 0 <= p < all.len() && (#[trigger] all[p]).container == at && all[p].block == block
}

proof fn lemma_names_joined(
    a: Seq<PlaceView>,
    b: Seq<PlaceView>,
    at: ContainerView,
    block: BlockView,
)
    requires
        names_place(a, at, block) || names_place(b, at, block),
    ensures
        names_place(a + b, at, block),
{
    if names_place(a, at, block) {
        let p = choose|p: int|
            0 <= p < a.len() && (#[trigger] a[p]).container == at && a[p].block == block;
        assert((a + b)[p] == a[p]);
    } else {
        let p = choose|p: int|
            0 <= p < b.len() && (#[trigger] b[p]).container == at && b[p].block == block;
        assert((a + b)[a.len() + p] == b[p]);
    }
}

/// The blocks of a list are named in the container of the list.
proof fn lemma_list_named(blocks: Seq<BlockView>, at: ContainerView, live: bool, i: int)
    requires
        0 <= i < blocks.len(),
    ensures
        names_place(places(blocks, at, live), at, blocks[i]),
    decreases blocks.len(),
{
    let rest = blocks.drop_last();
    let a = places(rest, at, live);
    let b = block_places(blocks.last(), at, live);
    if i < rest.len() {
        lemma_list_named(rest, at, live, i);
        assert(rest[i] == blocks[i]);
    } else {
        assert(b[0].container == at && b[0].block == blocks[i]);
    }
    lemma_names_joined(a, b, at, blocks[i]);
}

/// The blocks of a body are named in the container that the body is.
proof fn lemma_body_named(owner: Seq<char>, live: bool, bodies: Seq<BodyView>, k: int, i: int)
    requires
        0 <= k < bodies.len(),
        0 <= i < bodies[k].blocks.len(),
    ensures
        names_place(
            body_places(owner, live, bodies),
            body_container(owner, bodies[k].role),
            bodies[k].blocks[i],
        ),
    decreases bodies.len(),
{
    let rest = bodies.drop_last();
    let last = bodies.last();
    let a = body_places(owner, live, rest);
    let b = places(last.blocks, body_container(owner, last.role), live);
    let at = body_container(owner, bodies[k].role);
    if k < rest.len() {
        lemma_body_named(owner, live, rest, k, i);
        assert(rest[k] == bodies[k]);
    } else {
        lemma_list_named(last.blocks, at, live, i);
    }
    lemma_names_joined(a, b, at, bodies[k].blocks[i]);
}

/// What stands in a body of a block of a tree is named there.
proof fn lemma_named_below(
    blocks: Seq<BlockView>,
    at: ContainerView,
    live: bool,
    owner: BlockView,
    k: int,
    i: int,
)
    requires
        flatten(blocks).contains(owner),
        0 <= k < owner.bodies.len(),
        0 <= i < owner.bodies[k].blocks.len(),
    ensures
        names_place(
            places(blocks, at, live),
            body_container(owner.id, owner.bodies[k].role),
            owner.bodies[k].blocks[i],
        ),
    decreases blocks,
{
    let last = blocks[blocks.len() - 1];
    let rest = blocks.drop_last();
    let head = flatten(rest);
    let tail = flatten_block(last);
    assert(flatten(blocks) == head + tail);
    let x = flatten(blocks).index_of(owner);
    if x < head.len() {
        assert(head[x] == owner);
        assert(decreases_to!(blocks => rest));
        lemma_named_below(rest, at, live, owner, k, i);
    } else {
        assert(tail[x - head.len()] == owner);
        assert(tail.contains(owner));
        assert(decreases_to!(blocks => last));
        lemma_named_in_block(last, at, live, owner, k, i);
    }
    lemma_names_joined(
        places(rest, at, live),
        block_places(last, at, live),
        body_container(owner.id, owner.bodies[k].role),
        owner.bodies[k].blocks[i],
    );
}

proof fn lemma_named_in_block(
    block: BlockView,
    at: ContainerView,
    live: bool,
    owner: BlockView,
    k: int,
    i: int,
)
    requires
        flatten_block(block).contains(owner),
        0 <= k < owner.bodies.len(),
        0 <= i < owner.bodies[k].blocks.len(),
    ensures
        names_place(
            block_places(block, at, live),
            body_container(owner.id, owner.bodies[k].role),
            owner.bodies[k].blocks[i],
        ),
    decreases block,
{
    let on = live && block.enabled;
    let rest = flatten_bodies(block.bodies);
    let x = flatten_block(block).index_of(owner);
    if x == 0 {
        assert(owner == block);
        lemma_body_named(block.id, on, block.bodies, k, i);
    } else {
        assert(rest[x - 1] == owner);
        assert(rest.contains(owner));
        assert(decreases_to!(block => block.bodies));
        lemma_named_in_bodies(block.id, on, block.bodies, owner, k, i);
    }
    lemma_names_joined(
        seq![PlaceView { container: at, live: on, block }],
        body_places(block.id, on, block.bodies),
        body_container(owner.id, owner.bodies[k].role),
        owner.bodies[k].blocks[i],
    );
}

proof fn lemma_named_in_bodies(
    above: Seq<char>,
    live: bool,
    bodies: Seq<BodyView>,
    owner: BlockView,
    k: int,
    i: int,
)
    requires
        flatten_bodies(bodies).contains(owner),
        0 <= k < owner.bodies.len(),
        0 <= i < owner.bodies[k].blocks.len(),
    ensures
        names_place(
            body_places(above, live, bodies),
            body_container(owner.id, owner.bodies[k].role),
            owner.bodies[k].blocks[i],
        ),
    decreases bodies,
{
    let last = bodies[bodies.len() - 1];
    let rest = bodies.drop_last();
    let head = flatten_bodies(rest);
    let tail = flatten(last.blocks);
    assert(bodies.last() == last);
    assert(flatten_bodies(bodies) == head + tail);
    let x = flatten_bodies(bodies).index_of(owner);
    if x < head.len() {
        assert(head[x] == owner);
        assert(decreases_to!(bodies => rest));
        lemma_named_in_bodies(above, live, rest, owner, k, i);
    } else {
        assert(tail[x - head.len()] == owner);
        assert(tail.contains(owner));
        assert(decreases_to!(bodies => last.blocks));
        lemma_named_below(last.blocks, body_container(above, last.role), live, owner, k, i);
    }
    lemma_names_joined(
        body_places(above, live, rest),
        places(last.blocks, body_container(above, last.role), live),
        body_container(owner.id, owner.bodies[k].role),
        owner.bodies[k].blocks[i],
    );
}

/// Reading at a path gives a block exactly where the path is the one that the block's identity is
/// located at, and it gives the block of that identity.
pub proof fn only_located_paths_read(blocks: Seq<BlockView>, path: BlockPathView)
    requires
        shaped(blocks),
        structural_ids(blocks).no_duplicates(),
    ensures
        block_at(blocks, path) is Ok <==> located(blocks, path.block_id) == Some(path),
        block_at(blocks, path) matches Ok(block) ==> block.id == path.block_id && found_block(
            blocks,
            path.block_id,
        ) == Some(block),
{
    located_block_reads_back(blocks, path.block_id);
    if block_at(blocks, path) is Ok {
        let at = path.container;
        let list = container(blocks, at)->0;
        lemma_first_index(list, has_id(path.block_id));
        let i = first_index(list, has_id(path.block_id))->0;
        let all = places(blocks, ContainerView::Root, true);
        let flat = flatten(blocks);
        if at is Root {
            lemma_list_named(blocks, at, true, i);
        } else {
            let x = lemma_first_where_found(flat, owns(at));
            let owner = flat[x];
            lemma_first_index(owner.bodies, plays(at));
            let k = body_index(owner, at)->0;
            assert(body_container(owner.id, owner.bodies[k].role) == at);
            lemma_named_below(blocks, ContainerView::Root, true, owner, k, i);
        }
        let p = choose|p: int|
            0 <= p < all.len() && (#[trigger] all[p]).container == at && all[p].block == list[i];
        lemma_places_blocks(blocks, ContainerView::Root, true);
        assert(all.map_values(|p: PlaceView| p.block) == flat);
        assert forall|j: int| 0 <= j < all.len() implies (#[trigger] all[j]).block == flat[j] by {
            assert(all.map_values(|p: PlaceView| p.block)[j] == all[j].block);
        }
        assert(place_of(path.block_id)(all[p]));
        let q = lemma_first_where_found(all, place_of(path.block_id));
        lemma_distinct_blocks(flat);
        assert(flat[q].id == flat[p].id);
        assert(q == p);
    }
}

/// The blocks of a container stand in the tree.
pub proof fn lemma_container_in_tree(blocks: Seq<BlockView>, path: ContainerView, i: int)
    requires
        container(blocks, path) is Some,
        0 <= i < container(blocks, path)->0.len(),
    ensures
        flatten(blocks).contains(container(blocks, path)->0[i]),
{
    if path is Root {
        lemma_listed(blocks, i);
    } else {
        let at = lemma_first_where_found(flatten(blocks), owns(path));
        let owner = flatten(blocks)[at];
        lemma_first_index(owner.bodies, plays(path));
        let k = body_index(owner, path)->0;
        lemma_body_listed(owner.bodies, k, i);
        lemma_below_in_tree(blocks, owner, owner.bodies[k].blocks[i]);
    }
}

/// Bodies whose blocks are well shaped, down to the last.
spec fn bodies_shaped(bodies: Seq<BodyView>) -> bool {
    forall|k: int|
        0 <= k < bodies.len() ==> shaped((#[trigger] bodies[k]).blocks) && in_roles(
            bodies[k].blocks,
        )
}

proof fn lemma_flat_bodies_shaped(bodies: Seq<BodyView>)
    requires
        bodies_shaped(bodies),
    ensures
        forall|i: int|
            0 <= i < flatten_bodies(bodies).len() ==> well_shaped(
                #[trigger] flatten_bodies(bodies)[i],
            ) && in_role(flatten_bodies(bodies)[i]),
    decreases bodies.len(),
{
    if bodies.len() > 0 {
        let rest = bodies.drop_last();
        let a = flatten_bodies(rest);
        let b = flatten(bodies.last().blocks);
        assert forall|k: int| 0 <= k < rest.len() implies shaped((#[trigger] rest[k]).blocks)
            && in_roles(rest[k].blocks) by {
            assert(shaped(bodies[k].blocks));
        }
        lemma_flat_bodies_shaped(rest);
        assert(shaped(bodies[bodies.len() - 1].blocks));
        assert forall|i: int| 0 <= i < (a + b).len() implies well_shaped(
            #[trigger] (a + b)[i],
        ) && in_role((a + b)[i]) by {
            if i < a.len() {
                assert((a + b)[i] == a[i]);
            } else {
                assert((a + b)[i] == b[i - a.len()]);
            }
        }
    }
}

proof fn lemma_outcome_shaped(outcome: TimeoutOutcome)
    ensures
        bodies_shaped(outcome_bodies(outcome)),
    decreases outcome,
{
    if let TimeoutOutcome::RunBody { body } = outcome {
        assert(decreases_to!(outcome => body@));
        every_macro_is_shaped(body@);
    }
}

proof fn lemma_condition_shaped(condition: Condition)
    ensures
        bodies_shaped(condition_bodies(condition)),
    decreases condition,
{
    let mode = match condition {
        Condition::Text { mode, .. } => mode,
        Condition::Image { mode, .. } => mode,
    };
    assert(condition_bodies(condition) == mode_bodies(mode));
    match mode {
        ObserveMode::CheckNow => {},
        ObserveMode::WaitForTrue { timeout_outcome, .. } => {
            assert(mode_bodies(mode) == outcome_bodies(timeout_outcome));
            assert(decreases_to!(condition => timeout_outcome));
            lemma_outcome_shaped(timeout_outcome);
        },
        ObserveMode::WaitForFalse { timeout_outcome, .. } => {
            assert(mode_bodies(mode) == outcome_bodies(timeout_outcome));
            assert(decreases_to!(condition => timeout_outcome));
            lemma_outcome_shaped(timeout_outcome);
        },
    }
}

proof fn lemma_block_shaped(block: Block)
    ensures
        well_shaped(block@),
        in_role(block@),
        bodies_shaped(block@.bodies),
    decreases block,
{
    lemma_roles(block);
    lemma_lanes_of(block);
    let bodies = block@.bodies;
    assert(bodies == kind_bodies(block.kind));
    assert forall|j: int, k: int|
        0 <= j < k < bodies.len() && !((#[trigger] bodies[j]).role is Lane) implies !same_name(
        bodies[j].role,
        (#[trigger] bodies[k]).role,
    ) by {
        assert(role_fits(block.kind, j, bodies[j].role));
        assert(role_fits(block.kind, k, bodies[k].role));
    }
    assert forall|k: int| 0 <= k < lanes_of(block@).len() implies (#[trigger] lanes_of(
        block@,
    )[k]).role is Lane by {
        if let BlockKind::WatchGroup { group } = block.kind {
            assert(lanes_of(block@)[k] == lane_view(group.lanes@[k]));
        }
    }
    assert forall|k: int| 0 <= k < bodies.len() implies match (#[trigger] bodies[k]).role {
        RoleView::Then => block@.head is If,
        RoleView::Else => block@.head is If,
        RoleView::Loop => is_loop(block@.head),
        RoleView::Lane { .. } => k < lanes_of(block@).len(),
        RoleView::Timeout => k == bodies.len() - 1,
    } by {
        assert(role_fits(block.kind, k, bodies[k].role));
        if bodies[k].role is Timeout && k < bodies.len() - 1 {
            assert(role_fits(block.kind, k + 1, bodies[k + 1].role));
            assert(same_name(bodies[k].role, bodies[k + 1].role));
        }
    }
    match block.kind {
        BlockKind::Observe { condition } => {
            assert(bodies == condition_bodies(condition));
            assert(decreases_to!(block => condition));
            lemma_condition_shaped(condition);
        },
        BlockKind::If { condition, then_body, else_body } => {
            assert(decreases_to!(block => condition));
            assert(decreases_to!(block => then_body@));
            assert(decreases_to!(block => else_body@));
            lemma_condition_shaped(condition);
            every_macro_is_shaped(then_body@);
            every_macro_is_shaped(else_body@);
            assert forall|k: int| 0 <= k < bodies.len() implies shaped(
                (#[trigger] bodies[k]).blocks,
            ) && in_roles(bodies[k].blocks) by {
                if k >= 2 {
                    assert(bodies[k] == condition_bodies(condition)[k - 2]);
                }
            }
        },
        BlockKind::RepeatN { body, .. } => {
            assert(decreases_to!(block => body@));
            every_macro_is_shaped(body@);
        },
        BlockKind::RepeatUntil { condition, body, .. } => {
            assert(decreases_to!(block => condition));
            assert(decreases_to!(block => body@));
            lemma_condition_shaped(condition);
            every_macro_is_shaped(body@);
            assert forall|k: int| 0 <= k < bodies.len() implies shaped(
                (#[trigger] bodies[k]).blocks,
            ) && in_roles(bodies[k].blocks) by {
                if k >= 1 {
                    assert(bodies[k] == condition_bodies(condition)[k - 1]);
                }
            }
        },
        BlockKind::Continuous { body } => {
            assert(decreases_to!(block => body@));
            every_macro_is_shaped(body@);
        },
        BlockKind::WatchGroup { group } => {
            assert(decreases_to!(block => group.timeout_outcome));
            lemma_outcome_shaped(group.timeout_outcome);
            let lanes = group.lanes@;
            assert forall|k: int| 0 <= k < bodies.len() implies shaped(
                (#[trigger] bodies[k]).blocks,
            ) && in_roles(bodies[k].blocks) by {
                if k < lanes.len() {
                    assert(bodies[k] == lane_view(lanes[k]));
                    assert(decreases_to!(block => lanes));
                    assert(decreases_to!(lanes => lanes[k]));
                    assert(decreases_to!(lanes[k] => lanes[k].then_body@));
                    every_macro_is_shaped(lanes[k].then_body@);
                } else {
                    assert(bodies[k] == outcome_bodies(group.timeout_outcome)[k - lanes.len()]);
                }
            }
        },
        _ => {},
    }
}

/// Every list of blocks that a macro can hold is well shaped, and its bodies play the roles that
/// their owners have.
pub proof fn every_macro_is_shaped(blocks: Seq<Block>)
    ensures
        shaped(blocks_view(blocks)),
        in_roles(blocks_view(blocks)),
    decreases blocks,
{
    if blocks.len() > 0 {
        let rest = blocks.drop_last();
        let last = blocks[blocks.len() - 1];
        assert(decreases_to!(blocks => rest));
        assert(decreases_to!(blocks => last));
        every_macro_is_shaped(rest);
        lemma_block_shaped(last);
        lemma_flat_bodies_shaped(last@.bodies);
        let all = blocks_view(blocks);
        assert(all.drop_last() =~= blocks_view(rest));
        assert(all.last() == last@);
        let a = flatten(blocks_view(rest));
        let b = flatten_block(last@);
        assert(flatten(all) == a + b);
        assert forall|i: int| 0 <= i < flatten(all).len() implies well_shaped(
            #[trigger] flatten(all)[i],
        ) && in_role(flatten(all)[i]) by {
            if i < a.len() {
                assert(flatten(all)[i] == a[i]);
            } else if i > a.len() {
                assert(flatten(all)[i] == flatten_bodies(last@.bodies)[i - a.len() - 1]);
            } else {
                assert(flatten(all)[i] == last@);
            }
        }
    }
}

} // verus!
