//! What holds of connections on the canvas: each is a move that the editor accepts.
use crate::canvas_model::{
    bodies_have_below, connection, has_below, port_container, port_owner, PortView,
};
use crate::command_view::CommandView;
use crate::commands::edited;
use crate::container::{
    block_holds, body_holds, body_index, container, lemma_first_owner_in_block,
    lemma_first_owner_in_blocks, lemma_first_owner_in_bodies, owns, plays, with_container,
    with_container_below, ContainerView,
};
use crate::copy_laws::lemma_removed_distinct;
use crate::draft::{applied, edit_applied, snapshot, EditorDraftView};
use crate::draft_laws::{commands_keep_a_draft_sound, sound};
use crate::editor_types::{BlockPathView, EditOutcome};
use crate::edits::{below, block_at, moved, path_ids, place};
use crate::identities::{ids_of, lane_ids, lemma_first_repeat_none, own_ids, structural_ids};
use crate::macro_engine::{BlockView, BodyView};
use crate::place_laws::{
    lemma_below_in_bodies, lemma_below_in_tree, lemma_body_listed, lemma_container_in_tree,
    lemma_distinct_blocks, lemma_lane_listed, lemma_own_listed, located_block_reads_back, shaped,
};
use crate::places::located;
use crate::tree::{
    first_index, first_where, flatten, flatten_block, flatten_bodies, has_id, lemma_first_index,
    lemma_first_where_found, lemma_flatten_add, lemma_flatten_bodies_add, lemma_is_first_index,
};
use crate::tree_laws::{
    container_in, container_reads_back, holdings, moving_keeps_every_block,
    same_blocks_have_the_same_identities,
};
use crate::watch_laws::{move_nests_no_watch, watchful};
use vstd::prelude::*;

verus! {

broadcast use crate::macro_engine::group_block_views;

/// Two lists hold blocks of the same identities.
pub open spec fn same_heads(one: Seq<BlockView>, other: Seq<BlockView>) -> bool {
    other.len() == one.len() && forall|i: int|
        0 <= i < one.len() ==> (#[trigger] other[i]).id == one[i].id
}

/// A block that is another one but for what stands below it: it has the same bodies, and they hold
/// blocks of the same identities, all but the one that a path names.
spec fn akin(one: BlockView, other: BlockView, path: ContainerView) -> bool {
    &&& other.id == one.id
    &&& other.bodies.len() == one.bodies.len()
    &&& forall|k: int|
        0 <= k < one.bodies.len() ==> (#[trigger] other.bodies[k]).role == one.bodies[k].role && (
        body_index(one, path) != Some(k) ==> same_heads(one.bodies[k].blocks, other.bodies[k].blocks))
}

/// One of the blocks of a flat list is akin to a block.
spec fn has_akin(flat: Seq<BlockView>, one: BlockView, path: ContainerView) -> bool {
    exists|j: int| 0 <= j < flat.len() && akin(one, #[trigger] flat[j], path)
}

proof fn lemma_akin_itself(flat: Seq<BlockView>, one: BlockView, path: ContainerView)
    requires
        flat.contains(one),
    ensures
        has_akin(flat, one, path),
{
    let at = flat.index_of(one);
    assert(akin(one, flat[at], path));
}

proof fn lemma_akin_within(
    before: Seq<BlockView>,
    flat: Seq<BlockView>,
    after: Seq<BlockView>,
    one: BlockView,
    path: ContainerView,
)
    requires
        has_akin(before, one, path) || has_akin(flat, one, path) || has_akin(after, one, path),
    ensures
        has_akin(before + flat + after, one, path),
{
    let whole = before + flat + after;
    if has_akin(before, one, path) {
        let j = choose|j: int| 0 <= j < before.len() && akin(one, #[trigger] before[j], path);
        assert(whole[j] == before[j]);
    } else if has_akin(flat, one, path) {
        let j = choose|j: int| 0 <= j < flat.len() && akin(one, #[trigger] flat[j], path);
        assert(whole[before.len() + j] == flat[j]);
    } else {
        let j = choose|j: int| 0 <= j < after.len() && akin(one, #[trigger] after[j], path);
        assert(whole[before.len() + flat.len() + j] == after[j]);
    }
}

/// The walk of a list goes through what is before a block, the block, and what is behind it.
pub proof fn lemma_walk_split(blocks: Seq<BlockView>, i: int)
    requires
        0 <= i < blocks.len(),
    ensures
        flatten(blocks) == flatten(blocks.take(i)) + flatten_block(blocks[i]) + flatten(
            blocks.skip(i + 1),
        ),
{
    let one = seq![blocks[i]];
    assert(blocks =~= blocks.take(i) + one + blocks.skip(i + 1));
    lemma_flatten_add(blocks.take(i) + one, blocks.skip(i + 1));
    lemma_flatten_add(blocks.take(i), one);
    assert(flatten(one) =~= flatten_block(blocks[i])) by {
        assert(one.drop_last() =~= Seq::empty());
        assert(flatten(one.drop_last()) =~= Seq::empty());
    }
}

pub proof fn lemma_bodies_walk_split(bodies: Seq<BodyView>, k: int)
    requires
        0 <= k < bodies.len(),
    ensures
        flatten_bodies(bodies) == flatten_bodies(bodies.take(k)) + flatten(bodies[k].blocks)
            + flatten_bodies(bodies.skip(k + 1)),
{
    let one = seq![bodies[k]];
    assert(bodies =~= bodies.take(k) + one + bodies.skip(k + 1));
    lemma_flatten_bodies_add(bodies.take(k) + one, bodies.skip(k + 1));
    lemma_flatten_bodies_add(bodies.take(k), one);
    assert(flatten_bodies(one) =~= flatten(bodies[k].blocks)) by {
        assert(one.drop_last() =~= Seq::empty());
        assert(flatten_bodies(one.drop_last()) =~= Seq::empty());
    }
}

/// In which of three lists that follow one another an element stands.
proof fn lemma_third(a: Seq<BlockView>, b: Seq<BlockView>, c: Seq<BlockView>, one: BlockView)
    requires
        (a + b + c).contains(one),
    ensures
        a.contains(one) || b.contains(one) || c.contains(one),
{
    let at = (a + b + c).index_of(one);
    if at < a.len() {
        assert(a[at] == one);
    } else if at < a.len() + b.len() {
        assert(b[at - a.len()] == one);
    } else {
        assert(c[at - a.len() - b.len()] == one);
    }
}

/// Writing to a container leaves every block that is not in it, but for what is below the block.
proof fn lemma_others_stay(
    blocks: Seq<BlockView>,
    path: ContainerView,
    new: Seq<BlockView>,
    one: BlockView,
)
    requires
        !(path is Root),
        container(blocks, path) is Some,
        flatten(blocks).contains(one),
        !flatten(container(blocks, path)->0).contains(one),
    ensures
        has_akin(flatten(with_container(blocks, path, new)), one, path),
    decreases blocks,
{
    lemma_first_owner_in_blocks(blocks, path);
    lemma_first_index(blocks, block_holds(path));
    let i = first_index(blocks, block_holds(path))->0;
    let inner = with_container_below(blocks[i], path, new);
    let after = with_container(blocks, path, new);
    assert(after == blocks.update(i, inner));
    let head = flatten(blocks.take(i));
    let tail = flatten(blocks.skip(i + 1));
    lemma_walk_split(blocks, i);
    lemma_walk_split(after, i);
    assert(after.take(i) =~= blocks.take(i));
    assert(after.skip(i + 1) =~= blocks.skip(i + 1));
    lemma_third(head, flatten_block(blocks[i]), tail, one);
    if head.contains(one) {
        lemma_akin_itself(head, one, path);
    } else if tail.contains(one) {
        lemma_akin_itself(tail, one, path);
    } else {
        assert(decreases_to!(blocks => blocks[i]));
        lemma_others_stay_below(blocks[i], path, new, one);
    }
    lemma_akin_within(head, flatten_block(inner), tail, one, path);
}

proof fn lemma_others_stay_below(
    block: BlockView,
    path: ContainerView,
    new: Seq<BlockView>,
    one: BlockView,
)
    requires
        !(path is Root),
        block_holds(path)(block),
        flatten_block(block).contains(one),
        !flatten(container_in(block, path)).contains(one),
    ensures
        has_akin(flatten_block(with_container_below(block, path, new)), one, path),
    decreases block,
{
    lemma_first_owner_in_block(block, path);
    lemma_first_owner_in_bodies(block.bodies, path);
    lemma_first_index(block.bodies, plays(path));
    lemma_first_index(block.bodies, body_holds(path));
    let after = with_container_below(block, path, new);
    let own = body_index(block, path);
    let k = if own is Some {
        own->0
    } else {
        first_index(block.bodies, body_holds(path))->0
    };
    let old = block.bodies[k].blocks;
    let inner = if own is Some {
        new
    } else {
        with_container(old, path, new)
    };
    assert(after.bodies == block.bodies.update(
        k,
        BodyView { role: block.bodies[k].role, blocks: inner },
    ));
    let rest = flatten_bodies(block.bodies);
    let left = flatten_bodies(after.bodies);
    let head = flatten_bodies(block.bodies.take(k));
    let tail = flatten_bodies(block.bodies.skip(k + 1));
    lemma_bodies_walk_split(block.bodies, k);
    lemma_bodies_walk_split(after.bodies, k);
    assert(after.bodies.take(k) =~= block.bodies.take(k));
    assert(after.bodies.skip(k + 1) =~= block.bodies.skip(k + 1));
    let at = flatten_block(block).index_of(one);
    if at == 0 {
        assert(one == block);
        assert(akin(block, after, path));
        assert(flatten_block(after)[0] == after);
    } else {
        assert(rest[at - 1] == one);
        assert(rest.contains(one));
        lemma_third(head, flatten(old), tail, one);
        if head.contains(one) {
            lemma_akin_itself(head, one, path);
        } else if tail.contains(one) {
            lemma_akin_itself(tail, one, path);
        } else {
            assert(own is None);
            assert(decreases_to!(block => old));
            assert(container_in(block, path) == container(old, path)->0);
            lemma_others_stay(old, path, new, one);
        }
        lemma_akin_within(head, flatten(inner), tail, one, path);
        lemma_akin_within(seq![after], left, Seq::empty(), one, path);
        assert(seq![after] + left + Seq::<BlockView>::empty() =~= flatten_block(after));
    }
}

/// An identity that a flat list brings is brought by one of its blocks.
proof fn lemma_brought(flat: Seq<BlockView>, id: Seq<char>) -> (at: int)
    requires
        ids_of(flat).contains(id),
    ensures
        0 <= at < flat.len(),
        own_ids(flat[at]).contains(id),
    decreases flat.len(),
{
    let head = ids_of(flat.drop_last());
    let j = ids_of(flat).index_of(id);
    if j < head.len() {
        assert(head[j] == id);
        let at = lemma_brought(flat.drop_last(), id);
        assert(flat.drop_last()[at] == flat[at]);
        at
    } else {
        assert(own_ids(flat.last())[j - head.len()] == id);
        flat.len() - 1
    }
}

/// Where identities are distinct, only one block brings an identity.
proof fn lemma_brought_once(flat: Seq<BlockView>, a: int, b: int, id: Seq<char>)
    requires
        ids_of(flat).no_duplicates(),
        0 <= a < flat.len(),
        0 <= b < flat.len(),
        own_ids(flat[a]).contains(id),
        own_ids(flat[b]).contains(id),
    ensures
        a == b,
    decreases
            flat.len(),
            (if a > b {
                1int
            } else {
                0
            }),
{
    if a > b {
        lemma_brought_once(flat, b, a, id);
    } else if a < b {
        let rest = flat.drop_last();
        let head = ids_of(rest);
        let last = own_ids(flat.last());
        let all = ids_of(flat);
        assert(all == head + last);
        assert(rest[a] == flat[a]);
        if b < rest.len() {
            assert forall|i: int, j: int| 0 <= i < head.len() && 0 <= j < head.len() && i
                != j implies head[i] != head[j] by {
                assert(all[i] == head[i] && all[j] == head[j]);
            }
            assert(rest[b] == flat[b]);
            lemma_brought_once(rest, a, b, id);
        } else {
            lemma_own_brought(rest, a, id);
            let i = head.index_of(id);
            let j = last.index_of(id);
            assert(all[i] == id);
            assert(all[head.len() + j] == id);
        }
    }
}

proof fn lemma_own_brought(flat: Seq<BlockView>, at: int, id: Seq<char>)
    requires
        0 <= at < flat.len(),
        own_ids(flat[at]).contains(id),
    ensures
        ids_of(flat).contains(id),
{
    lemma_own_listed(flat, at);
    let j = own_ids(flat[at]).index_of(id);
    if j > 0 {
        assert(lane_ids(flat[at].bodies)[j - 1] == id);
        assert(lane_ids(flat[at].bodies).contains(id));
    }
}

/// What a container path names are identities of the block that owns the container.
proof fn lemma_path_of_owner(owner: BlockView, path: ContainerView, k: int)
    requires
        body_index(owner, path) is Some,
        0 <= k < path_ids(path).len(),
    ensures
        own_ids(owner).contains(path_ids(path)[k]),
{
    lemma_first_index(owner.bodies, plays(path));
    let at = body_index(owner, path)->0;
    if k == 0 {
        assert(own_ids(owner)[0] == owner.id);
    } else {
        let id = path_ids(path)[k];
        lemma_lane_listed(owner.bodies, at, id);
        let j = lane_ids(owner.bodies).index_of(id);
        assert(own_ids(owner)[j + 1] == id);
    }
}

/// A container whose path names an identity in or below a block is owned by one of those blocks.
proof fn lemma_owner_below(blocks: Seq<BlockView>, moving: BlockView, path: ContainerView)
    requires
        structural_ids(blocks).no_duplicates(),
        flatten(blocks).contains(moving),
        !(path is Root),
        container(blocks, path) is Some,
        below(path, moving),
    ensures
        flatten_block(moving).contains(first_where(flatten(blocks), owns(path))->0),
{
    let flat = flatten(blocks);
    let sub = flatten_block(moving);
    let a = lemma_first_where_found(flat, owns(path));
    let owner = flat[a];
    let k = choose|k: int|
        0 <= k < path_ids(path).len() && ids_of(sub).contains(#[trigger] path_ids(path)[k]);
    let id = path_ids(path)[k];
    lemma_path_of_owner(owner, path, k);
    let s = lemma_brought(sub, id);
    if s > 0 {
        assert(flatten_bodies(moving.bodies)[s - 1] == sub[s]);
        lemma_below_in_tree(blocks, moving, sub[s]);
    }
    assert(flat.contains(sub[s]));
    let b = flat.index_of(sub[s]);
    lemma_brought_once(flat, a, b, id);
}

/// A block that stands below another one is found below it.
proof fn lemma_has_below(blocks: Seq<BlockView>, moving: BlockView, one: BlockView)
    requires
        flatten(blocks).contains(moving),
        forall|j: int|
            0 <= j < flatten(blocks).len() && (#[trigger] flatten(blocks)[j]).id == moving.id
                ==> flatten(blocks)[j] == moving,
        flatten_bodies(moving.bodies).contains(one),
    ensures
        has_below(blocks, moving.id, one.id),
    decreases blocks,
{
    let last = blocks[blocks.len() - 1];
    let rest = blocks.drop_last();
    let head = flatten(rest);
    let tail = flatten_block(last);
    let flat = flatten(blocks);
    assert(flat == head + tail);
    assert forall|j: int| 0 <= j < head.len() && (#[trigger] head[j]).id == moving.id implies head[j]
        == moving by {
        assert(flat[j] == head[j]);
    }
    if head.contains(moving) {
        assert(decreases_to!(blocks => rest));
        lemma_has_below(rest, moving, one);
    } else {
        let at = flat.index_of(moving);
        assert(tail[at - head.len()] == moving) by {
            if at < head.len() {
                assert(head[at] == moving);
            }
        }
        lemma_first_index(rest, has_id(moving.id));
        if first_index(rest, has_id(moving.id)) is Some {
            let i = first_index(rest, has_id(moving.id))->0;
            lemma_walk_split(rest, i);
            let first = flatten(rest.take(i)).len() as int;
            assert(head[first] == rest[i]);
            assert(head.contains(moving));
        }
        assert(tail[0] == last);
        assert(flat[head.len() as int] == last);
        if last.id == moving.id {
            let found = flatten_bodies(last.bodies);
            let k = lemma_first_where_found(found, has_id(one.id));
            let j = found.index_of(one);
            assert(has_id(one.id)(found[j]));
        } else {
            let inner = flatten_bodies(last.bodies);
            assert(inner[at - head.len() - 1] == moving);
            assert forall|j: int| 0 <= j < inner.len() && (#[trigger] inner[j]).id
                == moving.id implies inner[j] == moving by {
                assert(flat[head.len() + 1 + j] == inner[j]);
            }
            assert(decreases_to!(blocks => last.bodies)) by {
                assert(decreases_to!(blocks => last));
            }
            lemma_bodies_have_below(last.bodies, moving, one);
        }
    }
}

proof fn lemma_bodies_have_below(bodies: Seq<BodyView>, moving: BlockView, one: BlockView)
    requires
        flatten_bodies(bodies).contains(moving),
        forall|j: int|
            0 <= j < flatten_bodies(bodies).len() && (#[trigger] flatten_bodies(bodies)[j]).id
                == moving.id ==> flatten_bodies(bodies)[j] == moving,
        flatten_bodies(moving.bodies).contains(one),
    ensures
        bodies_have_below(bodies, moving.id, one.id),
    decreases bodies,
{
    let last = bodies[bodies.len() - 1];
    let rest = bodies.drop_last();
    let head = flatten_bodies(rest);
    let tail = flatten(last.blocks);
    let flat = flatten_bodies(bodies);
    assert(flat == head + tail);
    let at = flat.index_of(moving);
    if at < head.len() {
        assert(head[at] == moving);
        assert forall|j: int| 0 <= j < head.len() && (#[trigger] head[j]).id
            == moving.id implies head[j] == moving by {
            assert(flat[j] == head[j]);
        }
        assert(decreases_to!(bodies => rest));
        lemma_bodies_have_below(rest, moving, one);
    } else {
        assert(tail[at - head.len()] == moving);
        assert forall|j: int| 0 <= j < tail.len() && (#[trigger] tail[j]).id
            == moving.id implies tail[j] == moving by {
            assert(flat[head.len() + j] == tail[j]);
        }
        assert(decreases_to!(bodies => last.blocks));
        lemma_has_below(last.blocks, moving, one);
    }
}

/// A connection that is offered does not lead below the block that it moves.
pub proof fn lemma_connection_leads_outside(blocks: Seq<BlockView>, port: PortView, target: Seq<char>)
    requires
        shaped(blocks),
        structural_ids(blocks).no_duplicates(),
        connection(blocks, port, target) is Ok,
    ensures
        ({
            let (source, to) = connection(blocks, port, target)->Ok_0;
            &&& block_at(blocks, source) is Ok
            &&& flatten(blocks).contains(block_at(blocks, source)->Ok_0)
            &&& block_at(blocks, source)->Ok_0.id == target
            &&& container(blocks, to.container) is Some
            &&& !below(to.container, block_at(blocks, source)->Ok_0)
        }),
{
    let (source, to) = connection(blocks, port, target)->Ok_0;
    let anchor_id = port_owner(port);
    let flat = flatten(blocks);
    located_block_reads_back(blocks, target);
    located_block_reads_back(blocks, anchor_id);
    let moving = block_at(blocks, source)->Ok_0;
    let list = container(blocks, source.container)->0;
    lemma_first_index(list, has_id(source.block_id));
    lemma_container_in_tree(blocks, source.container, place(blocks, source)->Ok_0);
    let path = located(blocks, anchor_id)->0;
    let anchor = block_at(blocks, path)->Ok_0;
    let around = container(blocks, path.container)->0;
    lemma_first_index(around, has_id(path.block_id));
    let i = place(blocks, path)->Ok_0;
    lemma_container_in_tree(blocks, path.container, i);
    assert(anchor == around[i] && anchor.id == anchor_id);
    lemma_distinct_blocks(flat);
    let m = flat.index_of(moving);
    assert forall|j: int| 0 <= j < flat.len() && (#[trigger] flat[j]).id == moving.id implies flat[j]
        == moving by {
        assert(flat[m].id == flat[j].id);
    }
    if below(to.container, moving) {
        lemma_owner_below(blocks, moving, to.container);
        let a = lemma_first_where_found(flat, owns(to.container));
        let owner = flat[a];
        let s = flatten_block(moving).index_of(owner);
        if s > 0 {
            assert(flatten_bodies(moving.bodies)[s - 1] == owner);
            assert(flatten_bodies(moving.bodies).contains(owner));
        } else {
            assert(owner == moving);
        }
        match port_container(port) {
            Some(inside) => {
                assert(owner.id == anchor_id);
                if s > 0 {
                    lemma_has_below(blocks, moving, owner);
                }
            },
            None => {
                lemma_first_index(owner.bodies, plays(to.container));
                let k = body_index(owner, to.container)->0;
                lemma_body_listed(owner.bodies, k, i);
                if s > 0 {
                    lemma_below_in_bodies(moving.bodies, owner, anchor);
                }
                lemma_has_below(blocks, moving, anchor);
            },
        }
        assert(false);
    }
}

/// Taking a block out of its container leaves every container that it does not own, with blocks of
/// the same identities but for the one that held the block.
pub proof fn lemma_containers_stay(
    blocks: Seq<BlockView>,
    source: BlockPathView,
    path: ContainerView,
)
    requires
        structural_ids(blocks).no_duplicates(),
        block_at(blocks, source) is Ok,
        container(blocks, path) is Some,
        path != source.container,
        !below(path, block_at(blocks, source)->Ok_0),
    ensures
        ({
            let list = container(blocks, source.container)->0;
            let i = place(blocks, source)->Ok_0;
            let left = with_container(blocks, source.container, list.remove(i));
            &&& container(left, path) is Some
            &&& same_heads(container(blocks, path)->0, container(left, path)->0)
        }),
{
    let list = container(blocks, source.container)->0;
    lemma_first_index(list, has_id(source.block_id));
    let i = place(blocks, source)->Ok_0;
    let moving = list[i];
    let new = list.remove(i);
    let left = with_container(blocks, source.container, new);
    container_reads_back(blocks, source.container, new);
    if path is Root {
        lemma_first_owner_in_blocks(blocks, source.container);
        assert(same_heads(blocks, left));
    } else {
        let flat = flatten(blocks);
        let a = lemma_first_where_found(flat, owns(path));
        let owner = flat[a];
        lemma_first_index(owner.bodies, plays(path));
        let k = body_index(owner, path)->0;
        lemma_path_of_owner(owner, path, 0);
        if flatten_block(moving).contains(owner) {
            let s = flatten_block(moving).index_of(owner);
            lemma_own_brought(flatten_block(moving), s, path_ids(path)[0]);
        }
        lemma_walk_split(list, i);
        assert(new.take(i) =~= list.take(i));
        assert(new =~= list.take(i) + list.skip(i + 1));
        lemma_flatten_add(list.take(i), list.skip(i + 1));
        if flatten(list).contains(owner) {
            lemma_third(
                flatten(list.take(i)),
                flatten_block(moving),
                flatten(list.skip(i + 1)),
                owner,
            );
            assert(flatten(new).contains(owner)) by {
                let before = flatten(list.take(i));
                let behind = flatten(list.skip(i + 1));
                if before.contains(owner) {
                    let j = before.index_of(owner);
                    assert(flatten(new)[j] == owner);
                } else {
                    let j = behind.index_of(owner);
                    assert(flatten(new)[before.len() + j] == owner);
                }
            }
            lemma_flat_container_in_tree(left, source.container, owner);
            lemma_akin_itself(flatten(left), owner, source.container);
        } else {
            if source.container is Root {
                assert(flatten(list).contains(owner));
            }
            lemma_others_stay(blocks, source.container, new, owner);
        }
        let j = choose|j: int|
            0 <= j < flatten(left).len() && akin(
                owner,
                #[trigger] flatten(left)[j],
                source.container,
            );
        let other = flatten(left)[j];
        assert(plays(path)(other.bodies[k]));
        assert forall|x: int| 0 <= x < k implies !plays(path)(#[trigger] other.bodies[x]) by {
            assert(!plays(path)(owner.bodies[x]));
        }
        lemma_is_first_index(other.bodies, plays(path), k);
        assert(owns(path)(other));
        lemma_removed_distinct(blocks, source);
        lemma_distinct_blocks(flatten(left));
        let b = lemma_first_where_found(flatten(left), owns(path));
        assert(flatten(left)[b].id == other.id);
        assert(b == j);
        if body_index(owner, source.container) == Some(k) {
            lemma_first_index(owner.bodies, plays(source.container));
            assert(plays(source.container)(owner.bodies[k]));
            assert(path == source.container);
        }
    }
}

/// What stands in or below the blocks of a container stands in the tree.
pub proof fn lemma_flat_container_in_tree(
    blocks: Seq<BlockView>,
    path: ContainerView,
    one: BlockView,
)
    requires
        container(blocks, path) is Some,
        flatten(container(blocks, path)->0).contains(one),
    ensures
        flatten(blocks).contains(one),
{
    if !(path is Root) {
        let at = lemma_first_where_found(flatten(blocks), owns(path));
        let owner = flatten(blocks)[at];
        lemma_first_index(owner.bodies, plays(path));
        let k = body_index(owner, path)->0;
        lemma_bodies_walk_split(owner.bodies, k);
        let head = flatten_bodies(owner.bodies.take(k));
        let j = flatten(owner.bodies[k].blocks).index_of(one);
        assert(flatten_bodies(owner.bodies)[head.len() + j] == one);
        assert(flatten_bodies(owner.bodies).contains(one));
        lemma_below_in_tree(blocks, owner, one);
    }
}

/// What a connection stands for can be done: the block leaves its place and is put where the
/// connector leads.
pub proof fn connections_are_moves(blocks: Seq<BlockView>, port: PortView, target: Seq<char>)
    requires
        shaped(blocks),
        structural_ids(blocks).no_duplicates(),
        connection(blocks, port, target) is Ok,
    ensures
        ({
            let (source, to) = connection(blocks, port, target)->Ok_0;
            &&& to.index >= 0
            &&& moved(blocks, source, to) is Ok
            &&& holdings(moved(blocks, source, to)->Ok_0) == holdings(blocks)
        }),
{
    let (source, to) = connection(blocks, port, target)->Ok_0;
    lemma_connection_leads_outside(blocks, port, target);
    let list = container(blocks, source.container)->0;
    lemma_first_index(list, has_id(source.block_id));
    let i = place(blocks, source)->Ok_0;
    let path = located(blocks, port_owner(port))->0;
    lemma_first_index(container(blocks, path.container)->0, has_id(path.block_id));
    container_reads_back(blocks, source.container, list.remove(i));
    if to.container != source.container {
        lemma_containers_stay(blocks, source, to.container);
    }
    assert(moved(blocks, source, to) is Ok);
    moving_keeps_every_block(blocks, source, to);
}

/// A connection is an edit like any other: a sound draft that may be edited takes it, unless the
/// block has a watch group in it, which would then stand below another one. Every block is kept,
/// the draft stays sound, and where the macro changes it has to be validated again.
pub proof fn connections_are_accepted(draft: EditorDraftView, port: PortView, target: Seq<char>)
    requires
        sound(draft),
        draft.editability is Editable,
        shaped(draft.definition.blocks),
        connection(draft.definition.blocks, port, target) is Ok,
    ensures
        ({
            let (source, to) = connection(draft.definition.blocks, port, target)->Ok_0;
            let (after, answer) = applied(draft, CommandView::MoveBlock { source, target: to });
            &&& sound(after)
            &&& holdings(after.definition.blocks) == holdings(draft.definition.blocks)
            &&& match answer {
                Ok(EditOutcome::Changed) => after.status is NeedsValidation,
                Ok(outcome) => outcome is NoChange && after == draft,
                Err(error) => error is NestedWatchGroup && after == draft && watchful(
                    flatten_block(block_at(draft.definition.blocks, source)->Ok_0),
                ),
            }
        }),
{
    let blocks = draft.definition.blocks;
    let (source, to) = connection(blocks, port, target)->Ok_0;
    let command = CommandView::MoveBlock { source, target: to };
    connections_are_moves(blocks, port, target);
    let next = moved(blocks, source, to)->Ok_0;
    same_blocks_have_the_same_identities(next, blocks);
    structural_ids(blocks).lemma_multiset_has_no_duplicates();
    structural_ids(next).lemma_multiset_has_no_duplicates_conv();
    lemma_first_repeat_none(structural_ids(next));
    lemma_first_repeat_none(structural_ids(blocks));
    commands_keep_a_draft_sound(draft, command);
    if !watchful(flatten_block(block_at(blocks, source)->Ok_0)) {
        move_nests_no_watch(blocks, source, to);
    }
    let result = edited(snapshot(draft), command);
    assert(result->Ok_0.definition.blocks == next);
    assert(applied(draft, command) == edit_applied(draft, result));
}

} // verus!
