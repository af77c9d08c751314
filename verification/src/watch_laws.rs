//! What holds of watch groups: only a block that brings one can bring it below another one.
use crate::connection_laws::{
    lemma_bodies_walk_split, lemma_flat_container_in_tree, lemma_walk_split,
};
use crate::container::{
    block_holds, body_holds, body_index, container, lemma_first_owner_in_block,
    lemma_first_owner_in_blocks, lemma_first_owner_in_bodies, plays, with_container,
    with_container_below, ContainerView,
};
use crate::draft::{nested_watch, watch_below};
use crate::editor_types::{BlockPathView, InsertionTargetView};
use crate::edits::{inserted, moved, place};
use crate::macro_engine::{BlockView, BodyView};
use crate::tree::{
    first_index, flatten, flatten_block, flatten_bodies, has_id, lemma_first_index,
    lemma_flatten_add,
};
use crate::tree_laws::container_in;
use vstd::prelude::*;

verus! {

broadcast use crate::macro_engine::group_block_views;

/// One of the blocks of a flat list is a watch group.
pub open spec fn watchful(flat: Seq<BlockView>) -> bool {
    exists|j: int| 0 <= j < flat.len() && (#[trigger] flat[j]).head is WatchGroup
}

/// One of the blocks of a flat list is a watch group with another one below it.
pub open spec fn nested(flat: Seq<BlockView>) -> bool {
    exists|j: int|
        0 <= j < flat.len() && (#[trigger] flat[j]).head is WatchGroup && watch_below(flat[j])
}

proof fn lemma_together(a: Seq<BlockView>, b: Seq<BlockView>, c: Seq<BlockView>)
    ensures
        watchful(a + b + c) == (watchful(a) || watchful(b) || watchful(c)),
        nested(a + b + c) == (nested(a) || nested(b) || nested(c)),
{
    let whole = a + b + c;
    assert forall|j: int| 0 <= j < a.len() implies whole[j] == #[trigger] a[j] by {}
    assert forall|j: int| 0 <= j < b.len() implies whole[a.len() + j] == #[trigger] b[j] by {}
    assert forall|j: int| 0 <= j < c.len() implies whole[a.len() + b.len() + j]
        == #[trigger] c[j] by {}
    assert forall|j: int| 0 <= j < whole.len() implies (j < a.len() && #[trigger] whole[j] == a[j])
        || (a.len() <= j < a.len() + b.len() && whole[j] == b[j - a.len()]) || (a.len() + b.len()
        <= j && whole[j] == c[j - a.len() - b.len()]) by {}
    if watchful(whole) {
        let j = choose|j: int| 0 <= j < whole.len() && (#[trigger] whole[j]).head is WatchGroup;
        assert(watchful(a) || watchful(b) || watchful(c));
    }
    if nested(whole) {
        let j = choose|j: int|
            0 <= j < whole.len() && (#[trigger] whole[j]).head is WatchGroup && watch_below(
                whole[j],
            );
        assert(nested(a) || nested(b) || nested(c));
    }
    if watchful(a) {
        let j = choose|j: int| 0 <= j < a.len() && (#[trigger] a[j]).head is WatchGroup;
        assert(whole[j].head is WatchGroup);
    }
    if watchful(b) {
        let j = choose|j: int| 0 <= j < b.len() && (#[trigger] b[j]).head is WatchGroup;
        assert(whole[a.len() + j].head is WatchGroup);
    }
    if watchful(c) {
        let j = choose|j: int| 0 <= j < c.len() && (#[trigger] c[j]).head is WatchGroup;
        assert(whole[a.len() + b.len() + j].head is WatchGroup);
    }
    if nested(a) {
        let j = choose|j: int|
            0 <= j < a.len() && (#[trigger] a[j]).head is WatchGroup && watch_below(a[j]);
        assert(whole[j] == a[j]);
    }
    if nested(b) {
        let j = choose|j: int|
            0 <= j < b.len() && (#[trigger] b[j]).head is WatchGroup && watch_below(b[j]);
        assert(whole[a.len() + j] == b[j]);
    }
    if nested(c) {
        let j = choose|j: int|
            0 <= j < c.len() && (#[trigger] c[j]).head is WatchGroup && watch_below(c[j]);
        assert(whole[a.len() + b.len() + j] == c[j]);
    }
}

/// The walk of a block: the block, and what is below it.
pub proof fn lemma_of_block(block: BlockView)
    ensures
        watchful(flatten_block(block)) == (block.head is WatchGroup || watchful(
            flatten_bodies(block.bodies),
        )),
        nested(flatten_block(block)) == ((block.head is WatchGroup && watchful(
            flatten_bodies(block.bodies),
        )) || nested(flatten_bodies(block.bodies))),
        watch_below(block) == watchful(flatten_bodies(block.bodies)),
{
    let one = seq![block];
    lemma_together(one, flatten_bodies(block.bodies), Seq::empty());
    assert(one + flatten_bodies(block.bodies) + Seq::<BlockView>::empty() =~= flatten_block(block));
    assert(one[0] == block);
    assert(watchful(one) == block.head is WatchGroup);
    assert(nested(one) == (block.head is WatchGroup && watch_below(block)));
}

/// Writing a list without a new watch group to a container brings no watch group anywhere.
proof fn lemma_watch_written(blocks: Seq<BlockView>, path: ContainerView, new: Seq<BlockView>)
    requires
        container(blocks, path) is Some,
        watchful(flatten(new)) ==> watchful(flatten(container(blocks, path)->0)),
    ensures
        ({
            let after = flatten(with_container(blocks, path, new));
            &&& watchful(after) ==> watchful(flatten(blocks))
            &&& nested(after) ==> nested(flatten(blocks)) || nested(flatten(new))
        }),
    decreases blocks,
{
    if !(path is Root) {
        lemma_first_owner_in_blocks(blocks, path);
        lemma_first_index(blocks, block_holds(path));
        let i = first_index(blocks, block_holds(path))->0;
        let inner = with_container_below(blocks[i], path, new);
        let after = with_container(blocks, path, new);
        assert(after == blocks.update(i, inner));
        lemma_walk_split(blocks, i);
        lemma_walk_split(after, i);
        assert(after.take(i) =~= blocks.take(i));
        assert(after.skip(i + 1) =~= blocks.skip(i + 1));
        let head = flatten(blocks.take(i));
        let tail = flatten(blocks.skip(i + 1));
        lemma_together(head, flatten_block(blocks[i]), tail);
        lemma_together(head, flatten_block(inner), tail);
        assert(decreases_to!(blocks => blocks[i]));
        lemma_watch_written_below(blocks[i], path, new);
    }
}

proof fn lemma_watch_written_below(block: BlockView, path: ContainerView, new: Seq<BlockView>)
    requires
        !(path is Root),
        block_holds(path)(block),
        watchful(flatten(new)) ==> watchful(flatten(container_in(block, path))),
    ensures
        ({
            let after = flatten_block(with_container_below(block, path, new));
            &&& watchful(after) ==> watchful(flatten_block(block))
            &&& nested(after) ==> nested(flatten_block(block)) || nested(flatten(new))
        }),
    decreases block,
{
    lemma_first_owner_in_block(block, path);
    lemma_first_owner_in_bodies(block.bodies, path);
    lemma_first_index(block.bodies, plays(path));
    lemma_first_index(block.bodies, body_holds(path));
    let after = with_container_below(block, path, new);
    let own = body_index(block, path);
    let k = if own is Some {
        own->0
    } else {
        first_index(block.bodies, body_holds(path))->0
    };
    let old = block.bodies[k].blocks;
    let inner = if own is Some {
        new
    } else {
        with_container(old, path, new)
    };
    assert(after.bodies == block.bodies.update(
        k,
        BodyView { role: block.bodies[k].role, blocks: inner },
    ));
    lemma_bodies_walk_split(block.bodies, k);
    lemma_bodies_walk_split(after.bodies, k);
    assert(after.bodies.take(k) =~= block.bodies.take(k));
    assert(after.bodies.skip(k + 1) =~= block.bodies.skip(k + 1));
    let head = flatten_bodies(block.bodies.take(k));
    let tail = flatten_bodies(block.bodies.skip(k + 1));
    lemma_together(head, flatten(old), tail);
    lemma_together(head, flatten(inner), tail);
    lemma_of_block(block);
    lemma_of_block(after);
    if own is None {
        assert(container_in(block, path) == container(old, path)->0);
        assert(decreases_to!(block => old));
        lemma_watch_written(old, path, new);
    }
}

/// What stands in a container stands in the tree.
proof fn lemma_watch_in_tree(blocks: Seq<BlockView>, path: ContainerView)
    requires
        container(blocks, path) is Some,
    ensures
        nested(flatten(container(blocks, path)->0)) ==> nested(flatten(blocks)),
{
    let list = flatten(container(blocks, path)->0);
    if nested(list) && !(path is Root) {
        let j = choose|j: int|
            0 <= j < list.len() && (#[trigger] list[j]).head is WatchGroup && watch_below(list[j]);
        lemma_flat_container_in_tree(blocks, path, list[j]);
        let at = flatten(blocks).index_of(list[j]);
        assert(flatten(blocks)[at] == list[j]);
    }
}

/// Inserting a block that has no watch group in it brings no watch group below another one.
pub proof fn insertion_nests_no_watch(
    blocks: Seq<BlockView>,
    target: InsertionTargetView,
    block: BlockView,
)
    requires
        inserted(blocks, target, block) is Ok,
        target.index >= 0,
        !watchful(flatten_block(block)),
    ensures
        nested_watch(inserted(blocks, target, block)->Ok_0) ==> nested_watch(blocks),
        watchful(flatten(inserted(blocks, target, block)->Ok_0)) ==> watchful(flatten(blocks)),
{
    let list = container(blocks, target.container)->0;
    let i = target.index;
    let new = list.insert(i, block);
    lemma_walk_split(new, i);
    assert(new.take(i) =~= list.take(i));
    assert(new.skip(i + 1) =~= list.skip(i));
    assert(list =~= list.take(i) + list.skip(i));
    lemma_flatten_add(list.take(i), list.skip(i));
    lemma_together(flatten(list.take(i)), flatten_block(block), flatten(list.skip(i)));
    lemma_together(flatten(list.take(i)), flatten(list.skip(i)), Seq::empty());
    assert(flatten(list.take(i)) + flatten(list.skip(i)) + Seq::<BlockView>::empty() =~= flatten(
        list,
    ));
    assert(!nested(flatten_block(block)));
    lemma_watch_written(blocks, target.container, new);
    lemma_watch_in_tree(blocks, target.container);
    let after = inserted(blocks, target, block)->Ok_0;
    assert(nested_watch(after) == nested(flatten(after)));
    assert(nested_watch(blocks) == nested(flatten(blocks)));
}

/// Moving a block that has no watch group in it brings no watch group below another one.
pub proof fn move_nests_no_watch(
    blocks: Seq<BlockView>,
    source: BlockPathView,
    target: InsertionTargetView,
)
    requires
        moved(blocks, source, target) is Ok,
        target.index >= 0,
        !watchful(
            flatten_block(container(blocks, source.container)->0[place(blocks, source)->Ok_0]),
        ),
    ensures
        nested_watch(moved(blocks, source, target)->Ok_0) ==> nested_watch(blocks),
{
    let list = container(blocks, source.container)->0;
    lemma_first_index(list, has_id(source.block_id));
    let i = place(blocks, source)->Ok_0;
    let new = list.remove(i);
    let left = with_container(blocks, source.container, new);
    lemma_walk_split(list, i);
    assert(new =~= list.take(i) + list.skip(i + 1));
    lemma_flatten_add(list.take(i), list.skip(i + 1));
    lemma_together(flatten(list.take(i)), flatten_block(list[i]), flatten(list.skip(i + 1)));
    lemma_together(flatten(list.take(i)), flatten(list.skip(i + 1)), Seq::empty());
    assert(flatten(list.take(i)) + flatten(list.skip(i + 1)) + Seq::<BlockView>::empty()
        =~= flatten(new));
    lemma_watch_written(blocks, source.container, new);
    lemma_watch_in_tree(blocks, source.container);
    assert(nested_watch(left) == nested(flatten(left)));
    assert(nested_watch(blocks) == nested(flatten(blocks)));
    insertion_nests_no_watch(left, target, list[i]);
}

} // verus!
