//! What edits of the tree keep: which blocks there are, and what a container reads back.
use crate::block_place::{
    block_has, body_has, lemma_first_id_in_block, lemma_first_id_in_blocks,
    lemma_first_id_in_bodies, with_block, with_block_below,
};
use crate::container::{
    block_holds, body_holds, body_index, container, lemma_first_owner_in_block,
    lemma_first_owner_in_blocks, lemma_first_owner_in_bodies, owns, plays, with_body,
    with_container, with_container_below, ContainerView,
};
use crate::editor_types::{BlockPathView, IfBranch, InsertionTargetView, LoopDeletionChoice};
use crate::edits::{
    block_at, branch_moved, inserted, is_lane, lane_moved, moved, place, removed, reordered,
    spliced, transferred,
};
use crate::identities::{ids_of, lane_ids, own_ids, structural_ids};
use crate::macro_engine::{BlockView, BodyView};
use crate::place_laws::{shaped, well_shaped};
use crate::tree::{
    first_index, first_where, flatten, flatten_block, flatten_bodies, found_block, has_id,
    lemma_first_index, lemma_first_where_found, lemma_flatten_add, lemma_flatten_bodies_add,
    lemma_is_first_index,
};
use vstd::multiset::Multiset;
use vstd::prelude::*;

verus! {

/// A block without the blocks of its bodies: what it is by itself.
pub open spec fn shell(block: BlockView) -> BlockView {
    BlockView {
        bodies: Seq::new(
            block.bodies.len(),
            |k: int| BodyView { role: block.bodies[k].role, blocks: Seq::empty() },
        ),
        ..block
    }
}

/// The blocks of a flat list, each by itself and whatever their order.
pub open spec fn inventory(flat: Seq<BlockView>) -> Multiset<BlockView> {
    flat.map_values(|block: BlockView| shell(block)).to_multiset()
}

/// Everything that a tree holds, each block by itself and wherever it stands.
pub open spec fn holdings(blocks: Seq<BlockView>) -> Multiset<BlockView> {
    inventory(flatten(blocks))
}

pub proof fn lemma_inventory_add(left: Seq<BlockView>, right: Seq<BlockView>)
    ensures
        inventory(left + right) == inventory(left).add(inventory(right)),
{
    let to_shell = |block: BlockView| shell(block);
    assert((left + right).map_values(to_shell) =~= left.map_values(to_shell)
        + right.map_values(to_shell));
    vstd::seq_lib::lemma_multiset_commutative(
        left.map_values(to_shell),
        right.map_values(to_shell),
    );
}

proof fn lemma_inventory_one(block: BlockView)
    ensures
        inventory(seq![block]) == Multiset::singleton(shell(block)),
{
    let to_shell = |block: BlockView| shell(block);
    let one = seq![block].map_values(to_shell);
    broadcast use vstd::seq_lib::group_to_multiset_ensures;
    assert(one =~= Seq::empty().push(shell(block)));
    assert(Seq::<BlockView>::empty().to_multiset() =~= Multiset::empty());
    assert(one.to_multiset() =~= Multiset::singleton(shell(block)));
}

pub proof fn lemma_inventory_block(block: BlockView)
    ensures
        inventory(flatten_block(block)) == Multiset::singleton(shell(block)).add(
            inventory(flatten_bodies(block.bodies)),
        ),
{
    lemma_inventory_add(seq![block], flatten_bodies(block.bodies));
    lemma_inventory_one(block);
}

/// A list is what stands before an index, the element there and what stands after it.
proof fn lemma_flatten_split(blocks: Seq<BlockView>, i: int)
    requires
        0 <= i < blocks.len(),
    ensures
        holdings(blocks) == holdings(blocks.take(i)).add(inventory(flatten_block(blocks[i]))).add(
            holdings(blocks.skip(i + 1)),
        ),
{
    let one = seq![blocks[i]];
    assert(blocks =~= blocks.take(i) + one + blocks.skip(i + 1));
    lemma_flatten_add(blocks.take(i) + one, blocks.skip(i + 1));
    lemma_flatten_add(blocks.take(i), one);
    assert(one.drop_last() =~= Seq::empty());
    assert(flatten(one) =~= flatten_block(blocks[i])) by {
        assert(flatten(one.drop_last()) =~= Seq::empty());
    }
    lemma_inventory_add(flatten(blocks.take(i) + one), flatten(blocks.skip(i + 1)));
    lemma_inventory_add(flatten(blocks.take(i)), flatten(one));
}

pub proof fn lemma_bodies_split(bodies: Seq<BodyView>, k: int)
    requires
        0 <= k < bodies.len(),
    ensures
        inventory(flatten_bodies(bodies)) == inventory(flatten_bodies(bodies.take(k))).add(
            holdings(bodies[k].blocks),
        ).add(inventory(flatten_bodies(bodies.skip(k + 1)))),
{
    let one = seq![bodies[k]];
    assert(bodies =~= bodies.take(k) + one + bodies.skip(k + 1));
    lemma_flatten_bodies_add(bodies.take(k) + one, bodies.skip(k + 1));
    lemma_flatten_bodies_add(bodies.take(k), one);
    assert(flatten_bodies(one) =~= flatten(bodies[k].blocks)) by {
        assert(one.drop_last() =~= Seq::empty());
        assert(flatten_bodies(one.drop_last()) =~= Seq::empty());
    }
    lemma_inventory_add(flatten_bodies(bodies.take(k) + one), flatten_bodies(bodies.skip(k + 1)));
    lemma_inventory_add(flatten_bodies(bodies.take(k)), flatten_bodies(one));
}

/// One block of a list replaced.
proof fn lemma_block_updated(blocks: Seq<BlockView>, i: int, new: BlockView)
    requires
        0 <= i < blocks.len(),
    ensures
        holdings(blocks.update(i, new)).add(inventory(flatten_block(blocks[i]))) == holdings(
            blocks,
        ).add(inventory(flatten_block(new))),
{
    let after = blocks.update(i, new);
    lemma_flatten_split(blocks, i);
    lemma_flatten_split(after, i);
    assert(after.take(i) =~= blocks.take(i));
    assert(after.skip(i + 1) =~= blocks.skip(i + 1));
    assert(holdings(after).add(inventory(flatten_block(blocks[i]))) =~= holdings(blocks).add(
        inventory(flatten_block(new)),
    ));
}

/// The blocks of one body of a block replaced: the block stays what it is by itself.
proof fn lemma_body_updated(block: BlockView, k: int, new: Seq<BlockView>)
    requires
        0 <= k < block.bodies.len(),
    ensures
        shell(with_body(block, k, new)) == shell(block),
        inventory(flatten_block(with_body(block, k, new))).add(holdings(block.bodies[k].blocks))
            == inventory(flatten_block(block)).add(holdings(new)),
{
    let after = with_body(block, k, new);
    assert(shell(after).bodies =~= shell(block).bodies);
    lemma_bodies_split(block.bodies, k);
    lemma_bodies_split(after.bodies, k);
    assert(after.bodies.take(k) =~= block.bodies.take(k));
    assert(after.bodies.skip(k + 1) =~= block.bodies.skip(k + 1));
    lemma_inventory_block(block);
    lemma_inventory_block(after);
    assert(inventory(flatten_block(after)).add(holdings(block.bodies[k].blocks)) =~= inventory(
        flatten_block(block),
    ).add(holdings(new)));
}

/// The container that a path names, in a block that holds its owner.
pub open spec fn container_in(block: BlockView, path: ContainerView) -> Seq<BlockView> {
    let owner = first_where(flatten_block(block), owns(path))->0;
    owner.bodies[body_index(owner, path)->0].blocks
}

proof fn lemma_container_below(block: BlockView, path: ContainerView, new: Seq<BlockView>)
    requires
        block_holds(path)(block),
        !(path is Root),
    ensures
        inventory(flatten_block(with_container_below(block, path, new))).add(
            holdings(container_in(block, path)),
        ) == inventory(flatten_block(block)).add(holdings(new)),
        block_holds(path)(with_container_below(block, path, new)),
        container_in(with_container_below(block, path, new), path) == new,
    decreases block,
{
    lemma_first_owner_in_block(block, path);
    lemma_first_owner_in_bodies(block.bodies, path);
    lemma_first_index(block.bodies, plays(path));
    lemma_first_index(block.bodies, body_holds(path));
    let after = with_container_below(block, path, new);
    match body_index(block, path) {
        Some(k) => {
            lemma_body_updated(block, k, new);
            assert(after.bodies[k].role == block.bodies[k].role);
            assert forall|j: int| 0 <= j < k implies !plays(path)(#[trigger] after.bodies[j]) by {
                assert(!plays(path)(block.bodies[j]));
            }
            lemma_is_first_index(after.bodies, plays(path), k);
            lemma_first_owner_in_block(after, path);
        },
        None => {
            let k = first_index(block.bodies, body_holds(path))->0;
            let body = block.bodies[k];
            assert(decreases_to!(block => body.blocks));
            lemma_container_replaced(body.blocks, path, new);
            lemma_body_updated(block, k, with_container(body.blocks, path, new));
            assert(body_index(after, path) is None) by {
                lemma_first_index(after.bodies, plays(path));
                if body_index(after, path) is Some {
                    let j = body_index(after, path)->0;
                    assert(after.bodies[j].role == block.bodies[j].role);
                    assert(plays(path)(block.bodies[j]));
                }
            }
            assert(body_holds(path)(after.bodies[k]));
            assert forall|j: int| 0 <= j < k implies !body_holds(path)(
                #[trigger] after.bodies[j],
            ) by {
                assert(!body_holds(path)(block.bodies[j]));
            }
            lemma_is_first_index(after.bodies, body_holds(path), k);
            lemma_first_owner_in_block(after, path);
            lemma_first_owner_in_bodies(after.bodies, path);
            let inner = with_container(body.blocks, path, new);
            assert(inventory(flatten_block(after)).add(holdings(container_in(block, path)))
                =~= inventory(flatten_block(block)).add(holdings(new))) by {
                assert(container_in(block, path) == container(body.blocks, path)->0);
                assert(holdings(inner).add(holdings(container_in(block, path))) == holdings(
                    body.blocks,
                ).add(holdings(new)));
                assert forall|one: BlockView|
                    inventory(flatten_block(after)).add(
                        holdings(container_in(block, path)),
                    ).count(one) == inventory(flatten_block(block)).add(holdings(new)).count(
                        one,
                    ) by {
                    assert(inventory(flatten_block(after)).add(holdings(body.blocks)).count(one)
                        == inventory(flatten_block(block)).add(holdings(inner)).count(one));
                    assert(holdings(inner).add(holdings(container_in(block, path))).count(one)
                        == holdings(body.blocks).add(holdings(new)).count(one));
                }
            }
        },
    }
}

proof fn lemma_container_replaced(blocks: Seq<BlockView>, path: ContainerView, new: Seq<BlockView>)
    requires
        container(blocks, path) is Some,
    ensures
        holdings(with_container(blocks, path, new)).add(holdings(container(blocks, path)->0))
            == holdings(blocks).add(holdings(new)),
        container(with_container(blocks, path, new), path) == Some(new),
    decreases blocks,
{
    if path is Root {
        assert(holdings(new).add(holdings(blocks)) =~= holdings(blocks).add(holdings(new)));
    } else {
        lemma_first_owner_in_blocks(blocks, path);
        lemma_first_index(blocks, block_holds(path));
        let i = first_index(blocks, block_holds(path))->0;
        let inner = with_container_below(blocks[i], path, new);
        assert(decreases_to!(blocks => blocks[i]));
        lemma_container_below(blocks[i], path, new);
        lemma_block_updated(blocks, i, inner);
        let after = with_container(blocks, path, new);
        assert forall|j: int| 0 <= j < i implies !block_holds(path)(#[trigger] after[j]) by {
            assert(!block_holds(path)(blocks[j]));
        }
        lemma_is_first_index(after, block_holds(path), i);
        lemma_first_owner_in_blocks(after, path);
        let old = container(blocks, path)->0;
        assert(old == container_in(blocks[i], path));
        assert(holdings(after).add(holdings(old)) =~= holdings(blocks).add(holdings(new))) by {
            assert forall|one: BlockView|
                holdings(after).add(holdings(old)).count(one) == holdings(blocks).add(
                    holdings(new),
                ).count(one) by {
                assert(holdings(after).add(inventory(flatten_block(blocks[i]))).count(one)
                    == holdings(blocks).add(inventory(flatten_block(inner))).count(one));
                assert(inventory(flatten_block(inner)).add(holdings(old)).count(one) == inventory(
                    flatten_block(blocks[i]),
                ).add(holdings(new)).count(one));
            }
        }
    }
}

/// What is written to a container is what it reads back, and nothing outside the container is
/// lost or added.
pub proof fn container_reads_back(blocks: Seq<BlockView>, path: ContainerView, new: Seq<BlockView>)
    requires
        container(blocks, path) is Some,
    ensures
        container(with_container(blocks, path, new), path) == Some(new),
        holdings(with_container(blocks, path, new)).add(holdings(container(blocks, path)->0))
            == holdings(blocks).add(holdings(new)),
{
    lemma_container_replaced(blocks, path, new);
}

proof fn lemma_block_below(block: BlockView, id: Seq<char>, new: BlockView)
    requires
        block_has(id)(block),
    ensures
        inventory(flatten_block(with_block_below(block, id, new))).add(
            inventory(flatten_block(first_where(flatten_block(block), has_id(id))->0)),
        ) == inventory(flatten_block(block)).add(inventory(flatten_block(new))),
    decreases block,
{
    lemma_first_id_in_block(block, id);
    let old = first_where(flatten_block(block), has_id(id))->0;
    let after = with_block_below(block, id, new);
    if block.id == id {
        assert(inventory(flatten_block(new)).add(inventory(flatten_block(block))) =~= inventory(
            flatten_block(block),
        ).add(inventory(flatten_block(new))));
    } else {
        lemma_first_id_in_bodies(block.bodies, id);
        lemma_first_index(block.bodies, body_has(id));
        let k = first_index(block.bodies, body_has(id))->0;
        let body = block.bodies[k];
        let inner = with_block(body.blocks, id, new);
        assert(decreases_to!(block => body.blocks));
        lemma_block_replaced(body.blocks, id, new);
        lemma_body_updated(block, k, inner);
        assert(inventory(flatten_block(after)).add(inventory(flatten_block(old))) =~= inventory(
            flatten_block(block),
        ).add(inventory(flatten_block(new)))) by {
            assert forall|one: BlockView|
                inventory(flatten_block(after)).add(inventory(flatten_block(old))).count(one)
                    == inventory(flatten_block(block)).add(inventory(flatten_block(new))).count(
                    one,
                ) by {
                assert(inventory(flatten_block(after)).add(holdings(body.blocks)).count(one)
                    == inventory(flatten_block(block)).add(holdings(inner)).count(one));
                assert(holdings(inner).add(inventory(flatten_block(old))).count(one) == holdings(
                    body.blocks,
                ).add(inventory(flatten_block(new))).count(one));
            }
        }
    }
}

proof fn lemma_block_replaced(blocks: Seq<BlockView>, id: Seq<char>, new: BlockView)
    requires
        found_block(blocks, id) is Some,
    ensures
        holdings(with_block(blocks, id, new)).add(
            inventory(flatten_block(found_block(blocks, id)->0)),
        ) == holdings(blocks).add(inventory(flatten_block(new))),
    decreases blocks,
{
    lemma_first_id_in_blocks(blocks, id);
    lemma_first_index(blocks, block_has(id));
    let i = first_index(blocks, block_has(id))->0;
    let inner = with_block_below(blocks[i], id, new);
    assert(decreases_to!(blocks => blocks[i]));
    lemma_block_below(blocks[i], id, new);
    lemma_block_updated(blocks, i, inner);
    let after = with_block(blocks, id, new);
    let old = found_block(blocks, id)->0;
    assert(holdings(after).add(inventory(flatten_block(old))) =~= holdings(blocks).add(
        inventory(flatten_block(new)),
    )) by {
        assert forall|one: BlockView|
            holdings(after).add(inventory(flatten_block(old))).count(one) == holdings(blocks).add(
                inventory(flatten_block(new)),
            ).count(one) by {
            assert(holdings(after).add(inventory(flatten_block(blocks[i]))).count(one) == holdings(
                blocks,
            ).add(inventory(flatten_block(inner))).count(one));
            assert(inventory(flatten_block(inner)).add(inventory(flatten_block(old))).count(one)
                == inventory(flatten_block(blocks[i])).add(inventory(flatten_block(new))).count(
                one,
            ));
        }
    }
}

/// A list with one more block in it.
proof fn lemma_list_inserted(list: Seq<BlockView>, i: int, block: BlockView)
    requires
        0 <= i <= list.len(),
    ensures
        holdings(list.insert(i, block)) == holdings(list).add(inventory(flatten_block(block))),
{
    let after = list.insert(i, block);
    lemma_flatten_split(after, i);
    assert(after.take(i) =~= list.take(i));
    assert(after.skip(i + 1) =~= list.skip(i));
    assert(list =~= list.take(i) + list.skip(i));
    lemma_flatten_add(list.take(i), list.skip(i));
    lemma_inventory_add(flatten(list.take(i)), flatten(list.skip(i)));
    assert(holdings(after) =~= holdings(list).add(inventory(flatten_block(block))));
}

/// A list with one block taken out of it.
pub proof fn lemma_list_removed(list: Seq<BlockView>, i: int)
    requires
        0 <= i < list.len(),
    ensures
        holdings(list.remove(i)).add(inventory(flatten_block(list[i]))) == holdings(list),
{
    lemma_list_inserted(list.remove(i), i, list[i]);
    assert(list.remove(i).insert(i, list[i]) =~= list);
}

/// An inserted block stands where the command put it, with everything that was there before.
pub proof fn insertion_adds_the_block(
    blocks: Seq<BlockView>,
    target: InsertionTargetView,
    block: BlockView,
)
    requires
        inserted(blocks, target, block) is Ok,
        target.index >= 0,
    ensures
        ({
            let after = inserted(blocks, target, block)->Ok_0;
            &&& container(after, target.container) == Some(
                container(blocks, target.container)->0.insert(target.index, block),
            )
            &&& holdings(after) == holdings(blocks).add(inventory(flatten_block(block)))
        }),
{
    let list = container(blocks, target.container)->0;
    let new = list.insert(target.index, block);
    let after = inserted(blocks, target, block)->Ok_0;
    lemma_container_replaced(blocks, target.container, new);
    lemma_list_inserted(list, target.index, block);
    assert(holdings(after) =~= holdings(blocks).add(inventory(flatten_block(block)))) by {
        assert forall|one: BlockView|
            holdings(after).count(one) == holdings(blocks).add(
                inventory(flatten_block(block)),
            ).count(one) by {
            assert(holdings(after).add(holdings(list)).count(one) == holdings(blocks).add(
                holdings(new),
            ).count(one));
        }
    }
}

/// Removing a block takes away the block and everything below it and nothing else; where a loop
/// leaves its contents, those stay.
pub proof fn removal_takes_only_the_block(
    blocks: Seq<BlockView>,
    path: BlockPathView,
    choice: Option<LoopDeletionChoice>,
)
    requires
        removed(blocks, path, choice) is Ok,
    ensures
        ({
            let after = removed(blocks, path, choice)->Ok_0;
            let block = block_at(blocks, path)->Ok_0;
            holdings(after).add(inventory(flatten_block(block))) == if choice == Some(
                LoopDeletionChoice::KeepContents,
            ) {
                holdings(blocks).add(holdings(block.bodies[0].blocks))
            } else {
                holdings(blocks)
            }
        }),
{
    let list = container(blocks, path.container)->0;
    let i = place(blocks, path)->Ok_0;
    let block = list[i];
    let after = removed(blocks, path, choice)->Ok_0;
    lemma_first_index(list, has_id(path.block_id));
    lemma_list_removed(list, i);
    if choice == Some(LoopDeletionChoice::KeepContents) {
        let kept = block.bodies[0].blocks;
        let new = spliced(list, i, kept);
        lemma_container_replaced(blocks, path.container, new);
        lemma_flatten_split(list, i);
        lemma_flatten_add(list.take(i) + kept, list.skip(i + 1));
        lemma_flatten_add(list.take(i), kept);
        lemma_inventory_add(flatten(list.take(i) + kept), flatten(list.skip(i + 1)));
        lemma_inventory_add(flatten(list.take(i)), flatten(kept));
        assert(holdings(after).add(inventory(flatten_block(block))) =~= holdings(blocks).add(
            holdings(kept),
        )) by {
            assert forall|one: BlockView|
                holdings(after).add(inventory(flatten_block(block))).count(one) == holdings(
                    blocks,
                ).add(holdings(kept)).count(one) by {
                assert(holdings(after).add(holdings(list)).count(one) == holdings(blocks).add(
                    holdings(new),
                ).count(one));
            }
        }
    } else {
        let new = list.remove(i);
        lemma_container_replaced(blocks, path.container, new);
        assert(holdings(after).add(inventory(flatten_block(block))) =~= holdings(blocks)) by {
            assert forall|one: BlockView|
                holdings(after).add(inventory(flatten_block(block))).count(one) == holdings(
                    blocks,
                ).count(one) by {
                assert(holdings(after).add(holdings(list)).count(one) == holdings(blocks).add(
                    holdings(new),
                ).count(one));
            }
        }
    }
}

/// Reordering siblings neither loses, adds nor changes a block.
pub proof fn reordering_keeps_every_block(blocks: Seq<BlockView>, path: BlockPathView, to: int)
    requires
        reordered(blocks, path, to) is Ok,
        to >= 0,
    ensures
        holdings(reordered(blocks, path, to)->Ok_0) == holdings(blocks),
{
    let list = container(blocks, path.container)->0;
    lemma_first_index(list, has_id(path.block_id));
    let i = first_index(list, has_id(path.block_id))->0;
    let new = list.remove(i).insert(to, list[i]);
    let after = reordered(blocks, path, to)->Ok_0;
    lemma_list_removed(list, i);
    lemma_list_inserted(list.remove(i), to, list[i]);
    lemma_container_replaced(blocks, path.container, new);
    assert(holdings(after) =~= holdings(blocks)) by {
        assert forall|one: BlockView| holdings(after).count(one) == holdings(blocks).count(one) by {
            assert(holdings(after).add(holdings(list)).count(one) == holdings(blocks).add(
                holdings(new),
            ).count(one));
        }
    }
}

/// Moving a block to another container neither loses, adds nor changes a block.
pub proof fn moving_keeps_every_block(
    blocks: Seq<BlockView>,
    source: BlockPathView,
    target: InsertionTargetView,
)
    requires
        moved(blocks, source, target) is Ok,
        target.index >= 0,
    ensures
        holdings(moved(blocks, source, target)->Ok_0) == holdings(blocks),
{
    let list = container(blocks, source.container)->0;
    lemma_first_index(list, has_id(source.block_id));
    let i = place(blocks, source)->Ok_0;
    let between = with_container(blocks, source.container, list.remove(i));
    let after = moved(blocks, source, target)->Ok_0;
    lemma_list_removed(list, i);
    lemma_container_replaced(blocks, source.container, list.remove(i));
    insertion_adds_the_block(between, target, list[i]);
    assert(holdings(after) =~= holdings(blocks)) by {
        assert forall|one: BlockView| holdings(after).count(one) == holdings(blocks).count(one) by {
            assert(holdings(between).add(holdings(list)).count(one) == holdings(blocks).add(
                holdings(list.remove(i)),
            ).count(one));
        }
    }
}

/// Moving a block between the branches of an IF block neither loses, adds nor changes a block.
pub proof fn transfer_keeps_every_block(
    blocks: Seq<BlockView>,
    if_id: Seq<char>,
    branch: IfBranch,
    block_id: Seq<char>,
    to: int,
)
    requires
        shaped(blocks),
        transferred(blocks, if_id, branch, block_id, to) is Ok,
        to >= 0,
    ensures
        holdings(transferred(blocks, if_id, branch, block_id, to)->Ok_0) == holdings(blocks),
{
    let block = found_block(blocks, if_id)->0;
    let at = lemma_first_where_found(flatten(blocks), has_id(if_id));
    assert(well_shaped(flatten(blocks)[at]));
    let from = if branch is Then {
        0
    } else {
        1int
    };
    let source = block.bodies[from].blocks;
    let target = block.bodies[1 - from].blocks;
    lemma_first_index(source, has_id(block_id));
    let i = first_index(source, has_id(block_id))->0;
    let new = branch_moved(block, branch, block_id, to)->Ok_0;
    let between = with_body(block, from, source.remove(i));
    lemma_body_updated(block, from, source.remove(i));
    lemma_body_updated(between, 1 - from, target.insert(to, source[i]));
    assert(new == with_body(between, 1 - from, target.insert(to, source[i])));
    lemma_list_removed(source, i);
    lemma_list_inserted(target, to, source[i]);
    lemma_block_replaced(blocks, if_id, new);
    let after = transferred(blocks, if_id, branch, block_id, to)->Ok_0;
    assert(holdings(after) =~= holdings(blocks)) by {
        assert forall|one: BlockView| holdings(after).count(one) == holdings(blocks).count(one) by {
            assert(holdings(after).add(inventory(flatten_block(block))).count(one) == holdings(
                blocks,
            ).add(inventory(flatten_block(new))).count(one));
            assert(inventory(flatten_block(between)).add(holdings(source)).count(one) == inventory(
                flatten_block(block),
            ).add(holdings(source.remove(i))).count(one));
            assert(inventory(flatten_block(new)).add(holdings(target)).count(one) == inventory(
                flatten_block(between),
            ).add(holdings(target.insert(to, source[i]))).count(one));
        }
    }
}

/// What stands in bodies is what stands in one of them and in the others.
proof fn lemma_body_removed(bodies: Seq<BodyView>, k: int)
    requires
        0 <= k < bodies.len(),
    ensures
        inventory(flatten_bodies(bodies)) == inventory(flatten_bodies(bodies.remove(k))).add(
            holdings(bodies[k].blocks),
        ),
{
    lemma_bodies_split(bodies, k);
    assert(bodies.remove(k) =~= bodies.take(k) + bodies.skip(k + 1));
    lemma_flatten_bodies_add(bodies.take(k), bodies.skip(k + 1));
    lemma_inventory_add(flatten_bodies(bodies.take(k)), flatten_bodies(bodies.skip(k + 1)));
    assert(inventory(flatten_bodies(bodies)) =~= inventory(flatten_bodies(bodies.remove(k))).add(
        holdings(bodies[k].blocks),
    ));
}

pub proof fn lemma_lane_count(bodies: Seq<BodyView>)
    ensures
        lane_ids(bodies).len() <= bodies.len(),
    decreases bodies.len(),
{
    if bodies.len() > 0 {
        lemma_lane_count(bodies.drop_last());
    }
}

/// Moving a lane puts the lanes of the watch group in another order: every lane keeps what it
/// holds, and every other block stays as it is.
pub proof fn lane_move_only_reorders(
    blocks: Seq<BlockView>,
    group_id: Seq<char>,
    lane_id: Seq<char>,
    to: int,
)
    requires
        lane_moved(blocks, group_id, lane_id, to) is Ok,
        to >= 0,
    ensures
        exists|new: BlockView|
            {
                let group = found_block(blocks, group_id)->0;
                &&& new.id == group.id && new.head == group.head && new.enabled == group.enabled
                &&& new.bodies.to_multiset() == group.bodies.to_multiset()
                &&& #[trigger] with_block(blocks, group_id, new) == lane_moved(
                    blocks,
                    group_id,
                    lane_id,
                    to,
                )->Ok_0
                &&& holdings(with_block(blocks, group_id, new)).add(
                    Multiset::singleton(shell(group)),
                ) == holdings(blocks).add(Multiset::singleton(shell(new)))
            },
{
    broadcast use vstd::seq_lib::group_to_multiset_ensures;

    let group = found_block(blocks, group_id)->0;
    lemma_lane_count(group.bodies);
    lemma_first_index(group.bodies, is_lane(lane_id));
    let from = first_index(group.bodies, is_lane(lane_id))->0;
    let rest = group.bodies.remove(from);
    let new = BlockView { bodies: rest.insert(to, group.bodies[from]), ..group };
    let after = with_block(blocks, group_id, new);
    assert(new.bodies.remove(to) =~= rest);
    lemma_body_removed(group.bodies, from);
    lemma_body_removed(new.bodies, to);
    lemma_inventory_block(group);
    lemma_inventory_block(new);
    lemma_block_replaced(blocks, group_id, new);
    assert(holdings(after).add(Multiset::singleton(shell(group))) =~= holdings(blocks).add(
        Multiset::singleton(shell(new)),
    )) by {
        assert forall|one: BlockView|
            holdings(after).add(Multiset::singleton(shell(group))).count(one) == holdings(
                blocks,
            ).add(Multiset::singleton(shell(new))).count(one) by {
            assert(holdings(after).add(inventory(flatten_block(group))).count(one) == holdings(
                blocks,
            ).add(inventory(flatten_block(new))).count(one));
        }
    }
    assert(new.bodies.to_multiset() =~= group.bodies.to_multiset()) by {
        assert(new.bodies =~= rest.insert(to, group.bodies[from]));
        assert(group.bodies.to_multiset() =~= rest.to_multiset().insert(group.bodies[from]));
    }
}

/// The lanes that a block names do not depend on what they hold.
proof fn lemma_shell_ids(block: BlockView)
    ensures
        own_ids(shell(block)) == own_ids(block),
{
    lemma_shell_lanes(block.bodies, shell(block).bodies);
}

proof fn lemma_shell_lanes(a: Seq<BodyView>, b: Seq<BodyView>)
    requires
        a.len() == b.len(),
        forall|k: int| 0 <= k < a.len() ==> (#[trigger] a[k]).role == b[k].role,
    ensures
        lane_ids(a) == lane_ids(b),
    decreases a.len(),
{
    if a.len() > 0 {
        assert forall|k: int| 0 <= k < a.drop_last().len() implies (
        #[trigger] a.drop_last()[k]).role == b.drop_last()[k].role by {
            assert(a[k].role == b[k].role);
        }
        lemma_shell_lanes(a.drop_last(), b.drop_last());
        assert(a[a.len() - 1].role == b[b.len() - 1].role);
    }
}

proof fn lemma_ids_removed(flat: Seq<BlockView>, j: int)
    requires
        0 <= j < flat.len(),
    ensures
        ids_of(flat).to_multiset() == ids_of(flat.remove(j)).to_multiset().add(
            own_ids(flat[j]).to_multiset(),
        ),
    decreases flat.len(),
{
    let last = own_ids(flat.last());
    vstd::seq_lib::lemma_multiset_commutative(ids_of(flat.drop_last()), last);
    if j < flat.len() - 1 {
        lemma_ids_removed(flat.drop_last(), j);
        let rest = flat.remove(j);
        assert(rest.drop_last() =~= flat.drop_last().remove(j));
        assert(rest.last() == flat.last());
        vstd::seq_lib::lemma_multiset_commutative(ids_of(rest.drop_last()), last);
    } else {
        assert(flat.remove(j) =~= flat.drop_last());
    }
    assert(ids_of(flat).to_multiset() =~= ids_of(flat.remove(j)).to_multiset().add(
        own_ids(flat[j]).to_multiset(),
    ));
}

/// The identities that a flat list brings are a matter of which blocks it holds.
pub proof fn lemma_ids_by_inventory(a: Seq<BlockView>, b: Seq<BlockView>)
    requires
        inventory(a) == inventory(b),
    ensures
        ids_of(a).to_multiset() == ids_of(b).to_multiset(),
    decreases a.len(),
{
    broadcast use vstd::seq_lib::group_to_multiset_ensures;

    let to_shell = |block: BlockView| shell(block);
    let mapped_a = a.map_values(to_shell);
    let mapped_b = b.map_values(to_shell);
    assert(mapped_a.to_multiset().len() == a.len());
    assert(mapped_b.to_multiset().len() == b.len());
    if a.len() == 0 {
        assert(a =~= b);
    } else {
        let one = shell(a.last());
        assert(mapped_a[a.len() - 1] == one);
        assert(mapped_a.contains(one));
        assert(mapped_b.to_multiset().contains(one));
        assert(mapped_b.contains(one));
        let j = choose|j: int| 0 <= j < mapped_b.len() && mapped_b[j] == one;
        lemma_ids_removed(a, a.len() - 1);
        lemma_ids_removed(b, j);
        let rest_a = a.remove(a.len() - 1);
        let rest_b = b.remove(j);
        lemma_inventory_removed(a, a.len() - 1);
        lemma_inventory_removed(b, j);
        assert(inventory(rest_a) =~= inventory(rest_b)) by {
            assert forall|block: BlockView|
                inventory(rest_a).count(block) == inventory(rest_b).count(block) by {
                assert(shell(b[j]) == one);
                assert(inventory(a).count(block) == inventory(rest_a).add(
                    Multiset::singleton(one),
                ).count(block));
                assert(inventory(b).count(block) == inventory(rest_b).add(
                    Multiset::singleton(one),
                ).count(block));
            }
        }
        lemma_ids_by_inventory(rest_a, rest_b);
        lemma_shell_ids(a.last());
        lemma_shell_ids(b[j]);
    }
}

proof fn lemma_inventory_removed(flat: Seq<BlockView>, j: int)
    requires
        0 <= j < flat.len(),
    ensures
        inventory(flat) == inventory(flat.remove(j)).add(Multiset::singleton(shell(flat[j]))),
{
    let one = seq![flat[j]];
    assert(flat =~= flat.take(j) + one + flat.skip(j + 1));
    assert(flat.remove(j) =~= flat.take(j) + flat.skip(j + 1));
    lemma_inventory_add(flat.take(j) + one, flat.skip(j + 1));
    lemma_inventory_add(flat.take(j), one);
    lemma_inventory_add(flat.take(j), flat.skip(j + 1));
    lemma_inventory_one(flat[j]);
    assert(inventory(flat) =~= inventory(flat.remove(j)).add(
        Multiset::singleton(shell(flat[j])),
    ));
}

/// Trees that hold the same blocks name the same identities: where those of one are distinct, so
/// are those of the other.
pub proof fn same_blocks_have_the_same_identities(a: Seq<BlockView>, b: Seq<BlockView>)
    requires
        holdings(a) == holdings(b),
    ensures
        structural_ids(a).to_multiset() == structural_ids(b).to_multiset(),
        structural_ids(a).no_duplicates() ==> structural_ids(b).no_duplicates(),
{
    lemma_ids_by_inventory(flatten(a), flatten(b));
    if structural_ids(a).no_duplicates() {
        structural_ids(a).lemma_multiset_has_no_duplicates();
        structural_ids(b).lemma_multiset_has_no_duplicates_conv();
    }
}

} // verus!
