//! What holds of a block that is put somewhere: it stands where it was put.
use crate::canvas_model::{connection, port_container, port_owner, port_target, PortView};
use crate::command_view::CommandView;
use crate::commands::edited;
use crate::connection_laws::{
    connections_are_moves, lemma_connection_leads_outside, lemma_containers_stay,
};
use crate::container::{container, with_container};
use crate::copy_laws::lemma_ids_add;
use crate::draft::{applied, edit_applied, snapshot, EditorDraftView};
use crate::editor_types::{BlockPathView, EditOutcome, EditorErrorView, InsertionTargetView};
use crate::edits::{block_at, inserted, moved, place};
use crate::identities::{ids_of, lemma_first_repeat_none, structural_ids};
use crate::macro_engine::BlockView;
use crate::place_laws::{
    lemma_container_in_tree, lemma_own_listed, located_block_reads_back, only_located_paths_read,
    same_name, shaped, well_shaped,
};
use crate::places::{lanes_of, located, sibling_at};
use crate::tree::{
    first_index, flatten, flatten_block, has_id, lemma_first_index, lemma_is_first_index,
};
use crate::tree_laws::{
    container_reads_back, insertion_adds_the_block, inventory, lemma_ids_by_inventory,
    lemma_inventory_add, same_blocks_have_the_same_identities, shell,
};
use vstd::prelude::*;

verus! {

/// Whether a block is well shaped is a matter of what it is by itself.
proof fn lemma_shape_of_shell(a: BlockView, b: BlockView)
    requires
        shell(a) == shell(b),
        well_shaped(a),
    ensures
        well_shaped(b),
{
    let x = shell(a).bodies;
    let y = shell(b).bodies;
    assert(x.len() == a.bodies.len() && y.len() == b.bodies.len());
    assert forall|k: int| 0 <= k < a.bodies.len() implies (#[trigger] a.bodies[k]).role
        == b.bodies[k].role by {
        assert(x[k].role == y[k].role);
    }
    assert(shell(a).head == a.head && shell(b).head == b.head);
    if a.bodies.len() == 0 {
        assert(a.bodies =~= b.bodies);
    }
    assert(lanes_of(a).len() == lanes_of(b).len());
    assert forall|j: int, k: int|
        0 <= j < k < b.bodies.len() && !((#[trigger] b.bodies[j]).role is Lane) implies !same_name(
        b.bodies[j].role,
        (#[trigger] b.bodies[k]).role,
    ) by {
        assert(a.bodies[j].role == b.bodies[j].role);
        assert(a.bodies[k].role == b.bodies[k].role);
    }
    assert forall|k: int| 0 <= k < lanes_of(b).len() implies (#[trigger] lanes_of(b)[k]).role is Lane by {
        assert(lanes_of(a)[k].role is Lane);
        assert(a.bodies[k].role == b.bodies[k].role);
    }
    if b.bodies.len() > 0 {
        assert(a.bodies[0].role == b.bodies[0].role);
    }
    if b.bodies.len() > 1 {
        assert(a.bodies[1].role == b.bodies[1].role);
    }
}

/// Whether the blocks of a flat list are well shaped is a matter of which blocks it holds.
proof fn lemma_shape_of_inventory(a: Seq<BlockView>, b: Seq<BlockView>)
    requires
        inventory(a) == inventory(b),
        forall|i: int| 0 <= i < a.len() ==> well_shaped(#[trigger] a[i]),
    ensures
        forall|i: int| 0 <= i < b.len() ==> well_shaped(#[trigger] b[i]),
{
    broadcast use vstd::seq_lib::group_to_multiset_ensures;

    let to_shell = |block: BlockView| shell(block);
    let mapped_a = a.map_values(to_shell);
    let mapped_b = b.map_values(to_shell);
    assert forall|i: int| 0 <= i < b.len() implies well_shaped(#[trigger] b[i]) by {
        assert(mapped_b[i] == shell(b[i]));
        assert(mapped_b.contains(shell(b[i])));
        assert(mapped_a.to_multiset().contains(shell(b[i])));
        assert(mapped_a.contains(shell(b[i])));
        let j = choose|j: int| 0 <= j < mapped_a.len() && mapped_a[j] == shell(b[i]);
        assert(shell(a[j]) == shell(b[i]));
        lemma_shape_of_shell(a[j], b[i]);
    }
}

/// Where the identities are distinct afterwards, a block that was inserted is the one of its
/// identity.
proof fn lemma_inserted_found(
    blocks: Seq<BlockView>,
    target: InsertionTargetView,
    block: BlockView,
)
    requires
        inserted(blocks, target, block) is Ok,
        target.index >= 0,
        shaped(inserted(blocks, target, block)->Ok_0),
        structural_ids(inserted(blocks, target, block)->Ok_0).no_duplicates(),
    ensures
        ({
            let after = inserted(blocks, target, block)->Ok_0;
            let path = BlockPathView { container: target.container, block_id: block.id };
            let n = container(blocks, target.container)->0.len() as int;
            &&& located(after, block.id) == Some(path)
            &&& block_at(after, path) == Ok::<_, EditorErrorView>(block)
            &&& sibling_at(after, path) == Some((target.index, n + 1))
        }),
{
    broadcast use vstd::seq_lib::group_to_multiset_ensures;

    let after = inserted(blocks, target, block)->Ok_0;
    let path = BlockPathView { container: target.container, block_id: block.id };
    let list = container(blocks, target.container)->0;
    let new = list.insert(target.index, block);
    let flat = flatten(blocks);
    let sub = flatten_block(block);
    insertion_adds_the_block(blocks, target, block);
    lemma_inventory_add(flat, sub);
    lemma_ids_by_inventory(flat + sub, flatten(after));
    lemma_ids_add(flat, sub);
    vstd::seq_lib::lemma_multiset_commutative(ids_of(flat), ids_of(sub));
    structural_ids(after).lemma_multiset_has_no_duplicates();
    assert(sub[0] == block);
    lemma_own_listed(sub, 0);
    assert forall|j: int| 0 <= j < list.len() implies (#[trigger] list[j]).id != block.id by {
        if list[j].id == block.id {
            lemma_container_in_tree(blocks, target.container, j);
            let x = flat.index_of(list[j]);
            lemma_own_listed(flat, x);
            let all = structural_ids(after).to_multiset();
            assert(ids_of(flat).to_multiset().count(block.id) > 0);
            assert(ids_of(sub).to_multiset().count(block.id) > 0);
            assert(all.count(block.id) >= 2);
            assert(all.contains(block.id));
        }
    }
    assert(new[target.index] == block);
    assert forall|j: int| 0 <= j < target.index implies !has_id(block.id)(#[trigger] new[j]) by {
        assert(new[j] == list[j]);
    }
    lemma_is_first_index(new, has_id(block.id), target.index);
    assert(block_at(after, path) == Ok::<_, EditorErrorView>(block));
    only_located_paths_read(after, path);
}

/// A block is put into a container that there is, at an index that is not behind its end, and is
/// refused otherwise. It is then found at the place it was put to, among one sibling more, unless
/// an identity would occur twice.
pub proof fn inserted_block_stands_at_its_target(
    blocks: Seq<BlockView>,
    target: InsertionTargetView,
    block: BlockView,
)
    requires
        shaped(blocks),
        shaped(seq![block]),
        target.index >= 0,
    ensures
        match container(blocks, target.container) {
            None => inserted(blocks, target, block) == Err::<Seq<BlockView>, _>(
                EditorErrorView::MissingContainer,
            ),
            Some(list) => if target.index > list.len() {
                inserted(blocks, target, block) == Err::<Seq<BlockView>, _>(
                    EditorErrorView::InvalidIndex,
                )
            } else {
                inserted(blocks, target, block) matches Ok(after) && shaped(after) && (
                structural_ids(after).no_duplicates() ==> {
                    let path = BlockPathView { container: target.container, block_id: block.id };
                    &&& located(after, block.id) == Some(path)
                    &&& block_at(after, path) == Ok::<_, EditorErrorView>(block)
                    &&& sibling_at(after, path) == Some((target.index, list.len() as int + 1))
                })
            },
        },
{
    if inserted(blocks, target, block) is Ok {
        let after = inserted(blocks, target, block)->Ok_0;
        let flat = flatten(blocks);
        let sub = flatten_block(block);
        insertion_adds_the_block(blocks, target, block);
        lemma_inventory_add(flat, sub);
        assert(flatten(seq![block]) =~= sub) by {
            assert(seq![block].drop_last() =~= Seq::empty());
            assert(flatten(seq![block].drop_last()) =~= Seq::empty());
        }
        assert forall|i: int| 0 <= i < (flat + sub).len() implies well_shaped(
            #[trigger] (flat + sub)[i],
        ) by {
            if i < flat.len() {
                assert(well_shaped(flat[i]));
            } else {
                assert(well_shaped(flatten(seq![block])[i - flat.len()]));
            }
        }
        lemma_shape_of_inventory(flat + sub, flatten(after));
        if structural_ids(after).no_duplicates() {
            lemma_inserted_found(blocks, target, block);
        }
    }
}

/// The command that inserts a block does so in a draft that may be edited: it is refused where there
/// is no such container or no such index, and where it is accepted the block is found again at its
/// place.
pub proof fn insertion_into_a_draft_is_found_again(
    draft: EditorDraftView,
    target: InsertionTargetView,
    block: BlockView,
)
    requires
        draft.editability is Editable,
        shaped(draft.definition.blocks),
        structural_ids(draft.definition.blocks).no_duplicates(),
        shaped(seq![block]),
        target.index >= 0,
    ensures
        ({
            let (after, answer) = applied(draft, CommandView::InsertBlock { target, block });
            let blocks = after.definition.blocks;
            let path = BlockPathView { container: target.container, block_id: block.id };
            match container(draft.definition.blocks, target.container) {
                None => answer == Err::<EditOutcome, _>(EditorErrorView::MissingContainer),
                Some(list) => if target.index > list.len() {
                    answer == Err::<EditOutcome, _>(EditorErrorView::InvalidIndex)
                } else {
                    answer is Ok ==> {
                        &&& located(blocks, block.id) == Some(path)
                        &&& block_at(blocks, path) == Ok::<_, EditorErrorView>(block)
                        &&& sibling_at(blocks, path) == Some((target.index, list.len() as int + 1))
                    }
                },
            }
        }),
{
    let blocks = draft.definition.blocks;
    let command = CommandView::InsertBlock { target, block };
    let result = edited(snapshot(draft), command);
    lemma_first_repeat_none(structural_ids(blocks));
    inserted_block_stands_at_its_target(blocks, target, block);
    assert(applied(draft, command) == edit_applied(draft, result));
    if inserted(blocks, target, block) is Ok {
        let next = inserted(blocks, target, block)->Ok_0;
        lemma_first_repeat_none(structural_ids(next));
        insertion_adds_the_block(blocks, target, block);
        assert(result->Ok_0.definition.blocks == next);
        assert(next != blocks);
    }
}

/// What a connection moves stands afterwards where the port leads: right behind the port's owner,
/// which stays where it was, or at the end of the body that the port leads into. The index that
/// the block goes to is the one that the port gives, or the one before it where the block leaves
/// an earlier place of the same container.
pub proof fn connected_block_stands_where_the_port_leads(
    blocks: Seq<BlockView>,
    port: PortView,
    target: Seq<char>,
)
    requires
        shaped(blocks),
        structural_ids(blocks).no_duplicates(),
        connection(blocks, port, target) is Ok,
    ensures
        ({
            let (source, to) = connection(blocks, port, target)->Ok_0;
            let given = port_target(blocks, port)->Ok_0;
            let next = moved(blocks, source, to)->Ok_0;
            let path = BlockPathView { container: to.container, block_id: target };
            let owner = located(blocks, port_owner(port))->0;
            let n = container(next, to.container)->0.len() as int;
            &&& to.container == given.container
            &&& to.index == (if source.container == to.container && place(blocks, source)->Ok_0
                < given.index {
                given.index - 1
            } else {
                given.index
            })
            &&& moved(blocks, source, to) is Ok
            &&& located(next, target) == Some(path)
            &&& block_at(next, path) == block_at(blocks, source)
            &&& sibling_at(next, path) == Some((to.index, n))
            &&& match port_container(port) {
                Some(inside) => to.container == inside && to.index == n - 1,
                None => to.container == owner.container && located(next, port_owner(port)) == Some(
                    owner,
                ) && sibling_at(next, owner) == Some((to.index - 1, n)),
            }
        }),
{
    let (source, to) = connection(blocks, port, target)->Ok_0;
    let given = port_target(blocks, port)->Ok_0;
    let anchor_id = port_owner(port);
    let owner = located(blocks, anchor_id)->0;
    connections_are_moves(blocks, port, target);
    lemma_connection_leads_outside(blocks, port, target);
    located_block_reads_back(blocks, target);
    located_block_reads_back(blocks, anchor_id);
    let next = moved(blocks, source, to)->Ok_0;
    let list = container(blocks, source.container)->0;
    lemma_first_index(list, has_id(source.block_id));
    let i = place(blocks, source)->Ok_0;
    let moving = list[i];
    let left = with_container(blocks, source.container, list.remove(i));
    container_reads_back(blocks, source.container, list.remove(i));
    let whole = container(blocks, to.container)->0;
    let rest = container(left, to.container)->0;
    if to.container != source.container {
        lemma_containers_stay(blocks, source, to.container);
    }
    assert(next == inserted(left, to, moving)->Ok_0);
    insertion_adds_the_block(left, to, moving);
    same_blocks_have_the_same_identities(blocks, next);
    lemma_shape_of_inventory(flatten(blocks), flatten(next));
    lemma_inserted_found(left, to, moving);
    if port_container(port) is None {
        let around = container(blocks, owner.container)->0;
        lemma_first_index(around, has_id(anchor_id));
        let a = first_index(around, has_id(anchor_id))->0;
        let new = rest.insert(to.index, moving);
        let at = to.index - 1;
        assert(new[at].id == anchor_id) by {
            assert(new[at] == rest[at]);
            if to.container != source.container {
                assert(rest[at].id == around[at].id);
            }
        }
        assert forall|j: int| 0 <= j < at implies !has_id(anchor_id)(#[trigger] new[j]) by {
            assert(new[j] == rest[j]);
            if to.container != source.container {
                assert(rest[j].id == around[j].id);
                assert(!has_id(anchor_id)(around[j]));
            } else {
                assert(!has_id(anchor_id)(around[j]));
                assert(!has_id(anchor_id)(around[j + 1]) || j + 1 >= a);
            }
        }
        lemma_is_first_index(new, has_id(anchor_id), at);
        only_located_paths_read(next, owner);
    }
}

} // verus!
