//! What holds of removed blocks and of copies: a removed identity is gone, a copy's are new.
use crate::container::{container, with_container};
use crate::duplicate::{
    copy_candidate, copy_id, copy_map, copy_used, duplicated, first_free_copy,
    lemma_attempts_bounded, renamed, renamed_all, renamed_id, renamed_role,
};
use crate::editor_types::{BlockPathView, InsertionTargetView, LoopDeletionChoice};
use crate::edits::{block_at, copied, inserted, place, removed};
use crate::identities::{ids_of, lane_ids, own_ids, structural_ids};
use crate::macro_engine::{BlockView, BodyView};
use crate::place_laws::{lemma_container_in_tree, shaped, well_shaped};
use crate::tree::{flatten, flatten_block, flatten_bodies, has_id, lemma_first_index};
use crate::tree_laws::{
    container_reads_back, holdings, insertion_adds_the_block, inventory, lemma_ids_by_inventory, lemma_inventory_add,
    lemma_list_removed, removal_takes_only_the_block,
};
use vstd::prelude::*;

verus! {

pub proof fn lemma_ids_add(left: Seq<BlockView>, right: Seq<BlockView>)
    ensures
        ids_of(left + right) == ids_of(left) + ids_of(right),
    decreases right.len(),
{
    if right.len() == 0 {
        assert(left + right =~= left);
        assert(ids_of(left) + ids_of(right) =~= ids_of(left));
    } else {
        assert((left + right).drop_last() =~= left + right.drop_last());
        lemma_ids_add(left, right.drop_last());
        assert(ids_of(left + right) =~= ids_of(left) + ids_of(right));
    }
}

/// Some proposal for a copy is free.
pub proof fn lemma_some_free(base: Seq<char>, used: Set<Seq<char>>)
    requires
        used.finite(),
    ensures
        exists|n: nat| first_free_copy(base, used, n),
{
    if !(exists|n: nat| first_free_copy(base, used, n)) {
        lemma_all_taken(base, used, used.len() + 1);
        lemma_attempts_bounded(base, used, used.len() + 1);
    }
}

proof fn lemma_all_taken(base: Seq<char>, used: Set<Seq<char>>, n: nat)
    requires
        !(exists|k: nat| first_free_copy(base, used, k)),
    ensures
        forall|m: nat| 1 <= m < n + 1 ==> used.contains(#[trigger] copy_candidate(base, m)),
    decreases n,
{
    if n > 0 {
        lemma_all_taken(base, used, (n - 1) as nat);
        assert(!first_free_copy(base, used, n));
    }
}

/// A copy's identity is not taken.
pub proof fn copy_identity_is_free(base: Seq<char>, used: Set<Seq<char>>)
    requires
        used.finite(),
    ensures
        !used.contains(copy_id(base, used)),
{
    lemma_some_free(base, used);
    let n = choose|n: nat| first_free_copy(base, used, n);
    assert(first_free_copy(base, used, n));
}

pub proof fn lemma_copy_map(ids: Seq<Seq<char>>, used: Set<Seq<char>>)
    requires
        ids.no_duplicates(),
        used.finite(),
    ensures
        copy_used(ids, used).finite(),
        used.subset_of(copy_used(ids, used)),
        forall|i: int| 0 <= i < ids.len() ==> copy_map(ids, used).contains_key(#[trigger] ids[i]),
        forall|i: int|
            0 <= i < ids.len() ==> !used.contains(copy_map(ids, used)[#[trigger] ids[i]]),
        forall|i: int|
            0 <= i < ids.len() ==> copy_used(ids, used).contains(
                copy_map(ids, used)[#[trigger] ids[i]],
            ),
        forall|i: int, j: int|
            0 <= i < j < ids.len() ==> copy_map(ids, used)[#[trigger] ids[i]] != copy_map(
                ids,
                used,
            )[#[trigger] ids[j]],
    decreases ids.len(),
{
    if ids.len() > 0 {
        let rest = ids.drop_last();
        assert forall|i: int, j: int| 0 <= i < rest.len() && 0 <= j < rest.len() && i
            != j implies rest[i] != rest[j] by {
            assert(ids[i] != ids[j]);
        }
        lemma_copy_map(rest, used);
        let taken = copy_used(rest, used);
        let last = ids.last();
        let new = copy_id(last, taken);
        copy_identity_is_free(last, taken);
        let map = copy_map(ids, used);
        assert(map == copy_map(rest, used).insert(last, new));
        assert forall|i: int| 0 <= i < rest.len() implies map[#[trigger] ids[i]] == copy_map(
            rest,
            used,
        )[rest[i]] && map.contains_key(ids[i]) by {
            assert(rest[i] == ids[i]);
            assert(ids[i] != ids[ids.len() - 1]);
        }
        assert forall|i: int, j: int| 0 <= i < j < ids.len() implies map[#[trigger] ids[i]]
            != map[#[trigger] ids[j]] by {
            assert(rest[i] == ids[i]);
            if j < rest.len() {
                assert(rest[j] == ids[j]);
            } else {
                assert(taken.contains(copy_map(rest, used)[rest[i]]));
            }
        }
        assert forall|i: int| 0 <= i < ids.len() implies !used.contains(map[#[trigger] ids[i]])
            && copy_used(ids, used).contains(map[ids[i]]) by {
            if i < rest.len() {
                assert(rest[i] == ids[i]);
            }
        }
    }
}

/// No condition of the block, or below it, has blocks to run after a timeout. Those keep their
/// identities in a copy.
pub open spec fn plain_timeouts(block: BlockView) -> bool {
    flat_plain(flatten_block(block))
}

pub open spec fn flat_plain(flat: Seq<BlockView>) -> bool {
    forall|i: int| 0 <= i < flat.len() ==> own_plain(#[trigger] flat[i])
}

pub open spec fn own_plain(block: BlockView) -> bool {
    block.head is WatchGroup || forall|k: int|
        0 <= k < block.bodies.len() && (#[trigger] block.bodies[k]).role is Timeout
            ==> block.bodies[k].blocks.len() == 0
}

pub proof fn lemma_plain_parts(left: Seq<BlockView>, right: Seq<BlockView>)
    requires
        flat_plain(left + right),
    ensures
        flat_plain(left),
        flat_plain(right),
{
    assert forall|i: int| 0 <= i < left.len() implies own_plain(#[trigger] left[i]) by {
        assert((left + right)[i] == left[i]);
    }
    assert forall|i: int| 0 <= i < right.len() implies own_plain(#[trigger] right[i]) by {
        assert((left + right)[left.len() + i] == right[i]);
    }
}

/// The identities of renamed blocks are the blocks' identities, renamed.
proof fn lemma_renamed_all(blocks: Seq<BlockView>, map: Map<Seq<char>, Seq<char>>)
    requires
        flat_plain(flatten(blocks)),
    ensures
        structural_ids(renamed_all(blocks, map)) == structural_ids(blocks).map_values(
            |id: Seq<char>| renamed_id(id, map),
        ),
    decreases blocks,
{
    let to = |id: Seq<char>| renamed_id(id, map);
    let after = renamed_all(blocks, map);
    if blocks.len() == 0 {
        assert(after =~= Seq::empty());
        assert(structural_ids(after) =~= structural_ids(blocks).map_values(to));
    } else {
        let rest = blocks.drop_last();
        let last = blocks[blocks.len() - 1];
        assert(decreases_to!(blocks => rest));
        assert(decreases_to!(blocks => last));
        lemma_plain_parts(flatten(rest), flatten_block(last));
        lemma_renamed_all(rest, map);
        lemma_renamed(last, map);
        assert(after.drop_last() =~= renamed_all(rest, map));
        assert(after.last() == renamed(last, map));
        lemma_ids_add(flatten(rest), flatten_block(last));
        lemma_ids_add(flatten(after.drop_last()), flatten_block(after.last()));
        assert(structural_ids(after) =~= structural_ids(blocks).map_values(to));
    }
}

proof fn lemma_renamed(block: BlockView, map: Map<Seq<char>, Seq<char>>)
    requires
        plain_timeouts(block),
    ensures
        ids_of(flatten_block(renamed(block, map))) == ids_of(flatten_block(block)).map_values(
            |id: Seq<char>| renamed_id(id, map),
        ),
    decreases block,
{
    let to = |id: Seq<char>| renamed_id(id, map);
    let after = renamed(block, map);
    lemma_plain_parts(seq![block], flatten_bodies(block.bodies));
    assert(own_plain(seq![block][0]));
    assert forall|k: int| 0 <= k < block.bodies.len() implies (#[trigger] after.bodies[k]).role
        == renamed_role(block.bodies[k].role, map) && after.bodies[k].blocks == renamed_all(
        block.bodies[k].blocks,
        map,
    ) by {
        if block.bodies[k].role is Timeout && !(block.head is WatchGroup) {
            assert(block.bodies[k].blocks =~= Seq::empty());
            assert(renamed_all(block.bodies[k].blocks, map) =~= Seq::empty());
        }
    }
    assert(decreases_to!(block => block.bodies));
    lemma_renamed_bodies(block.bodies, after.bodies, map);
    lemma_ids_add(seq![block], flatten_bodies(block.bodies));
    lemma_ids_add(seq![after], flatten_bodies(after.bodies));
    lemma_ids_one(block);
    lemma_ids_one(after);
    assert(own_ids(after) =~= own_ids(block).map_values(to));
    assert(ids_of(flatten_block(after)) =~= ids_of(flatten_block(block)).map_values(to));
}

pub proof fn lemma_ids_one(block: BlockView)
    ensures
        ids_of(seq![block]) == own_ids(block),
{
    assert(seq![block].drop_last() =~= Seq::empty());
    assert(ids_of(seq![block].drop_last()) =~= Seq::empty());
    assert(ids_of(seq![block]) =~= own_ids(block));
}

proof fn lemma_renamed_bodies(
    bodies: Seq<BodyView>,
    after: Seq<BodyView>,
    map: Map<Seq<char>, Seq<char>>,
)
    requires
        after.len() == bodies.len(),
        flat_plain(flatten_bodies(bodies)),
        forall|k: int|
            0 <= k < bodies.len() ==> (#[trigger] after[k]).role == renamed_role(
                bodies[k].role,
                map,
            ) && after[k].blocks == renamed_all(bodies[k].blocks, map),
    ensures
        lane_ids(after) == lane_ids(bodies).map_values(|id: Seq<char>| renamed_id(id, map)),
        ids_of(flatten_bodies(after)) == ids_of(flatten_bodies(bodies)).map_values(
            |id: Seq<char>| renamed_id(id, map),
        ),
    decreases bodies,
{
    let to = |id: Seq<char>| renamed_id(id, map);
    if bodies.len() == 0 {
        assert(lane_ids(after) =~= lane_ids(bodies).map_values(to));
        assert(ids_of(flatten_bodies(after)) =~= ids_of(flatten_bodies(bodies)).map_values(to));
    } else {
        let n = bodies.len() - 1;
        let rest = bodies.drop_last();
        let rest_after = after.drop_last();
        assert(decreases_to!(bodies => rest));
        assert(decreases_to!(bodies => bodies[n].blocks));
        lemma_plain_parts(flatten_bodies(rest), flatten(bodies[n].blocks));
        assert forall|k: int| 0 <= k < rest.len() implies (#[trigger] rest_after[k]).role
            == renamed_role(rest[k].role, map) && rest_after[k].blocks == renamed_all(
            rest[k].blocks,
            map,
        ) by {
            assert(rest_after[k] == after[k]);
        }
        lemma_renamed_bodies(rest, rest_after, map);
        lemma_renamed_all(bodies[n].blocks, map);
        assert(after[n].blocks == renamed_all(bodies[n].blocks, map));
        lemma_ids_add(flatten_bodies(rest), flatten(bodies[n].blocks));
        lemma_ids_add(flatten_bodies(rest_after), flatten(after[n].blocks));
        assert(lane_ids(after) =~= lane_ids(bodies).map_values(to));
        assert(ids_of(flatten_bodies(after)) =~= ids_of(flatten_bodies(bodies)).map_values(to));
    }
}

/// The identities of a copy are distinct and none of them is taken.
pub proof fn copy_has_new_identities(block: BlockView, used: Set<Seq<char>>)
    requires
        used.finite(),
        plain_timeouts(block),
        ids_of(flatten_block(block)).no_duplicates(),
    ensures
        ids_of(flatten_block(duplicated(block, used))).len() == ids_of(flatten_block(block)).len(),
        ids_of(flatten_block(duplicated(block, used))).no_duplicates(),
        forall|id: Seq<char>|
            used.contains(id) ==> !(#[trigger] ids_of(
                flatten_block(duplicated(block, used)),
            ).contains(id)),
{
    let ids = ids_of(flatten_block(block));
    let map = copy_map(ids, used);
    let to = |id: Seq<char>| renamed_id(id, map);
    lemma_copy_map(ids, used);
    lemma_renamed(block, map);
    let new = ids_of(flatten_block(duplicated(block, used)));
    assert forall|i: int| 0 <= i < ids.len() implies #[trigger] new[i] == map[ids[i]] by {
        assert(new[i] == to(ids[i]));
        assert(map.contains_key(ids[i]));
    }
    assert forall|i: int, j: int| 0 <= i < new.len() && 0 <= j < new.len() && i != j implies new[i]
        != new[j] by {
        assert(new[i] == map[ids[i]] && new[j] == map[ids[j]]);
        if i < j {
            assert(map[ids[i]] != map[ids[j]]);
        } else {
            assert(map[ids[j]] != map[ids[i]]);
        }
    }
    assert forall|id: Seq<char>| used.contains(id) implies !(#[trigger] new.contains(id)) by {
        if new.contains(id) {
            let i = new.index_of(id);
            assert(new[i] == map[ids[i]]);
            assert(!used.contains(map[ids[i]]));
        }
    }
}

/// Where the identities of a tree are distinct, so are those of a block in it, and those of the tree
/// without the block.
pub proof fn lemma_removed_distinct(blocks: Seq<BlockView>, path: BlockPathView)
    requires
        structural_ids(blocks).no_duplicates(),
        block_at(blocks, path) is Ok,
    ensures
        ids_of(flatten_block(block_at(blocks, path)->Ok_0)).no_duplicates(),
        ({
            let list = container(blocks, path.container)->0;
            let i = place(blocks, path)->Ok_0;
            structural_ids(
                with_container(blocks, path.container, list.remove(i)),
            ).no_duplicates()
        }),
{
    let list = container(blocks, path.container)->0;
    lemma_first_index(list, has_id(path.block_id));
    let i = place(blocks, path)->Ok_0;
    let block = list[i];
    let rest = with_container(blocks, path.container, list.remove(i));
    container_reads_back(blocks, path.container, list.remove(i));
    lemma_list_removed(list, i);
    let joined = flatten(rest) + flatten_block(block);
    lemma_inventory_add(flatten(rest), flatten_block(block));
    assert(inventory(joined) =~= holdings(blocks)) by {
        assert forall|one: BlockView|
            inventory(joined).count(one) == holdings(blocks).count(one) by {
            assert(holdings(rest).add(holdings(list)).count(one) == holdings(blocks).add(
                holdings(list.remove(i)),
            ).count(one));
        }
    }
    lemma_ids_by_inventory(joined, flatten(blocks));
    lemma_ids_add(flatten(rest), flatten_block(block));
    let a = ids_of(flatten(rest));
    let b = ids_of(flatten_block(block));
    structural_ids(blocks).lemma_multiset_has_no_duplicates();
    (a + b).lemma_multiset_has_no_duplicates_conv();
    assert forall|x: int, y: int| 0 <= x < b.len() && 0 <= y < b.len() && x != y implies b[x]
        != b[y] by {
        assert((a + b)[a.len() + x] == b[x]);
        assert((a + b)[a.len() + y] == b[y]);
    }
    assert forall|x: int, y: int| 0 <= x < a.len() && 0 <= y < a.len() && x != y implies a[x]
        != a[y] by {
        assert((a + b)[x] == a[x]);
        assert((a + b)[y] == a[y]);
    }
}

/// A block with new identities leaves the identities distinct where it is inserted.
pub proof fn lemma_inserted_distinct(
    blocks: Seq<BlockView>,
    target: InsertionTargetView,
    block: BlockView,
)
    requires
        structural_ids(blocks).no_duplicates(),
        ids_of(flatten_block(block)).no_duplicates(),
        forall|id: Seq<char>|
            structural_ids(blocks).contains(id) ==> !(#[trigger] ids_of(
                flatten_block(block),
            ).contains(id)),
        inserted(blocks, target, block) is Ok,
        target.index >= 0,
    ensures
        structural_ids(inserted(blocks, target, block)->Ok_0).no_duplicates(),
{
    let after = inserted(blocks, target, block)->Ok_0;
    let ids = structural_ids(blocks);
    let new = ids_of(flatten_block(block));
    insertion_adds_the_block(blocks, target, block);
    lemma_inventory_add(flatten(blocks), flatten_block(block));
    lemma_ids_by_inventory(flatten(blocks) + flatten_block(block), flatten(after));
    lemma_ids_add(flatten(blocks), flatten_block(block));
    lemma_distinct_together(ids, new);
    (ids + new).lemma_multiset_has_no_duplicates();
    structural_ids(after).lemma_multiset_has_no_duplicates_conv();
}

proof fn lemma_distinct_together(a: Seq<Seq<char>>, b: Seq<Seq<char>>)
    requires
        a.no_duplicates(),
        b.no_duplicates(),
        forall|id: Seq<char>| a.contains(id) ==> !(#[trigger] b.contains(id)),
    ensures
        (a + b).no_duplicates(),
{
    let all = a + b;
    assert forall|i: int, j: int| 0 <= i < j < all.len() implies all[i] != all[j] by {
        if i < a.len() && j >= a.len() {
            assert(a.contains(a[i]));
            assert(b.contains(b[j - a.len()]));
        }
    }
}

/// Duplicating a block of a macro with distinct identities leaves the identities distinct.
pub proof fn duplication_keeps_identities_distinct(
    blocks: Seq<BlockView>,
    source: BlockPathView,
    target: InsertionTargetView,
)
    requires
        structural_ids(blocks).no_duplicates(),
        copied(blocks, source, target) is Ok,
        plain_timeouts(block_at(blocks, source)->Ok_0),
        target.index >= 0,
    ensures
        structural_ids(copied(blocks, source, target)->Ok_0).no_duplicates(),
{
    let block = block_at(blocks, source)->Ok_0;
    let ids = structural_ids(blocks);
    let used = ids.to_set();
    let copy = duplicated(block, used);
    lemma_removed_distinct(blocks, source);
    copy_has_new_identities(block, used);
    assert forall|id: Seq<char>| ids.contains(id) implies !(#[trigger] ids_of(
        flatten_block(copy),
    ).contains(id)) by {
        assert(used.contains(id));
    }
    lemma_inserted_distinct(blocks, target, copy);
}

/// In a macro with distinct identities, a removed block's identity is gone.
pub proof fn removed_identity_is_gone(
    blocks: Seq<BlockView>,
    path: BlockPathView,
    choice: Option<LoopDeletionChoice>,
)
    requires
        shaped(blocks),
        structural_ids(blocks).no_duplicates(),
        removed(blocks, path, choice) is Ok,
    ensures
        !structural_ids(removed(blocks, path, choice)->Ok_0).contains(path.block_id),
{
    broadcast use vstd::seq_lib::group_to_multiset_ensures;

    let id = path.block_id;
    let list = container(blocks, path.container)->0;
    lemma_first_index(list, has_id(id));
    let block = block_at(blocks, path)->Ok_0;
    let after = removed(blocks, path, choice)->Ok_0;
    let keeps = choice == Some(LoopDeletionChoice::KeepContents);
    let kept = if keeps {
        flatten(block.bodies[0].blocks)
    } else {
        Seq::empty()
    };
    removal_takes_only_the_block(blocks, path, choice);
    let left = flatten(after) + flatten_block(block);
    let right = flatten(blocks) + kept;
    lemma_inventory_add(flatten(after), flatten_block(block));
    lemma_inventory_add(flatten(blocks), kept);
    if !keeps {
        assert(right =~= flatten(blocks));
    }
    lemma_ids_by_inventory(left, right);
    lemma_ids_add(flatten(after), flatten_block(block));
    lemma_ids_add(flatten(blocks), kept);
    let a = structural_ids(after);
    let b = ids_of(flatten_block(block));
    let c = structural_ids(blocks);
    let d = ids_of(kept);
    vstd::seq_lib::lemma_multiset_commutative(a, b);
    vstd::seq_lib::lemma_multiset_commutative(c, d);
    lemma_ids_add(seq![block], flatten_bodies(block.bodies));
    lemma_ids_one(block);
    let own = own_ids(block);
    let below = ids_of(flatten_bodies(block.bodies));
    vstd::seq_lib::lemma_multiset_commutative(own, below);
    assert(own[0] == id);
    assert(own.contains(id));
    assert(own.to_multiset().count(id) >= 1);
    c.lemma_multiset_has_no_duplicates();
    assert(c.to_multiset().count(id) <= 1) by {
        if c.to_multiset().contains(id) {
            assert(c.to_multiset().count(id) == 1);
        }
    }
    if keeps {
        lemma_container_in_tree(blocks, path.container, place(blocks, path)->Ok_0);
        let at = flatten(blocks).index_of(block);
        assert(well_shaped(flatten(blocks)[at]));
        lemma_first_body(block, id);
    } else {
        assert(d =~= Seq::empty());
        assert(d.to_multiset().count(id) == 0);
    }
    assert((a + b).to_multiset() == (c + d).to_multiset());
    assert(a.to_multiset().add(b.to_multiset()).count(id) == c.to_multiset().add(
        d.to_multiset(),
    ).count(id));
    assert(a.to_multiset().count(id) + b.to_multiset().count(id) == c.to_multiset().count(id)
        + d.to_multiset().count(id));
    assert(b.to_multiset().count(id) == own.to_multiset().count(id) + below.to_multiset().count(
        id,
    ));
    assert(a.to_multiset().count(id) == 0);
}

/// What the first body of a block names is named below the block.
proof fn lemma_first_body(block: BlockView, id: Seq<char>)
    ensures
        block.bodies.len() > 0 ==> ids_of(flatten(block.bodies[0].blocks)).to_multiset().count(id)
            <= ids_of(flatten_bodies(block.bodies)).to_multiset().count(id),
{
    if block.bodies.len() > 0 {
        let first = seq![block.bodies[0]];
        let rest = block.bodies.skip(1);
        assert(block.bodies =~= first + rest);
        crate::tree::lemma_flatten_bodies_add(first, rest);
        assert(flatten_bodies(first) =~= flatten(block.bodies[0].blocks)) by {
            assert(first.drop_last() =~= Seq::empty());
            assert(flatten_bodies(first.drop_last()) =~= Seq::empty());
        }
        lemma_ids_add(flatten_bodies(first), flatten_bodies(rest));
        vstd::seq_lib::lemma_multiset_commutative(
            ids_of(flatten_bodies(first)),
            ids_of(flatten_bodies(rest)),
        );
    }
}

} // verus!
