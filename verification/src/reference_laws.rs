//! What holds of the names inside a copy: they lead to the copy's own blocks.
use crate::container::container;
use crate::copy_laws::{
    flat_plain, lemma_copy_map, lemma_ids_add, lemma_ids_one, lemma_plain_parts, lemma_some_free,
    own_plain, plain_timeouts,
};
use crate::duplicate::{
    copy_candidate, copy_id, copy_map, copy_used, duplicated, first_free_copy,
    lemma_first_free_unique, renamed, renamed_all, renamed_head, renamed_id, renamed_role,
};
use crate::editor_types::{BlockPathView, InsertionTargetView};
use crate::edits::{block_at, copied};
use crate::identities::{ids_of, own_ids, structural_ids};
use crate::macro_engine::{
    ActionTargetView, ActionView, BlockView, BodyView, ConditionView, HeadView, PassiveView,
    RoleView,
};
use crate::tree::{flatten, flatten_block, flatten_bodies};
use crate::tree_laws::{holdings, insertion_adds_the_block, inventory};
use vstd::prelude::*;

verus! {

/// The source that a block itself names: that of its condition, or the one whose match its action
/// uses.
pub open spec fn head_source(head: HeadView) -> Option<Seq<char>> {
    match head {
        HeadView::Observe { condition } => Some(condition.source),
        HeadView::If { condition } => Some(condition.source),
        HeadView::RepeatUntil { condition, .. } => Some(condition.source),
        HeadView::Action { action: ActionView::ClickTextMatch { source, .. } } => Some(source),
        HeadView::Action { action: ActionView::ClickImageMatch { source, .. } } => Some(source),
        HeadView::Action {
            action: ActionView::MoveOnly { target: ActionTargetView::TextMatch { source } },
        } => Some(source),
        HeadView::Action {
            action: ActionView::MoveOnly { target: ActionTargetView::ImageMatch { source } },
        } => Some(source),
        _ => None,
    }
}

/// The source that a lane watches.
pub open spec fn lane_source(role: RoleView) -> Option<Seq<char>> {
    match role {
        RoleView::Lane { condition, .. } => Some(condition.source),
        _ => None,
    }
}

/// The name of a lane.
pub open spec fn lane_name(role: RoleView) -> Option<Seq<char>> {
    match role {
        RoleView::Lane { id, .. } => Some(id),
        _ => None,
    }
}

/// What a block is, with another source in the place of the one it names.
pub open spec fn with_source(head: HeadView, source: Seq<char>) -> HeadView {
    match head {
        HeadView::Observe { condition } => HeadView::Observe {
            condition: ConditionView { source, ..condition },
        },
        HeadView::If { condition } => HeadView::If {
            condition: ConditionView { source, ..condition },
        },
        HeadView::RepeatUntil { condition, max_iterations } => HeadView::RepeatUntil {
            condition: ConditionView { source, ..condition },
            max_iterations,
        },
        HeadView::Action { action: ActionView::ClickTextMatch { button, .. } } => HeadView::Action {
            action: ActionView::ClickTextMatch { source, button },
        },
        HeadView::Action { action: ActionView::ClickImageMatch { button, .. } } => {
            HeadView::Action { action: ActionView::ClickImageMatch { source, button } }
        },
        HeadView::Action {
            action: ActionView::MoveOnly { target: ActionTargetView::TextMatch { .. } },
        } => HeadView::Action {
            action: ActionView::MoveOnly { target: ActionTargetView::TextMatch { source } },
        },
        HeadView::Action {
            action: ActionView::MoveOnly { target: ActionTargetView::ImageMatch { .. } },
        } => HeadView::Action {
            action: ActionView::MoveOnly { target: ActionTargetView::ImageMatch { source } },
        },
        _ => head,
    }
}

/// Two roles are the same but for the names of a lane and of what it watches.
pub open spec fn same_but_names(one: RoleView, other: RoleView) -> bool {
    match (one, other) {
        (
            RoleView::Lane { enabled, condition, .. },
            RoleView::Lane { enabled: on, condition: watched, .. },
        ) => enabled == on && watched == (PassiveView { source: watched.source, ..condition }),
        (RoleView::Lane { .. }, _) => false,
        _ => one == other,
    }
}

/// A block does what another one does: it is the same by itself, but for its name, the source it
/// names, and the names of its lanes and of what they watch.
pub open spec fn does_the_same(one: BlockView, other: BlockView) -> bool {
    &&& other.enabled == one.enabled
    &&& (head_source(one.head) is Some) == (head_source(other.head) is Some)
    &&& with_source(other.head, Seq::empty()) == with_source(one.head, Seq::empty())
    &&& other.bodies.len() == one.bodies.len()
    &&& forall|k: int|
        0 <= k < one.bodies.len() ==> same_but_names(
            one.bodies[k].role,
            (#[trigger] other.bodies[k]).role,
        )
}

/// A name in a copied tree stands for the same as a name in the original, where both are walked side
/// by side: for the block, or the lane, at the same place, if the original's is there; and else for
/// the very same.
pub open spec fn stands_for_the_same(
    from: Seq<BlockView>,
    to: Seq<BlockView>,
    name: Seq<char>,
    other: Seq<char>,
) -> bool {
    &&& forall|j: int| 0 <= j < from.len() && (#[trigger] from[j]).id == name ==> other == to[j].id
    &&& forall|j: int, k: int|
        0 <= j < from.len() && 0 <= k < from[j].bodies.len() && lane_name(
            (#[trigger] from[j].bodies[k]).role,
        ) == Some(name) ==> lane_name(to[j].bodies[k].role) == Some(other)
    &&& !ids_of(from).contains(name) ==> other == name
}

/// A block is another one renamed, whatever stands below it.
spec fn follows(one: BlockView, other: BlockView, map: Map<Seq<char>, Seq<char>>) -> bool {
    &&& other.id == renamed_id(one.id, map)
    &&& other.enabled == one.enabled
    &&& other.head == renamed_head(one.head, map)
    &&& other.bodies.len() == one.bodies.len()
    &&& forall|k: int|
        0 <= k < one.bodies.len() ==> (#[trigger] other.bodies[k]).role == renamed_role(
            one.bodies[k].role,
            map,
        )
}

spec fn all_follow(a: Seq<BlockView>, b: Seq<BlockView>, map: Map<Seq<char>, Seq<char>>) -> bool {
    b.len() == a.len() && forall|i: int| 0 <= i < a.len() ==> follows(a[i], #[trigger] b[i], map)
}

proof fn lemma_follow_joined(
    a: Seq<BlockView>,
    b: Seq<BlockView>,
    x: Seq<BlockView>,
    y: Seq<BlockView>,
    map: Map<Seq<char>, Seq<char>>,
)
    requires
        all_follow(a, b, map),
        all_follow(x, y, map),
    ensures
        all_follow(a + x, b + y, map),
{
    assert forall|i: int| 0 <= i < (a + x).len() implies follows(
        (a + x)[i],
        #[trigger] (b + y)[i],
        map,
    ) by {
        if i < a.len() {
            assert(follows(a[i], b[i], map));
        } else {
            assert(follows(x[i - a.len()], y[i - a.len()], map));
        }
    }
}

proof fn lemma_all_follow(blocks: Seq<BlockView>, map: Map<Seq<char>, Seq<char>>)
    requires
        flat_plain(flatten(blocks)),
    ensures
        all_follow(flatten(blocks), flatten(renamed_all(blocks, map)), map),
    decreases blocks,
{
    let after = renamed_all(blocks, map);
    if blocks.len() > 0 {
        let rest = blocks.drop_last();
        let last = blocks[blocks.len() - 1];
        assert(decreases_to!(blocks => rest));
        assert(decreases_to!(blocks => last));
        lemma_plain_parts(flatten(rest), flatten_block(last));
        lemma_all_follow(rest, map);
        lemma_block_follows(last, map);
        assert(after.drop_last() =~= renamed_all(rest, map));
        assert(after.last() == renamed(last, map));
        lemma_follow_joined(
            flatten(rest),
            flatten(renamed_all(rest, map)),
            flatten_block(last),
            flatten_block(renamed(last, map)),
            map,
        );
    }
}

proof fn lemma_block_follows(block: BlockView, map: Map<Seq<char>, Seq<char>>)
    requires
        plain_timeouts(block),
    ensures
        all_follow(flatten_block(block), flatten_block(renamed(block, map)), map),
    decreases block,
{
    let after = renamed(block, map);
    lemma_plain_parts(seq![block], flatten_bodies(block.bodies));
    assert(own_plain(seq![block][0]));
    assert forall|k: int| 0 <= k < block.bodies.len() implies (#[trigger] after.bodies[k]).role
        == renamed_role(block.bodies[k].role, map) && after.bodies[k].blocks == renamed_all(
        block.bodies[k].blocks,
        map,
    ) by {
        if block.bodies[k].role is Timeout && !(block.head is WatchGroup) {
            assert(block.bodies[k].blocks =~= Seq::empty());
            assert(renamed_all(block.bodies[k].blocks, map) =~= Seq::empty());
        }
    }
    assert(decreases_to!(block => block.bodies));
    lemma_bodies_follow(block.bodies, after.bodies, map);
    assert(follows(block, after, map));
    lemma_follow_joined(
        seq![block],
        seq![after],
        flatten_bodies(block.bodies),
        flatten_bodies(after.bodies),
        map,
    );
}

proof fn lemma_bodies_follow(
    bodies: Seq<BodyView>,
    after: Seq<BodyView>,
    map: Map<Seq<char>, Seq<char>>,
)
    requires
        after.len() == bodies.len(),
        flat_plain(flatten_bodies(bodies)),
        forall|k: int|
            0 <= k < bodies.len() ==> (#[trigger] after[k]).blocks == renamed_all(
                bodies[k].blocks,
                map,
            ),
    ensures
        all_follow(flatten_bodies(bodies), flatten_bodies(after), map),
    decreases bodies,
{
    if bodies.len() > 0 {
        let n = bodies.len() - 1;
        let rest = bodies.drop_last();
        let rest_after = after.drop_last();
        assert(decreases_to!(bodies => rest));
        assert(decreases_to!(bodies => bodies[n].blocks));
        lemma_plain_parts(flatten_bodies(rest), flatten(bodies[n].blocks));
        assert forall|k: int| 0 <= k < rest.len() implies (#[trigger] rest_after[k]).blocks
            == renamed_all(rest[k].blocks, map) by {
            assert(rest_after[k] == after[k]);
        }
        lemma_bodies_follow(rest, rest_after, map);
        lemma_all_follow(bodies[n].blocks, map);
        assert(after[n].blocks == renamed_all(bodies[n].blocks, map));
        lemma_follow_joined(
            flatten_bodies(rest),
            flatten_bodies(rest_after),
            flatten(bodies[n].blocks),
            flatten(after[n].blocks),
            map,
        );
    }
}

/// A renamed name stands for the same.
proof fn lemma_renamed_stands(
    from: Seq<BlockView>,
    to: Seq<BlockView>,
    used: Set<Seq<char>>,
    name: Seq<char>,
)
    requires
        ids_of(from).no_duplicates(),
        used.finite(),
        all_follow(from, to, copy_map(ids_of(from), used)),
    ensures
        stands_for_the_same(from, to, name, renamed_id(name, copy_map(ids_of(from), used))),
        ids_of(from).contains(name) ==> !used.contains(
            renamed_id(name, copy_map(ids_of(from), used)),
        ),
{
    let ids = ids_of(from);
    let map = copy_map(ids, used);
    let other = renamed_id(name, map);
    lemma_copy_map(ids, used);
    lemma_map_keys(ids, used);
    assert forall|j: int| 0 <= j < from.len() && (#[trigger] from[j]).id == name implies other
        == to[j].id by {
        assert(follows(from[j], to[j], map));
    }
    assert forall|j: int, k: int|
        0 <= j < from.len() && 0 <= k < from[j].bodies.len() && lane_name(
            (#[trigger] from[j].bodies[k]).role,
        ) == Some(name) implies lane_name(to[j].bodies[k].role) == Some(other) by {
        assert(follows(from[j], to[j], map));
        assert(to[j].bodies[k].role == renamed_role(from[j].bodies[k].role, map));
    }
    if ids.contains(name) {
        let i = ids.index_of(name);
        assert(map.contains_key(ids[i]));
        assert(!used.contains(map[ids[i]]));
    }
}

/// The map of a copy names nothing but what is copied.
proof fn lemma_map_keys(ids: Seq<Seq<char>>, used: Set<Seq<char>>)
    ensures
        forall|id: Seq<char>| #[trigger] copy_map(ids, used).contains_key(id) ==> ids.contains(id),
    decreases ids.len(),
{
    if ids.len() > 0 {
        lemma_map_keys(ids.drop_last(), used);
        assert forall|id: Seq<char>| #[trigger]
            copy_map(ids, used).contains_key(id) implies ids.contains(id) by {
            if id == ids.last() {
                assert(ids[ids.len() - 1] == id);
            } else {
                let i = ids.drop_last().index_of(id);
                assert(copy_map(ids.drop_last(), used).contains_key(id));
                assert(ids[i] == id);
            }
        }
    }
}

/// A source of a copy's block is where it should be: it stands for what the original's source stands
/// for, and is no name of the original's tree.
pub open spec fn leads_to_the_copy(
    from: Seq<BlockView>,
    to: Seq<BlockView>,
    source: Option<Seq<char>>,
    other: Option<Seq<char>>,
) -> bool {
    match (source, other) {
        (Some(name), Some(copy)) => stands_for_the_same(from, to, name, copy) && !ids_of(
            from,
        ).contains(copy),
        (None, None) => true,
        _ => false,
    }
}

/// A copy does what its original does, block by block in the walk of both. What a condition, a lane
/// or an action of the original observes inside the copied tree, the copy observes at the same place
/// of its own tree; what stands outside, both observe. No name in the copy leads into the original.
pub proof fn copy_observes_for_itself(block: BlockView, used: Set<Seq<char>>)
    requires
        used.finite(),
        plain_timeouts(block),
        ids_of(flatten_block(block)).no_duplicates(),
        ids_of(flatten_block(block)).to_set().subset_of(used),
    ensures
        ({
            let from = flatten_block(block);
            let to = flatten_block(duplicated(block, used));
            &&& to.len() == from.len()
            &&& forall|i: int|
                0 <= i < from.len() ==> does_the_same(from[i], #[trigger] to[i])
                    && leads_to_the_copy(
                    from,
                    to,
                    head_source(from[i].head),
                    head_source(to[i].head),
                )
            &&& forall|i: int, k: int|
                0 <= i < from.len() && 0 <= k < from[i].bodies.len() ==> leads_to_the_copy(
                    from,
                    to,
                    lane_source(from[i].bodies[k].role),
                    lane_source((#[trigger] to[i].bodies[k]).role),
                )
        }),
{
    let from = flatten_block(block);
    let to = flatten_block(duplicated(block, used));
    let map = copy_map(ids_of(from), used);
    lemma_block_follows(block, map);
    assert forall|i: int| 0 <= i < from.len() implies does_the_same(from[i], #[trigger] to[i])
        && leads_to_the_copy(
        from,
        to,
        head_source(from[i].head),
        head_source(to[i].head),
    ) by {
        assert(follows(from[i], to[i], map));
        if let Some(name) = head_source(from[i].head) {
            lemma_renamed_stands(from, to, used, name);
            assert(head_source(to[i].head) == Some(renamed_id(name, map)));
            lemma_not_original(ids_of(from), used, name);
        }
        assert forall|k: int| 0 <= k < from[i].bodies.len() implies same_but_names(
            from[i].bodies[k].role,
            (#[trigger] to[i].bodies[k]).role,
        ) by {
            assert(to[i].bodies[k].role == renamed_role(from[i].bodies[k].role, map));
        }
    }
    assert forall|i: int, k: int|
        0 <= i < from.len() && 0 <= k < from[i].bodies.len() implies leads_to_the_copy(
        from,
        to,
        lane_source(from[i].bodies[k].role),
        lane_source((#[trigger] to[i].bodies[k]).role),
    ) by {
        assert(follows(from[i], to[i], map));
        assert(to[i].bodies[k].role == renamed_role(from[i].bodies[k].role, map));
        if let Some(name) = lane_source(from[i].bodies[k].role) {
            lemma_renamed_stands(from, to, used, name);
            lemma_not_original(ids_of(from), used, name);
        }
    }
}

proof fn lemma_not_original(ids: Seq<Seq<char>>, used: Set<Seq<char>>, name: Seq<char>)
    requires
        ids.no_duplicates(),
        used.finite(),
        ids.to_set().subset_of(used),
    ensures
        !ids.contains(renamed_id(name, copy_map(ids, used))),
{
    let map = copy_map(ids, used);
    let other = renamed_id(name, map);
    lemma_copy_map(ids, used);
    lemma_map_keys(ids, used);
    if ids.contains(other) {
        assert(ids.to_set().contains(other));
        assert(used.contains(other));
        if map.contains_key(name) {
            let i = ids.index_of(name);
            assert(!used.contains(map[ids[i]]));
        }
    }
}

/// A copy is named after its original, with "-copy" behind it where that is not taken.
pub proof fn copy_is_named_after_its_original(block: BlockView, used: Set<Seq<char>>)
    requires
        used.finite(),
        ids_of(flatten_block(block)).no_duplicates(),
        !used.contains(block.id + "-copy"@),
    ensures
        duplicated(block, used).id == block.id + "-copy"@,
{
    let ids = ids_of(flatten_block(block));
    let id = block.id;
    lemma_first_id(block);
    lemma_first_named(ids, used);
    assert(first_free_copy(id, used, 1)) by {
        assert(copy_candidate(id, 1) == id + "-copy"@);
    }
    lemma_first_free_unique(id, used, 1);
}

proof fn lemma_first_id(block: BlockView)
    ensures
        ids_of(flatten_block(block)).len() > 0,
        ids_of(flatten_block(block))[0] == block.id,
{
    lemma_ids_add(seq![block], flatten_bodies(block.bodies));
    lemma_ids_one(block);
    assert(own_ids(block)[0] == block.id);
}

proof fn lemma_first_named(ids: Seq<Seq<char>>, used: Set<Seq<char>>)
    requires
        ids.len() > 0,
        ids.no_duplicates(),
    ensures
        copy_map(ids, used).contains_key(ids[0]),
        copy_map(ids, used)[ids[0]] == copy_id(ids[0], used),
    decreases ids.len(),
{
    let rest = ids.drop_last();
    if ids.len() > 1 {
        assert forall|i: int, j: int| 0 <= i < rest.len() && 0 <= j < rest.len() && i
            != j implies rest[i] != rest[j] by {
            assert(ids[i] != ids[j]);
        }
        lemma_first_named(rest, used);
        assert(rest[0] == ids[0]);
        assert(ids[0] != ids[ids.len() - 1]);
    } else {
        assert(copy_used(rest, used) == used);
    }
}

/// Every identity of a copy is the original's with "-copy" and perhaps a number behind it.
pub proof fn copied_names_begin_with_the_original(base: Seq<char>, used: Set<Seq<char>>)
    requires
        used.finite(),
    ensures
        (base + "-copy"@).is_prefix_of(copy_id(base, used)),
{
    lemma_some_free(base, used);
    let n = choose|n: nat| first_free_copy(base, used, n);
    reveal_strlit("-copy");
    reveal_strlit("-copy-");
    let new = copy_candidate(base, n);
    assert(new.subrange(0, (base + "-copy"@).len() as int) =~= base + "-copy"@);
}

/// Duplicating a block puts its copy into the container that was asked for, at the index that was
/// asked for, and leaves everything else as it was.
pub proof fn duplication_puts_the_copy_at_the_target(
    blocks: Seq<BlockView>,
    source: BlockPathView,
    target: InsertionTargetView,
)
    requires
        target.index >= 0,
        copied(blocks, source, target) is Ok,
    ensures
        ({
            let copy = duplicated(block_at(blocks, source)->Ok_0, structural_ids(blocks).to_set());
            let after = copied(blocks, source, target)->Ok_0;
            &&& container(after, target.container) == Some(
                container(blocks, target.container)->0.insert(target.index, copy),
            )
            &&& holdings(after) == holdings(blocks).add(inventory(flatten_block(copy)))
        }),
{
    let copy = duplicated(block_at(blocks, source)->Ok_0, structural_ids(blocks).to_set());
    insertion_adds_the_block(blocks, target, copy);
}

} // verus!
