//! What holds of the toolbar: what each of its buttons does to the selected block or lane.
use crate::command_view::CommandView;
use crate::commands::edited;
use crate::container::{container, with_container, ContainerView};
use crate::duplicate::duplicated;
use crate::edit_laws::{
    missing_blocks_are_named, moved_block_stands_at_its_target, moved_lane_stands_at_its_priority,
    reordered_block_stands_at_its_index, same_but_at, settings_are_read_back,
    switched_lane_stays_otherwise, transferred_block_changes_its_branch,
};
use crate::editor_types::{EditorErrorView, IfBranch, InsertionTargetView};
use crate::edits::{block_at, is_lane, place};
use crate::identities::structural_ids;
use crate::macro_engine::{BlockView, RoleView};
use crate::place_laws::{located_block_reads_back, shaped};
use crate::places::{lane_located, located};
use crate::rule_edits::EditedView;
use crate::toolbar::{command_at, spot_of, ToolbarAction};
use crate::tree::{found_block, has_id, lemma_first_index};
use crate::tree_laws::container_reads_back;
use vstd::prelude::*;

verus! {

/// What a button makes of a definition, where it has a command.
#[verifier::opaque]
pub open spec fn pressed(before: EditedView, id: Seq<char>, action: ToolbarAction) -> Result<
    EditedView,
    EditorErrorView,
> {
    edited(before, command_at(spot_of(before.definition.blocks, id)->0, action)->0)
}

/// The spot of a block tells where the block stands, among how many, and whether it is enabled.
pub proof fn spot_tells_where_a_block_stands(blocks: Seq<BlockView>, id: Seq<char>)
    requires
        shaped(blocks),
        structural_ids(blocks).no_duplicates(),
        lane_located(blocks, id) is None,
        found_block(blocks, id) is Some,
    ensures
        ({
            let spot = spot_of(blocks, id);
            let path = located(blocks, id)->0;
            let list = container(blocks, path.container)->0;
            &&& located(blocks, id) is Some && container(blocks, path.container) is Some
            &&& spot is Some && spot->0 is Block && spot->0->path == path
            &&& 0 <= spot->0->Block_index < list.len() && spot->0->Block_len == list.len()
            &&& list[spot->0->Block_index] == found_block(blocks, id)->0
            &&& place(blocks, path) == Ok::<_, EditorErrorView>(spot->0->Block_index)
            &&& block_at(blocks, path) == Ok::<_, EditorErrorView>(found_block(blocks, id)->0)
            &&& spot->0->Block_enabled == found_block(blocks, id)->0.enabled
            &&& path.block_id == id
        }),
{
    located_block_reads_back(blocks, id);
    let path = located(blocks, id)->0;
    lemma_first_index(
        container(blocks, path.container)->0,
        has_id(path.block_id),
    );
}

/// Up puts the selected block one place earlier in its container, where it is not the first, and Down
/// one place later, where it is not the last; its siblings keep their order.
pub proof fn up_and_down_move_by_one(before: EditedView, id: Seq<char>)
    requires
        shaped(before.definition.blocks),
        structural_ids(before.definition.blocks).no_duplicates(),
        lane_located(before.definition.blocks, id) is None,
        found_block(before.definition.blocks, id) is Some,
    ensures
        ({
            let blocks = before.definition.blocks;
            let path = located(blocks, id)->0;
            let i = place(blocks, path)->Ok_0;
            let list = container(blocks, path.container)->0;
            let up = pressed(before, id, ToolbarAction::Up);
            let down = pressed(before, id, ToolbarAction::Down);
            let higher = container(up->Ok_0.definition.blocks, path.container)->0;
            let lower = container(down->Ok_0.definition.blocks, path.container)->0;
            &&& command_at(spot_of(blocks, id)->0, ToolbarAction::Up) is Some <==> i > 0
            &&& command_at(spot_of(blocks, id)->0, ToolbarAction::Down) is Some <==> i + 1
                < list.len()
            &&& i > 0 ==> up is Ok && higher[i - 1].id == id && higher.remove(i - 1)
                == list.remove(i)
            &&& i + 1 < list.len() ==> down is Ok && lower[i + 1].id == id && lower.remove(i + 1)
                == list.remove(i)
        }),
{
    let blocks = before.definition.blocks;
    spot_tells_where_a_block_stands(blocks, id);
    let path = located(blocks, id)->0;
    let i = place(blocks, path)->Ok_0;
    if i > 0 {
        lemma_reordered(before, id, ToolbarAction::Up, i - 1);
    }
    if i + 1 < container(blocks, path.container)->0.len() {
        lemma_reordered(before, id, ToolbarAction::Down, i + 1);
    }
}

proof fn lemma_reordered(before: EditedView, id: Seq<char>, action: ToolbarAction, to: int)
    requires
        shaped(before.definition.blocks),
        structural_ids(before.definition.blocks).no_duplicates(),
        lane_located(before.definition.blocks, id) is None,
        found_block(before.definition.blocks, id) is Some,
        command_at(spot_of(before.definition.blocks, id)->0, action) == Some(
            CommandView::ReorderSibling {
                path: located(before.definition.blocks, id)->0,
                to_index: to,
            },
        ),
        0 <= to < container(
            before.definition.blocks,
            located(before.definition.blocks, id)->0.container,
        )->0.len(),
    ensures
        ({
            let blocks = before.definition.blocks;
            let path = located(blocks, id)->0;
            let after = pressed(before, id, action);
            let now = container(after->Ok_0.definition.blocks, path.container)->0;
            &&& after is Ok
            &&& now[to].id == id
            &&& now.remove(to) == container(blocks, path.container)->0.remove(
                place(blocks, path)->Ok_0,
            )
        }),
{
    let blocks = before.definition.blocks;
    spot_tells_where_a_block_stands(blocks, id);
    missing_blocks_are_named(blocks, located(blocks, id)->0);
    reveal(pressed);
    reordered_block_stands_at_its_index(blocks, located(blocks, id)->0, to);
}

/// The switch turns the selected block off where it is on, and on where it is off.
pub proof fn switch_turns_a_block_round(before: EditedView, id: Seq<char>)
    requires
        shaped(before.definition.blocks),
        structural_ids(before.definition.blocks).no_duplicates(),
        lane_located(before.definition.blocks, id) is None,
        found_block(before.definition.blocks, id) is Some,
    ensures
        ({
            let path = located(before.definition.blocks, id)->0;
            let after = pressed(before, id, ToolbarAction::ToggleBlock);
            let old = found_block(before.definition.blocks, id)->0;
            let new = block_at(after->Ok_0.definition.blocks, path)->Ok_0;
            &&& after is Ok && block_at(after->Ok_0.definition.blocks, path) is Ok
            &&& new == (BlockView { enabled: !old.enabled, ..old })
        }),
{
    reveal(pressed);
    let blocks = before.definition.blocks;
    spot_tells_where_a_block_stands(blocks, id);
    let path = located(blocks, id)->0;
    let enabled = !found_block(blocks, id)->0.enabled;
    settings_are_read_back(before, CommandView::SetBlockEnabled { path, enabled });
}

/// A duplicate stands right behind the selected block, which stays where it is.
pub proof fn duplicate_stands_behind(before: EditedView, id: Seq<char>)
    requires
        shaped(before.definition.blocks),
        structural_ids(before.definition.blocks).no_duplicates(),
        lane_located(before.definition.blocks, id) is None,
        found_block(before.definition.blocks, id) is Some,
    ensures
        ({
            let blocks = before.definition.blocks;
            let path = located(blocks, id)->0;
            let i = place(blocks, path)->Ok_0;
            let list = container(blocks, path.container)->0;
            let after = pressed(before, id, ToolbarAction::Duplicate);
            let now = container(after->Ok_0.definition.blocks, path.container)->0;
            &&& after is Ok && now.len() == list.len() + 1
            &&& now[i] == list[i]
            &&& now[i + 1] == duplicated(list[i], structural_ids(blocks).to_set())
            &&& now.remove(i + 1) == list
        }),
{
    reveal(pressed);
    let blocks = before.definition.blocks;
    spot_tells_where_a_block_stands(blocks, id);
    let path = located(blocks, id)->0;
    let i = place(blocks, path)->Ok_0;
    let list = container(blocks, path.container)->0;
    let new = list.insert(i + 1, duplicated(list[i], structural_ids(blocks).to_set()));
    container_reads_back(blocks, path.container, new);
    assert(new.remove(i + 1) =~= list);
}

/// A block that stands in another one goes to the end of the macro, where it may go there at all; one
/// at the top has no such button.
pub proof fn root_button_moves_to_the_end(before: EditedView, id: Seq<char>)
    requires
        shaped(before.definition.blocks),
        structural_ids(before.definition.blocks).no_duplicates(),
        lane_located(before.definition.blocks, id) is None,
        found_block(before.definition.blocks, id) is Some,
    ensures
        ({
            let blocks = before.definition.blocks;
            let nested = !(located(blocks, id)->0.container is Root);
            let after = pressed(before, id, ToolbarAction::MoveToRoot);
            let now = after->Ok_0.definition.blocks;
            &&& command_at(spot_of(blocks, id)->0, ToolbarAction::MoveToRoot) is Some <==> nested
            &&& nested && after is Ok ==> now.len() == blocks.len() + 1 && now.last()
                == found_block(blocks, id)->0
        }),
{
    reveal(pressed);
    let blocks = before.definition.blocks;
    spot_tells_where_a_block_stands(blocks, id);
    let path = located(blocks, id)->0;
    if !(path.container is Root) && pressed(before, id, ToolbarAction::MoveToRoot) is Ok {
        let target = InsertionTargetView {
            container: ContainerView::Root,
            index: blocks.len() as int,
        };
        moved_block_stands_at_its_target(blocks, path, target);
        let list = container(blocks, path.container)->0;
        let between = with_container(
            blocks,
            path.container,
            list.remove(place(blocks, path)->Ok_0),
        );
        assert(between.len() == blocks.len());
    }
}

/// A loop is deleted with its contents, or its contents are kept in its place; any other block is
/// just deleted. Each has only the buttons that are for it.
pub proof fn delete_buttons_are_for_their_blocks(before: EditedView, id: Seq<char>)
    requires
        shaped(before.definition.blocks),
        structural_ids(before.definition.blocks).no_duplicates(),
        lane_located(before.definition.blocks, id) is None,
        found_block(before.definition.blocks, id) is Some,
    ensures
        ({
            let blocks = before.definition.blocks;
            let spot = spot_of(blocks, id)->0;
            let path = located(blocks, id)->0;
            let i = place(blocks, path)->Ok_0;
            let list = container(blocks, path.container)->0;
            let head = list[i].head;
            let loops = head is RepeatN || head is RepeatUntil || head is Continuous;
            let gone = pressed(
                before,
                id,
                if loops {
                    ToolbarAction::DeleteLoop
                } else {
                    ToolbarAction::Delete
                },
            );
            let kept = pressed(before, id, ToolbarAction::KeepLoopContents);
            &&& command_at(spot, ToolbarAction::DeleteLoop) is Some <==> loops
            &&& command_at(spot, ToolbarAction::KeepLoopContents) is Some <==> loops
            &&& command_at(spot, ToolbarAction::Delete) is Some <==> !loops
            &&& gone is Ok && container(gone->Ok_0.definition.blocks, path.container) == Some(
                list.remove(i),
            )
            &&& loops ==> kept is Ok && container(kept->Ok_0.definition.blocks, path.container)
                == Some(list.take(i) + list[i].bodies[0].blocks + list.skip(i + 1))
        }),
{
    reveal(pressed);
    let blocks = before.definition.blocks;
    spot_tells_where_a_block_stands(blocks, id);
    let path = located(blocks, id)->0;
    let i = place(blocks, path)->Ok_0;
    let list = container(blocks, path.container)->0;
    container_reads_back(blocks, path.container, list.remove(i));
    container_reads_back(
        blocks,
        path.container,
        list.take(i) + list[i].bodies[0].blocks + list.skip(i + 1),
    );
}

/// Transfer takes a block out of the branch that it stands in and puts it first in the other branch
/// of the same IF; a block in no branch has no such button.
pub proof fn transfer_button_changes_the_branch(before: EditedView, id: Seq<char>)
    requires
        shaped(before.definition.blocks),
        structural_ids(before.definition.blocks).no_duplicates(),
        lane_located(before.definition.blocks, id) is None,
        found_block(before.definition.blocks, id) is Some,
    ensures
        ({
            let blocks = before.definition.blocks;
            let path = located(blocks, id)->0;
            let after = pressed(before, id, ToolbarAction::TransferBranch);
            let next = after->Ok_0.definition.blocks;
            &&& command_at(spot_of(blocks, id)->0, ToolbarAction::TransferBranch) is Some <==> (
            path.container is IfThen || path.container is IfElse)
            &&& path.container is IfThen && after is Ok ==> {
                let new = found_block(next, path.container->IfThen_if_id)->0;
                new.bodies[1].blocks.len() > 0 && new.bodies[1].blocks[0].id == id
            }
            &&& path.container is IfElse && after is Ok ==> {
                let new = found_block(next, path.container->IfElse_if_id)->0;
                new.bodies[0].blocks.len() > 0 && new.bodies[0].blocks[0].id == id
            }
        }),
{
    reveal(pressed);
    let blocks = before.definition.blocks;
    spot_tells_where_a_block_stands(blocks, id);
    let path = located(blocks, id)->0;
    if pressed(before, id, ToolbarAction::TransferBranch) is Ok {
        match path.container {
            ContainerView::IfThen { if_id } => {
                transferred_block_changes_its_branch(blocks, if_id, IfBranch::Then, id, 0);
            },
            ContainerView::IfElse { if_id } => {
                transferred_block_changes_its_branch(blocks, if_id, IfBranch::Else, id, 0);
            },
            _ => {},
        }
    }
}

/// The buttons of a lane: up puts it one priority higher, where it is not the first, down one lower,
/// where it is not the last, and the switch turns it off where it is on and on where it is off.
pub proof fn lane_buttons_act_on_the_lane(before: EditedView, id: Seq<char>)
    requires
        lane_located(before.definition.blocks, id) is Some,
    ensures
        ({
            let blocks = before.definition.blocks;
            let (group, index, len) = lane_located(blocks, id)->0;
            let spot = spot_of(blocks, id)->0;
            let up = pressed(before, id, ToolbarAction::LaneUp);
            let down = pressed(before, id, ToolbarAction::LaneDown);
            let turned = pressed(before, id, ToolbarAction::ToggleLane);
            &&& spot_of(blocks, id) is Some && spot is Lane
            &&& command_at(spot, ToolbarAction::LaneUp) is Some <==> index > 0
            &&& command_at(spot, ToolbarAction::LaneDown) is Some <==> index + 1 < len
            &&& index > 0 && up is Ok ==> is_lane(id)(
                found_block(up->Ok_0.definition.blocks, group)->0.bodies[index - 1],
            )
            &&& 0 <= index && index + 1 < len && down is Ok ==> is_lane(id)(
                found_block(down->Ok_0.definition.blocks, group)->0.bodies[index + 1],
            )
            &&& turned is Ok ==> switched(
                found_block(turned->Ok_0.definition.blocks, group)->0,
                id,
                !spot->Lane_enabled,
            )
        }),
{
    reveal(pressed);
    let blocks = before.definition.blocks;
    let (group, index, len) = lane_located(blocks, id)->0;
    let spot = spot_of(blocks, id)->0;
    if index > 0 && pressed(before, id, ToolbarAction::LaneUp) is Ok {
        moved_lane_stands_at_its_priority(blocks, group, id, index - 1);
    }
    if 0 <= index && index + 1 < len && pressed(before, id, ToolbarAction::LaneDown) is Ok {
        moved_lane_stands_at_its_priority(blocks, group, id, index + 1);
    }
    let turned = pressed(before, id, ToolbarAction::ToggleLane);
    if turned is Ok {
        let enabled = !spot->Lane_enabled;
        switched_lane_stays_otherwise(blocks, group, id, enabled);
        let old = found_block(blocks, group)->0;
        let new = found_block(turned->Ok_0.definition.blocks, group)->0;
        let k = choose|k: int|
            #![trigger new.bodies[k]]
            0 <= k < old.bodies.len() && is_lane(id)(old.bodies[k])
                && same_but_at(new.bodies, old.bodies, k)
                && new.bodies[k].blocks == old.bodies[k].blocks && new.bodies[k].role == (
            RoleView::Lane { id, enabled, condition: old.bodies[k].role->Lane_condition });
        assert(new.bodies[k].role is Lane);
    }
}

/// A lane of a block is on or off.
pub open spec fn switched(block: BlockView, lane: Seq<char>, enabled: bool) -> bool {
    exists|k: int|
        0 <= k < block.bodies.len() && (#[trigger] block.bodies[k]).role is Lane
            && block.bodies[k].role->Lane_id == lane && block.bodies[k].role->Lane_enabled
            == enabled
}

} // verus!
