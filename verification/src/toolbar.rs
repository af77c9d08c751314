//! The toolbar: what can be done with the selected block or lane.
use crate::command_view::CommandView;
use crate::container::{container, ContainerPath, ContainerView};
use crate::content::option_view;
use crate::draft::EditorDraft;
use crate::editor_types::{
    BlockPath, BlockPathView, EditorCommand, IfBranch, InsertionTarget, InsertionTargetView,
    LoopDeletionChoice,
};
use crate::edits::{block_at, is_lane, is_loop};
use crate::inspector::find_lane;
use crate::macro_engine::{BlockKind, BlockView};
use crate::places::{
    block_at_path, lane_located, lanes_of, locate_block_path, locate_watch_lane, located,
    sibling_at, sibling_position, watches,
};
use crate::tree::{first_index, first_where, flatten};
use vstd::prelude::*;

verus! {

broadcast use crate::macro_engine::group_block_views;

/// What the toolbar offers for the selection.
#[derive(Debug, Clone, Copy, PartialEq, Eq, Structural)]
pub enum ToolbarAction {
    LaneUp,
    LaneDown,
    ToggleLane,
    Up,
    Down,
    ToggleBlock,
    Duplicate,
    MoveToRoot,
    DeleteLoop,
    KeepLoopContents,
    Delete,
    TransferBranch,
}

/// The selected lane or block, and where it stands.
#[derive(Debug, PartialEq, Eq)]
pub enum Spot {
    Lane { group_id: String, lane_id: String, index: usize, len: usize, enabled: bool },
    Block { path: BlockPath, index: usize, len: usize, enabled: bool, looped: bool, root_len: usize },
}

/// The contents of a [`Spot`].
#[allow(inconsistent_fields)]
#[verifier::ext_equal]
pub ghost enum SpotView {
    Lane { group_id: Seq<char>, lane_id: Seq<char>, index: int, len: int, enabled: bool },
    Block {
        path: BlockPathView,
        index: int,
        len: int,
        enabled: bool,
        looped: bool,
        root_len: int,
    },
}

impl View for Spot {
    type V = SpotView;

    open spec fn view(&self) -> SpotView {
        match *self {
            Spot::Lane { group_id, lane_id, index, len, enabled } => SpotView::Lane {
                group_id: group_id@,
                lane_id: lane_id@,
                index: index as int,
                len: len as int,
                enabled,
            },
            Spot::Block { path, index, len, enabled, looped, root_len } => SpotView::Block {
                path: path@,
                index: index as int,
                len: len as int,
                enabled,
                looped,
                root_len: root_len as int,
            },
        }
    }
}

/// The lane of an identity is enabled.
pub open spec fn lane_is_enabled(blocks: Seq<BlockView>, id: Seq<char>) -> bool {
    let group = first_where(flatten(blocks), watches(id))->0;
    let lane = lanes_of(group)[first_index(lanes_of(group), is_lane(id))->0];
    lane.role->Lane_enabled
}

/// Where the selected lane, or else the selected block, stands.
pub open spec fn spot_of(blocks: Seq<BlockView>, id: Seq<char>) -> Option<SpotView> {
    match lane_located(blocks, id) {
        Some((group_id, index, len)) => Some(
            SpotView::Lane {
                group_id,
                lane_id: id,
                index,
                len,
                enabled: lane_is_enabled(blocks, id),
            },
        ),
        None => match located(blocks, id) {
            None => None,
            Some(path) => match (sibling_at(blocks, path), block_at(blocks, path)) {
                (Some((index, len)), Ok(block)) => Some(
                    SpotView::Block {
                        path,
                        index,
                        len,
                        enabled: block.enabled,
                        looped: is_loop(block.head),
                        root_len: blocks.len() as int,
                    },
                ),
                _ => None,
            },
        },
    }
}

/// Finds the selected lane, or else the selected block.
pub fn find_spot(draft: &EditorDraft, id: &str) -> (spot: Option<Spot>)
    ensures
        option_view(spot) == spot_of(draft@.definition.blocks, id@),
        spot matches Some(Spot::Lane { index, len, .. }) ==> index < len,
        spot matches Some(Spot::Block { index, len, .. }) ==> index < len,
{
    let definition = &draft.definition;
    if let Some((group_id, index, len)) = locate_watch_lane(definition, id) {
        let enabled = match find_lane(&definition.blocks, id) {
            Some((_, lane)) => {
                assert(crate::macro_engine::lane_view(*lane).role->Lane_enabled == lane.enabled);
                lane.enabled
            },
            None => false,
        };
        return Some(Spot::Lane { group_id, lane_id: id.to_owned(), index, len, enabled });
    }
    let path = match locate_block_path(definition, id) {
        None => return None,
        Some(path) => path,
    };
    let (index, len) = match sibling_position(definition, &path) {
        None => return None,
        Some(position) => position,
    };
    match block_at_path(definition, &path) {
        None => None,
        Some(block) => {
            let looped = match &block.kind {
                BlockKind::RepeatN { .. } => true,
                BlockKind::RepeatUntil { .. } => true,
                BlockKind::Continuous { .. } => true,
                _ => false,
            };
            let enabled = block.enabled;
            Some(
                Spot::Block {
                    path,
                    index,
                    len,
                    enabled,
                    looped,
                    root_len: definition.blocks.len(),
                },
            )
        },
    }
}

/// One button of the toolbar, and whether its action can be done.
#[derive(Debug, Clone, Copy, PartialEq, Eq, Structural)]
pub struct ToolbarButton {
    pub action: ToolbarAction,
    pub available: bool,
}

/// A button whose action can be done where a condition holds.
pub open spec fn button(action: ToolbarAction, available: bool) -> ToolbarButton {
    ToolbarButton { action, available }
}

/// The button of an action that can be done, or none.
pub open spec fn only_if(condition: bool, action: ToolbarAction) -> Seq<ToolbarButton> {
    if condition {
        seq![button(action, true)]
    } else {
        Seq::empty()
    }
}

/// A container is a branch of an IF.
pub open spec fn is_branch(path: ContainerView) -> bool {
    path is IfThen || path is IfElse
}

/// The buttons at a spot, in the order of the toolbar. A step up or down is shown at the ends of a
/// list too, where it cannot be done.
pub open spec fn buttons(spot: SpotView) -> Seq<ToolbarButton> {
    match spot {
        SpotView::Lane { index, len, .. } => seq![
            button(ToolbarAction::LaneUp, index > 0),
            button(ToolbarAction::LaneDown, index + 1 < len),
            button(ToolbarAction::ToggleLane, true),
        ],
        SpotView::Block { path, index, len, looped, .. } => seq![
            button(ToolbarAction::Up, index > 0),
            button(ToolbarAction::Down, index + 1 < len),
            button(ToolbarAction::ToggleBlock, true),
            button(ToolbarAction::Duplicate, true),
        ] + only_if(!(path.container is Root), ToolbarAction::MoveToRoot) + only_if(
            looped,
            ToolbarAction::DeleteLoop,
        ) + only_if(looped, ToolbarAction::KeepLoopContents) + only_if(
            !looped,
            ToolbarAction::Delete,
        ) + only_if(is_branch(path.container), ToolbarAction::TransferBranch),
    }
}

/// Adds the button of an action where a condition holds.
fn offer(shown: &mut Vec<ToolbarButton>, condition: bool, action: ToolbarAction)
    ensures
        final(shown)@ == old(shown)@ + only_if(condition, action),
{
    let ghost before = shown@;
    if condition {
        shown.push(ToolbarButton { action, available: true });
    }
    assert(shown@ =~= before + only_if(condition, action));
}

/// The buttons that the toolbar shows at a spot.
pub fn toolbar_buttons(spot: &Spot) -> (shown: Vec<ToolbarButton>)
    ensures
        shown@ == buttons(spot@),
{
    let mut shown: Vec<ToolbarButton> = Vec::new();
    match spot {
        Spot::Lane { index, len, .. } => {
            let down = *len > 0 && *index < *len - 1;
            shown.push(ToolbarButton { action: ToolbarAction::LaneUp, available: *index > 0 });
            shown.push(ToolbarButton { action: ToolbarAction::LaneDown, available: down });
            shown.push(ToolbarButton { action: ToolbarAction::ToggleLane, available: true });
        },
        Spot::Block { path, index, len, looped, .. } => {
            let nested = match &path.container {
                ContainerPath::Root => false,
                _ => true,
            };
            let branch = match &path.container {
                ContainerPath::IfThen { .. } => true,
                ContainerPath::IfElse { .. } => true,
                _ => false,
            };
            let down = *len > 0 && *index < *len - 1;
            shown.push(ToolbarButton { action: ToolbarAction::Up, available: *index > 0 });
            shown.push(ToolbarButton { action: ToolbarAction::Down, available: down });
            shown.push(ToolbarButton { action: ToolbarAction::ToggleBlock, available: true });
            shown.push(ToolbarButton { action: ToolbarAction::Duplicate, available: true });
            offer(&mut shown, nested, ToolbarAction::MoveToRoot);
            offer(&mut shown, *looped, ToolbarAction::DeleteLoop);
            offer(&mut shown, *looped, ToolbarAction::KeepLoopContents);
            offer(&mut shown, !*looped, ToolbarAction::Delete);
            offer(&mut shown, branch, ToolbarAction::TransferBranch);
        },
    }
    assert(shown@ =~= buttons(spot@));
    shown
}

pub open spec fn action_word(action: ToolbarAction, enabled: bool) -> Seq<char> {
    match action {
        ToolbarAction::LaneUp => "Lane up"@,
        ToolbarAction::LaneDown => "Lane down"@,
        ToolbarAction::ToggleLane => if enabled {
            "Disable lane"@
        } else {
            "Enable lane"@
        },
        ToolbarAction::Up => "Up"@,
        ToolbarAction::Down => "Down"@,
        ToolbarAction::ToggleBlock => if enabled {
            "Disable"@
        } else {
            "Enable"@
        },
        ToolbarAction::Duplicate => "Duplicate"@,
        ToolbarAction::MoveToRoot => "Move to root"@,
        ToolbarAction::DeleteLoop => "Delete loop + contents"@,
        ToolbarAction::KeepLoopContents => "Keep contents"@,
        ToolbarAction::Delete => "Delete"@,
        ToolbarAction::TransferBranch => "Transfer THEN / ELSE"@,
    }
}

/// The word on the button of an action.
pub fn action_title(action: ToolbarAction, enabled: bool) -> (title: &'static str)
    ensures
        title@ == action_word(action, enabled),
{
    match action {
        ToolbarAction::LaneUp => "Lane up",
        ToolbarAction::LaneDown => "Lane down",
        ToolbarAction::ToggleLane => if enabled {
            "Disable lane"
        } else {
            "Enable lane"
        },
        ToolbarAction::Up => "Up",
        ToolbarAction::Down => "Down",
        ToolbarAction::ToggleBlock => if enabled {
            "Disable"
        } else {
            "Enable"
        },
        ToolbarAction::Duplicate => "Duplicate",
        ToolbarAction::MoveToRoot => "Move to root",
        ToolbarAction::DeleteLoop => "Delete loop + contents",
        ToolbarAction::KeepLoopContents => "Keep contents",
        ToolbarAction::Delete => "Delete",
        ToolbarAction::TransferBranch => "Transfer THEN / ELSE",
    }
}

/// The command of an action at a spot; none where the action is not offered.
pub open spec fn command_at(spot: SpotView, action: ToolbarAction) -> Option<CommandView> {
    match spot {
        SpotView::Lane { group_id, lane_id, index, len, enabled } => match action {
            ToolbarAction::LaneUp => if index > 0 {
                Some(CommandView::MoveLane { group_id, lane_id, to_index: index - 1 })
            } else {
                None
            },
            ToolbarAction::LaneDown => if index + 1 < len {
                Some(CommandView::MoveLane { group_id, lane_id, to_index: index + 1 })
            } else {
                None
            },
            ToolbarAction::ToggleLane => Some(
                CommandView::SetLaneEnabled { group_id, lane_id, enabled: !enabled },
            ),
            _ => None,
        },
        SpotView::Block { path, index, len, enabled, looped, root_len } => match action {
            ToolbarAction::Up => if index > 0 {
                Some(CommandView::ReorderSibling { path, to_index: index - 1 })
            } else {
                None
            },
            ToolbarAction::Down => if index + 1 < len {
                Some(CommandView::ReorderSibling { path, to_index: index + 1 })
            } else {
                None
            },
            ToolbarAction::ToggleBlock => Some(
                CommandView::SetBlockEnabled { path, enabled: !enabled },
            ),
            ToolbarAction::Duplicate => Some(
                CommandView::DuplicateBlock {
                    source: path,
                    target: InsertionTargetView { container: path.container, index: index + 1 },
                },
            ),
            ToolbarAction::MoveToRoot => if path.container is Root {
                None
            } else {
                Some(
                    CommandView::MoveBlock {
                        source: path,
                        target: InsertionTargetView {
                            container: ContainerView::Root,
                            index: root_len,
                        },
                    },
                )
            },
            ToolbarAction::DeleteLoop => if looped {
                Some(
                    CommandView::RemoveBlock {
                        path,
                        loop_choice: Some(LoopDeletionChoice::DeleteWithContents),
                    },
                )
            } else {
                None
            },
            ToolbarAction::KeepLoopContents => if looped {
                Some(
                    CommandView::RemoveBlock {
                        path,
                        loop_choice: Some(LoopDeletionChoice::KeepContents),
                    },
                )
            } else {
                None
            },
            ToolbarAction::Delete => if looped {
                None
            } else {
                Some(CommandView::RemoveBlock { path, loop_choice: None })
            },
            ToolbarAction::TransferBranch => match path.container {
                ContainerView::IfThen { if_id } => Some(
                    CommandView::TransferIfBranch {
                        if_id,
                        branch: IfBranch::Then,
                        block_id: path.block_id,
                        to_index: 0,
                    },
                ),
                ContainerView::IfElse { if_id } => Some(
                    CommandView::TransferIfBranch {
                        if_id,
                        branch: IfBranch::Else,
                        block_id: path.block_id,
                        to_index: 0,
                    },
                ),
                _ => None,
            },
            _ => None,
        },
    }
}

/// The command that an action of the toolbar stands for.
pub fn toolbar_command(spot: Spot, action: ToolbarAction) -> (command: Option<EditorCommand>)
    requires
        spot matches Spot::Lane { index, len, .. } ==> index < len,
        spot matches Spot::Block { index, len, .. } ==> index < len,
    ensures
        option_view(command) == command_at(spot@, action),
{
    match spot {
        Spot::Lane { group_id, lane_id, index, len, enabled } => match action {
            ToolbarAction::LaneUp => if index > 0 {
                Some(EditorCommand::MoveLane { group_id, lane_id, to_index: index - 1 })
            } else {
                None
            },
            ToolbarAction::LaneDown => if index + 1 < len {
                Some(EditorCommand::MoveLane { group_id, lane_id, to_index: index + 1 })
            } else {
                None
            },
            ToolbarAction::ToggleLane => Some(
                EditorCommand::SetLaneEnabled { group_id, lane_id, enabled: !enabled },
            ),
            _ => None,
        },
        Spot::Block { path, index, len, enabled, looped, root_len } => match action {
            ToolbarAction::Up => if index > 0 {
                Some(EditorCommand::ReorderSibling { path, to_index: index - 1 })
            } else {
                None
            },
            ToolbarAction::Down => if index + 1 < len {
                Some(EditorCommand::ReorderSibling { path, to_index: index + 1 })
            } else {
                None
            },
            ToolbarAction::ToggleBlock => Some(
                EditorCommand::SetBlockEnabled { path, enabled: !enabled },
            ),
            ToolbarAction::Duplicate => {
                let container = path.container.clone();
                Some(
                    EditorCommand::DuplicateBlock {
                        source: path,
                        target: InsertionTarget { container, index: index + 1 },
                    },
                )
            },
            ToolbarAction::MoveToRoot => match &path.container {
                ContainerPath::Root => None,
                _ => Some(
                    EditorCommand::MoveBlock {
                        source: path,
                        target: InsertionTarget {
                            container: ContainerPath::Root,
                            index: root_len,
                        },
                    },
                ),
            },
            ToolbarAction::DeleteLoop => if looped {
                Some(
                    EditorCommand::RemoveBlock {
                        path,
                        loop_choice: Some(LoopDeletionChoice::DeleteWithContents),
                    },
                )
            } else {
                None
            },
            ToolbarAction::KeepLoopContents => if looped {
                Some(
                    EditorCommand::RemoveBlock {
                        path,
                        loop_choice: Some(LoopDeletionChoice::KeepContents),
                    },
                )
            } else {
                None
            },
            ToolbarAction::Delete => if looped {
                None
            } else {
                Some(EditorCommand::RemoveBlock { path, loop_choice: None })
            },
            ToolbarAction::TransferBranch => {
                let BlockPath { container, block_id } = path;
                match container {
                    ContainerPath::IfThen { if_id } => Some(
                        EditorCommand::TransferIfBranch {
                            if_id,
                            branch: IfBranch::Then,
                            block_id,
                            to_index: 0,
                        },
                    ),
                    ContainerPath::IfElse { if_id } => Some(
                        EditorCommand::TransferIfBranch {
                            if_id,
                            branch: IfBranch::Else,
                            block_id,
                            to_index: 0,
                        },
                    ),
                    _ => None,
                }
            },
            _ => None,
        },
    }
}

/// An action has a command exactly where its button is shown and can be used.
pub proof fn available_buttons_have_commands(spot: SpotView, action: ToolbarAction)
    ensures
        buttons(spot).contains(button(action, true)) <==> command_at(spot, action) is Some,
        buttons(spot).contains(button(action, false)) ==> command_at(spot, action) is None,
{
    match spot {
        SpotView::Lane { .. } => {
            let all = buttons(spot);
            assert(all[0].action is LaneUp && all[1].action is LaneDown);
            assert(all[2].action is ToggleLane);
            assert(all.contains(all[0]) && all.contains(all[1]) && all.contains(all[2]));
        },
        SpotView::Block { path, index, len, looped, .. } => {
            let first = seq![
                button(ToolbarAction::Up, index > 0),
                button(ToolbarAction::Down, index + 1 < len),
                button(ToolbarAction::ToggleBlock, true),
                button(ToolbarAction::Duplicate, true),
            ];
            assert(first.contains(first[0]) && first.contains(first[1]) && first.contains(first[2])
                && first.contains(first[3]));
            let branch = is_branch(path.container);
            let nested = !(path.container is Root);
            lemma_contains_rest(first, nested, looped, branch, button(action, true));
            lemma_contains_rest(first, nested, looped, branch, button(action, false));
        },
    }
}

/// What a list of buttons holds with those of a block's place and kind.
proof fn lemma_contains_rest(
    first: Seq<ToolbarButton>,
    nested: bool,
    looped: bool,
    branch: bool,
    one: ToolbarButton,
)
    ensures
        (first + only_if(nested, ToolbarAction::MoveToRoot) + only_if(
            looped,
            ToolbarAction::DeleteLoop,
        ) + only_if(looped, ToolbarAction::KeepLoopContents) + only_if(
            !looped,
            ToolbarAction::Delete,
        ) + only_if(branch, ToolbarAction::TransferBranch)).contains(one) <==> first.contains(one)
            || (one.available && match one.action {
            ToolbarAction::MoveToRoot => nested,
            ToolbarAction::DeleteLoop => looped,
            ToolbarAction::KeepLoopContents => looped,
            ToolbarAction::Delete => !looped,
            ToolbarAction::TransferBranch => branch,
            _ => false,
        }),
{
    let s1 = first + only_if(nested, ToolbarAction::MoveToRoot);
    let s2 = s1 + only_if(looped, ToolbarAction::DeleteLoop);
    let s3 = s2 + only_if(looped, ToolbarAction::KeepLoopContents);
    let s4 = s3 + only_if(!looped, ToolbarAction::Delete);
    lemma_contains_one(first, nested, ToolbarAction::MoveToRoot, one);
    lemma_contains_one(s1, looped, ToolbarAction::DeleteLoop, one);
    lemma_contains_one(s2, looped, ToolbarAction::KeepLoopContents, one);
    lemma_contains_one(s3, !looped, ToolbarAction::Delete, one);
    lemma_contains_one(s4, branch, ToolbarAction::TransferBranch, one);
}

/// What a list of buttons holds with one more, or none.
proof fn lemma_contains_one(
    list: Seq<ToolbarButton>,
    condition: bool,
    action: ToolbarAction,
    one: ToolbarButton,
)
    ensures
        (list + only_if(condition, action)).contains(one) <==> list.contains(one) || (condition
            && one == button(action, true)),
{
    let all = list + only_if(condition, action);
    if list.contains(one) {
        let i = list.index_of(one);
        assert(all[i] == one);
    }
    if condition {
        assert(all[list.len() as int] == button(action, true));
    }
    if all.contains(one) {
        let i = all.index_of(one);
        if i < list.len() {
            assert(list[i] == one);
        }
    }
}

} // verus!
