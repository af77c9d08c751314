//! What each editor command makes of a definition.
use crate::block_edit::{convert_block, converted, head_condition, set_mode, with_mode};
use crate::command_view::CommandView;
use crate::editor_types::{BlockPathView, EditorCommand, EditorError, EditorErrorView};
use crate::edits::{
    block_at, copied, copy_block, find_block_in_container_mut, insert_block, inserted,
    lane_enabled, lane_moved, move_block, move_lane, move_within_container, moved, remove_block,
    removed, reordered, replace_block, replaced, set_lane_enabled, transfer_branch, transferred,
    with_block_at,
};
use crate::id_set::IdSet;
use crate::macro_engine::{
    kind_bodies, Block, BlockKind, BlockView, HeadView, MacroDefinition, MacroDefinitionView,
};
use crate::rule_edits::{
    edited_view, image_rule_replaced, recapture_region, recapture_template, region_recaptured,
    replace_image_rule, replace_text_rule, set_verification, template_recaptured,
    text_rule_replaced, verification_set, EditedView,
};
use vstd::prelude::*;

verus! {

broadcast use crate::macro_engine::group_block_views;

/// The definition with other blocks.
pub open spec fn with_blocks(
    edited: EditedView,
    blocks: Result<Seq<BlockView>, EditorErrorView>,
) -> Result<EditedView, EditorErrorView> {
    match blocks {
        Err(error) => Err(error),
        Ok(blocks) => Ok(
            EditedView {
                definition: MacroDefinitionView { blocks, ..edited.definition },
                ..edited
            },
        ),
    }
}

/// The definition with what a block is changed, where the block allows it.
pub open spec fn with_head(edited: EditedView, path: BlockPathView, head: Option<HeadView>) -> Result<
    EditedView,
    EditorErrorView,
> {
    match block_at(edited.definition.blocks, path) {
        Err(error) => Err(error),
        Ok(block) => match head {
            None => Err(EditorErrorView::IncompatibleConversion),
            Some(head) => with_blocks(
                edited,
                Ok(
                    with_block_at(
                        edited.definition.blocks,
                        path,
                        BlockView { head, ..block },
                    ),
                ),
            ),
        },
    }
}

/// The definition with one more stale source.
pub open spec fn with_stale(
    edited: Result<EditedView, EditorErrorView>,
    id: Seq<char>,
) -> Result<EditedView, EditorErrorView> {
    match edited {
        Err(error) => Err(error),
        Ok(edited) => Ok(EditedView { invalidated: edited.invalidated.insert(id), ..edited }),
    }
}

/// What a block that is named by a path is.
pub open spec fn head_at(edited: EditedView, path: BlockPathView) -> HeadView {
    block_at(edited.definition.blocks, path)->Ok_0.head
}

/// What a command makes of a definition and its stale sources, or why it is refused. Validation,
/// undo and redo change no definition.
pub open spec fn edited(edited: EditedView, command: CommandView) -> Result<
    EditedView,
    EditorErrorView,
> {
    let blocks = edited.definition.blocks;
    match command {
        CommandView::InsertBlock { target, block } => with_blocks(
            edited,
            inserted(blocks, target, block),
        ),
        CommandView::RemoveBlock { path, loop_choice } => with_blocks(
            edited,
            removed(blocks, path, loop_choice),
        ),
        CommandView::DuplicateBlock { source, target } => with_blocks(
            edited,
            copied(blocks, source, target),
        ),
        CommandView::SetBlockEnabled { path, enabled } => match block_at(blocks, path) {
            Err(error) => Err(error),
            Ok(block) => with_blocks(
                edited,
                Ok(with_block_at(blocks, path, BlockView { enabled, ..block })),
            ),
        },
        CommandView::SetLaneEnabled { group_id, lane_id, enabled } => with_blocks(
            edited,
            lane_enabled(blocks, group_id, lane_id, enabled),
        ),
        CommandView::ReorderSibling { path, to_index } => with_blocks(
            edited,
            reordered(blocks, path, to_index),
        ),
        CommandView::MoveBlock { source, target } => with_blocks(
            edited,
            moved(blocks, source, target),
        ),
        CommandView::TransferIfBranch { if_id, branch, block_id, to_index } => with_blocks(
            edited,
            transferred(blocks, if_id, branch, block_id, to_index),
        ),
        CommandView::MoveLane { group_id, lane_id, to_index } => with_blocks(
            edited,
            lane_moved(blocks, group_id, lane_id, to_index),
        ),
        CommandView::ConvertBlock { path, target } => match block_at(blocks, path) {
            Err(error) => Err(error),
            Ok(block) => match converted(block, target) {
                None => Err(EditorErrorView::IncompatibleConversion),
                Some(new) => with_stale(
                    with_blocks(edited, Ok(with_block_at(blocks, path, new))),
                    block.id,
                ),
            },
        },
        CommandView::SetConditionMode { path, mode } => match block_at(blocks, path) {
            Err(error) => Err(error),
            Ok(block) => if head_condition(block.head) is None {
                Err(EditorErrorView::IncompatibleConversion)
            } else {
                with_stale(
                    with_blocks(
                        edited,
                        Ok(with_block_at(blocks, path, with_mode(block, mode))),
                    ),
                    path.block_id,
                )
            },
        },
        CommandView::SetWaitDuration { path, duration_ms } => with_head(
            edited,
            path,
            match head_at(edited, path) {
                HeadView::Wait { .. } => Some(HeadView::Wait { duration_ms }),
                _ => None,
            },
        ),
        CommandView::SetRepeatCount { path, count } => with_head(
            edited,
            path,
            match head_at(edited, path) {
                HeadView::RepeatN { .. } => Some(HeadView::RepeatN { count }),
                _ => None,
            },
        ),
        CommandView::SetRepeatUntilMax { path, max_iterations } => with_head(
            edited,
            path,
            match head_at(edited, path) {
                HeadView::RepeatUntil { condition, .. } => Some(
                    HeadView::RepeatUntil { condition, max_iterations },
                ),
                _ => None,
            },
        ),
        CommandView::SetWatchSettings { path, timeout_ms, cooldown_ms } => with_head(
            edited,
            path,
            match head_at(edited, path) {
                HeadView::WatchGroup { outcome, .. } => Some(
                    HeadView::WatchGroup { timeout_ms, outcome, cooldown_ms },
                ),
                _ => None,
            },
        ),
        CommandView::ReplaceBlock { path, replacement, children } => with_stale(
            with_blocks(edited, replaced(blocks, path, replacement, children)),
            path.block_id,
        ),
        CommandView::ReplaceTextRule { rule } => text_rule_replaced(edited, rule),
        CommandView::ReplaceImageRule { rule } => image_rule_replaced(edited, rule),
        CommandView::RecaptureRegion { region_id, rect } => region_recaptured(
            edited,
            region_id,
            rect,
        ),
        CommandView::ReplaceTarget { target } => Ok(
            EditedView {
                definition: MacroDefinitionView { target: target, ..edited.definition },
                ..edited
            },
        ),
        CommandView::ApplyTemplateRecapture { rule_id, template } => template_recaptured(
            edited,
            rule_id,
            template,
        ),
        CommandView::ApplyImageVerification { rule_id, verification } => verification_set(
            edited,
            rule_id,
            Some(verification),
        ),
        CommandView::ClearImageVerification { rule_id } => verification_set(
            edited,
            rule_id,
            None,
        ),
        CommandView::MarkValidated { .. } => Ok(edited),
        CommandView::Undo => Ok(edited),
        CommandView::Redo => Ok(edited),
    }
}

/// Applies a command to a definition and its stale sources. After a refusal both hold something
/// unspecified.
pub fn apply_to_definition(
    definition: &mut MacroDefinition,
    invalidated: &mut IdSet,
    command: EditorCommand,
) -> (result: Result<(), EditorError>)
    ensures
        match result {
            Ok(()) => edited(edited_view(*old(definition), *old(invalidated)), command@) == Ok::<
                _,
                EditorErrorView,
            >(edited_view(*final(definition), *final(invalidated))),
            Err(error) => edited(edited_view(*old(definition), *old(invalidated)), command@)
                == Err::<EditedView, _>(error@),
        },
{
    match command {
        EditorCommand::InsertBlock { target, block } => insert_block(
            &mut definition.blocks,
            &target,
            block,
        ),
        EditorCommand::RemoveBlock { path, loop_choice } => remove_block(
            &mut definition.blocks,
            &path,
            loop_choice,
        ),
        EditorCommand::DuplicateBlock { source, target } => copy_block(
            &mut definition.blocks,
            &source,
            &target,
        ),
        EditorCommand::SetBlockEnabled { path, enabled } => {
            match find_block_in_container_mut(&mut definition.blocks, &path) {
                Err(error) => Err(error),
                Ok(block) => {
                    block.enabled = enabled;
                    Ok(())
                },
            }
        },
        EditorCommand::SetLaneEnabled { group_id, lane_id, enabled } => set_lane_enabled(
            &mut definition.blocks,
            &group_id,
            &lane_id,
            enabled,
        ),
        EditorCommand::ReorderSibling { path, to_index } => move_within_container(
            &mut definition.blocks,
            &path,
            to_index,
        ),
        EditorCommand::MoveBlock { source, target } => move_block(
            &mut definition.blocks,
            &source,
            &target,
        ),
        EditorCommand::TransferIfBranch { if_id, branch, block_id, to_index } => transfer_branch(
            &mut definition.blocks,
            &if_id,
            branch,
            &block_id,
            to_index,
        ),
        EditorCommand::MoveLane { group_id, lane_id, to_index } => move_lane(
            &mut definition.blocks,
            &group_id,
            &lane_id,
            to_index,
        ),
        EditorCommand::ConvertBlock { path, target } => {
            let source = match find_block_in_container_mut(&mut definition.blocks, &path) {
                Err(error) => return Err(error),
                Ok(block) => {
                    let source = block.id.clone();
                    match convert_block(block, target) {
                        Err(error) => return Err(error),
                        Ok(()) => source,
                    }
                },
            };
            let _ = invalidated.insert(source);
            Ok(())
        },
        EditorCommand::SetConditionMode { path, mode } => {
            match find_block_in_container_mut(&mut definition.blocks, &path) {
                Err(error) => return Err(error),
                Ok(block) => match set_mode(block, mode) {
                    Err(error) => return Err(error),
                    Ok(()) => {},
                },
            }
            let _ = invalidated.insert(path.block_id);
            Ok(())
        },
        EditorCommand::SetWaitDuration { path, duration_ms } => {
            match find_block_in_container_mut(&mut definition.blocks, &path) {
                Err(error) => Err(error),
                Ok(block) => match &mut block.kind {
                    BlockKind::Wait { duration_ms: current } => {
                        *current = duration_ms;
                        Ok(())
                    },
                    _ => Err(EditorError::IncompatibleConversion),
                },
            }
        },
        EditorCommand::SetRepeatCount { path, count } => {
            match find_block_in_container_mut(&mut definition.blocks, &path) {
                Err(error) => Err(error),
                Ok(block) => set_repeat_count(block, count),
            }
        },
        EditorCommand::SetRepeatUntilMax { path, max_iterations } => {
            match find_block_in_container_mut(&mut definition.blocks, &path) {
                Err(error) => Err(error),
                Ok(block) => set_repeat_max(block, max_iterations),
            }
        },
        EditorCommand::SetWatchSettings { path, timeout_ms, cooldown_ms } => {
            match find_block_in_container_mut(&mut definition.blocks, &path) {
                Err(error) => Err(error),
                Ok(block) => set_watch(block, timeout_ms, cooldown_ms),
            }
        },
        EditorCommand::ReplaceBlock { path, replacement, children } => {
            match replace_block(&mut definition.blocks, &path, replacement, children) {
                Err(error) => return Err(error),
                Ok(()) => {},
            }
            let _ = invalidated.insert(path.block_id);
            Ok(())
        },
        EditorCommand::ReplaceTextRule { rule } => replace_text_rule(definition, invalidated, rule),
        EditorCommand::ReplaceImageRule { rule } => replace_image_rule(
            definition,
            invalidated,
            rule,
        ),
        EditorCommand::RecaptureRegion { region_id, rect } => recapture_region(
            definition,
            invalidated,
            &region_id,
            rect,
        ),
        EditorCommand::ReplaceTarget { target } => {
            definition.target = target;
            Ok(())
        },
        EditorCommand::ApplyTemplateRecapture { rule_id, template } => recapture_template(
            definition,
            invalidated,
            &rule_id,
            template,
        ),
        EditorCommand::ApplyImageVerification { rule_id, verification } => set_verification(
            definition,
            &rule_id,
            Some(verification),
            Ghost(invalidated@),
        ),
        EditorCommand::ClearImageVerification { rule_id } => set_verification(
            definition,
            &rule_id,
            None,
            Ghost(invalidated@),
        ),
        EditorCommand::MarkValidated { .. } => Ok(()),
        EditorCommand::Undo => Ok(()),
        EditorCommand::Redo => Ok(()),
    }
}

fn set_repeat_count(block: &mut Block, count: u32) -> (result: Result<(), EditorError>)
    ensures
        match old(block)@.head {
            HeadView::RepeatN { .. } => result is Ok && final(block)@ == (BlockView {
                head: HeadView::RepeatN { count },
                ..old(block)@
            }),
            _ => result matches Err(error) && error@ == EditorErrorView::IncompatibleConversion,
        },
{
    let ghost before = *block;
    match &mut block.kind {
        BlockKind::RepeatN { count: current, .. } => {
            *current = count;
        },
        _ => return Err(EditorError::IncompatibleConversion),
    }
    proof {
        assert(before@.bodies == kind_bodies(before.kind));
        assert(block@.bodies == kind_bodies(block.kind));
    }
    Ok(())
}

fn set_repeat_max(block: &mut Block, max: crate::macro_engine::Limit<u64>) -> (result: Result<
    (),
    EditorError,
>)
    ensures
        match old(block)@.head {
            HeadView::RepeatUntil { condition, .. } => result is Ok && final(block)@ == (
            BlockView {
                head: HeadView::RepeatUntil { condition, max_iterations: max },
                ..old(block)@
            }),
            _ => result matches Err(error) && error@ == EditorErrorView::IncompatibleConversion,
        },
{
    let ghost before = *block;
    match &mut block.kind {
        BlockKind::RepeatUntil { max_iterations: current, .. } => {
            *current = max;
        },
        _ => return Err(EditorError::IncompatibleConversion),
    }
    proof {
        assert(before@.bodies == kind_bodies(before.kind));
        assert(block@.bodies == kind_bodies(block.kind));
    }
    Ok(())
}

fn set_watch(
    block: &mut Block,
    timeout_ms: crate::macro_engine::Limit<u64>,
    cooldown_ms: u64,
) -> (result: Result<(), EditorError>)
    ensures
        match old(block)@.head {
            HeadView::WatchGroup { outcome, .. } => result is Ok && final(block)@ == (BlockView {
                head: HeadView::WatchGroup { timeout_ms, outcome, cooldown_ms },
                ..old(block)@
            }),
            _ => result matches Err(error) && error@ == EditorErrorView::IncompatibleConversion,
        },
{
    let ghost before = *block;
    match &mut block.kind {
        BlockKind::WatchGroup { group } => {
            group.timeout_ms = timeout_ms;
            group.cooldown_ms = cooldown_ms;
        },
        _ => return Err(EditorError::IncompatibleConversion),
    }
    proof {
        assert(before@.bodies == kind_bodies(before.kind));
        assert(block@.bodies == kind_bodies(block.kind));
    }
    Ok(())
}

} // verus!
