//! What holds of the edits of a macro: what each sets can be read where it was set, and what it
//! moves stands where it was sent.
use crate::block_edit::{kept_contents, lane_contents};
use crate::block_place::{
    block_has, body_has, lemma_first_id_in_block, lemma_first_id_in_blocks, lemma_first_id_in_bodies,
    with_block, with_block_below,
};
use crate::command_view::{CommandView, ConversionTargetView, ModeView};
use crate::commands::edited;
use crate::container::{container, lemma_roles, role_fits, with_body, with_container, ContainerView};
use crate::editor_types::{
    BlockPathView, ChildDisposition, EditorErrorView, IfBranch, InsertionTargetView,
    LoopDeletionChoice,
};
use crate::edits::{
    block_at, branch_moved, is_lane, lane_enabled, lane_moved, lane_set, moved, place, removed, reordered,
    replaced, transferred, with_block_at,
};
use crate::macro_engine::{
    ActionView, Block, BlockView, BodyView, ConditionView, HeadView, MacroDefinitionView, RoleView,
};
use crate::place_laws::{shaped, well_shaped};
use crate::rule_edits::EditedView;
use crate::tree::{
    first_index, first_where, flatten, flatten_block, found_block, has_id, lemma_first_index,
    lemma_first_where_found, lemma_is_first_index,
};
use crate::tree_laws::{container_reads_back, lemma_lane_count};
use vstd::prelude::*;

verus! {

/// A block is found at its path exactly where the container of the path is there and holds a block
/// of that identity; what is missing is named.
pub proof fn missing_blocks_are_named(blocks: Seq<BlockView>, path: BlockPathView)
    ensures
        match block_at(blocks, path) {
            Ok(block) => container(blocks, path.container) is Some && block.id == path.block_id
                && container(blocks, path.container)->0.contains(block),
            Err(error) => if container(blocks, path.container) is None {
                error == EditorErrorView::MissingContainer
            } else {
                error == EditorErrorView::MissingBlock(path.block_id) && forall|i: int|
                    0 <= i < container(blocks, path.container)->0.len() ==> (
                    #[trigger] container(blocks, path.container)->0[i]).id != path.block_id
            },
        },
{
    if container(blocks, path.container) is Some {
        let list = container(blocks, path.container)->0;
        lemma_first_index(list, has_id(path.block_id));
        match first_index(list, has_id(path.block_id)) {
            Some(i) => {
                assert(list.contains(list[i]));
            },
            None => {
                assert forall|i: int| 0 <= i < list.len() implies (#[trigger] list[i]).id
                    != path.block_id by {
                    assert(!has_id(path.block_id)(list[i]));
                }
            },
        }
    }
}

/// Two conditions look for the same thing: they differ at most in how they wait.
pub open spec fn same_subject(a: ConditionView, b: ConditionView) -> bool {
    a.family == b.family && a.source == b.source && a.rule == b.rule
}

/// A block got another way to wait: its condition is otherwise as it was, it keeps its branches or
/// its loop's body, and behind them it holds what the new wait holds.
pub open spec fn waits_anew(old: BlockView, new: BlockView, mode: ModeView) -> bool {
    match (old.head, new.head) {
        (HeadView::Observe { condition: a }, HeadView::Observe { condition: b }) => same_subject(
            a,
            b,
        ) && b.wait == mode.wait && new.bodies == mode.bodies,
        (HeadView::If { condition: a }, HeadView::If { condition: b }) => same_subject(a, b)
            && b.wait == mode.wait && new.bodies == old.bodies.take(2) + mode.bodies,
        (
            HeadView::RepeatUntil { condition: a, max_iterations: m },
            HeadView::RepeatUntil { condition: b, max_iterations: n },
        ) => same_subject(a, b) && b.wait == mode.wait && m == n && new.bodies == old.bodies.take(1)
            + mode.bodies,
        _ => false,
    }
}

/// A block was converted: an observation waits in the new way, a click on a match goes by the same
/// match with the new button, a click on a saved place goes to the new place, and a loop keeps its
/// body and repeats by the new count or until the new condition.
pub open spec fn turned_into(old: BlockView, new: BlockView, target: ConversionTargetView) -> bool {
    match target {
        ConversionTargetView::TextObservation { mode } => old.head is Observe
            && old.head->Observe_condition.family is Text && waits_anew(old, new, mode),
        ConversionTargetView::ImageObservation { mode } => old.head is Observe
            && old.head->Observe_condition.family is Image && waits_anew(old, new, mode),
        ConversionTargetView::ClickTextMatch { button } => old.head is Action
            && old.head->action is ClickTextMatch && new.head == (HeadView::Action {
            action: ActionView::ClickTextMatch {
                source: old.head->action->ClickTextMatch_source,
                button,
            },
        }) && new.bodies == old.bodies,
        ConversionTargetView::ClickImageMatch { button } => old.head is Action
            && old.head->action is ClickImageMatch && new.head == (HeadView::Action {
            action: ActionView::ClickImageMatch {
                source: old.head->action->ClickImageMatch_source,
                button,
            },
        }) && new.bodies == old.bodies,
        ConversionTargetView::ClickPoint { point_id, button } => old.head is Action && (
        old.head->action is ClickPoint || old.head->action is ClickRegion) && new.head == (
        HeadView::Action { action: ActionView::ClickPoint { point_id, button } }) && new.bodies
            == old.bodies,
        ConversionTargetView::ClickRegion { region_id, button } => old.head is Action && (
        old.head->action is ClickPoint || old.head->action is ClickRegion) && new.head == (
        HeadView::Action { action: ActionView::ClickRegion { region_id, button } }) && new.bodies
            == old.bodies,
        ConversionTargetView::RepeatUntil { condition, max_iterations } => old.head is RepeatN
            && new.head == (HeadView::RepeatUntil {
            condition: condition.condition,
            max_iterations,
        }) && new.bodies == old.bodies + condition.bodies,
        ConversionTargetView::RepeatN { count } => old.head is RepeatUntil && new.head == (
        HeadView::RepeatN { count }) && new.bodies == old.bodies.take(1),
    }
}

/// The path of the block that a command changes in place.
pub open spec fn changed_path(command: CommandView) -> Option<BlockPathView> {
    match command {
        CommandView::SetBlockEnabled { path, .. } => Some(path),
        CommandView::ConvertBlock { path, .. } => Some(path),
        CommandView::SetConditionMode { path, .. } => Some(path),
        CommandView::SetWaitDuration { path, .. } => Some(path),
        CommandView::SetRepeatCount { path, .. } => Some(path),
        CommandView::SetRepeatUntilMax { path, .. } => Some(path),
        CommandView::SetWatchSettings { path, .. } => Some(path),
        _ => None,
    }
}

/// A command can change a block in place: it sets what a block of that kind has.
pub open spec fn changes(command: CommandView, old: BlockView) -> bool {
    match command {
        CommandView::SetBlockEnabled { .. } => true,
        CommandView::ConvertBlock { target, .. } => match target {
            ConversionTargetView::TextObservation { .. } => old.head is Observe
                && old.head->Observe_condition.family is Text,
            ConversionTargetView::ImageObservation { .. } => old.head is Observe
                && old.head->Observe_condition.family is Image,
            ConversionTargetView::ClickTextMatch { .. } => old.head is Action
                && old.head->action is ClickTextMatch,
            ConversionTargetView::ClickImageMatch { .. } => old.head is Action
                && old.head->action is ClickImageMatch,
            ConversionTargetView::ClickPoint { .. } => old.head is Action && (
            old.head->action is ClickPoint || old.head->action is ClickRegion),
            ConversionTargetView::ClickRegion { .. } => old.head is Action && (
            old.head->action is ClickPoint || old.head->action is ClickRegion),
            ConversionTargetView::RepeatUntil { .. } => old.head is RepeatN,
            ConversionTargetView::RepeatN { .. } => old.head is RepeatUntil,
        },
        CommandView::SetConditionMode { .. } => old.head is Observe || old.head is If
            || old.head is RepeatUntil,
        CommandView::SetWaitDuration { .. } => old.head is Wait,
        CommandView::SetRepeatCount { .. } => old.head is RepeatN,
        CommandView::SetRepeatUntilMax { .. } => old.head is RepeatUntil,
        CommandView::SetWatchSettings { .. } => old.head is WatchGroup,
        _ => false,
    }
}

/// A block is another with what a command sets, and nothing else, changed.
pub open spec fn is_set(command: CommandView, old: BlockView, new: BlockView) -> bool {
    &&& new.id == old.id
    &&& match command {
        CommandView::SetBlockEnabled { enabled, .. } => new.enabled == enabled && new.head
            == old.head && new.bodies == old.bodies,
        CommandView::ConvertBlock { target, .. } => new.enabled == old.enabled && turned_into(
            old,
            new,
            target,
        ),
        CommandView::SetConditionMode { mode, .. } => new.enabled == old.enabled && waits_anew(
            old,
            new,
            mode,
        ),
        CommandView::SetWaitDuration { duration_ms, .. } => new.enabled == old.enabled && new.bodies
            == old.bodies && new.head == (HeadView::Wait { duration_ms }),
        CommandView::SetRepeatCount { count, .. } => new.enabled == old.enabled && new.bodies
            == old.bodies && new.head == (HeadView::RepeatN { count }),
        CommandView::SetRepeatUntilMax { max_iterations, .. } => new.enabled == old.enabled
            && new.bodies == old.bodies && old.head is RepeatUntil && new.head == (
        HeadView::RepeatUntil {
            condition: old.head->RepeatUntil_condition,
            max_iterations,
        }),
        CommandView::SetWatchSettings { timeout_ms, cooldown_ms, .. } => new.enabled == old.enabled
            && new.bodies == old.bodies && old.head is WatchGroup && new.head == (
        HeadView::WatchGroup {
            timeout_ms,
            outcome: old.head->WatchGroup_outcome,
            cooldown_ms,
        }),
        _ => false,
    }
}

/// A command makes what a block observed before stale.
pub open spec fn unsettles(command: CommandView) -> bool {
    command is ConvertBlock || command is SetConditionMode || command is ReplaceBlock
}

/// Two lists are the same but for one place.
pub open spec fn same_but_at<T>(a: Seq<T>, b: Seq<T>, i: int) -> bool {
    a.len() == b.len() && forall|j: int| 0 <= j < a.len() && j != i ==> #[trigger] a[j] == b[j]
}

/// What a command sets on a block is read back where it was set, and the other blocks of the
/// container and the rest of the definition stay as they were. A command that sets what the block
/// has not is refused as incompatible, and one whose block is missing for that.
pub proof fn settings_are_read_back(before: EditedView, command: CommandView)
    requires
        changed_path(command) is Some,
    ensures
        ({
            let path = changed_path(command)->0;
            let blocks = before.definition.blocks;
            match (block_at(blocks, path), edited(before, command)) {
                (Err(error), Err(answer)) => error == answer,
                (Ok(old), Err(answer)) => !changes(command, old) && answer
                    == EditorErrorView::IncompatibleConversion,
                (Ok(old), Ok(after)) => {
                    let next = after.definition.blocks;
                    &&& changes(command, old)
                    &&& block_at(next, path) is Ok && is_set(command, old, block_at(next, path)->Ok_0)
                    &&& container(next, path.container) is Some && same_but_at(
                        container(next, path.container)->0,
                        container(blocks, path.container)->0,
                        place(blocks, path)->Ok_0,
                    )
                    &&& after.definition == (MacroDefinitionView {
                        blocks: next,
                        ..before.definition
                    })
                    &&& after.invalidated == (if unsettles(command) {
                        before.invalidated.insert(path.block_id)
                    } else {
                        before.invalidated
                    })
                },
                (Err(_), Ok(_)) => false,
            }
        }),
{
    let path = changed_path(command)->0;
    let blocks = before.definition.blocks;
    missing_blocks_are_named(blocks, path);
    if edited(before, command) is Ok {
        let list = container(blocks, path.container)->0;
        let i = place(blocks, path)->Ok_0;
        lemma_first_index(list, has_id(path.block_id));
        let next = edited(before, command)->Ok_0.definition.blocks;
        let old = list[i];
        let new = choose|new: BlockView|
            next == #[trigger] with_block_at(blocks, path, new) && new.id == old.id && is_set(
                command,
                old,
                new,
            );
        lemma_written(blocks, path, new);
    }
}

proof fn lemma_written(blocks: Seq<BlockView>, path: BlockPathView, new: BlockView)
    requires
        block_at(blocks, path) is Ok,
        new.id == path.block_id,
    ensures
        ({
            let next = with_block_at(blocks, path, new);
            &&& block_at(next, path) == Ok::<_, EditorErrorView>(new)
            &&& container(next, path.container) is Some && same_but_at(
                container(next, path.container)->0,
                container(blocks, path.container)->0,
                place(blocks, path)->Ok_0,
            )
        }),
{
    let list = container(blocks, path.container)->0;
    let i = place(blocks, path)->Ok_0;
    lemma_first_index(list, has_id(path.block_id));
    let changed = list.update(i, new);
    container_reads_back(blocks, path.container, changed);
    assert forall|j: int| 0 <= j < i implies !has_id(path.block_id)(#[trigger] changed[j]) by {
        assert(!has_id(path.block_id)(list[j]));
    }
    assert(has_id(path.block_id)(changed[i]));
    lemma_is_first_index(changed, has_id(path.block_id), i);
}

/// The list of a container after an edit, where the edit was accepted.
pub open spec fn list_after(
    result: Result<Seq<BlockView>, EditorErrorView>,
    path: ContainerView,
) -> Seq<BlockView> {
    container(result->Ok_0, path)->0
}

/// A removed block is gone from its container, and the others stay in their order. A loop is removed
/// only with a choice: with it go its contents, or they take its place in their order. To keep the
/// contents of any other block is refused.
pub proof fn removal_closes_the_gap(
    blocks: Seq<BlockView>,
    path: BlockPathView,
    choice: Option<LoopDeletionChoice>,
)
    requires
        block_at(blocks, path) is Ok,
    ensures
        ({
            let old = block_at(blocks, path)->Ok_0;
            let loops = old.head is RepeatN || old.head is RepeatUntil || old.head is Continuous;
            let i = place(blocks, path)->Ok_0;
            let list = container(blocks, path.container)->0;
            let result = removed(blocks, path, choice);
            let now = list_after(result, path.container);
            &&& loops && choice is None ==> result == Err::<Seq<BlockView>, _>(
                EditorErrorView::LoopDeletionChoiceRequired,
            )
            &&& !loops && choice == Some(LoopDeletionChoice::KeepContents) ==> result == Err::<
                Seq<BlockView>,
                _,
            >(EditorErrorView::InvalidLoopDeletionChoice)
            &&& !loops && choice != Some(LoopDeletionChoice::KeepContents) || loops && choice
                == Some(LoopDeletionChoice::DeleteWithContents) ==> {
                &&& result is Ok && container(result->Ok_0, path.container) is Some
                &&& now.len() == list.len() - 1
                &&& forall|j: int| 0 <= j < i ==> #[trigger] now[j] == list[j]
                &&& forall|j: int| i <= j < now.len() ==> #[trigger] now[j] == list[j + 1]
            }
            &&& loops && choice == Some(LoopDeletionChoice::KeepContents) ==> {
                let inner = old.bodies[0].blocks;
                &&& result is Ok && container(result->Ok_0, path.container) is Some
                &&& now.len() == list.len() - 1 + inner.len()
                &&& forall|j: int| 0 <= j < i ==> #[trigger] now[j] == list[j]
                &&& forall|j: int| i <= j < i + inner.len() ==> #[trigger] now[j] == inner[j - i]
                &&& forall|j: int|
                    i + inner.len() <= j < now.len() ==> #[trigger] now[j] == list[j + 1
                        - inner.len()]
            }
        }),
{
    let i = place(blocks, path)->Ok_0;
    let list = container(blocks, path.container)->0;
    lemma_first_index(list, has_id(path.block_id));
    container_reads_back(blocks, path.container, list.remove(i));
    container_reads_back(
        blocks,
        path.container,
        list.take(i) + list[i].bodies[0].blocks + list.skip(i + 1),
    );
}

/// A reordered block stands at the index that it was sent to, and its siblings keep their order. An
/// index behind the last sibling is refused.
pub proof fn reordered_block_stands_at_its_index(
    blocks: Seq<BlockView>,
    path: BlockPathView,
    to: int,
)
    requires
        block_at(blocks, path) is Ok,
        to >= 0,
    ensures
        ({
            let list = container(blocks, path.container)->0;
            let result = reordered(blocks, path, to);
            let now = list_after(result, path.container);
            if to >= list.len() {
                result == Err::<Seq<BlockView>, _>(EditorErrorView::InvalidIndex)
            } else {
                &&& result is Ok && container(result->Ok_0, path.container) is Some
                &&& now.len() == list.len()
                &&& now[to] == block_at(blocks, path)->Ok_0
                &&& now.remove(to) == list.remove(place(blocks, path)->Ok_0)
            }
        }),
{
    let list = container(blocks, path.container)->0;
    lemma_first_index(list, has_id(path.block_id));
    let i = place(blocks, path)->Ok_0;
    let new = list.remove(i).insert(to, list[i]);
    container_reads_back(blocks, path.container, new);
    if to < list.len() {
        assert(new.remove(to) =~= list.remove(i));
    }
}

/// A moved block stands at the index of the target container that it was sent to, with what it
/// holds. A move into the block itself, or below it, is refused.
pub proof fn moved_block_stands_at_its_target(
    blocks: Seq<BlockView>,
    source: BlockPathView,
    target: InsertionTargetView,
)
    requires
        moved(blocks, source, target) is Ok,
        target.index >= 0,
    ensures
        ({
            let next = moved(blocks, source, target)->Ok_0;
            let now = container(next, target.container)->0;
            &&& container(next, target.container) is Some
            &&& 0 <= target.index < now.len()
            &&& Ok::<_, EditorErrorView>(now[target.index]) == block_at(blocks, source)
            &&& source.container == target.container ==> now.len() == container(
                blocks,
                source.container,
            )->0.len() && now.remove(target.index) == container(
                blocks,
                source.container,
            )->0.remove(place(blocks, source)->Ok_0)
        }),
{
    let list = container(blocks, source.container)->0;
    lemma_first_index(list, has_id(source.block_id));
    let i = place(blocks, source)->Ok_0;
    container_reads_back(blocks, source.container, list.remove(i));
    let between = with_container(blocks, source.container, list.remove(i));
    let rest = container(between, target.container)->0;
    let new = rest.insert(target.index, list[i]);
    container_reads_back(between, target.container, new);
    assert(new.remove(target.index) =~= rest);
}

proof fn lemma_block_in_place(blocks: Seq<BlockView>, id: Seq<char>, new: BlockView)
    requires
        found_block(blocks, id) is Some,
        new.id == id,
    ensures
        found_block(with_block(blocks, id, new), id) == Some(new),
    decreases blocks,
{
    lemma_first_id_in_blocks(blocks, id);
    lemma_first_index(blocks, block_has(id));
    let i = first_index(blocks, block_has(id))->0;
    let inner = with_block_below(blocks[i], id, new);
    assert(decreases_to!(blocks => blocks[i]));
    lemma_block_in_place_below(blocks[i], id, new);
    let after = with_block(blocks, id, new);
    assert forall|j: int| 0 <= j < i implies !block_has(id)(#[trigger] after[j]) by {
        assert(!block_has(id)(blocks[j]));
    }
    assert(after[i] == inner);
    assert(block_has(id)(after[i]));
    lemma_is_first_index(after, block_has(id), i);
    lemma_first_id_in_blocks(after, id);
}

proof fn lemma_block_in_place_below(block: BlockView, id: Seq<char>, new: BlockView)
    requires
        block_has(id)(block),
        new.id == id,
    ensures
        first_where(flatten_block(with_block_below(block, id, new)), has_id(id)) == Some(new),
    decreases block,
{
    lemma_first_id_in_block(block, id);
    let after = with_block_below(block, id, new);
    lemma_first_id_in_block(after, id);
    if block.id != id {
        lemma_first_id_in_bodies(block.bodies, id);
        lemma_first_index(block.bodies, body_has(id));
        let k = first_index(block.bodies, body_has(id))->0;
        let body = block.bodies[k];
        let inner = with_block(body.blocks, id, new);
        assert(decreases_to!(block => body.blocks));
        lemma_block_in_place(body.blocks, id, new);
        assert(after == with_body(block, k, inner));
        assert forall|j: int| 0 <= j < k implies !body_has(id)(#[trigger] after.bodies[j]) by {
            assert(!body_has(id)(block.bodies[j]));
        }
        assert(after.bodies[k].blocks == inner);
        assert(body_has(id)(after.bodies[k]));
        lemma_is_first_index(after.bodies, body_has(id), k);
        lemma_first_id_in_bodies(after.bodies, id);
    }
}

/// A block was handed from one list to another: it left the first, whose other blocks keep their
/// order, and stands in the second at an index, where the others keep theirs.
pub open spec fn handed_over(
    from: Seq<BlockView>,
    into: Seq<BlockView>,
    left: Seq<BlockView>,
    right: Seq<BlockView>,
    id: Seq<char>,
    to: int,
) -> bool {
    &&& 0 <= to < right.len() && right[to].id == id && right.remove(to) == into
    &&& exists|i: int|
        0 <= i < from.len() && #[trigger] from[i] == right[to] && left == from.remove(i)
}

/// A block that is moved between the branches of an IF block leaves the one branch, where its
/// siblings close up, and stands in the other at the index that it was sent to.
pub proof fn transferred_block_changes_its_branch(
    blocks: Seq<BlockView>,
    if_id: Seq<char>,
    branch: IfBranch,
    block_id: Seq<char>,
    to: int,
)
    requires
        shaped(blocks),
        transferred(blocks, if_id, branch, block_id, to) is Ok,
        to >= 0,
    ensures
        ({
            let old = found_block(blocks, if_id)->0;
            let new = found_block(
                transferred(blocks, if_id, branch, block_id, to)->Ok_0,
                if_id,
            )->0;
            &&& found_block(blocks, if_id) is Some && old.head is If
            &&& found_block(transferred(blocks, if_id, branch, block_id, to)->Ok_0, if_id) is Some
            &&& new.head == old.head && new.enabled == old.enabled && new.bodies.len()
                == old.bodies.len()
            &&& branch is Then ==> handed_over(
                old.bodies[0].blocks,
                old.bodies[1].blocks,
                new.bodies[0].blocks,
                new.bodies[1].blocks,
                block_id,
                to,
            )
            &&& branch is Else ==> handed_over(
                old.bodies[1].blocks,
                old.bodies[0].blocks,
                new.bodies[1].blocks,
                new.bodies[0].blocks,
                block_id,
                to,
            )
        }),
{
    let old = found_block(blocks, if_id)->0;
    let from = if branch is Then {
        0
    } else {
        1int
    };
    let source = old.bodies[from].blocks;
    lemma_first_index(source, has_id(block_id));
    let i = first_index(source, has_id(block_id))->0;
    let new = branch_moved(old, branch, block_id, to)->Ok_0;
    let at = lemma_first_where_found(flatten(blocks), has_id(if_id));
    assert(well_shaped(flatten(blocks)[at]));
    lemma_block_in_place(blocks, if_id, new);
    assert(transferred(blocks, if_id, branch, block_id, to)->Ok_0 == with_block(blocks, if_id, new));
    let target = old.bodies[1 - from].blocks;
    assert(target.insert(to, source[i]).remove(to) =~= target);
    assert(new.bodies[from].blocks == source.remove(i));
    assert(new.bodies[1 - from].blocks == target.insert(to, source[i]));
    assert(handed_over(
        source,
        target,
        new.bodies[from].blocks,
        new.bodies[1 - from].blocks,
        block_id,
        to,
    ));
}

/// A moved lane stands at the priority that it was sent to, with what it holds, and the other lanes
/// keep their order.
pub proof fn moved_lane_stands_at_its_priority(
    blocks: Seq<BlockView>,
    group_id: Seq<char>,
    lane_id: Seq<char>,
    to: int,
)
    requires
        lane_moved(blocks, group_id, lane_id, to) is Ok,
        to >= 0,
    ensures
        ({
            let old = found_block(blocks, group_id)->0;
            let next = lane_moved(blocks, group_id, lane_id, to)->Ok_0;
            let new = found_block(next, group_id)->0;
            &&& found_block(next, group_id) is Some
            &&& new.head == old.head && new.enabled == old.enabled
            &&& new.bodies.len() == old.bodies.len()
            &&& is_lane(lane_id)(new.bodies[to])
            &&& exists|k: int|
                0 <= k < old.bodies.len() && #[trigger] old.bodies[k] == new.bodies[to]
                    && new.bodies.remove(to) == old.bodies.remove(k)
        }),
{
    let old = found_block(blocks, group_id)->0;
    lemma_first_index(old.bodies, is_lane(lane_id));
    let k = first_index(old.bodies, is_lane(lane_id))->0;
    lemma_lane_count(old.bodies);
    let bodies = old.bodies.remove(k).insert(to, old.bodies[k]);
    lemma_first_where_found(flatten(blocks), has_id(group_id));
    lemma_block_in_place(blocks, group_id, BlockView { bodies, ..old });
    assert(bodies.remove(to) =~= old.bodies.remove(k));
}

/// A lane that is switched on or off is so afterwards; it keeps its identity, its condition and its
/// blocks, and the other bodies of its group stay as they were.
pub proof fn switched_lane_stays_otherwise(
    blocks: Seq<BlockView>,
    group_id: Seq<char>,
    lane_id: Seq<char>,
    enabled: bool,
)
    requires
        lane_enabled(blocks, group_id, lane_id, enabled) is Ok,
    ensures
        ({
            let old = found_block(blocks, group_id)->0;
            let next = lane_enabled(blocks, group_id, lane_id, enabled)->Ok_0;
            let new = found_block(next, group_id)->0;
            &&& found_block(next, group_id) is Some
            &&& new.head == old.head && new.enabled == old.enabled
            &&& exists|k: int|
                #![trigger old.bodies[k]]
                #![trigger new.bodies[k]]
                0 <= k < old.bodies.len() && is_lane(lane_id)(old.bodies[k]) && same_but_at(
                    new.bodies,
                    old.bodies,
                    k,
                ) && new.bodies[k].blocks == old.bodies[k].blocks && new.bodies[k].role == (
                RoleView::Lane {
                    id: lane_id,
                    enabled,
                    condition: old.bodies[k].role->Lane_condition,
                })
        }),
{
    let old = found_block(blocks, group_id)->0;
    lemma_first_index(old.bodies, is_lane(lane_id));
    let k = first_index(old.bodies, is_lane(lane_id))->0;
    let bodies = old.bodies.update(k, lane_set(old.bodies[k], enabled));
    lemma_first_where_found(flatten(blocks), has_id(group_id));
    lemma_block_in_place(blocks, group_id, BlockView { bodies, ..old });
    assert(same_but_at(bodies, old.bodies, k));
}

/// The blocks that a block holds for itself, in the order in which they are shown: those of its
/// branches, of its loop or of its lanes. What runs on a timeout is none of them.
pub open spec fn own_contents(bodies: Seq<BodyView>) -> Seq<BlockView>
    decreases bodies.len(),
{
    if bodies.len() == 0 {
        Seq::empty()
    } else if bodies.last().role is Timeout {
        own_contents(bodies.drop_last())
    } else {
        own_contents(bodies.drop_last()) + bodies.last().blocks
    }
}

proof fn lemma_timeouts_hold_nothing(bodies: Seq<BodyView>, n: int)
    requires
        0 <= n <= bodies.len(),
        forall|k: int| n <= k < bodies.len() ==> (#[trigger] bodies[k]).role is Timeout,
    ensures
        own_contents(bodies) == own_contents(bodies.take(n)),
    decreases bodies.len(),
{
    if n < bodies.len() {
        assert(bodies.last() == bodies[bodies.len() - 1]);
        lemma_timeouts_hold_nothing(bodies.drop_last(), n);
        assert(bodies.drop_last().take(n) =~= bodies.take(n));
    } else {
        assert(bodies.take(n) =~= bodies);
    }
}

proof fn lemma_lane_contents(bodies: Seq<BodyView>)
    requires
        forall|k: int|
            0 <= k < bodies.len() ==> (#[trigger] bodies[k]).role is Lane
                || bodies[k].role is Timeout,
    ensures
        lane_contents(bodies) == own_contents(bodies),
    decreases bodies.len(),
{
    if bodies.len() > 0 {
        assert(bodies.last() == bodies[bodies.len() - 1]);
        lemma_lane_contents(bodies.drop_last());
    }
}

/// What is kept of a block that is replaced is what it holds for itself.
pub proof fn kept_contents_are_the_blocks_own(block: Block)
    ensures
        kept_contents(block@) == own_contents(block@.bodies),
{
    let bodies = block@.bodies;
    lemma_roles(block);
    assert forall|k: int| 0 <= k < bodies.len() implies role_fits(
        block.kind,
        k,
        (#[trigger] bodies[k]).role,
    ) by {}
    reveal_with_fuel(own_contents, 3);
    match block@.head {
        HeadView::If { .. } => {
            lemma_timeouts_hold_nothing(bodies, 2);
            let two = bodies.take(2);
            assert(two.drop_last() =~= bodies.take(1));
            assert(bodies.take(1).drop_last() =~= Seq::empty());
            assert(own_contents(two) =~= bodies[0].blocks + bodies[1].blocks);
        },
        HeadView::WatchGroup { .. } => {
            lemma_lane_contents(bodies);
        },
        HeadView::RepeatN { .. } | HeadView::RepeatUntil { .. } | HeadView::Continuous => {
            lemma_timeouts_hold_nothing(bodies, 1);
            assert(bodies.take(1).drop_last() =~= Seq::empty());
            assert(own_contents(bodies.take(1)) =~= bodies[0].blocks);
        },
        _ => {
            lemma_timeouts_hold_nothing(bodies, 0);
        },
    }
}

/// A replacement stands where the replaced block stood. What the replaced block held for itself
/// follows right behind it, where that is to be kept, and the other siblings stay in their order. A
/// replacement of another identity is refused.
pub proof fn replacement_takes_the_place(
    blocks: Seq<BlockView>,
    path: BlockPathView,
    replacement: BlockView,
    children: ChildDisposition,
)
    requires
        block_at(blocks, path) is Ok,
    ensures
        ({
            let old = block_at(blocks, path)->Ok_0;
            let i = place(blocks, path)->Ok_0;
            let list = container(blocks, path.container)->0;
            let result = replaced(blocks, path, replacement, children);
            let now = list_after(result, path.container);
            let kept = if children is KeepOwnedContents {
                kept_contents(old)
            } else {
                Seq::empty()
            };
            if replacement.id != path.block_id {
                result == Err::<Seq<BlockView>, _>(EditorErrorView::ReplacementIdMismatch)
            } else {
                &&& result is Ok && container(result->Ok_0, path.container) is Some
                &&& now.len() == list.len() + kept.len()
                &&& now[i] == replacement
                &&& forall|j: int| 0 <= j < i ==> #[trigger] now[j] == list[j]
                &&& forall|j: int|
                    i < j <= i + kept.len() ==> #[trigger] now[j] == kept[j - i - 1]
                &&& forall|j: int|
                    i + kept.len() < j < now.len() ==> #[trigger] now[j] == list[j - kept.len()]
            }
        }),
{
    let i = place(blocks, path)->Ok_0;
    let list = container(blocks, path.container)->0;
    lemma_first_index(list, has_id(path.block_id));
    let kept = if children is KeepOwnedContents {
        kept_contents(list[i])
    } else {
        Seq::empty()
    };
    container_reads_back(
        blocks,
        path.container,
        list.take(i) + (seq![replacement] + kept) + list.skip(i + 1),
    );
}

} // verus!
