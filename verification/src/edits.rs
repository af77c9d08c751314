//! Edits of a list of blocks: what each leaves, and when it is refused.
use crate::block_edit::{kept_contents, owned_contents};
use crate::block_place::{find_block_mut, with_block};
use crate::container::{
    container, find_container, find_container_mut, lane_position, lemma_roles, role_fits,
    with_container, ContainerPath, ContainerView,
};
use crate::content::views;
use crate::duplicate::{duplicate_with_new_ids, duplicated};
use crate::editor_types::{
    BlockPath, BlockPathView, ChildDisposition, EditorError, EditorErrorView, IfBranch,
    InsertionTarget, InsertionTargetView, LoopDeletionChoice,
};
use crate::identities::{ids_of, lane_ids, structural_id_set, structural_ids};
use crate::macro_engine::{
    block_view, blocks_view, kind_bodies, lane_view, lanes_view, outcome_bodies, Block, BlockKind,
    BlockView, BodyView, HeadView, RoleView,
};
use crate::text::same_text;
use crate::tree::{
    first_index, flatten, flatten_block, found_block, has_id, lemma_first_index,
    lemma_is_first_index,
};
use vstd::prelude::*;

verus! {

broadcast use crate::macro_engine::group_block_views;

/// The position of a block in the container that its path names.
pub open spec fn place(blocks: Seq<BlockView>, path: BlockPathView) -> Result<
    int,
    EditorErrorView,
> {
    match container(blocks, path.container) {
        None => Err(EditorErrorView::MissingContainer),
        Some(list) => match first_index(list, has_id(path.block_id)) {
            None => Err(EditorErrorView::MissingBlock(path.block_id)),
            Some(i) => Ok(i),
        },
    }
}

/// The block that a path names.
pub open spec fn block_at(blocks: Seq<BlockView>, path: BlockPathView) -> Result<
    BlockView,
    EditorErrorView,
> {
    match place(blocks, path) {
        Err(error) => Err(error),
        Ok(i) => Ok(container(blocks, path.container)->0[i]),
    }
}

/// The blocks with the block that a path names replaced.
pub open spec fn with_block_at(
    blocks: Seq<BlockView>,
    path: BlockPathView,
    new: BlockView,
) -> Seq<BlockView> {
    with_container(
        blocks,
        path.container,
        container(blocks, path.container)->0.update(place(blocks, path)->Ok_0, new),
    )
}

/// The blocks with a block put into a container.
pub open spec fn inserted(
    blocks: Seq<BlockView>,
    target: InsertionTargetView,
    block: BlockView,
) -> Result<Seq<BlockView>, EditorErrorView> {
    match container(blocks, target.container) {
        None => Err(EditorErrorView::MissingContainer),
        Some(list) => if target.index > list.len() {
            Err(EditorErrorView::InvalidIndex)
        } else {
            Ok(with_container(blocks, target.container, list.insert(target.index, block)))
        },
    }
}

/// The block is a loop.
pub open spec fn is_loop(head: HeadView) -> bool {
    head is RepeatN || head is RepeatUntil || head is Continuous
}

/// A list with the element at an index replaced by others.
pub open spec fn spliced<T>(list: Seq<T>, i: int, others: Seq<T>) -> Seq<T> {
    list.take(i) + others + list.skip(i + 1)
}

/// The blocks with one removed; a loop goes with its body, or leaves it in its place.
pub open spec fn removed(
    blocks: Seq<BlockView>,
    path: BlockPathView,
    choice: Option<LoopDeletionChoice>,
) -> Result<Seq<BlockView>, EditorErrorView> {
    match place(blocks, path) {
        Err(error) => Err(error),
        Ok(i) => {
            let list = container(blocks, path.container)->0;
            if is_loop(list[i].head) {
                match choice {
                    None => Err(EditorErrorView::LoopDeletionChoiceRequired),
                    Some(LoopDeletionChoice::DeleteWithContents) => Ok(
                        with_container(blocks, path.container, list.remove(i)),
                    ),
                    Some(LoopDeletionChoice::KeepContents) => Ok(
                        with_container(
                            blocks,
                            path.container,
                            spliced(list, i, list[i].bodies[0].blocks),
                        ),
                    ),
                }
            } else if choice == Some(LoopDeletionChoice::KeepContents) {
                Err(EditorErrorView::InvalidLoopDeletionChoice)
            } else {
                Ok(with_container(blocks, path.container, list.remove(i)))
            }
        },
    }
}

/// The blocks with a copy of one, under new identities, put into a container.
pub open spec fn copied(
    blocks: Seq<BlockView>,
    source: BlockPathView,
    target: InsertionTargetView,
) -> Result<Seq<BlockView>, EditorErrorView> {
    match block_at(blocks, source) {
        Err(error) => Err(error),
        Ok(block) => inserted(
            blocks,
            target,
            duplicated(block, structural_ids(blocks).to_set()),
        ),
    }
}

/// The blocks with one moved to another place among its siblings.
pub open spec fn reordered(
    blocks: Seq<BlockView>,
    path: BlockPathView,
    to: int,
) -> Result<Seq<BlockView>, EditorErrorView> {
    match container(blocks, path.container) {
        None => Err(EditorErrorView::MissingContainer),
        Some(list) => if to >= list.len() {
            Err(EditorErrorView::InvalidIndex)
        } else {
            match first_index(list, has_id(path.block_id)) {
                None => Err(EditorErrorView::MissingBlock(path.block_id)),
                Some(i) => Ok(
                    with_container(blocks, path.container, list.remove(i).insert(to, list[i])),
                ),
            }
        },
    }
}

/// The identities that a container path names.
pub open spec fn path_ids(path: ContainerView) -> Seq<Seq<char>> {
    match path {
        ContainerView::Root => Seq::empty(),
        ContainerView::IfThen { if_id } => seq![if_id],
        ContainerView::IfElse { if_id } => seq![if_id],
        ContainerView::LoopBody { loop_id } => seq![loop_id],
        ContainerView::WatchLaneBody { watch_id, lane_id } => seq![watch_id, lane_id],
        ContainerView::TimeoutBody { owner_id } => seq![owner_id],
    }
}

/// A container path names an identity that a block or something below it has.
pub open spec fn below(path: ContainerView, block: BlockView) -> bool {
    exists|k: int|
        0 <= k < path_ids(path).len() && ids_of(flatten_block(block)).contains(
            #[trigger] path_ids(path)[k],
        )
}

/// The blocks with one taken out of its container and put into another, not below itself.
pub open spec fn moved(
    blocks: Seq<BlockView>,
    source: BlockPathView,
    target: InsertionTargetView,
) -> Result<Seq<BlockView>, EditorErrorView> {
    match place(blocks, source) {
        Err(error) => Err(error),
        Ok(i) => {
            let list = container(blocks, source.container)->0;
            if below(target.container, list[i]) {
                Err(EditorErrorView::IllegalDescendantMove)
            } else {
                inserted(
                    with_container(blocks, source.container, list.remove(i)),
                    target,
                    list[i],
                )
            }
        },
    }
}

/// An IF block with one block moved from a branch to the other.
pub open spec fn branch_moved(
    block: BlockView,
    branch: IfBranch,
    block_id: Seq<char>,
    to: int,
) -> Result<BlockView, EditorErrorView> {
    let from = if branch is Then {
        0
    } else {
        1int
    };
    let source = block.bodies[from].blocks;
    let target = block.bodies[1 - from].blocks;
    match first_index(source, has_id(block_id)) {
        None => Err(EditorErrorView::MissingBlock(block_id)),
        Some(i) => if to > target.len() {
            Err(EditorErrorView::InvalidIndex)
        } else {
            Ok(
                BlockView {
                    bodies: block.bodies.update(
                        from,
                        BodyView { role: block.bodies[from].role, blocks: source.remove(i) },
                    ).update(
                        1 - from,
                        BodyView {
                            role: block.bodies[1 - from].role,
                            blocks: target.insert(to, source[i]),
                        },
                    ),
                    ..block
                },
            )
        },
    }
}

/// The blocks with one moved between the branches of an IF block.
pub open spec fn transferred(
    blocks: Seq<BlockView>,
    if_id: Seq<char>,
    branch: IfBranch,
    block_id: Seq<char>,
    to: int,
) -> Result<Seq<BlockView>, EditorErrorView> {
    match found_block(blocks, if_id) {
        None => Err(EditorErrorView::MissingBlock(if_id)),
        Some(block) => if !(block.head is If) {
            Err(EditorErrorView::MissingContainer)
        } else {
            match branch_moved(block, branch, block_id, to) {
                Err(error) => Err(error),
                Ok(new) => Ok(with_block(blocks, if_id, new)),
            }
        },
    }
}

/// The predicate that picks the bodies that are the lane of an identity.
pub open spec fn is_lane(lane_id: Seq<char>) -> spec_fn(BodyView) -> bool {
    |body: BodyView| body.role matches RoleView::Lane { id, .. } && id == lane_id
}

/// The blocks with a lane of a watch group moved to another priority.
pub open spec fn lane_moved(
    blocks: Seq<BlockView>,
    group_id: Seq<char>,
    lane_id: Seq<char>,
    to: int,
) -> Result<Seq<BlockView>, EditorErrorView> {
    match found_block(blocks, group_id) {
        None => Err(EditorErrorView::MissingBlock(group_id)),
        Some(group) => if !(group.head is WatchGroup) {
            Err(EditorErrorView::MissingContainer)
        } else if to >= lane_ids(group.bodies).len() {
            Err(EditorErrorView::InvalidIndex)
        } else {
            match first_index(group.bodies, is_lane(lane_id)) {
                None => Err(EditorErrorView::MissingLane(lane_id)),
                Some(from) => Ok(
                    with_block(
                        blocks,
                        group_id,
                        BlockView {
                            bodies: group.bodies.remove(from).insert(to, group.bodies[from]),
                            ..group
                        },
                    ),
                ),
            }
        },
    }
}

/// A lane with another enablement.
pub open spec fn lane_set(body: BodyView, enabled: bool) -> BodyView {
    match body.role {
        RoleView::Lane { id, condition, .. } => BodyView {
            role: RoleView::Lane { id, enabled, condition },
            ..body
        },
        _ => body,
    }
}

/// The blocks with a lane of a watch group enabled or disabled.
pub open spec fn lane_enabled(
    blocks: Seq<BlockView>,
    group_id: Seq<char>,
    lane_id: Seq<char>,
    enabled: bool,
) -> Result<Seq<BlockView>, EditorErrorView> {
    match found_block(blocks, group_id) {
        None => Err(EditorErrorView::MissingLane(lane_id)),
        Some(group) => match first_index(group.bodies, is_lane(lane_id)) {
            None => Err(EditorErrorView::MissingLane(lane_id)),
            Some(k) => Ok(
                with_block(
                    blocks,
                    group_id,
                    BlockView {
                        bodies: group.bodies.update(k, lane_set(group.bodies[k], enabled)),
                        ..group
                    },
                ),
            ),
        },
    }
}

/// The blocks with one replaced under its identity; the blocks it owned may follow it.
pub open spec fn replaced(
    blocks: Seq<BlockView>,
    path: BlockPathView,
    replacement: BlockView,
    children: ChildDisposition,
) -> Result<Seq<BlockView>, EditorErrorView> {
    if replacement.id != path.block_id {
        Err(EditorErrorView::ReplacementIdMismatch)
    } else {
        match place(blocks, path) {
            Err(error) => Err(error),
            Ok(i) => {
                let list = container(blocks, path.container)->0;
                let kept = match children {
                    ChildDisposition::DeleteOwnedContents => Seq::empty(),
                    ChildDisposition::KeepOwnedContents => kept_contents(list[i]),
                };
                Ok(
                    with_container(
                        blocks,
                        path.container,
                        spliced(list, i, seq![replacement] + kept),
                    ),
                )
            },
        }
    }
}

/// The position of the first block of an identity in a list.
pub fn block_position(list: &Vec<Block>, id: &str) -> (position: Option<usize>)
    ensures
        match position {
            Some(i) => first_index(blocks_view(list@), has_id(id@)) == Some(i as int) && i
                < list@.len(),
            None => first_index(blocks_view(list@), has_id(id@)) is None,
        },
{
    let ghost all = blocks_view(list@);
    let mut i: usize = 0;
    proof {
        lemma_first_index(all, has_id(id@));
    }
    while i < list.len()
        invariant
            i <= list@.len(),
            all == blocks_view(list@),
            forall|j: int| 0 <= j < i ==> !has_id(id@)(#[trigger] all[j]),
        decreases list@.len() - i,
    {
        if same_text(list[i].id.as_str(), id) {
            proof {
                assert(has_id(id@)(all[i as int]));
                lemma_is_first_index(all, has_id(id@), i as int);
            }
            return Some(i);
        }
        assert(!has_id(id@)(all[i as int]));
        i += 1;
    }
    None
}

/// Finds the block that a path names.
pub fn find_block_in_container<'a>(blocks: &'a Vec<Block>, path: &BlockPath) -> (found: Result<
    &'a Block,
    EditorError,
>)
    ensures
        match found {
            Ok(block) => block_at(blocks_view(blocks@), path@) == Ok::<_, EditorErrorView>(block@),
            Err(error) => block_at(blocks_view(blocks@), path@) == Err::<BlockView, _>(error@),
        },
{
    match find_container(blocks, &path.container) {
        None => Err(EditorError::MissingContainer),
        Some(list) => match block_position(list, path.block_id.as_str()) {
            None => Err(EditorError::MissingBlock(path.block_id.clone())),
            Some(i) => Ok(&list[i]),
        },
    }
}

/// Finds the block that a path names, for changing it.
pub fn find_block_in_container_mut<'a>(blocks: &'a mut Vec<Block>, path: &BlockPath) -> (found:
    Result<&'a mut Block, EditorError>)
    ensures
        match found {
            Ok(block) => block_at(blocks_view(old(blocks)@), path@) == Ok::<_, EditorErrorView>(
                block@,
            ) && blocks_view(final(blocks)@) == with_block_at(
                blocks_view(old(blocks)@),
                path@,
                final(block)@,
            ),
            Err(error) => block_at(blocks_view(old(blocks)@), path@) == Err::<BlockView, _>(error@),
        },
{
    match find_container_mut(blocks, &path.container) {
        None => Err(EditorError::MissingContainer),
        Some(list) => match block_position(list, path.block_id.as_str()) {
            None => Err(EditorError::MissingBlock(path.block_id.clone())),
            Some(i) => {
                proof {
                    let all = blocks_view(list@);
                    assert forall|block: Block|
                        #[trigger] blocks_view(list@.update(i as int, block)) == all.update(
                            i as int,
                            block_view(block),
                        ) by {
                        assert(blocks_view(list@.update(i as int, block)) =~= all.update(
                            i as int,
                            block_view(block),
                        ));
                    }
                }
                Ok(&mut list[i])
            },
        },
    }
}

/// Puts a block into a container.
pub fn insert_block(blocks: &mut Vec<Block>, target: &InsertionTarget, block: Block) -> (result:
    Result<(), EditorError>)
    ensures
        match result {
            Ok(()) => inserted(blocks_view(old(blocks)@), target@, block@) == Ok::<
                _,
                EditorErrorView,
            >(blocks_view(final(blocks)@)),
            Err(error) => inserted(blocks_view(old(blocks)@), target@, block@) == Err::<
                Seq<BlockView>,
                _,
            >(error@),
        },
{
    match find_container_mut(blocks, &target.container) {
        None => Err(EditorError::MissingContainer),
        Some(list) => {
            if target.index > list.len() {
                return Err(EditorError::InvalidIndex);
            }
            let ghost before = list@;
            list.insert(target.index, block);
            assert(blocks_view(list@) =~= blocks_view(before).insert(
                target.index as int,
                block_view(block),
            ));
            Ok(())
        },
    }
}

/// Puts blocks into a list before an index.
fn splice_blocks(list: &mut Vec<Block>, at: usize, others: Vec<Block>)
    requires
        at <= old(list)@.len(),
    ensures
        blocks_view(final(list)@) == blocks_view(old(list)@).take(at as int) + blocks_view(others@)
            + blocks_view(old(list)@).skip(at as int),
{
    let ghost before = list@;
    let mut others = others;
    let ghost middle = others@;
    let mut rest = list.split_off(at);
    list.append(&mut others);
    list.append(&mut rest);
    assert(list@ =~= before.take(at as int) + middle + before.skip(at as int));
    assert(blocks_view(list@) =~= blocks_view(before).take(at as int) + blocks_view(middle)
        + blocks_view(before).skip(at as int));
}

/// Removes a block; a loop goes with its body, or leaves it in its place.
pub fn remove_block(
    blocks: &mut Vec<Block>,
    path: &BlockPath,
    choice: Option<LoopDeletionChoice>,
) -> (result: Result<(), EditorError>)
    ensures
        match result {
            Ok(()) => removed(blocks_view(old(blocks)@), path@, choice) == Ok::<
                _,
                EditorErrorView,
            >(blocks_view(final(blocks)@)),
            Err(error) => removed(blocks_view(old(blocks)@), path@, choice) == Err::<
                Seq<BlockView>,
                _,
            >(error@),
        },
{
    let list = match find_container_mut(blocks, &path.container) {
        None => return Err(EditorError::MissingContainer),
        Some(list) => list,
    };
    let i: usize = match block_position(list, path.block_id.as_str()) {
        None => return Err(EditorError::MissingBlock(path.block_id.clone())),
        Some(i) => i,
    };
    let ghost before = list@;
    let ghost all = blocks_view(before);
    let gone = list.remove(i);
    proof {
        assert(blocks_view(list@) =~= all.remove(i as int));
        assert(gone@ == all[i as int]);
        assert(gone@.bodies == kind_bodies(gone.kind));
    }
    let body = match gone.kind {
        BlockKind::RepeatN { body, .. } => body,
        BlockKind::RepeatUntil { body, .. } => body,
        BlockKind::Continuous { body } => body,
        _ => {
            return if let Some(LoopDeletionChoice::KeepContents) = choice {
                Err(EditorError::InvalidLoopDeletionChoice)
            } else {
                Ok(())
            };
        },
    };
    match choice {
        None => Err(EditorError::LoopDeletionChoiceRequired),
        Some(LoopDeletionChoice::DeleteWithContents) => Ok(()),
        Some(LoopDeletionChoice::KeepContents) => {
            splice_blocks(list, i, body);
            assert(blocks_view(list@) =~= spliced(all, i as int, all[i as int].bodies[0].blocks));
            Ok(())
        },
    }
}

/// Puts a copy of a block, under new identities, into a container.
pub fn copy_block(blocks: &mut Vec<Block>, source: &BlockPath, target: &InsertionTarget) -> (result:
    Result<(), EditorError>)
    ensures
        match result {
            Ok(()) => copied(blocks_view(old(blocks)@), source@, target@) == Ok::<
                _,
                EditorErrorView,
            >(blocks_view(final(blocks)@)),
            Err(error) => copied(blocks_view(old(blocks)@), source@, target@) == Err::<
                Seq<BlockView>,
                _,
            >(error@),
        },
{
    let copy = match find_block_in_container(blocks, source) {
        Err(error) => return Err(error),
        Ok(block) => {
            let mut used = structural_id_set(blocks);
            duplicate_with_new_ids(block, &mut used)
        },
    };
    insert_block(blocks, target, copy)
}

/// Moves a block to another place among its siblings.
pub fn move_within_container(blocks: &mut Vec<Block>, path: &BlockPath, to: usize) -> (result:
    Result<(), EditorError>)
    ensures
        match result {
            Ok(()) => reordered(blocks_view(old(blocks)@), path@, to as int) == Ok::<
                _,
                EditorErrorView,
            >(blocks_view(final(blocks)@)),
            Err(error) => reordered(blocks_view(old(blocks)@), path@, to as int) == Err::<
                Seq<BlockView>,
                _,
            >(error@),
        },
{
    let list = match find_container_mut(blocks, &path.container) {
        None => return Err(EditorError::MissingContainer),
        Some(list) => list,
    };
    if to >= list.len() {
        return Err(EditorError::InvalidIndex);
    }
    let i: usize = match block_position(list, path.block_id.as_str()) {
        None => return Err(EditorError::MissingBlock(path.block_id.clone())),
        Some(i) => i,
    };
    let ghost all = blocks_view(list@);
    let block = list.remove(i);
    assert(blocks_view(list@) =~= all.remove(i as int));
    list.insert(to, block);
    assert(blocks_view(list@) =~= all.remove(i as int).insert(to as int, all[i as int]));
    Ok(())
}

/// The identities that a container path names, owner first.
fn owner_ids(path: &ContainerPath) -> (ids: Vec<&String>)
    ensures
        views(ids@) == path_ids(path@),
{
    let mut ids: Vec<&String> = Vec::new();
    match path {
        ContainerPath::Root => {},
        ContainerPath::IfThen { if_id } => ids.push(if_id),
        ContainerPath::IfElse { if_id } => ids.push(if_id),
        ContainerPath::LoopBody { loop_id } => ids.push(loop_id),
        ContainerPath::WatchLaneBody { watch_id, lane_id } => {
            ids.push(watch_id);
            ids.push(lane_id);
        },
        ContainerPath::TimeoutBody { owner_id } => ids.push(owner_id),
    }
    assert(views(ids@) =~= path_ids(path@));
    ids
}

/// Whether a container path names an identity that a block or something below it has.
pub fn path_below(path: &ContainerPath, block: &Block) -> (inside: bool)
    ensures
        inside == below(path@, block@),
{
    let mut alone: Vec<Block> = Vec::new();
    alone.push(block.clone());
    let descendants = structural_id_set(&alone);
    proof {
        assert(blocks_view(alone@) =~= seq![block@]);
        reveal_with_fuel(flatten, 2);
        assert(seq![block@].drop_last() =~= Seq::empty());
        assert(flatten(seq![block@]) =~= flatten_block(block@));
    }
    let owners = owner_ids(path);
    let ghost own = ids_of(flatten_block(block@));
    let ghost names = path_ids(path@);
    let mut k: usize = 0;
    while k < owners.len()
        invariant
            k <= owners@.len(),
            views(owners@) == names,
            descendants@ == own.to_set(),
            own == ids_of(flatten_block(block@)),
            names == path_ids(path@),
            forall|j: int| 0 <= j < k ==> !own.contains(#[trigger] names[j]),
        decreases owners@.len() - k,
    {
        assert(names[k as int] == owners@[k as int]@);
        if descendants.contains(owners[k].as_str()) {
            assert(own.contains(names[k as int]));
            return true;
        }
        k += 1;
    }
    false
}

/// Takes a block out of its container and puts it into another, not below itself.
pub fn move_block(blocks: &mut Vec<Block>, source: &BlockPath, target: &InsertionTarget) -> (result:
    Result<(), EditorError>)
    ensures
        match result {
            Ok(()) => moved(blocks_view(old(blocks)@), source@, target@) == Ok::<
                _,
                EditorErrorView,
            >(blocks_view(final(blocks)@)),
            Err(error) => moved(blocks_view(old(blocks)@), source@, target@) == Err::<
                Seq<BlockView>,
                _,
            >(error@),
        },
{
    match find_block_in_container(blocks, source) {
        Err(error) => return Err(error),
        Ok(moving) => {
            if path_below(&target.container, moving) {
                return Err(EditorError::IllegalDescendantMove);
            }
        },
    }
    let list = match find_container_mut(blocks, &source.container) {
        None => return Err(EditorError::MissingContainer),
        Some(list) => list,
    };
    let i: usize = match block_position(list, source.block_id.as_str()) {
        None => return Err(EditorError::MissingBlock(source.block_id.clone())),
        Some(i) => i,
    };
    let ghost all = blocks_view(list@);
    let moving = list.remove(i);
    assert(blocks_view(list@) =~= all.remove(i as int));
    insert_block(blocks, target, moving)
}

/// Moves a block between two lists.
fn move_between(source: &mut Vec<Block>, target: &mut Vec<Block>, id: &String, to: usize) -> (result:
    Result<(), EditorError>)
    ensures
        match first_index(blocks_view(old(source)@), has_id(id@)) {
            None => result matches Err(error) && error@ == EditorErrorView::MissingBlock(id@),
            Some(i) => if to > old(target)@.len() {
                result matches Err(error) && error@ == EditorErrorView::InvalidIndex
            } else {
                &&& result is Ok
                &&& blocks_view(final(source)@) == blocks_view(old(source)@).remove(i)
                &&& blocks_view(final(target)@) == blocks_view(old(target)@).insert(
                    to as int,
                    blocks_view(old(source)@)[i],
                )
            },
        },
{
    let i: usize = match block_position(source, id.as_str()) {
        None => return Err(EditorError::MissingBlock(id.clone())),
        Some(i) => i,
    };
    if to > target.len() {
        return Err(EditorError::InvalidIndex);
    }
    let ghost from = blocks_view(source@);
    let ghost into = blocks_view(target@);
    let block = source.remove(i);
    assert(blocks_view(source@) =~= from.remove(i as int));
    target.insert(to, block);
    assert(blocks_view(target@) =~= into.insert(to as int, from[i as int]));
    Ok(())
}

/// Moves a block from one branch of an IF block to the other.
fn move_branch(block: &mut Block, branch: IfBranch, block_id: &String, to: usize) -> (result: Result<
    (),
    EditorError,
>)
    ensures
        if old(block)@.head is If {
            match result {
                Ok(()) => branch_moved(old(block)@, branch, block_id@, to as int) == Ok::<
                    _,
                    EditorErrorView,
                >(final(block)@),
                Err(error) => branch_moved(old(block)@, branch, block_id@, to as int) == Err::<
                    BlockView,
                    _,
                >(error@),
            }
        } else {
            result matches Err(error) && error@ == EditorErrorView::MissingContainer
        },
{
    let ghost before = *block;
    assert(before@.bodies == kind_bodies(before.kind));
    let result = match &mut block.kind {
        BlockKind::If { then_body, else_body, .. } => match branch {
            IfBranch::Then => move_between(then_body, else_body, block_id, to),
            IfBranch::Else => move_between(else_body, then_body, block_id, to),
        },
        _ => Err(EditorError::MissingContainer),
    };
    proof {
        assert(block@.bodies == kind_bodies(block.kind));
        if result is Ok {
            let new = branch_moved(before@, branch, block_id@, to as int)->Ok_0;
            assert(block@.bodies =~= new.bodies);
            assert(block@ =~= new);
        }
    }
    result
}

/// Moves a block between the branches of an IF block.
pub fn transfer_branch(
    blocks: &mut Vec<Block>,
    if_id: &String,
    branch: IfBranch,
    block_id: &String,
    to: usize,
) -> (result: Result<(), EditorError>)
    ensures
        match result {
            Ok(()) => transferred(
                blocks_view(old(blocks)@),
                if_id@,
                branch,
                block_id@,
                to as int,
            ) == Ok::<_, EditorErrorView>(blocks_view(final(blocks)@)),
            Err(error) => transferred(
                blocks_view(old(blocks)@),
                if_id@,
                branch,
                block_id@,
                to as int,
            ) == Err::<Seq<BlockView>, _>(error@),
        },
{
    match find_block_mut(blocks, if_id.as_str()) {
        None => Err(EditorError::MissingBlock(if_id.clone())),
        Some(block) => move_branch(block, branch, block_id, to),
    }
}

/// The bodies of a watch group are its lanes and then its timeout body.
proof fn lemma_watch_lanes(block: Block)
    requires
        block.kind is WatchGroup,
    ensures
        block@.bodies == lanes_view(block.kind->group.lanes@) + outcome_bodies(
            block.kind->group.timeout_outcome,
        ),
        lane_ids(block@.bodies).len() == block.kind->group.lanes@.len(),
        forall|j: int|
            0 <= j < block.kind->group.lanes@.len() ==> #[trigger] block@.bodies[j] == lane_view(
                block.kind->group.lanes@[j],
            ),
        forall|j: int|
            block.kind->group.lanes@.len() <= j < block@.bodies.len() ==> (
            #[trigger] block@.bodies[j]).role is Timeout,
{
    let lanes = lanes_view(block.kind->group.lanes@);
    let rest = outcome_bodies(block.kind->group.timeout_outcome);
    assert(block@.bodies == kind_bodies(block.kind));
    lemma_lane_ids_count(lanes, rest);
    assert forall|j: int|
        block.kind->group.lanes@.len() <= j < block@.bodies.len() implies (
    #[trigger] block@.bodies[j]).role is Timeout by {
        assert(block@.bodies[j] == rest[j - lanes.len()]);
    }
}

proof fn lemma_lane_ids_count(lanes: Seq<BodyView>, rest: Seq<BodyView>)
    requires
        forall|j: int| 0 <= j < lanes.len() ==> (#[trigger] lanes[j]).role is Lane,
        forall|j: int| 0 <= j < rest.len() ==> !((#[trigger] rest[j]).role is Lane),
    ensures
        lane_ids(lanes + rest).len() == lanes.len(),
    decreases lanes.len() + rest.len(),
{
    if rest.len() > 0 {
        assert((lanes + rest).drop_last() =~= lanes + rest.drop_last());
        assert(!(rest[rest.len() - 1].role is Lane));
        assert forall|j: int| 0 <= j < rest.drop_last().len() implies !((
        #[trigger] rest.drop_last()[j]).role is Lane) by {
            assert(rest.drop_last()[j] == rest[j]);
        }
        lemma_lane_ids_count(lanes, rest.drop_last());
    } else if lanes.len() > 0 {
        assert(lanes + rest =~= lanes);
        assert(lanes[lanes.len() - 1].role is Lane);
        assert forall|j: int| 0 <= j < lanes.drop_last().len() implies (
        #[trigger] lanes.drop_last()[j]).role is Lane by {
            assert(lanes.drop_last()[j] == lanes[j]);
        }
        assert(lanes.drop_last() + rest =~= lanes.drop_last());
        lemma_lane_ids_count(lanes.drop_last(), rest);
    }
}

/// A block that is no watch group has no lanes.
proof fn lemma_no_lanes(block: Block, lane_id: Seq<char>)
    requires
        !(block.kind is WatchGroup),
    ensures
        first_index(block@.bodies, is_lane(lane_id)) is None,
{
    lemma_roles(block);
    lemma_first_index(block@.bodies, is_lane(lane_id));
    assert forall|j: int| 0 <= j < block@.bodies.len() implies !is_lane(lane_id)(
        #[trigger] block@.bodies[j],
    ) by {
        assert(role_fits(block.kind, j, block@.bodies[j].role));
    }
}

/// The position of a lane among the bodies of its group is its position among the lanes.
proof fn lemma_lane_index(block: Block, lane_id: Seq<char>, position: Option<usize>)
    requires
        block.kind is WatchGroup,
        ({
            let lanes = block.kind->group.lanes@;
            match position {
                Some(i) => i < lanes.len() && lanes[i as int].id@ == lane_id && forall|j: int|
                    0 <= j < i ==> (#[trigger] lanes[j]).id@ != lane_id,
                None => forall|j: int| 0 <= j < lanes.len() ==> (#[trigger] lanes[j]).id@ != lane_id,
            }
        }),
    ensures
        match position {
            Some(i) => first_index(block@.bodies, is_lane(lane_id)) == Some(i as int),
            None => first_index(block@.bodies, is_lane(lane_id)) is None,
        },
{
    lemma_watch_lanes(block);
    lemma_first_index(block@.bodies, is_lane(lane_id));
    let lanes = block.kind->group.lanes@;
    assert forall|j: int| 0 <= j < block@.bodies.len() implies is_lane(lane_id)(
        #[trigger] block@.bodies[j],
    ) == (j < lanes.len() && lanes[j].id@ == lane_id) by {
        if j < lanes.len() {
            assert(block@.bodies[j] == lane_view(lanes[j]));
        }
    }
    if position is Some {
        assert(is_lane(lane_id)(block@.bodies[position->0 as int]));
    }
}

/// Moves a lane of a watch group to another priority.
fn move_lane_within(block: &mut Block, lane_id: &String, to: usize) -> (result: Result<
    (),
    EditorError,
>)
    ensures
        if !(old(block)@.head is WatchGroup) {
            result matches Err(error) && error@ == EditorErrorView::MissingContainer
        } else if to >= lane_ids(old(block)@.bodies).len() {
            result matches Err(error) && error@ == EditorErrorView::InvalidIndex
        } else {
            match first_index(old(block)@.bodies, is_lane(lane_id@)) {
                None => result matches Err(error) && error@ == EditorErrorView::MissingLane(
                    lane_id@,
                ),
                Some(from) => result is Ok && final(block)@ == (BlockView {
                    bodies: old(block)@.bodies.remove(from).insert(
                        to as int,
                        old(block)@.bodies[from],
                    ),
                    ..old(block)@
                }),
            }
        },
{
    let ghost before = *block;
    proof {
        if before.kind is WatchGroup {
            lemma_watch_lanes(before);
        }
    }
    match &mut block.kind {
        BlockKind::WatchGroup { group } => {
            if to >= group.lanes.len() {
                return Err(EditorError::InvalidIndex);
            }
            let position = lane_position(&group.lanes, lane_id.as_str());
            proof {
                lemma_lane_index(before, lane_id@, position);
            }
            let from: usize = match position {
                None => return Err(EditorError::MissingLane(lane_id.clone())),
                Some(from) => from,
            };
            let lane = group.lanes.remove(from);
            group.lanes.insert(to, lane);
        },
        _ => return Err(EditorError::MissingContainer),
    }
    proof {
        lemma_watch_lanes(*block);
        let from = first_index(before@.bodies, is_lane(lane_id@))->0;
        let old_lanes = before.kind->group.lanes@;
        let new_lanes = block.kind->group.lanes@;
        assert(new_lanes == old_lanes.remove(from).insert(to as int, old_lanes[from]));
        let expected = before@.bodies.remove(from).insert(to as int, before@.bodies[from]);
        assert(lanes_view(new_lanes) =~= lanes_view(old_lanes).remove(from).insert(
            to as int,
            lanes_view(old_lanes)[from],
        ));
        assert(block@.bodies =~= expected);
    }
    Ok(())
}

/// Moves a lane of a watch group to another priority.
pub fn move_lane(blocks: &mut Vec<Block>, group_id: &String, lane_id: &String, to: usize) -> (result:
    Result<(), EditorError>)
    ensures
        match result {
            Ok(()) => lane_moved(blocks_view(old(blocks)@), group_id@, lane_id@, to as int) == Ok::<
                _,
                EditorErrorView,
            >(blocks_view(final(blocks)@)),
            Err(error) => lane_moved(blocks_view(old(blocks)@), group_id@, lane_id@, to as int)
                == Err::<Seq<BlockView>, _>(error@),
        },
{
    match find_block_mut(blocks, group_id.as_str()) {
        None => Err(EditorError::MissingBlock(group_id.clone())),
        Some(block) => move_lane_within(block, lane_id, to),
    }
}

/// Enables or disables a lane of a block.
fn set_lane_within(block: &mut Block, lane_id: &String, enabled: bool) -> (result: Result<
    (),
    EditorError,
>)
    ensures
        match first_index(old(block)@.bodies, is_lane(lane_id@)) {
            None => result matches Err(error) && error@ == EditorErrorView::MissingLane(lane_id@),
            Some(k) => result is Ok && final(block)@ == (BlockView {
                bodies: old(block)@.bodies.update(k, lane_set(old(block)@.bodies[k], enabled)),
                ..old(block)@
            }),
        },
{
    let ghost before = *block;
    proof {
        if before.kind is WatchGroup {
            lemma_watch_lanes(before);
        } else {
            lemma_no_lanes(before, lane_id@);
        }
    }
    match &mut block.kind {
        BlockKind::WatchGroup { group } => {
            let position = lane_position(&group.lanes, lane_id.as_str());
            proof {
                lemma_lane_index(before, lane_id@, position);
            }
            let k: usize = match position {
                None => return Err(EditorError::MissingLane(lane_id.clone())),
                Some(k) => k,
            };
            group.lanes[k].enabled = enabled;
        },
        _ => return Err(EditorError::MissingLane(lane_id.clone())),
    }
    proof {
        lemma_watch_lanes(*block);
        let k = first_index(before@.bodies, is_lane(lane_id@))->0;
        assert(block@.bodies =~= before@.bodies.update(k, lane_set(before@.bodies[k], enabled)));
    }
    Ok(())
}

/// Enables or disables a lane of a watch group.
pub fn set_lane_enabled(
    blocks: &mut Vec<Block>,
    group_id: &String,
    lane_id: &String,
    enabled: bool,
) -> (result: Result<(), EditorError>)
    ensures
        match result {
            Ok(()) => lane_enabled(blocks_view(old(blocks)@), group_id@, lane_id@, enabled) == Ok::<
                _,
                EditorErrorView,
            >(blocks_view(final(blocks)@)),
            Err(error) => lane_enabled(blocks_view(old(blocks)@), group_id@, lane_id@, enabled)
                == Err::<Seq<BlockView>, _>(error@),
        },
{
    match find_block_mut(blocks, group_id.as_str()) {
        None => Err(EditorError::MissingLane(lane_id.clone())),
        Some(block) => set_lane_within(block, lane_id, enabled),
    }
}

/// Replaces a block under its identity; the blocks it owned may follow it.
pub fn replace_block(
    blocks: &mut Vec<Block>,
    path: &BlockPath,
    replacement: Block,
    children: ChildDisposition,
) -> (result: Result<(), EditorError>)
    ensures
        match result {
            Ok(()) => replaced(blocks_view(old(blocks)@), path@, replacement@, children) == Ok::<
                _,
                EditorErrorView,
            >(blocks_view(final(blocks)@)),
            Err(error) => replaced(blocks_view(old(blocks)@), path@, replacement@, children)
                == Err::<Seq<BlockView>, _>(error@),
        },
{
    if !same_text(replacement.id.as_str(), path.block_id.as_str()) {
        return Err(EditorError::ReplacementIdMismatch);
    }
    let list = match find_container_mut(blocks, &path.container) {
        None => return Err(EditorError::MissingContainer),
        Some(list) => list,
    };
    let i: usize = match block_position(list, path.block_id.as_str()) {
        None => return Err(EditorError::MissingBlock(path.block_id.clone())),
        Some(i) => i,
    };
    let ghost all = blocks_view(list@);
    let ghost new = replacement@;
    let old_block = list.remove(i);
    assert(blocks_view(list@) =~= all.remove(i as int));
    list.insert(i, replacement);
    assert(blocks_view(list@) =~= all.update(i as int, new));
    match children {
        ChildDisposition::DeleteOwnedContents => {
            assert(blocks_view(list@) =~= spliced(all, i as int, seq![new] + Seq::empty()));
        },
        ChildDisposition::KeepOwnedContents => {
            let kept = owned_contents(old_block);
            assert(i < list.len());
            splice_blocks(list, i + 1, kept);
            assert(blocks_view(list@) =~= spliced(
                all,
                i as int,
                seq![new] + kept_contents(all[i as int]),
            ));
        },
    }
    Ok(())
}

} // verus!
