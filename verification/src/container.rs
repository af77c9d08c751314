//! Containers of blocks: how they are named, found and replaced.
use crate::content::{views, Content, Exact};
use crate::macro_engine::{
    block_view, blocks_view, condition_bodies, condition_view, kind_bodies, lane_view, lanes_view, mode_bodies,
    outcome_bodies, outcome_view, wait_view, Block, BlockKind, BlockView, BodyView, Condition,
    ObserveMode, RoleView, TimeoutOutcome, WatchGroup, WatchLane,
};
use crate::text::same_text;
use crate::tree::{
    child_containers, first_index, first_where, flatten, flatten_block, flatten_bodies,
    lemma_child_smaller, lemma_first_index, lemma_first_where_add, lemma_first_where_one,
    lemma_first_where_step, lemma_is_first_index, size, walk,
};
use vstd::prelude::*;

verus! {

broadcast use crate::macro_engine::group_block_views;

/// Names a container of blocks by the blocks that own it.
#[derive(Debug, PartialEq, Eq, Hash)]
pub enum ContainerPath {
    Root,
    IfThen { if_id: String },
    IfElse { if_id: String },
    LoopBody { loop_id: String },
    WatchLaneBody { watch_id: String, lane_id: String },
    TimeoutBody { owner_id: String },
}

/// The contents of a [`ContainerPath`].
#[verifier::ext_equal]
pub ghost enum ContainerView {
    Root,
    IfThen { if_id: Seq<char> },
    IfElse { if_id: Seq<char> },
    LoopBody { loop_id: Seq<char> },
    WatchLaneBody { watch_id: Seq<char>, lane_id: Seq<char> },
    TimeoutBody { owner_id: Seq<char> },
}

impl View for ContainerPath {
    type V = ContainerView;

    open spec fn view(&self) -> ContainerView {
        match *self {
            ContainerPath::Root => ContainerView::Root,
            ContainerPath::IfThen { if_id } => ContainerView::IfThen { if_id: if_id@ },
            ContainerPath::IfElse { if_id } => ContainerView::IfElse { if_id: if_id@ },
            ContainerPath::LoopBody { loop_id } => ContainerView::LoopBody { loop_id: loop_id@ },
            ContainerPath::WatchLaneBody { watch_id, lane_id } => ContainerView::WatchLaneBody {
                watch_id: watch_id@,
                lane_id: lane_id@,
            },
            ContainerPath::TimeoutBody { owner_id } => ContainerView::TimeoutBody {
                owner_id: owner_id@,
            },
        }
    }
}

/// The block that owns a container; the root has none.
pub open spec fn container_owner(path: ContainerView) -> Option<Seq<char>> {
    match path {
        ContainerView::Root => None,
        ContainerView::IfThen { if_id } => Some(if_id),
        ContainerView::IfElse { if_id } => Some(if_id),
        ContainerView::LoopBody { loop_id } => Some(loop_id),
        ContainerView::WatchLaneBody { watch_id, .. } => Some(watch_id),
        ContainerView::TimeoutBody { owner_id } => Some(owner_id),
    }
}

/// The predicate that picks the bodies whose role a container path names.
pub open spec fn plays(path: ContainerView) -> spec_fn(BodyView) -> bool {
    |body: BodyView|
        match path {
            ContainerView::Root => false,
            ContainerView::IfThen { .. } => body.role is Then,
            ContainerView::IfElse { .. } => body.role is Else,
            ContainerView::LoopBody { .. } => body.role is Loop,
            ContainerView::WatchLaneBody { lane_id, .. } => body.role matches RoleView::Lane {
                id,
                ..
            } && id == lane_id,
            ContainerView::TimeoutBody { .. } => body.role is Timeout,
        }
}

/// Which body of a block a container path names, if the block owns it.
pub open spec fn body_index(block: BlockView, path: ContainerView) -> Option<int> {
    if container_owner(path) == Some(block.id) {
        first_index(block.bodies, plays(path))
    } else {
        None
    }
}

/// The predicate that picks the blocks that own the container a path names.
pub open spec fn owns(path: ContainerView) -> spec_fn(BlockView) -> bool {
    |block: BlockView| body_index(block, path) is Some
}

/// The blocks of the container that a path names: of the first owner in the order of the walk.
pub open spec fn container(blocks: Seq<BlockView>, path: ContainerView) -> Option<Seq<BlockView>> {
    if path is Root {
        Some(blocks)
    } else {
        match first_where(flatten(blocks), owns(path)) {
            Some(owner) => Some(owner.bodies[body_index(owner, path)->0].blocks),
            None => None,
        }
    }
}

/// The predicate that picks the blocks that own a container or have its owner below them.
pub open spec fn block_holds(path: ContainerView) -> spec_fn(BlockView) -> bool {
    |block: BlockView| first_where(flatten_block(block), owns(path)) is Some
}

/// The predicate that picks the bodies that have the owner of a container in or below them.
pub open spec fn body_holds(path: ContainerView) -> spec_fn(BodyView) -> bool {
    |body: BodyView| first_where(flatten(body.blocks), owns(path)) is Some
}

/// A block with the blocks of one of its bodies replaced.
pub open spec fn with_body(block: BlockView, k: int, blocks: Seq<BlockView>) -> BlockView {
    BlockView {
        bodies: block.bodies.update(k, BodyView { role: block.bodies[k].role, blocks }),
        ..block
    }
}

/// A list of blocks with the blocks of one container replaced, and everything else kept.
pub open spec fn with_container(
    blocks: Seq<BlockView>,
    path: ContainerView,
    new: Seq<BlockView>,
) -> Seq<BlockView>
    decreases blocks,
{
    if path is Root {
        new
    } else {
        match first_index(blocks, block_holds(path)) {
            Some(i) if 0 <= i < blocks.len() => blocks.update(
                i,
                with_container_below(blocks[i], path, new),
            ),
            _ => blocks,
        }
    }
}

/// A block with the blocks of one container, its own or below it, replaced.
pub open spec fn with_container_below(
    block: BlockView,
    path: ContainerView,
    new: Seq<BlockView>,
) -> BlockView
    decreases block,
{
    match body_index(block, path) {
        Some(k) => with_body(block, k, new),
        None => match first_index(block.bodies, body_holds(path)) {
            Some(k) if 0 <= k < block.bodies.len() => with_body(
                block,
                k,
                with_container(block.bodies[k].blocks, path, new),
            ),
            _ => block,
        },
    }
}

impl Exact for ContainerPath {
    fn same(&self, other: &Self) -> (equal: bool) {
        match (self, other) {
            (ContainerPath::Root, ContainerPath::Root) => true,
            (ContainerPath::IfThen { if_id: a }, ContainerPath::IfThen { if_id: b }) => *a == *b,
            (ContainerPath::IfElse { if_id: a }, ContainerPath::IfElse { if_id: b }) => *a == *b,
            (ContainerPath::LoopBody { loop_id: a }, ContainerPath::LoopBody { loop_id: b }) => *a
                == *b,
            (
                ContainerPath::WatchLaneBody { watch_id: a, lane_id: left },
                ContainerPath::WatchLaneBody { watch_id: b, lane_id: right },
            ) => *a == *b && *left == *right,
            (
                ContainerPath::TimeoutBody { owner_id: a },
                ContainerPath::TimeoutBody { owner_id: b },
            ) => *a == *b,
            _ => false,
        }
    }
}

impl Content for ContainerPath {
    fn duplicate(&self) -> (copy: Self) {
        self.clone()
    }
}

impl Clone for ContainerPath {
    fn clone(&self) -> (copy: Self)
        ensures
            copy == *self,
    {
        match self {
            ContainerPath::Root => ContainerPath::Root,
            ContainerPath::IfThen { if_id } => ContainerPath::IfThen { if_id: if_id.clone() },
            ContainerPath::IfElse { if_id } => ContainerPath::IfElse { if_id: if_id.clone() },
            ContainerPath::LoopBody { loop_id } => ContainerPath::LoopBody {
                loop_id: loop_id.clone(),
            },
            ContainerPath::WatchLaneBody { watch_id, lane_id } => ContainerPath::WatchLaneBody {
                watch_id: watch_id.clone(),
                lane_id: lane_id.clone(),
            },
            ContainerPath::TimeoutBody { owner_id } => ContainerPath::TimeoutBody {
                owner_id: owner_id.clone(),
            },
        }
    }
}

/// The position of the first lane of an identity.
pub fn lane_position(lanes: &Vec<WatchLane>, lane_id: &str) -> (position: Option<usize>)
    ensures
        match position {
            Some(i) => i < lanes@.len() && lanes@[i as int].id@ == lane_id@ && forall|j: int|
                0 <= j < i ==> (#[trigger] lanes@[j]).id@ != lane_id@,
            None => forall|j: int| 0 <= j < lanes@.len() ==> (#[trigger] lanes@[j]).id@ != lane_id@,
        },
{
    let mut i: usize = 0;
    while i < lanes.len()
        invariant
            i <= lanes@.len(),
            forall|j: int| 0 <= j < i ==> (#[trigger] lanes@[j]).id@ != lane_id@,
        decreases lanes@.len() - i,
    {
        if same_text(lanes[i].id.as_str(), lane_id) {
            return Some(i);
        }
        i += 1;
    }
    None
}

/// Which of the block's bodies a container path names, if the block owns it.
pub fn direct_container(block: &Block, path: &ContainerPath) -> (index: Option<usize>)
    ensures
        match index {
            Some(k) => body_index(block@, path@) == Some(k as int) && k < block@.bodies.len(),
            None => body_index(block@, path@) is None,
        },
{
    proof {
        lemma_first_index(block@.bodies, plays(path@));
        lemma_roles(*block);
    }
    match path {
        ContainerPath::Root => None,
        ContainerPath::IfThen { if_id } => {
            if !same_text(block.id.as_str(), if_id.as_str()) {
                return None;
            }
            match &block.kind {
                BlockKind::If { .. } => {
                    assert(plays(path@)(block@.bodies[0]));
                    Some(0)
                },
                _ => {
                    assert(lacks_role(block@.bodies, path@));
                    None
                },
            }
        },
        ContainerPath::IfElse { if_id } => {
            if !same_text(block.id.as_str(), if_id.as_str()) {
                return None;
            }
            match &block.kind {
                BlockKind::If { .. } => {
                    assert(plays(path@)(block@.bodies[1]));
                    assert(!plays(path@)(block@.bodies[0]));
                    Some(1)
                },
                _ => {
                    assert(lacks_role(block@.bodies, path@));
                    None
                },
            }
        },
        ContainerPath::LoopBody { loop_id } => {
            if !same_text(block.id.as_str(), loop_id.as_str()) {
                return None;
            }
            match &block.kind {
                BlockKind::RepeatN { .. } | BlockKind::RepeatUntil { .. }
                | BlockKind::Continuous { .. } => {
                    assert(plays(path@)(block@.bodies[0]));
                    Some(0)
                },
                _ => {
                    assert(lacks_role(block@.bodies, path@));
                    None
                },
            }
        },
        ContainerPath::WatchLaneBody { watch_id, lane_id } => {
            if !same_text(block.id.as_str(), watch_id.as_str()) {
                return None;
            }
            match &block.kind {
                BlockKind::WatchGroup { group } => {
                    let position = lane_position(&group.lanes, lane_id.as_str());
                    proof {
                        let lanes = group.lanes@;
                        assert forall|j: int| 0 <= j < lanes.len() implies plays(path@)(
                            #[trigger] block@.bodies[j],
                        ) == (lanes[j].id@ == lane_id@) by {
                            assert(block@.bodies[j] == lane_view(lanes[j]));
                        }
                        if position is Some {
                            assert(plays(path@)(block@.bodies[position->0 as int]));
                        }
                    }
                    position
                },
                _ => {
                    assert(lacks_role(block@.bodies, path@));
                    None
                },
            }
        },
        ContainerPath::TimeoutBody { owner_id } => {
            if !same_text(block.id.as_str(), owner_id.as_str()) {
                return None;
            }
            timeout_index(block, path)
        },
    }
}

/// The role that the body at an index of a block's bodies plays.
pub open spec fn role_fits(kind: BlockKind, j: int, role: RoleView) -> bool {
    match kind {
        BlockKind::If { .. } => if j == 0 {
            role is Then
        } else if j == 1 {
            role is Else
        } else {
            role is Timeout
        },
        BlockKind::RepeatN { .. } => role is Loop,
        BlockKind::Continuous { .. } => role is Loop,
        BlockKind::RepeatUntil { .. } => if j == 0 {
            role is Loop
        } else {
            role is Timeout
        },
        BlockKind::WatchGroup { group } => if j < group.lanes@.len() {
            role is Lane
        } else {
            role is Timeout
        },
        _ => role is Timeout,
    }
}

/// A condition owns at most one body, a timeout body.
pub proof fn lemma_condition_roles(condition: Condition)
    ensures
        condition_bodies(condition).len() <= 1,
        forall|j: int|
            0 <= j < condition_bodies(condition).len() ==> (#[trigger] condition_bodies(
                condition,
            )[j]).role is Timeout,
{
    let mode = match condition {
        Condition::Text { mode, .. } => mode,
        Condition::Image { mode, .. } => mode,
    };
    assert(condition_bodies(condition) == mode_bodies(mode));
    match mode {
        ObserveMode::CheckNow => {},
        ObserveMode::WaitForTrue { timeout_outcome, .. } => {
            assert(mode_bodies(mode) == outcome_bodies(timeout_outcome));
        },
        ObserveMode::WaitForFalse { timeout_outcome, .. } => {
            assert(mode_bodies(mode) == outcome_bodies(timeout_outcome));
        },
    }
}

pub proof fn lemma_roles(block: Block)
    ensures
        forall|j: int|
            0 <= j < block@.bodies.len() ==> role_fits(
                block.kind,
                j,
                (#[trigger] block@.bodies[j]).role,
            ),
        match block.kind {
            BlockKind::If { .. } => block@.bodies.len() <= 3,
            BlockKind::RepeatUntil { .. } => block@.bodies.len() <= 2,
            BlockKind::Observe { .. } => block@.bodies.len() <= 1,
            BlockKind::WatchGroup { group } => group.lanes@.len() <= block@.bodies.len()
                <= group.lanes@.len() + 1,
            _ => block@.bodies.len() <= 1,
        },
{
    assert(block@.bodies == kind_bodies(block.kind));
    match block.kind {
        BlockKind::If { condition, .. } => {
            lemma_condition_roles(condition);
        },
        BlockKind::RepeatUntil { condition, .. } => {
            lemma_condition_roles(condition);
        },
        BlockKind::Observe { condition } => {
            lemma_condition_roles(condition);
            assert(block@.bodies == condition_bodies(condition));
        },
        _ => {},
    }
    assert forall|j: int| 0 <= j < block@.bodies.len() implies role_fits(
        block.kind,
        j,
        (#[trigger] block@.bodies[j]).role,
    ) by {
        match block.kind {
            BlockKind::WatchGroup { group } => {
                if j < group.lanes@.len() {
                    assert(block@.bodies[j] == lanes_view(group.lanes@)[j]);
                } else {
                    assert(block@.bodies[j] == outcome_bodies(group.timeout_outcome)[j
                        - group.lanes@.len()]);
                }
            },
            BlockKind::If { condition, .. } => {
                if j >= 2 {
                    assert(block@.bodies[j] == condition_bodies(condition)[j - 2]);
                }
            },
            BlockKind::RepeatUntil { condition, .. } => {
                if j >= 1 {
                    assert(block@.bodies[j] == condition_bodies(condition)[j - 1]);
                }
            },
            _ => {},
        }
    }
}

/// No body plays the role that a path names.
spec fn lacks_role(bodies: Seq<BodyView>, path: ContainerView) -> bool {
    forall|j: int| 0 <= j < bodies.len() ==> !plays(path)(#[trigger] bodies[j])
}

/// The index of a block's timeout body, which comes last.
fn timeout_index(block: &Block, path: &ContainerPath) -> (index: Option<usize>)
    requires
        path@ is TimeoutBody,
    ensures
        match index {
            Some(k) => first_index(block@.bodies, plays(path@)) == Some(k as int) && k
                < block@.bodies.len(),
            None => first_index(block@.bodies, plays(path@)) is None,
        },
{
    proof {
        lemma_first_index(block@.bodies, plays(path@));
        lemma_roles(*block);
    }
    let bodies = child_containers(block);
    let has_timeout = match &block.kind {
        BlockKind::WatchGroup { group } => crate::tree::timeout_body(
            &group.timeout_outcome,
        ).is_some(),
        BlockKind::Observe { condition } => crate::tree::condition_timeout_body(
            condition,
        ).is_some(),
        BlockKind::If { condition, .. } => crate::tree::condition_timeout_body(
            condition,
        ).is_some(),
        BlockKind::RepeatUntil { condition, .. } => crate::tree::condition_timeout_body(
            condition,
        ).is_some(),
        _ => false,
    };
    if has_timeout {
        assert(bodies@.len() > 0);
        assert(plays(path@)(block@.bodies.last()));
        assert forall|j: int| 0 <= j < block@.bodies.len() - 1 implies !plays(path@)(
            #[trigger] block@.bodies[j],
        ) by {}
        Some(bodies.len() - 1)
    } else {
        assert(lacks_role(block@.bodies, path@));
        None
    }
}

/// Finds the blocks of the container that a path names.
pub fn find_container<'a>(blocks: &'a Vec<Block>, path: &ContainerPath) -> (found: Option<
    &'a Vec<Block>,
>)
    ensures
        match found {
            Some(list) => container(blocks_view(blocks@), path@) == Some(blocks_view(list@)),
            None => container(blocks_view(blocks@), path@) is None,
        },
{
    match path {
        ContainerPath::Root => return Some(blocks),
        _ => {},
    }
    let all = walk(blocks);
    let ghost flat = views(all@);
    let mut i: usize = 0;
    while i < all.len()
        invariant
            i <= all@.len(),
            flat == views(all@),
            flat == flatten(blocks_view(blocks@)),
            !(path@ is Root),
            first_where(flat.take(i as int), owns(path@)) is None,
        decreases all@.len() - i,
    {
        proof {
            lemma_first_where_step(flat, i as int, owns(path@));
        }
        if let Some(k) = direct_container(all[i], path) {
            let bodies = child_containers(all[i]);
            return Some(bodies[k]);
        }
        i += 1;
    }
    assert(flat.take(i as int) =~= flat);
    None
}

/// The body that an outcome runs, for changing it.
fn timeout_body_mut<'a>(outcome: &'a mut TimeoutOutcome) -> (body: Option<&'a mut Vec<Block>>)
    ensures
        match body {
            Some(blocks) => outcome_bodies(*old(outcome)) == seq![
                BodyView { role: RoleView::Timeout, blocks: blocks_view(blocks@) },
            ] && outcome_bodies(*final(outcome)) == seq![
                BodyView { role: RoleView::Timeout, blocks: blocks_view(final(blocks)@) },
            ] && outcome_view(*final(outcome)) == outcome_view(*old(outcome)),
            None => outcome_bodies(*old(outcome)).len() == 0 && *final(outcome) == *old(outcome),
        },
{
    match outcome {
        TimeoutOutcome::RunBody { body } => Some(body),
        _ => None,
    }
}

fn mode_timeout_body_mut<'a>(mode: &'a mut ObserveMode) -> (body: Option<&'a mut Vec<Block>>)
    ensures
        match body {
            Some(blocks) => mode_bodies(*old(mode)) == seq![
                BodyView { role: RoleView::Timeout, blocks: blocks_view(blocks@) },
            ] && mode_bodies(*final(mode)) == seq![
                BodyView { role: RoleView::Timeout, blocks: blocks_view(final(blocks)@) },
            ] && wait_view(*final(mode)) == wait_view(*old(mode)),
            None => mode_bodies(*old(mode)).len() == 0 && *final(mode) == *old(mode),
        },
{
    match mode {
        ObserveMode::CheckNow => None,
        ObserveMode::WaitForTrue { timeout_outcome, .. } => timeout_body_mut(timeout_outcome),
        ObserveMode::WaitForFalse { timeout_outcome, .. } => timeout_body_mut(timeout_outcome),
    }
}

fn condition_timeout_body_mut<'a>(condition: &'a mut Condition) -> (body: Option<
    &'a mut Vec<Block>,
>)
    ensures
        match body {
            Some(blocks) => condition_bodies(*old(condition)) == seq![
                BodyView { role: RoleView::Timeout, blocks: blocks_view(blocks@) },
            ] && condition_bodies(*final(condition)) == seq![
                BodyView { role: RoleView::Timeout, blocks: blocks_view(final(blocks)@) },
            ] && condition_view(*final(condition)) == condition_view(*old(condition)),
            None => condition_bodies(*old(condition)).len() == 0 && *final(condition) == *old(
                condition,
            ),
        },
{
    match condition {
        Condition::Text { mode, .. } => mode_timeout_body_mut(mode),
        Condition::Image { mode, .. } => mode_timeout_body_mut(mode),
    }
}

/// Replacing the blocks of one body of a kind changes that entry of its bodies alone.
proof fn lemma_kinds_with_body(kind: BlockKind)
    ensures
        match kind {
            BlockKind::If { condition, then_body, else_body } => {
                &&& forall|body: Vec<Block>|
                    #[trigger] kind_bodies(
                        BlockKind::If { condition, then_body: body, else_body },
                    ) == kind_bodies(kind).update(
                        0,
                        BodyView { role: RoleView::Then, blocks: blocks_view(body@) },
                    )
                &&& forall|body: Vec<Block>|
                    #[trigger] kind_bodies(
                        BlockKind::If { condition, then_body, else_body: body },
                    ) == kind_bodies(kind).update(
                        1,
                        BodyView { role: RoleView::Else, blocks: blocks_view(body@) },
                    )
                &&& forall|other: Condition|
                    condition_bodies(other).len() == condition_bodies(condition).len()
                        && condition_bodies(condition).len() == 1 ==> #[trigger] kind_bodies(
                        BlockKind::If { condition: other, then_body, else_body },
                    ) == kind_bodies(kind).update(2, condition_bodies(other)[0])
            },
            BlockKind::RepeatUntil { condition, max_iterations, body } => {
                &&& forall|other: Vec<Block>|
                    #[trigger] kind_bodies(
                        BlockKind::RepeatUntil { condition, max_iterations, body: other },
                    ) == kind_bodies(kind).update(
                        0,
                        BodyView { role: RoleView::Loop, blocks: blocks_view(other@) },
                    )
                &&& forall|other: Condition|
                    condition_bodies(other).len() == condition_bodies(condition).len()
                        && condition_bodies(condition).len() == 1 ==> #[trigger] kind_bodies(
                        BlockKind::RepeatUntil { condition: other, max_iterations, body },
                    ) == kind_bodies(kind).update(1, condition_bodies(other)[0])
            },
            BlockKind::RepeatN { count, .. } => forall|body: Vec<Block>|
                #[trigger] kind_bodies(BlockKind::RepeatN { count, body }) == kind_bodies(
                    kind,
                ).update(0, BodyView { role: RoleView::Loop, blocks: blocks_view(body@) }),
            BlockKind::Continuous { .. } => forall|body: Vec<Block>|
                #[trigger] kind_bodies(BlockKind::Continuous { body }) == kind_bodies(
                    kind,
                ).update(0, BodyView { role: RoleView::Loop, blocks: blocks_view(body@) }),
            BlockKind::Observe { condition } => forall|other: Condition|
                condition_bodies(other).len() == condition_bodies(condition).len()
                    && condition_bodies(condition).len() == 1 ==> #[trigger] kind_bodies(
                    BlockKind::Observe { condition: other },
                ) == kind_bodies(kind).update(0, condition_bodies(other)[0]),
            _ => true,
        },
{
    match kind {
        BlockKind::RepeatN { count, .. } => {
            assert forall|body: Vec<Block>|
                #[trigger] kind_bodies(BlockKind::RepeatN { count, body }) == kind_bodies(
                    kind,
                ).update(0, BodyView { role: RoleView::Loop, blocks: blocks_view(body@) }) by {
                assert(kind_bodies(BlockKind::RepeatN { count, body }) =~= kind_bodies(
                    kind,
                ).update(0, BodyView { role: RoleView::Loop, blocks: blocks_view(body@) }));
            }
        },
        BlockKind::Continuous { .. } => {
            assert forall|body: Vec<Block>|
                #[trigger] kind_bodies(BlockKind::Continuous { body }) == kind_bodies(
                    kind,
                ).update(0, BodyView { role: RoleView::Loop, blocks: blocks_view(body@) }) by {
                assert(kind_bodies(BlockKind::Continuous { body }) =~= kind_bodies(kind).update(
                    0,
                    BodyView { role: RoleView::Loop, blocks: blocks_view(body@) },
                ));
            }
        },
        BlockKind::Observe { condition } => {
            assert forall|other: Condition|
                condition_bodies(other).len() == condition_bodies(condition).len()
                    && condition_bodies(condition).len() == 1 implies #[trigger] kind_bodies(
                BlockKind::Observe { condition: other },
            ) == kind_bodies(kind).update(0, condition_bodies(other)[0]) by {
                assert(kind_bodies(BlockKind::Observe { condition: other }) =~= kind_bodies(
                    kind,
                ).update(0, condition_bodies(other)[0]));
            }
        },
        BlockKind::If { condition, then_body, else_body } => {
            assert forall|body: Vec<Block>|
                #[trigger] kind_bodies(BlockKind::If { condition, then_body: body, else_body })
                    == kind_bodies(kind).update(
                    0,
                    BodyView { role: RoleView::Then, blocks: blocks_view(body@) },
                ) by {
                assert(kind_bodies(BlockKind::If { condition, then_body: body, else_body })
                    =~= kind_bodies(kind).update(
                    0,
                    BodyView { role: RoleView::Then, blocks: blocks_view(body@) },
                ));
            }
            assert forall|body: Vec<Block>|
                #[trigger] kind_bodies(BlockKind::If { condition, then_body, else_body: body })
                    == kind_bodies(kind).update(
                    1,
                    BodyView { role: RoleView::Else, blocks: blocks_view(body@) },
                ) by {
                assert(kind_bodies(BlockKind::If { condition, then_body, else_body: body })
                    =~= kind_bodies(kind).update(
                    1,
                    BodyView { role: RoleView::Else, blocks: blocks_view(body@) },
                ));
            }
            assert forall|other: Condition|
                condition_bodies(other).len() == condition_bodies(condition).len()
                    && condition_bodies(condition).len() == 1 implies #[trigger] kind_bodies(
                BlockKind::If { condition: other, then_body, else_body },
            ) == kind_bodies(kind).update(2, condition_bodies(other)[0]) by {
                assert(kind_bodies(BlockKind::If { condition: other, then_body, else_body })
                    =~= kind_bodies(kind).update(2, condition_bodies(other)[0]));
            }
        },
        BlockKind::RepeatUntil { condition, max_iterations, body } => {
            assert forall|other: Vec<Block>|
                #[trigger] kind_bodies(
                    BlockKind::RepeatUntil { condition, max_iterations, body: other },
                ) == kind_bodies(kind).update(
                    0,
                    BodyView { role: RoleView::Loop, blocks: blocks_view(other@) },
                ) by {
                assert(kind_bodies(
                    BlockKind::RepeatUntil { condition, max_iterations, body: other },
                ) =~= kind_bodies(kind).update(
                    0,
                    BodyView { role: RoleView::Loop, blocks: blocks_view(other@) },
                ));
            }
            assert forall|other: Condition|
                condition_bodies(other).len() == condition_bodies(condition).len()
                    && condition_bodies(condition).len() == 1 implies #[trigger] kind_bodies(
                BlockKind::RepeatUntil { condition: other, max_iterations, body },
            ) == kind_bodies(kind).update(1, condition_bodies(other)[0]) by {
                assert(kind_bodies(
                    BlockKind::RepeatUntil { condition: other, max_iterations, body },
                ) =~= kind_bodies(kind).update(1, condition_bodies(other)[0]));
            }
        },
        _ => {},
    }
}

/// Replacing one lane, or the timeout body, of a watch group changes that entry of its bodies.
proof fn lemma_watch_with_body(kind: BlockKind)
    ensures
        match kind {
            BlockKind::WatchGroup { group } => {
                &&& forall|other: WatchGroup, k: int, lane: WatchLane|
                    #![trigger kind_bodies(BlockKind::WatchGroup { group: other }), group.lanes@.update(k, lane)]
                    0 <= k < group.lanes@.len() && other.lanes@ == group.lanes@.update(k, lane)
                        && other.timeout_outcome == group.timeout_outcome ==> kind_bodies(
                        BlockKind::WatchGroup { group: other },
                    ) == kind_bodies(kind).update(k, lane_view(lane))
                &&& forall|other: WatchGroup|
                    other.lanes == group.lanes && outcome_bodies(other.timeout_outcome).len() == 1
                        && outcome_bodies(group.timeout_outcome).len() == 1
                        ==> #[trigger] kind_bodies(BlockKind::WatchGroup { group: other })
                        == kind_bodies(kind).update(
                        group.lanes@.len() as int,
                        outcome_bodies(other.timeout_outcome)[0],
                    )
            },
            _ => true,
        },
{
    match kind {
        BlockKind::WatchGroup { group } => {
            assert forall|other: WatchGroup, k: int, lane: WatchLane|
                #![trigger kind_bodies(BlockKind::WatchGroup { group: other }), group.lanes@.update(k, lane)]
                0 <= k < group.lanes@.len() && other.lanes@ == group.lanes@.update(k, lane)
                    && other.timeout_outcome == group.timeout_outcome implies kind_bodies(
                BlockKind::WatchGroup { group: other },
            ) == kind_bodies(kind).update(k, lane_view(lane)) by {
                assert(kind_bodies(BlockKind::WatchGroup { group: other }) =~= kind_bodies(
                    kind,
                ).update(k, lane_view(lane)));
            }
            assert forall|other: WatchGroup|
                other.lanes == group.lanes && outcome_bodies(other.timeout_outcome).len() == 1
                    && outcome_bodies(group.timeout_outcome).len() == 1 implies #[trigger] kind_bodies(
                BlockKind::WatchGroup { group: other },
            ) == kind_bodies(kind).update(
                group.lanes@.len() as int,
                outcome_bodies(other.timeout_outcome)[0],
            ) by {
                assert(kind_bodies(BlockKind::WatchGroup { group: other }) =~= kind_bodies(
                    kind,
                ).update(group.lanes@.len() as int, outcome_bodies(other.timeout_outcome)[0]));
            }
        },
        _ => {},
    }
}

/// The body of a block at an index, for changing it.
pub fn child_container_mut<'a>(block: &'a mut Block, k: usize) -> (body: Option<
    &'a mut Vec<Block>,
>)
    ensures
        match body {
            Some(blocks) => k < old(block)@.bodies.len() && old(block)@.bodies[k as int].blocks
                == blocks_view(blocks@) && final(block)@.id == old(block)@.id
                && final(block)@.enabled == old(block)@.enabled
                && final(block)@.head == old(block)@.head
                && final(block)@.bodies == with_body(
                old(block)@,
                k as int,
                blocks_view(final(blocks)@),
            ).bodies,
            None => k >= old(block)@.bodies.len() && *final(block) == *old(block),
        },
{
    proof {
        lemma_roles(*block);
        assert(block@.bodies == kind_bodies(block.kind));
    }
    proof {
        lemma_kinds_with_body(block.kind);
        lemma_watch_with_body(block.kind);
    }
    match &mut block.kind {
        BlockKind::If { condition, then_body, else_body } => {
            if k == 0 {
                Some(then_body)
            } else if k == 1 {
                Some(else_body)
            } else if k == 2 {
                condition_timeout_body_mut(condition)
            } else {
                None
            }
        },
        BlockKind::RepeatN { body, .. } => {
            if k == 0 {
                Some(body)
            } else {
                None
            }
        },
        BlockKind::Continuous { body } => {
            if k == 0 {
                Some(body)
            } else {
                None
            }
        },
        BlockKind::RepeatUntil { condition, body, .. } => {
            if k == 0 {
                Some(body)
            } else if k == 1 {
                condition_timeout_body_mut(condition)
            } else {
                None
            }
        },
        BlockKind::Observe { condition } => {
            if k == 0 {
                condition_timeout_body_mut(condition)
            } else {
                None
            }
        },
        BlockKind::WatchGroup { group } => {
            if k < group.lanes.len() {
                Some(&mut group.lanes[k].then_body)
            } else if k == group.lanes.len() {
                timeout_body_mut(&mut group.timeout_outcome)
            } else {
                None
            }
        },
        _ => None,
    }
}

/// The first owner below a list of bodies stands in the first body that holds one.
pub proof fn lemma_first_owner_in_bodies(bodies: Seq<BodyView>, path: ContainerView)
    ensures
        first_where(flatten_bodies(bodies), owns(path)) == (match first_index(
            bodies,
            body_holds(path),
        ) {
            Some(k) => first_where(flatten(bodies[k].blocks), owns(path)),
            None => None,
        }),
    decreases bodies.len(),
{
    if bodies.len() > 0 {
        let rest = bodies.drop_last();
        lemma_first_owner_in_bodies(rest, path);
        lemma_first_where_add(
            flatten_bodies(rest),
            flatten(bodies.last().blocks),
            owns(path),
        );
        lemma_first_index(rest, body_holds(path));
        lemma_first_index(bodies, body_holds(path));
    }
}

/// The first owner below a list of blocks stands in the first block that holds one.
pub proof fn lemma_first_owner_in_blocks(blocks: Seq<BlockView>, path: ContainerView)
    ensures
        first_where(flatten(blocks), owns(path)) == (match first_index(blocks, block_holds(path)) {
            Some(i) => first_where(flatten_block(blocks[i]), owns(path)),
            None => None,
        }),
    decreases blocks.len(),
{
    if blocks.len() > 0 {
        let rest = blocks.drop_last();
        lemma_first_owner_in_blocks(rest, path);
        lemma_first_where_add(flatten(rest), flatten_block(blocks.last()), owns(path));
        lemma_first_index(rest, block_holds(path));
        lemma_first_index(blocks, block_holds(path));
    }
}

/// The first owner in a block is the block itself, or the first owner below it.
pub proof fn lemma_first_owner_in_block(block: BlockView, path: ContainerView)
    ensures
        first_where(flatten_block(block), owns(path)) == (if body_index(block, path) is Some {
            Some(block)
        } else {
            first_where(flatten_bodies(block.bodies), owns(path))
        }),
{
    lemma_first_where_add(seq![block], flatten_bodies(block.bodies), owns(path));
    lemma_first_where_one(block, owns(path));
}

/// The first body of a block that has the owner of a container in or below it.
fn holding_body(block: &Block, path: &ContainerPath) -> (index: Option<usize>)
    requires
        !(path@ is Root),
    ensures
        match index {
            Some(k) => first_index(block@.bodies, body_holds(path@)) == Some(k as int) && k
                < block@.bodies.len(),
            None => first_index(block@.bodies, body_holds(path@)) is None,
        },
{
    let bodies = child_containers(block);
    let mut k: usize = 0;
    proof {
        lemma_first_index(block@.bodies, body_holds(path@));
    }
    while k < bodies.len()
        invariant
            !(path@ is Root),
            k <= bodies@.len(),
            bodies@.len() == block@.bodies.len(),
            forall|j: int|
                0 <= j < bodies@.len() ==> blocks_view((#[trigger] bodies@[j])@)
                    == block@.bodies[j].blocks,
            forall|j: int| 0 <= j < k ==> !body_holds(path@)(#[trigger] block@.bodies[j]),
        decreases bodies@.len() - k,
    {
        let found = find_container(bodies[k], path);
        if found.is_some() {
            proof {
                assert(body_holds(path@)(block@.bodies[k as int]));
                lemma_is_first_index(block@.bodies, body_holds(path@), k as int);
            }
            return Some(k);
        }
        assert(!body_holds(path@)(block@.bodies[k as int]));
        k += 1;
    }
    None
}

/// Finds the blocks of the container that a path names, for changing them.
pub fn find_container_mut<'a>(blocks: &'a mut Vec<Block>, path: &ContainerPath) -> (found: Option<
    &'a mut Vec<Block>,
>)
    ensures
        match found {
            Some(list) => container(blocks_view(old(blocks)@), path@) == Some(blocks_view(list@))
                && blocks_view(final(blocks)@) == with_container(
                blocks_view(old(blocks)@),
                path@,
                blocks_view(final(list)@),
            ),
            None => container(blocks_view(old(blocks)@), path@) is None && *final(blocks) == *old(
                blocks,
            ),
        },
    decreases size(blocks_view(old(blocks)@)),
{
    match path {
        ContainerPath::Root => return Some(blocks),
        _ => {},
    }
    let ghost all = blocks_view(blocks@);
    let mut i: usize = 0;
    proof {
        lemma_first_index(all, block_holds(path@));
        lemma_first_owner_in_blocks(all, path@);
    }
    while i < blocks.len()
        invariant
            !(path@ is Root),
            *blocks == *old(blocks),
            all == blocks_view(blocks@),
            i <= blocks@.len(),
            forall|j: int| 0 <= j < i ==> !block_holds(path@)(#[trigger] all[j]),
        decreases blocks@.len() - i,
    {
        proof {
            lemma_first_owner_in_block(all[i as int], path@);
            lemma_first_owner_in_bodies(all[i as int].bodies, path@);
            lemma_first_owner_in_blocks(all, path@);
        }
        if let Some(k) = direct_container(&blocks[i], path) {
            proof {
                assert(block_holds(path@)(all[i as int]));
                lemma_is_first_index(all, block_holds(path@), i as int);
                assert forall|block: Block|
                    #[trigger] blocks_view(blocks@.update(i as int, block)) == all.update(
                        i as int,
                        block_view(block),
                    ) by {
                    assert(blocks_view(blocks@.update(i as int, block)) =~= all.update(
                        i as int,
                        block_view(block),
                    ));
                }
            }
            return child_container_mut(&mut blocks[i], k);
        }
        if let Some(k) = holding_body(&blocks[i], path) {
            proof {
                lemma_first_index(all[i as int].bodies, body_holds(path@));
                assert(block_holds(path@)(all[i as int]));
                lemma_is_first_index(all, block_holds(path@), i as int);
                lemma_child_smaller(all, i as int, k as int);
                assert forall|block: Block|
                    #[trigger] blocks_view(blocks@.update(i as int, block)) == all.update(
                        i as int,
                        block_view(block),
                    ) by {
                    assert(blocks_view(blocks@.update(i as int, block)) =~= all.update(
                        i as int,
                        block_view(block),
                    ));
                }
            }
            return match child_container_mut(&mut blocks[i], k) {
                Some(body) => find_container_mut(body, path),
                None => None,
            };
        }
        i += 1;
    }
    None
}

} // verus!
