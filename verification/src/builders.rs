//! Blocks made of their parts.
use crate::macro_engine::{
    blocks_view, condition_bodies, condition_view, kind_bodies, Action, Block, BlockKind, BlockView,
    BodyView, Condition, HeadView, Limit, RoleView,
};
use vstd::prelude::*;

verus! {

broadcast use crate::macro_engine::group_block_views;

/// A block that owns no body.
pub open spec fn leaf(id: Seq<char>, head: HeadView) -> BlockView {
    BlockView { id, enabled: true, head, bodies: Seq::empty() }
}

/// A block that owns one loop body.
pub open spec fn looped(id: Seq<char>, head: HeadView, body: Seq<BlockView>) -> BlockView {
    BlockView {
        id,
        enabled: true,
        head,
        bodies: seq![BodyView { role: RoleView::Loop, blocks: body }],
    }
}

pub fn observe_block(id: &str, condition: Condition) -> (block: Block)
    ensures
        block@ == (BlockView {
            id: id@,
            enabled: true,
            head: HeadView::Observe { condition: condition_view(condition) },
            bodies: condition_bodies(condition),
        }),
{
    let block = Block { id: id.to_owned(), enabled: true, kind: BlockKind::Observe { condition } };
    assert(block@.bodies == kind_bodies(block.kind));
    block
}

pub fn action_block(id: &str, action: Action) -> (block: Block)
    ensures
        block@ == leaf(id@, HeadView::Action { action: action@ }),
{
    let block = Block { id: id.to_owned(), enabled: true, kind: BlockKind::Action { action } };
    assert(block@.bodies == kind_bodies(block.kind));
    block
}

pub fn wait_block(id: &str, duration_ms: u64) -> (block: Block)
    ensures
        block@ == leaf(id@, HeadView::Wait { duration_ms }),
{
    let block = Block { id: id.to_owned(), enabled: true, kind: BlockKind::Wait { duration_ms } };
    assert(block@.bodies == kind_bodies(block.kind));
    block
}

pub fn repeat_block(id: &str, count: u32, body: Vec<Block>) -> (block: Block)
    ensures
        block@ == looped(id@, HeadView::RepeatN { count }, blocks_view(body@)),
{
    let block = Block {
        id: id.to_owned(),
        enabled: true,
        kind: BlockKind::RepeatN { count, body },
    };
    assert(block@.bodies == kind_bodies(block.kind));
    block
}

pub fn continuous_block(id: &str, body: Vec<Block>) -> (block: Block)
    ensures
        block@ == looped(id@, HeadView::Continuous, blocks_view(body@)),
{
    let block = Block { id: id.to_owned(), enabled: true, kind: BlockKind::Continuous { body } };
    assert(block@.bodies == kind_bodies(block.kind));
    block
}

/// A loop whose condition is checked once per iteration and waits for nothing.
pub fn repeat_until_block(
    id: &str,
    condition: Condition,
    max_iterations: Limit<u64>,
    body: Vec<Block>,
) -> (block: Block)
    ensures
        block@ == (BlockView {
            id: id@,
            enabled: true,
            head: HeadView::RepeatUntil { condition: condition_view(condition), max_iterations },
            bodies: seq![BodyView { role: RoleView::Loop, blocks: blocks_view(body@) }]
                + condition_bodies(condition),
        }),
{
    let block = Block {
        id: id.to_owned(),
        enabled: true,
        kind: BlockKind::RepeatUntil { condition, max_iterations, body },
    };
    assert(block@.bodies == kind_bodies(block.kind));
    block
}

} // verus!
