//! The tree of blocks: the bodies that a block owns, and the walk over all blocks.
use crate::content::{option_view, views};
use crate::macro_engine::{
    blocks_view, condition_bodies, lanes_view, mode_bodies, outcome_bodies, Block, BlockKind,
    BlockView, BodyView, Condition, ObserveMode, RoleView, TimeoutOutcome,
};
use crate::text::same_text;
use vstd::prelude::*;

verus! {

broadcast use crate::macro_engine::group_block_views;

/// Every block of a list in the order of the walk: a block comes before the blocks of its bodies,
/// and those come before the block's next sibling.
pub open spec fn flatten(blocks: Seq<BlockView>) -> Seq<BlockView>
    decreases blocks,
{
    if blocks.len() == 0 {
        Seq::empty()
    } else {
        flatten(blocks.drop_last()) + flatten_block(blocks.last())
    }
}

/// A block and every block below it.
pub open spec fn flatten_block(block: BlockView) -> Seq<BlockView>
    decreases block,
{
    seq![block] + flatten_bodies(block.bodies)
}

/// Every block of a list of bodies.
pub open spec fn flatten_bodies(bodies: Seq<BodyView>) -> Seq<BlockView>
    decreases bodies,
{
    if bodies.len() == 0 {
        Seq::empty()
    } else {
        flatten_bodies(bodies.drop_last()) + flatten(bodies.last().blocks)
    }
}

/// The first element that a predicate holds of.
pub open spec fn first_where<T>(list: Seq<T>, holds: spec_fn(T) -> bool) -> Option<T>
    decreases list.len(),
{
    if list.len() == 0 {
        None
    } else {
        match first_where(list.drop_last(), holds) {
            Some(found) => Some(found),
            None => if holds(list.last()) {
                Some(list.last())
            } else {
                None
            },
        }
    }
}

pub proof fn lemma_first_where_add<T>(left: Seq<T>, right: Seq<T>, holds: spec_fn(T) -> bool)
    ensures
        first_where(left + right, holds) == (match first_where(left, holds) {
            Some(found) => Some(found),
            None => first_where(right, holds),
        }),
    decreases right.len(),
{
    if right.len() == 0 {
        assert(left + right =~= left);
    } else {
        assert((left + right).drop_last() =~= left + right.drop_last());
        assert((left + right).last() == right.last());
        lemma_first_where_add(left, right.drop_last(), holds);
    }
}

pub proof fn lemma_first_where_one<T>(item: T, holds: spec_fn(T) -> bool)
    ensures
        first_where(seq![item], holds) == (if holds(item) {
            Some(item)
        } else {
            None::<T>
        }),
{
    reveal_with_fuel(first_where, 2);
    assert(seq![item].drop_last() =~= Seq::empty());
}

/// The index of the first element that a predicate holds of.
pub open spec fn first_index<T>(list: Seq<T>, holds: spec_fn(T) -> bool) -> Option<int>
    decreases list.len(),
{
    if list.len() == 0 {
        None
    } else {
        match first_index(list.drop_last(), holds) {
            Some(at) => Some(at),
            None => if holds(list.last()) {
                Some(list.len() - 1)
            } else {
                None
            },
        }
    }
}

/// `first_index` is the least index at which the predicate holds, if there is one.
pub proof fn lemma_first_index<T>(list: Seq<T>, holds: spec_fn(T) -> bool)
    ensures
        match first_index(list, holds) {
            Some(at) => 0 <= at < list.len() && holds(list[at]) && forall|j: int|
                0 <= j < at ==> !holds(#[trigger] list[j]),
            None => forall|j: int| 0 <= j < list.len() ==> !holds(#[trigger] list[j]),
        },
    decreases list.len(),
{
    if list.len() > 0 {
        lemma_first_index(list.drop_last(), holds);
        assert forall|j: int| 0 <= j < list.len() - 1 implies list.drop_last()[j] == list[j] by {}
        match first_index(list.drop_last(), holds) {
            Some(at) => {
                assert forall|j: int| 0 <= j < at implies !holds(#[trigger] list[j]) by {
                    assert(list.drop_last()[j] == list[j]);
                }
            },
            None => {
                assert forall|j: int| 0 <= j < list.len() - 1 implies !holds(#[trigger] list[j]) by {
                    assert(list.drop_last()[j] == list[j]);
                }
            },
        }
    }
}

/// An index at which the predicate holds, and before which it does not, is the first.
pub proof fn lemma_is_first_index<T>(list: Seq<T>, holds: spec_fn(T) -> bool, at: int)
    requires
        0 <= at < list.len(),
        holds(list[at]),
        forall|j: int| 0 <= j < at ==> !holds(#[trigger] list[j]),
    ensures
        first_index(list, holds) == Some(at),
{
    lemma_first_index(list, holds);
}

/// One more element decides `first_where` only where nothing before it was found.
pub proof fn lemma_first_where_step<T>(list: Seq<T>, i: int, holds: spec_fn(T) -> bool)
    requires
        0 <= i < list.len(),
        first_where(list.take(i), holds) is None,
    ensures
        holds(list[i]) ==> first_where(list, holds) == Some(list[i]),
        !holds(list[i]) ==> first_where(list.take(i + 1), holds) is None,
{
    assert(list.take(i + 1).drop_last() =~= list.take(i));
    assert(list =~= list.take(i + 1) + list.skip(i + 1));
    lemma_first_where_add(list.take(i + 1), list.skip(i + 1), holds);
}

/// What `first_where` finds stands in the list, satisfies the predicate, and nothing before it does.
pub proof fn lemma_first_where_found<T>(list: Seq<T>, holds: spec_fn(T) -> bool) -> (at: int)
    ensures
        match first_where(list, holds) {
            Some(found) => 0 <= at < list.len() && list[at] == found && holds(found) && forall|
                j: int,
            |
                0 <= j < at ==> !holds(#[trigger] list[j]),
            None => forall|j: int| 0 <= j < list.len() ==> !holds(#[trigger] list[j]),
        },
    decreases list.len(),
{
    if list.len() == 0 {
        0
    } else {
        let at = lemma_first_where_found(list.drop_last(), holds);
        match first_where(list.drop_last(), holds) {
            Some(_) => {
                assert forall|j: int| 0 <= j < at implies !holds(#[trigger] list[j]) by {
                    assert(list.drop_last()[j] == list[j]);
                }
                at
            },
            None => {
                assert forall|j: int| 0 <= j < list.len() - 1 implies !holds(#[trigger] list[j]) by {
                    assert(list.drop_last()[j] == list[j]);
                }
                list.len() - 1
            },
        }
    }
}

pub proof fn lemma_flatten_take(blocks: Seq<BlockView>, i: int)
    requires
        0 <= i < blocks.len(),
    ensures
        flatten(blocks.take(i + 1)) == flatten(blocks.take(i)) + flatten_block(blocks[i]),
{
    assert(blocks.take(i + 1).drop_last() =~= blocks.take(i));
}

pub proof fn lemma_flatten_bodies_take(bodies: Seq<BodyView>, k: int)
    requires
        0 <= k < bodies.len(),
    ensures
        flatten_bodies(bodies.take(k + 1)) == flatten_bodies(bodies.take(k)) + flatten(
            bodies[k].blocks,
        ),
{
    assert(bodies.take(k + 1).drop_last() =~= bodies.take(k));
}

pub proof fn lemma_flatten_add(left: Seq<BlockView>, right: Seq<BlockView>)
    ensures
        flatten(left + right) == flatten(left) + flatten(right),
    decreases right.len(),
{
    if right.len() == 0 {
        assert(left + right =~= left);
        assert(flatten(left) + flatten(right) =~= flatten(left));
    } else {
        assert((left + right).drop_last() =~= left + right.drop_last());
        lemma_flatten_add(left, right.drop_last());
        assert(flatten(left + right) =~= flatten(left) + flatten(right));
    }
}

pub proof fn lemma_flatten_bodies_add(left: Seq<BodyView>, right: Seq<BodyView>)
    ensures
        flatten_bodies(left + right) == flatten_bodies(left) + flatten_bodies(right),
    decreases right.len(),
{
    if right.len() == 0 {
        assert(left + right =~= left);
        assert(flatten_bodies(left) + flatten_bodies(right) =~= flatten_bodies(left));
    } else {
        assert((left + right).drop_last() =~= left + right.drop_last());
        lemma_flatten_bodies_add(left, right.drop_last());
        assert(flatten_bodies(left + right) =~= flatten_bodies(left) + flatten_bodies(right));
    }
}

/// Number of blocks in a list and below it.
pub open spec fn size(blocks: Seq<BlockView>) -> nat {
    flatten(blocks).len()
}

pub proof fn lemma_block_smaller(blocks: Seq<BlockView>, i: int)
    requires
        0 <= i < blocks.len(),
    ensures
        flatten_block(blocks[i]).len() <= size(blocks),
        flatten_bodies(blocks[i].bodies).len() < size(blocks),
    decreases blocks.len(),
{
    if i < blocks.len() - 1 {
        assert(blocks.drop_last()[i] == blocks[i]);
        lemma_block_smaller(blocks.drop_last(), i);
    }
    assert(flatten_block(blocks[i]).len() == 1 + flatten_bodies(blocks[i].bodies).len());
}

pub proof fn lemma_body_smaller(bodies: Seq<BodyView>, k: int)
    requires
        0 <= k < bodies.len(),
    ensures
        size(bodies[k].blocks) <= flatten_bodies(bodies).len(),
    decreases bodies.len(),
{
    if k < bodies.len() - 1 {
        assert(bodies.drop_last()[k] == bodies[k]);
        lemma_body_smaller(bodies.drop_last(), k);
    }
}

/// Every body of a block of a list holds fewer blocks than the list.
pub proof fn lemma_child_smaller(blocks: Seq<BlockView>, i: int, k: int)
    requires
        0 <= i < blocks.len(),
        0 <= k < blocks[i].bodies.len(),
    ensures
        size(blocks[i].bodies[k].blocks) < size(blocks),
{
    lemma_block_smaller(blocks, i);
    lemma_body_smaller(blocks[i].bodies, k);
}

/// The predicate that picks the blocks of one identity.
pub open spec fn has_id(id: Seq<char>) -> spec_fn(BlockView) -> bool {
    |block: BlockView| block.id == id
}

/// The first block of an identity in the order of the walk.
pub open spec fn found_block(blocks: Seq<BlockView>, id: Seq<char>) -> Option<BlockView> {
    first_where(flatten(blocks), has_id(id))
}

pub fn timeout_body(outcome: &TimeoutOutcome) -> (body: Option<&Vec<Block>>)
    ensures
        match body {
            Some(blocks) => outcome_bodies(*outcome) == seq![
                BodyView { role: RoleView::Timeout, blocks: blocks_view(blocks@) },
            ],
            None => outcome_bodies(*outcome) == Seq::<BodyView>::empty(),
        },
{
    match outcome {
        TimeoutOutcome::RunBody { body } => Some(body),
        _ => None,
    }
}

pub fn mode_timeout_body(mode: &ObserveMode) -> (body: Option<&Vec<Block>>)
    ensures
        match body {
            Some(blocks) => mode_bodies(*mode) == seq![
                BodyView { role: RoleView::Timeout, blocks: blocks_view(blocks@) },
            ],
            None => mode_bodies(*mode) == Seq::<BodyView>::empty(),
        },
{
    match mode {
        ObserveMode::CheckNow => None,
        ObserveMode::WaitForTrue { timeout_outcome, .. } => timeout_body(timeout_outcome),
        ObserveMode::WaitForFalse { timeout_outcome, .. } => timeout_body(timeout_outcome),
    }
}

pub fn condition_timeout_body(condition: &Condition) -> (body: Option<&Vec<Block>>)
    ensures
        match body {
            Some(blocks) => condition_bodies(*condition) == seq![
                BodyView { role: RoleView::Timeout, blocks: blocks_view(blocks@) },
            ],
            None => condition_bodies(*condition) == Seq::<BodyView>::empty(),
        },
{
    match condition {
        Condition::Text { mode, .. } => mode_timeout_body(mode),
        Condition::Image { mode, .. } => mode_timeout_body(mode),
    }
}

/// The bodies that a block owns, in the order of the walk.
pub fn child_containers(block: &Block) -> (bodies: Vec<&Vec<Block>>)
    ensures
        bodies@.len() == block@.bodies.len(),
        forall|k: int|
            0 <= k < bodies@.len() ==> blocks_view((#[trigger] bodies@[k])@)
                == block@.bodies[k].blocks,
{
    let mut bodies: Vec<&Vec<Block>> = Vec::new();
    match &block.kind {
        BlockKind::If { condition, then_body, else_body } => {
            bodies.push(then_body);
            bodies.push(else_body);
            if let Some(body) = condition_timeout_body(condition) {
                bodies.push(body);
            }
        },
        BlockKind::RepeatN { body, .. } => {
            bodies.push(body);
        },
        BlockKind::Continuous { body } => {
            bodies.push(body);
        },
        BlockKind::RepeatUntil { condition, body, .. } => {
            bodies.push(body);
            if let Some(timeout) = condition_timeout_body(condition) {
                bodies.push(timeout);
            }
        },
        BlockKind::Observe { condition } => {
            if let Some(body) = condition_timeout_body(condition) {
                bodies.push(body);
            }
        },
        BlockKind::WatchGroup { group } => {
            let mut i: usize = 0;
            while i < group.lanes.len()
                invariant
                    i <= group.lanes@.len(),
                    bodies@.len() == i,
                    forall|k: int|
                        0 <= k < i ==> blocks_view((#[trigger] bodies@[k])@) == lanes_view(
                            group.lanes@,
                        )[k].blocks,
                decreases group.lanes@.len() - i,
            {
                bodies.push(&group.lanes[i].then_body);
                i += 1;
            }
            if let Some(body) = timeout_body(&group.timeout_outcome) {
                bodies.push(body);
            }
        },
        _ => {},
    }
    bodies
}

/// Appends every block of a list, and every block below them, in the order of the walk.
fn collect_blocks<'a>(blocks: &'a Vec<Block>, out: &mut Vec<&'a Block>)
    ensures
        views(final(out)@) == views(old(out)@) + flatten(blocks_view(blocks@)),
    decreases size(blocks_view(blocks@)),
{
    let ghost all = blocks_view(blocks@);
    let ghost before = views(out@);
    let mut i: usize = 0;
    assert(flatten(all.take(0)) =~= Seq::empty());
    assert(views(out@) =~= before + flatten(all.take(0)));
    while i < blocks.len()
        invariant
            all == blocks_view(blocks@),
            i <= blocks@.len(),
            views(out@) == before + flatten(all.take(i as int)),
        decreases blocks@.len() - i,
    {
        let block = &blocks[i];
        let ghost start = views(out@);
        out.push(block);
        let bodies = child_containers(block);
        let mut k: usize = 0;
        assert(views(out@) =~= start + seq![block@] + flatten_bodies(block@.bodies.take(0)));
        while k < bodies.len()
            invariant
                all == blocks_view(blocks@),
                i < blocks@.len(),
                block == blocks@[i as int],
                k <= bodies@.len(),
                bodies@.len() == block@.bodies.len(),
                forall|j: int|
                    0 <= j < bodies@.len() ==> blocks_view((#[trigger] bodies@[j])@)
                        == block@.bodies[j].blocks,
                views(out@) == start + seq![block@] + flatten_bodies(
                    block@.bodies.take(k as int),
                ),
            decreases bodies@.len() - k,
        {
            proof {
                lemma_child_smaller(all, i as int, k as int);
                lemma_flatten_bodies_take(block@.bodies, k as int);
            }
            collect_blocks(bodies[k], out);
            k += 1;
            assert(views(out@) =~= start + seq![block@] + flatten_bodies(
                block@.bodies.take(k as int),
            ));
        }
        proof {
            assert(block@.bodies.take(k as int) =~= block@.bodies);
            lemma_flatten_take(all, i as int);
        }
        i += 1;
        assert(views(out@) =~= before + flatten(all.take(i as int)));
    }
    assert(all.take(i as int) =~= all);
}

/// Every block of a list and every block below them, in the order of the walk.
pub fn walk<'a>(blocks: &'a Vec<Block>) -> (all: Vec<&'a Block>)
    ensures
        views(all@) == flatten(blocks_view(blocks@)),
{
    let mut all: Vec<&'a Block> = Vec::new();
    collect_blocks(blocks, &mut all);
    assert(views(all@) =~= flatten(blocks_view(blocks@)));
    all
}

/// Finds the first block of an identity in the order of the walk.
pub fn find_block<'a>(blocks: &'a Vec<Block>, id: &str) -> (found: Option<&'a Block>)
    ensures
        option_view(found) == found_block(blocks_view(blocks@), id@),
{
    let all = walk(blocks);
    let ghost flat = views(all@);
    let mut i: usize = 0;
    while i < all.len()
        invariant
            i <= all@.len(),
            flat == views(all@),
            flat == flatten(blocks_view(blocks@)),
            first_where(flat.take(i as int), has_id(id@)) is None,
        decreases all@.len() - i,
    {
        proof {
            lemma_first_where_step(flat, i as int, has_id(id@));
        }
        if same_text(all[i].id.as_str(), id) {
            return Some(all[i]);
        }
        i += 1;
    }
    assert(flat.take(i as int) =~= flat);
    None
}

} // verus!
