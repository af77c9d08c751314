//! Blocks by identity: how one is found for a change, and the tree with one block replaced.
use crate::container::{child_container_mut, with_body};
use crate::macro_engine::{block_view, blocks_view, Block, BlockView, BodyView};
use crate::text::same_text;
use crate::tree::{
    child_containers, find_block, first_index, first_where, flatten, flatten_block,
    flatten_bodies, found_block, has_id, lemma_child_smaller, lemma_first_index,
    lemma_first_where_add, lemma_first_where_one, lemma_is_first_index, size,
};
use vstd::prelude::*;

verus! {

broadcast use crate::macro_engine::group_block_views;

/// The predicate that picks the blocks that have an identity or have it below them.
pub open spec fn block_has(id: Seq<char>) -> spec_fn(BlockView) -> bool {
    |block: BlockView| first_where(flatten_block(block), has_id(id)) is Some
}

/// The predicate that picks the bodies that have an identity in or below them.
pub open spec fn body_has(id: Seq<char>) -> spec_fn(BodyView) -> bool {
    |body: BodyView| first_where(flatten(body.blocks), has_id(id)) is Some
}

/// A list of blocks with the first block of an identity replaced, and everything else kept.
pub open spec fn with_block(
    blocks: Seq<BlockView>,
    id: Seq<char>,
    new: BlockView,
) -> Seq<BlockView>
    decreases blocks,
{
    match first_index(blocks, block_has(id)) {
        Some(i) if 0 <= i < blocks.len() => blocks.update(i, with_block_below(blocks[i], id, new)),
        _ => blocks,
    }
}

/// A block with the first block of an identity, itself or below it, replaced.
pub open spec fn with_block_below(block: BlockView, id: Seq<char>, new: BlockView) -> BlockView
    decreases block,
{
    if block.id == id {
        new
    } else {
        match first_index(block.bodies, body_has(id)) {
            Some(k) if 0 <= k < block.bodies.len() => with_body(
                block,
                k,
                with_block(block.bodies[k].blocks, id, new),
            ),
            _ => block,
        }
    }
}

/// The first block of an identity below a list of bodies stands in the first body that has it.
pub proof fn lemma_first_id_in_bodies(bodies: Seq<BodyView>, id: Seq<char>)
    ensures
        first_where(flatten_bodies(bodies), has_id(id)) == (match first_index(
            bodies,
            body_has(id),
        ) {
            Some(k) => first_where(flatten(bodies[k].blocks), has_id(id)),
            None => None,
        }),
    decreases bodies.len(),
{
    if bodies.len() > 0 {
        let rest = bodies.drop_last();
        lemma_first_id_in_bodies(rest, id);
        lemma_first_where_add(flatten_bodies(rest), flatten(bodies.last().blocks), has_id(id));
        lemma_first_index(rest, body_has(id));
        lemma_first_index(bodies, body_has(id));
    }
}

/// The first block of an identity below a list of blocks stands in the first block that has it.
pub proof fn lemma_first_id_in_blocks(blocks: Seq<BlockView>, id: Seq<char>)
    ensures
        first_where(flatten(blocks), has_id(id)) == (match first_index(blocks, block_has(id)) {
            Some(i) => first_where(flatten_block(blocks[i]), has_id(id)),
            None => None,
        }),
    decreases blocks.len(),
{
    if blocks.len() > 0 {
        let rest = blocks.drop_last();
        lemma_first_id_in_blocks(rest, id);
        lemma_first_where_add(flatten(rest), flatten_block(blocks.last()), has_id(id));
        lemma_first_index(rest, block_has(id));
        lemma_first_index(blocks, block_has(id));
    }
}

/// The first block of an identity in a block is the block itself, or the first below it.
pub proof fn lemma_first_id_in_block(block: BlockView, id: Seq<char>)
    ensures
        first_where(flatten_block(block), has_id(id)) == (if block.id == id {
            Some(block)
        } else {
            first_where(flatten_bodies(block.bodies), has_id(id))
        }),
{
    lemma_first_where_add(seq![block], flatten_bodies(block.bodies), has_id(id));
    lemma_first_where_one(block, has_id(id));
}

/// The first body of a block that has an identity in or below it.
fn body_with(block: &Block, id: &str) -> (index: Option<usize>)
    ensures
        match index {
            Some(k) => first_index(block@.bodies, body_has(id@)) == Some(k as int) && k
                < block@.bodies.len(),
            None => first_index(block@.bodies, body_has(id@)) is None,
        },
{
    let bodies = child_containers(block);
    let mut k: usize = 0;
    proof {
        lemma_first_index(block@.bodies, body_has(id@));
    }
    while k < bodies.len()
        invariant
            k <= bodies@.len(),
            bodies@.len() == block@.bodies.len(),
            forall|j: int|
                0 <= j < bodies@.len() ==> blocks_view((#[trigger] bodies@[j])@)
                    == block@.bodies[j].blocks,
            forall|j: int| 0 <= j < k ==> !body_has(id@)(#[trigger] block@.bodies[j]),
        decreases bodies@.len() - k,
    {
        let found = find_block(bodies[k], id);
        if found.is_some() {
            proof {
                assert(body_has(id@)(block@.bodies[k as int]));
                lemma_is_first_index(block@.bodies, body_has(id@), k as int);
            }
            return Some(k);
        }
        assert(!body_has(id@)(block@.bodies[k as int]));
        k += 1;
    }
    None
}

/// Finds the first block of an identity in the order of the walk, for changing it.
pub fn find_block_mut<'a>(blocks: &'a mut Vec<Block>, id: &str) -> (found: Option<&'a mut Block>)
    ensures
        match found {
            Some(block) => found_block(blocks_view(old(blocks)@), id@) == Some(block@)
                && blocks_view(final(blocks)@) == with_block(
                blocks_view(old(blocks)@),
                id@,
                final(block)@,
            ),
            None => found_block(blocks_view(old(blocks)@), id@) is None && *final(blocks) == *old(
                blocks,
            ),
        },
    decreases size(blocks_view(old(blocks)@)),
{
    let ghost all = blocks_view(blocks@);
    let mut i: usize = 0;
    proof {
        lemma_first_index(all, block_has(id@));
        lemma_first_id_in_blocks(all, id@);
    }
    while i < blocks.len()
        invariant
            *blocks == *old(blocks),
            all == blocks_view(blocks@),
            i <= blocks@.len(),
            forall|j: int| 0 <= j < i ==> !block_has(id@)(#[trigger] all[j]),
        decreases blocks@.len() - i,
    {
        proof {
            lemma_first_id_in_block(all[i as int], id@);
            lemma_first_id_in_bodies(all[i as int].bodies, id@);
            lemma_first_id_in_blocks(all, id@);
            lemma_first_index(all[i as int].bodies, body_has(id@));
            assert forall|block: Block|
                #[trigger] blocks_view(blocks@.update(i as int, block)) == all.update(
                    i as int,
                    block_view(block),
                ) by {
                assert(blocks_view(blocks@.update(i as int, block)) =~= all.update(
                    i as int,
                    block_view(block),
                ));
            }
        }
        if same_text(blocks[i].id.as_str(), id) {
            proof {
                assert(block_has(id@)(all[i as int]));
                lemma_is_first_index(all, block_has(id@), i as int);
            }
            return Some(&mut blocks[i]);
        }
        if let Some(k) = body_with(&blocks[i], id) {
            proof {
                assert(block_has(id@)(all[i as int]));
                lemma_is_first_index(all, block_has(id@), i as int);
                lemma_child_smaller(all, i as int, k as int);
            }
            return match child_container_mut(&mut blocks[i], k) {
                Some(body) => find_block_mut(body, id),
                None => None,
            };
        }
        i += 1;
    }
    None
}

} // verus!
