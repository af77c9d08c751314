//! Structural identities: those of blocks and of watch lanes.
use crate::container::{lemma_roles, role_fits};
use crate::content::{option_view, views};
use crate::id_set::IdSet;
use crate::macro_engine::{
    blocks_view, lane_view, lanes_view, outcome_bodies, Block, BlockKind, BlockView, BodyView,
    RoleView,
};
use crate::tree::{flatten, walk};
use vstd::prelude::*;

verus! {

broadcast use crate::macro_engine::group_block_views;

/// The identities of the lanes among a list of bodies.
pub open spec fn lane_ids(bodies: Seq<BodyView>) -> Seq<Seq<char>>
    decreases bodies.len(),
{
    if bodies.len() == 0 {
        Seq::empty()
    } else {
        match bodies.last().role {
            RoleView::Lane { id, .. } => lane_ids(bodies.drop_last()).push(id),
            _ => lane_ids(bodies.drop_last()),
        }
    }
}

/// The identities that a block itself brings: its own, and those of its lanes.
pub open spec fn own_ids(block: BlockView) -> Seq<Seq<char>> {
    seq![block.id] + lane_ids(block.bodies)
}

/// The identities that the blocks of a flat list bring.
pub open spec fn ids_of(flat: Seq<BlockView>) -> Seq<Seq<char>>
    decreases flat.len(),
{
    if flat.len() == 0 {
        Seq::empty()
    } else {
        ids_of(flat.drop_last()) + own_ids(flat.last())
    }
}

/// Every structural identity in and below a list of blocks, in the order of the walk.
pub open spec fn structural_ids(blocks: Seq<BlockView>) -> Seq<Seq<char>> {
    ids_of(flatten(blocks))
}

/// The first identity of a list that stands earlier in it too.
pub open spec fn first_repeat(ids: Seq<Seq<char>>) -> Option<Seq<char>>
    decreases ids.len(),
{
    if ids.len() == 0 {
        None
    } else {
        match first_repeat(ids.drop_last()) {
            Some(id) => Some(id),
            None => if ids.drop_last().contains(ids.last()) {
                Some(ids.last())
            } else {
                None
            },
        }
    }
}

/// A list without a repeated identity is one without duplicates.
pub proof fn lemma_first_repeat_none(ids: Seq<Seq<char>>)
    ensures
        first_repeat(ids) is None <==> ids.no_duplicates(),
    decreases ids.len(),
{
    if ids.len() > 0 {
        let rest = ids.drop_last();
        lemma_first_repeat_none(rest);
        if ids.no_duplicates() {
            assert forall|i: int, j: int|
                0 <= i < rest.len() && 0 <= j < rest.len() && i != j implies rest[i] != rest[j] by {
                assert(ids[i] != ids[j]);
            }
            assert(rest.no_duplicates());
            assert(!rest.contains(ids.last()));
        }
        if first_repeat(ids) is None {
            assert(rest.no_duplicates());
            assert(!rest.contains(ids.last()));
            assert forall|i: int, j: int|
                0 <= i < ids.len() && 0 <= j < ids.len() && i != j implies ids[i] != ids[j] by {
                if i < rest.len() && j < rest.len() {
                    assert(rest[i] != rest[j]);
                } else if i < rest.len() {
                    assert(rest[i] == ids[i]);
                } else {
                    assert(rest[j] == ids[j]);
                }
            }
        }
    }
}

/// A repeated identity in a prefix is the first repeated identity of the whole.
pub proof fn lemma_first_repeat_prefix(ids: Seq<Seq<char>>, n: int)
    requires
        0 <= n <= ids.len(),
        first_repeat(ids.take(n)) is Some,
    ensures
        first_repeat(ids) == first_repeat(ids.take(n)),
    decreases ids.len(),
{
    if n < ids.len() {
        assert(ids.drop_last().take(n) =~= ids.take(n));
        lemma_first_repeat_prefix(ids.drop_last(), n);
    } else {
        assert(ids.take(n) =~= ids);
    }
}

pub proof fn lemma_lane_ids_add(left: Seq<BodyView>, right: Seq<BodyView>)
    ensures
        lane_ids(left + right) == lane_ids(left) + lane_ids(right),
    decreases right.len(),
{
    if right.len() == 0 {
        assert(left + right =~= left);
        assert(lane_ids(left) + lane_ids(right) =~= lane_ids(left));
    } else {
        assert((left + right).drop_last() =~= left + right.drop_last());
        lemma_lane_ids_add(left, right.drop_last());
        assert(lane_ids(left + right) =~= lane_ids(left) + lane_ids(right));
    }
}

proof fn lemma_no_lane_ids(bodies: Seq<BodyView>)
    requires
        forall|j: int| 0 <= j < bodies.len() ==> !((#[trigger] bodies[j]).role is Lane),
    ensures
        lane_ids(bodies) == Seq::<Seq<char>>::empty(),
    decreases bodies.len(),
{
    if bodies.len() > 0 {
        assert forall|j: int| 0 <= j < bodies.drop_last().len() implies !((
        #[trigger] bodies.drop_last()[j]).role is Lane) by {
            assert(bodies.drop_last()[j] == bodies[j]);
        }
        lemma_no_lane_ids(bodies.drop_last());
        assert(!(bodies[bodies.len() - 1].role is Lane));
    }
}

/// Appends the identities that a block itself brings.
fn collect_own_ids<'a>(block: &'a Block, out: &mut Vec<&'a String>)
    ensures
        views(final(out)@) == views(old(out)@) + own_ids(block@),
{
    let ghost before = views(out@);
    out.push(&block.id);
    assert(views(out@) =~= before + seq![block@.id]);
    match &block.kind {
        BlockKind::WatchGroup { group } => {
            let ghost lanes = lanes_view(group.lanes@);
            let mut i: usize = 0;
            assert(views(out@) =~= before + seq![block@.id] + lane_ids(lanes.take(0)));
            while i < group.lanes.len()
                invariant
                    i <= group.lanes@.len(),
                    lanes == lanes_view(group.lanes@),
                    views(out@) == before + seq![block@.id] + lane_ids(lanes.take(i as int)),
                decreases group.lanes@.len() - i,
            {
                let ghost sofar = views(out@);
                out.push(&group.lanes[i].id);
                proof {
                    assert(lanes.take(i + 1).drop_last() =~= lanes.take(i as int));
                    assert(lanes.take(i + 1).last() == lane_view(group.lanes@[i as int]));
                    assert(views(out@) =~= sofar.push(group.lanes@[i as int].id@));
                    assert(views(out@) =~= before + seq![block@.id] + lane_ids(lanes.take(i + 1)));
                }
                i += 1;
            }
            proof {
                assert(lanes.take(i as int) =~= lanes);
                let rest = outcome_bodies(group.timeout_outcome);
                lemma_lane_ids_add(lanes, rest);
                assert(forall|j: int| 0 <= j < rest.len() ==> (#[trigger] rest[j]).role is Timeout);
                lemma_no_lane_ids(rest);
                assert(block@.bodies == lanes + rest);
                assert(lane_ids(block@.bodies) =~= lane_ids(lanes));
                assert(views(out@) =~= before + own_ids(block@));
            }
        },
        _ => {
            proof {
                lemma_roles(*block);
                assert forall|j: int| 0 <= j < block@.bodies.len() implies !((
                #[trigger] block@.bodies[j]).role is Lane) by {
                    assert(role_fits(block.kind, j, block@.bodies[j].role));
                }
                lemma_no_lane_ids(block@.bodies);
                assert(views(out@) =~= before + own_ids(block@));
            }
        },
    }
}

/// Every structural identity in and below a list of blocks, in the order of the walk.
pub fn all_ids<'a>(blocks: &'a Vec<Block>) -> (ids: Vec<&'a String>)
    ensures
        views(ids@) == structural_ids(blocks_view(blocks@)),
{
    let all = walk(blocks);
    let ghost flat = views(all@);
    let mut ids: Vec<&'a String> = Vec::new();
    let mut i: usize = 0;
    assert(views(ids@) =~= ids_of(flat.take(0)));
    while i < all.len()
        invariant
            i <= all@.len(),
            flat == views(all@),
            views(ids@) == ids_of(flat.take(i as int)),
        decreases all@.len() - i,
    {
        collect_own_ids(all[i], &mut ids);
        proof {
            assert(flat.take(i + 1).drop_last() =~= flat.take(i as int));
            assert(flat.take(i + 1).last() == all@[i as int]@);
        }
        i += 1;
    }
    assert(flat.take(i as int) =~= flat);
    ids
}

/// The set of all structural identities in and below a list of blocks.
pub fn structural_id_set(blocks: &Vec<Block>) -> (set: IdSet)
    ensures
        set@ == structural_ids(blocks_view(blocks@)).to_set(),
{
    let ids = all_ids(blocks);
    let ghost list = views(ids@);
    let mut set = IdSet::new();
    let mut i: usize = 0;
    assert(list.take(0).to_set() =~= Set::empty());
    while i < ids.len()
        invariant
            i <= ids@.len(),
            list == views(ids@),
            set@ == list.take(i as int).to_set(),
        decreases ids@.len() - i,
    {
        let _ = set.insert(ids[i].clone());
        proof {
            assert(list.take(i + 1) =~= list.take(i as int).push(list[i as int]));
            list.take(i as int).lemma_push_to_set_commute(list[i as int]);
        }
        i += 1;
    }
    assert(list.take(i as int) =~= list);
    set
}

/// The first structural identity that occurs a second time.
pub fn repeated_id(blocks: &Vec<Block>) -> (id: Option<String>)
    ensures
        option_view(id) == first_repeat(structural_ids(blocks_view(blocks@))),
{
    let ids = all_ids(blocks);
    let ghost list = views(ids@);
    let mut seen = IdSet::new();
    let mut i: usize = 0;
    assert(list.take(0).to_set() =~= Set::empty());
    while i < ids.len()
        invariant
            i <= ids@.len(),
            list == views(ids@),
            list == structural_ids(blocks_view(blocks@)),
            seen@ == list.take(i as int).to_set(),
            first_repeat(list.take(i as int)) is None,
        decreases ids@.len() - i,
    {
        proof {
            assert(list.take(i + 1).drop_last() =~= list.take(i as int));
            assert(list.take(i + 1) =~= list.take(i as int).push(list[i as int]));
            list.take(i as int).lemma_push_to_set_commute(list[i as int]);
        }
        if !seen.insert(ids[i].clone()) {
            proof {
                lemma_first_repeat_prefix(list, i + 1);
            }
            return Some(ids[i].clone());
        }
        i += 1;
    }
    assert(list.take(i as int) =~= list);
    None
}

} // verus!
