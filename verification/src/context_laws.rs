//! What holds of the branch and the loop that the monitor shows: they are where the block stands.
use crate::container::{body_index, container, owns, plays, ContainerView};
use crate::connection_laws::lemma_bodies_walk_split;
use crate::copy_laws::{flat_plain, lemma_plain_parts, own_plain};
use crate::edits::place;
use crate::identities::structural_ids;
use crate::macro_engine::{BlockView, BodyView, HeadView, RoleView};
use crate::monitor::{
    after_all, block_stops, body_stops, context_inside, found_context, followed, known_loops,
    last_start, monitored, run_reports, snapshot_for, started, stop_at, stops, ContextView,
    MonitorView, SnapshotView, StopView,
};
use crate::monitor_laws::lemma_last_start;
use crate::place_laws::{
    lemma_below_in_block, lemma_below_in_bodies, lemma_below_in_tree, lemma_container_in_tree,
    lemma_distinct_blocks, located_block_reads_back, shaped,
};
use crate::places::located;
use crate::run_events::{EventView, FactView};
use crate::text::decimal;
use crate::tree::{
    flatten, flatten_block, flatten_bodies, found_block, has_id, lemma_first_index,
    lemma_first_where_found,
};
use vstd::prelude::*;

verus! {

/// No branch and no loop.
pub open spec fn nowhere() -> ContextView {
    ContextView { branch: None, loop_id: None }
}

/// The blocks of a flat list have different identities.
pub open spec fn distinct(flat: Seq<BlockView>) -> bool {
    forall|i: int, j: int|
        0 <= i < j < flat.len() ==> (#[trigger] flat[i]).id != (#[trigger] flat[j]).id
}

pub proof fn lemma_distinct_parts(a: Seq<BlockView>, b: Seq<BlockView>)
    requires
        distinct(a + b),
    ensures
        distinct(a),
        distinct(b),
        forall|x: BlockView, y: BlockView|
            #![trigger a.contains(x), b.contains(y)]
            a.contains(x) && b.contains(y) ==> x.id != y.id,
{
    let all = a + b;
    assert forall|i: int, j: int| 0 <= i < j < a.len() implies (#[trigger] a[i]).id != (
    #[trigger] a[j]).id by {
        assert(all[i] == a[i] && all[j] == a[j]);
    }
    assert forall|i: int, j: int| 0 <= i < j < b.len() implies (#[trigger] b[i]).id != (
    #[trigger] b[j]).id by {
        assert(all[a.len() + i] == b[i] && all[a.len() + j] == b[j]);
    }
    assert forall|x: BlockView, y: BlockView|
        #![trigger a.contains(x), b.contains(y)]
        a.contains(x) && b.contains(y) implies x.id != y.id by {
        let i = a.index_of(x);
        let j = b.index_of(y);
        assert(all[i] == x && all[a.len() + j] == y);
    }
}

/// The blocks of stops are blocks of a flat list.
spec fn within(list: Seq<StopView>, flat: Seq<BlockView>) -> bool {
    forall|i: int| 0 <= i < list.len() ==> flat.contains((#[trigger] list[i]).block)
}

proof fn lemma_within_joined(
    a: Seq<StopView>,
    x: Seq<BlockView>,
    b: Seq<StopView>,
    y: Seq<BlockView>,
)
    requires
        within(a, x),
        within(b, y),
    ensures
        within(a + b, x + y),
{
    assert forall|i: int| 0 <= i < (a + b).len() implies (x + y).contains(
        (#[trigger] (a + b)[i]).block,
    ) by {
        if i < a.len() {
            assert(x.contains(a[i].block));
            let j = x.index_of(a[i].block);
            assert((x + y)[j] == a[i].block);
        } else {
            let s = b[i - a.len()];
            assert(y.contains(s.block));
            let j = y.index_of(s.block);
            assert((x + y)[x.len() + j] == s.block);
        }
    }
}

proof fn lemma_stops_within(blocks: Seq<BlockView>, context: ContextView)
    ensures
        within(stops(blocks, context), flatten(blocks)),
    decreases blocks,
{
    if blocks.len() > 0 {
        let rest = blocks.drop_last();
        let last = blocks[blocks.len() - 1];
        assert(decreases_to!(blocks => rest));
        assert(decreases_to!(blocks => last));
        lemma_stops_within(rest, context);
        lemma_block_stops_within(last, context);
        lemma_within_joined(
            stops(rest, context),
            flatten(rest),
            block_stops(last, context),
            flatten_block(last),
        );
    }
}

proof fn lemma_block_stops_within(block: BlockView, context: ContextView)
    ensures
        within(block_stops(block, context), flatten_block(block)),
    decreases block,
{
    assert(decreases_to!(block => block.bodies));
    lemma_body_stops_within(block.id, block.head, block.bodies, context);
    assert(seq![block][0] == block);
    lemma_within_joined(
        seq![StopView { context, block }],
        seq![block],
        body_stops(block.id, block.head, block.bodies, context),
        flatten_bodies(block.bodies),
    );
}

proof fn lemma_body_stops_within(
    owner: Seq<char>,
    head: HeadView,
    bodies: Seq<BodyView>,
    context: ContextView,
)
    ensures
        within(body_stops(owner, head, bodies, context), flatten_bodies(bodies)),
    decreases bodies,
{
    if bodies.len() > 0 {
        let rest = bodies.drop_last();
        let last = bodies[bodies.len() - 1];
        assert(bodies.last() == last);
        assert(decreases_to!(bodies => rest));
        assert(decreases_to!(bodies => last.blocks));
        let inner = context_inside(owner, bodies.len() - 1, last.role, context);
        lemma_body_stops_within(owner, head, rest, context);
        lemma_stops_within(last.blocks, inner);
        let a = body_stops(owner, head, rest, context);
        if followed(head, last.role) {
            lemma_within_joined(
                a,
                flatten_bodies(rest),
                stops(last.blocks, inner),
                flatten(last.blocks),
            );
        } else {
            lemma_within_joined(a, flatten_bodies(rest), Seq::empty(), flatten(last.blocks));
            assert(a + Seq::<StopView>::empty() =~= a);
        }
    }
}

/// Stops are at blocks of different identities.
spec fn once(list: Seq<StopView>) -> bool {
    forall|i: int, j: int|
        0 <= i < j < list.len() ==> (#[trigger] list[i]).block.id != (#[trigger] list[j]).block.id
}

proof fn lemma_once_joined(
    a: Seq<StopView>,
    x: Seq<BlockView>,
    b: Seq<StopView>,
    y: Seq<BlockView>,
)
    requires
        once(a),
        once(b),
        within(a, x),
        within(b, y),
        distinct(x + y),
    ensures
        once(a + b),
{
    lemma_distinct_parts(x, y);
    let all = a + b;
    assert forall|i: int, j: int| 0 <= i < j < all.len() implies (#[trigger] all[i]).block.id != (
    #[trigger] all[j]).block.id by {
        if j < a.len() {
            assert(all[i] == a[i] && all[j] == a[j]);
        } else if i >= a.len() {
            assert(all[i] == b[i - a.len()] && all[j] == b[j - a.len()]);
        } else {
            assert(x.contains(a[i].block));
            assert(y.contains(b[j - a.len()].block));
        }
    }
}

proof fn lemma_stops_once(blocks: Seq<BlockView>, context: ContextView)
    requires
        distinct(flatten(blocks)),
    ensures
        once(stops(blocks, context)),
    decreases blocks,
{
    if blocks.len() > 0 {
        let rest = blocks.drop_last();
        let last = blocks[blocks.len() - 1];
        assert(decreases_to!(blocks => rest));
        assert(decreases_to!(blocks => last));
        lemma_distinct_parts(flatten(rest), flatten_block(last));
        lemma_stops_once(rest, context);
        lemma_block_stops_once(last, context);
        lemma_stops_within(rest, context);
        lemma_block_stops_within(last, context);
        lemma_once_joined(
            stops(rest, context),
            flatten(rest),
            block_stops(last, context),
            flatten_block(last),
        );
    }
}

proof fn lemma_block_stops_once(block: BlockView, context: ContextView)
    requires
        distinct(flatten_block(block)),
    ensures
        once(block_stops(block, context)),
    decreases block,
{
    assert(decreases_to!(block => block.bodies));
    lemma_distinct_parts(seq![block], flatten_bodies(block.bodies));
    lemma_body_stops_once(block.id, block.head, block.bodies, context);
    lemma_body_stops_within(block.id, block.head, block.bodies, context);
    assert(seq![block][0] == block);
    lemma_once_joined(
        seq![StopView { context, block }],
        seq![block],
        body_stops(block.id, block.head, block.bodies, context),
        flatten_bodies(block.bodies),
    );
}

proof fn lemma_body_stops_once(
    owner: Seq<char>,
    head: HeadView,
    bodies: Seq<BodyView>,
    context: ContextView,
)
    requires
        distinct(flatten_bodies(bodies)),
    ensures
        once(body_stops(owner, head, bodies, context)),
    decreases bodies,
{
    if bodies.len() > 0 {
        let rest = bodies.drop_last();
        let last = bodies[bodies.len() - 1];
        assert(bodies.last() == last);
        assert(decreases_to!(bodies => rest));
        assert(decreases_to!(bodies => last.blocks));
        let inner = context_inside(owner, bodies.len() - 1, last.role, context);
        lemma_distinct_parts(flatten_bodies(rest), flatten(last.blocks));
        lemma_body_stops_once(owner, head, rest, context);
        if followed(head, last.role) {
            lemma_stops_once(last.blocks, inner);
            lemma_body_stops_within(owner, head, rest, context);
            lemma_stops_within(last.blocks, inner);
            lemma_once_joined(
                body_stops(owner, head, rest, context),
                flatten_bodies(rest),
                stops(last.blocks, inner),
                flatten(last.blocks),
            );
        }
    }
}

proof fn lemma_in_joined(a: Seq<StopView>, b: Seq<StopView>, one: StopView)
    ensures
        (a + b).contains(one) <==> a.contains(one) || b.contains(one),
{
    if a.contains(one) {
        let i = a.index_of(one);
        assert((a + b)[i] == one);
    }
    if b.contains(one) {
        let i = b.index_of(one);
        assert((a + b)[a.len() + i] == one);
    }
    if (a + b).contains(one) {
        let i = (a + b).index_of(one);
        if i < a.len() {
            assert(a[i] == one);
        } else {
            assert(b[i - a.len()] == one);
        }
    }
}

/// The blocks of a list are stops in the context of the list.
proof fn lemma_list_stops(blocks: Seq<BlockView>, context: ContextView, i: int)
    requires
        0 <= i < blocks.len(),
    ensures
        stops(blocks, context).contains(StopView { context, block: blocks[i] }),
    decreases blocks.len(),
{
    let rest = blocks.drop_last();
    let one = StopView { context, block: blocks[i] };
    let b = block_stops(blocks.last(), context);
    if i < rest.len() {
        lemma_list_stops(rest, context, i);
        assert(rest[i] == blocks[i]);
    } else {
        assert(b[0] == one);
    }
    lemma_in_joined(stops(rest, context), b, one);
}

/// The blocks of a body that a run is followed into are stops in the context of the body.
proof fn lemma_body_list_stops(
    owner: Seq<char>,
    head: HeadView,
    bodies: Seq<BodyView>,
    context: ContextView,
    k: int,
    i: int,
)
    requires
        0 <= k < bodies.len(),
        0 <= i < bodies[k].blocks.len(),
        followed(head, bodies[k].role),
    ensures
        body_stops(owner, head, bodies, context).contains(
            StopView {
                context: context_inside(owner, k, bodies[k].role, context),
                block: bodies[k].blocks[i],
            },
        ),
    decreases bodies.len(),
{
    let rest = bodies.drop_last();
    let last = bodies.last();
    let inner = context_inside(owner, bodies.len() - 1, last.role, context);
    let one = StopView {
        context: context_inside(owner, k, bodies[k].role, context),
        block: bodies[k].blocks[i],
    };
    if k < rest.len() {
        lemma_body_list_stops(owner, head, rest, context, k, i);
        assert(rest[k] == bodies[k]);
    } else {
        lemma_list_stops(last.blocks, inner, i);
    }
    lemma_in_joined(
        body_stops(owner, head, rest, context),
        stops(last.blocks, inner),
        one,
    );
}

/// Below a stop, the blocks of a body that a run is followed into are stops in the context that the
/// body gives.
proof fn lemma_stop_leads_on(
    blocks: Seq<BlockView>,
    context: ContextView,
    at: StopView,
    k: int,
    i: int,
)
    requires
        stops(blocks, context).contains(at),
        0 <= k < at.block.bodies.len(),
        0 <= i < at.block.bodies[k].blocks.len(),
        followed(at.block.head, at.block.bodies[k].role),
    ensures
        stops(blocks, context).contains(inner_stop(at, k, i)),
    decreases blocks,
{
    let rest = blocks.drop_last();
    let last = blocks[blocks.len() - 1];
    let a = stops(rest, context);
    let b = block_stops(last, context);
    lemma_in_joined(a, b, at);
    if a.contains(at) {
        assert(decreases_to!(blocks => rest));
        lemma_stop_leads_on(rest, context, at, k, i);
    } else {
        assert(decreases_to!(blocks => last));
        lemma_block_stop_leads_on(last, context, at, k, i);
    }
    lemma_in_joined(a, b, inner_stop(at, k, i));
}

spec fn inner_stop(at: StopView, k: int, i: int) -> StopView {
    StopView {
        context: context_inside(at.block.id, k, at.block.bodies[k].role, at.context),
        block: at.block.bodies[k].blocks[i],
    }
}

proof fn lemma_block_stop_leads_on(
    block: BlockView,
    context: ContextView,
    at: StopView,
    k: int,
    i: int,
)
    requires
        block_stops(block, context).contains(at),
        0 <= k < at.block.bodies.len(),
        0 <= i < at.block.bodies[k].blocks.len(),
        followed(at.block.head, at.block.bodies[k].role),
    ensures
        block_stops(block, context).contains(inner_stop(at, k, i)),
    decreases block,
{
    let first = seq![StopView { context, block }];
    let rest = body_stops(block.id, block.head, block.bodies, context);
    lemma_in_joined(first, rest, at);
    if first.contains(at) {
        assert(at == first[0]);
        lemma_body_list_stops(block.id, block.head, block.bodies, context, k, i);
    } else {
        assert(decreases_to!(block => block.bodies));
        lemma_body_stop_leads_on(block.id, block.head, block.bodies, context, at, k, i);
    }
    lemma_in_joined(first, rest, inner_stop(at, k, i));
}

proof fn lemma_body_stop_leads_on(
    owner: Seq<char>,
    head: HeadView,
    bodies: Seq<BodyView>,
    context: ContextView,
    at: StopView,
    k: int,
    i: int,
)
    requires
        body_stops(owner, head, bodies, context).contains(at),
        0 <= k < at.block.bodies.len(),
        0 <= i < at.block.bodies[k].blocks.len(),
        followed(at.block.head, at.block.bodies[k].role),
    ensures
        body_stops(owner, head, bodies, context).contains(inner_stop(at, k, i)),
    decreases bodies,
{
    let rest = bodies.drop_last();
    let last = bodies[bodies.len() - 1];
    assert(bodies.last() == last);
    let inner = context_inside(owner, bodies.len() - 1, last.role, context);
    let a = body_stops(owner, head, rest, context);
    let b = stops(last.blocks, inner);
    lemma_in_joined(a, b, at);
    if a.contains(at) {
        assert(decreases_to!(bodies => rest));
        lemma_body_stop_leads_on(owner, head, rest, context, at, k, i);
    } else {
        assert(decreases_to!(bodies => last.blocks));
        lemma_stop_leads_on(last.blocks, inner, at, k, i);
    }
    lemma_in_joined(a, b, inner_stop(at, k, i));
}

/// A block that is a stop is found with the context of the stop.
proof fn lemma_found(blocks: Seq<BlockView>, context: ContextView, at: StopView)
    requires
        distinct(flatten(blocks)),
        stops(blocks, context).contains(at),
    ensures
        found_context(blocks, at.block.id, context) == Some(at.context),
{
    let list = stops(blocks, context);
    lemma_stops_once(blocks, context);
    let i = list.index_of(at);
    let a = lemma_first_where_found(list, stop_at(at.block.id));
    assert(stop_at(at.block.id)(list[i]));
    assert(list[a].block.id == list[i].block.id);
    assert(a == i);
}

/// A block that is found with a context is a stop in it.
proof fn lemma_found_stop(blocks: Seq<BlockView>, context: ContextView, block: BlockView)
    requires
        distinct(flatten(blocks)),
        flatten(blocks).contains(block),
        found_context(blocks, block.id, context) is Some,
    ensures
        stops(blocks, context).contains(
            StopView { context: found_context(blocks, block.id, context)->0, block },
        ),
{
    let list = stops(blocks, context);
    lemma_stops_within(blocks, context);
    let a = lemma_first_where_found(list, stop_at(block.id));
    assert(flatten(blocks).contains(list[a].block));
    let i = flatten(blocks).index_of(list[a].block);
    let j = flatten(blocks).index_of(block);
    assert(flatten(blocks)[i].id == flatten(blocks)[j].id);
    assert(i == j);
}

/// A block at the top of a macro stands in no branch and in no loop.
pub proof fn top_blocks_stand_nowhere(blocks: Seq<BlockView>, i: int)
    requires
        structural_ids(blocks).no_duplicates(),
        0 <= i < blocks.len(),
    ensures
        found_context(blocks, blocks[i].id, nowhere()) == Some(nowhere()),
{
    lemma_distinct_blocks(flatten(blocks));
    lemma_list_stops(blocks, nowhere(), i);
    lemma_found(blocks, nowhere(), StopView { context: nowhere(), block: blocks[i] });
}

/// What a block of a body stands in, given what the owner of the body stands in: a branch of an IF, a
/// lane and the timeout of a watch group are its branch, a loop is its loop, and the other one is the
/// owner's.
pub open spec fn stands_inside(
    owner: BlockView,
    k: int,
    outer: ContextView,
    inner: ContextView,
) -> bool {
    match owner.bodies[k].role {
        RoleView::Then => inner.branch == Some(owner.id + " · THEN"@) && inner.loop_id
            == outer.loop_id,
        RoleView::Else => inner.branch == Some(owner.id + " · ELSE"@) && inner.loop_id
            == outer.loop_id,
        RoleView::Loop => inner.branch == outer.branch && inner.loop_id == Some(owner.id),
        RoleView::Lane { .. } => inner.branch == Some(
            owner.id + " · Priority "@ + decimal((k + 1) as nat) + " THEN"@,
        ) && inner.loop_id == outer.loop_id,
        RoleView::Timeout => inner.branch == Some(owner.id + " · ON TIMEOUT"@) && inner.loop_id
            == outer.loop_id,
    }
}

/// A block of a body stands in the branch or the loop that the body is, within what the body's owner
/// stands in.
pub proof fn block_stands_in_its_body(blocks: Seq<BlockView>, owner: BlockView, k: int, i: int)
    requires
        structural_ids(blocks).no_duplicates(),
        flatten(blocks).contains(owner),
        0 <= k < owner.bodies.len(),
        0 <= i < owner.bodies[k].blocks.len(),
        owner.bodies[k].role is Timeout ==> owner.head is WatchGroup,
        found_context(blocks, owner.id, nowhere()) is Some,
    ensures
        found_context(blocks, owner.bodies[k].blocks[i].id, nowhere()) matches Some(inner)
            && stands_inside(
            owner,
            k,
            found_context(blocks, owner.id, nowhere())->0,
            inner,
        ),
{
    lemma_distinct_blocks(flatten(blocks));
    lemma_found_stop(blocks, nowhere(), owner);
    let at = StopView { context: found_context(blocks, owner.id, nowhere())->0, block: owner };
    lemma_stop_leads_on(blocks, nowhere(), at, k, i);
    lemma_found(blocks, nowhere(), inner_stop(at, k, i));
}

/// Every block of a macro without blocks to run on the timeout of a condition is found.
pub proof fn plain_macros_are_followed_throughout(blocks: Seq<BlockView>, block: BlockView)
    requires
        structural_ids(blocks).no_duplicates(),
        flat_plain(flatten(blocks)),
        flatten(blocks).contains(block),
    ensures
        found_context(blocks, block.id, nowhere()) is Some,
{
    lemma_distinct_blocks(flatten(blocks));
    let context = lemma_every_block_stops(blocks, nowhere(), block);
    lemma_found(blocks, nowhere(), StopView { context, block });
}

proof fn lemma_every_block_stops(
    blocks: Seq<BlockView>,
    context: ContextView,
    block: BlockView,
) -> (found: ContextView)
    requires
        flat_plain(flatten(blocks)),
        flatten(blocks).contains(block),
    ensures
        stops(blocks, context).contains(StopView { context: found, block }),
    decreases blocks,
{
    let rest = blocks.drop_last();
    let last = blocks[blocks.len() - 1];
    let head = flatten(rest);
    let tail = flatten_block(last);
    lemma_plain_parts(head, tail);
    let x = flatten(blocks).index_of(block);
    let found = if x < head.len() {
        assert(head[x] == block);
        assert(decreases_to!(blocks => rest));
        lemma_every_block_stops(rest, context, block)
    } else {
        assert(tail[x - head.len()] == block);
        assert(decreases_to!(blocks => last));
        lemma_every_block_stops_below(last, context, block)
    };
    lemma_in_joined(
        stops(rest, context),
        block_stops(last, context),
        StopView { context: found, block },
    );
    found
}

proof fn lemma_every_block_stops_below(
    owner: BlockView,
    context: ContextView,
    block: BlockView,
) -> (found: ContextView)
    requires
        flat_plain(flatten_block(owner)),
        flatten_block(owner).contains(block),
    ensures
        block_stops(owner, context).contains(StopView { context: found, block }),
    decreases owner,
{
    let first = seq![StopView { context, block: owner }];
    let rest = flatten_bodies(owner.bodies);
    lemma_plain_parts(seq![owner], rest);
    assert(own_plain(seq![owner][0]));
    let x = flatten_block(owner).index_of(block);
    let found = if x == 0 {
        assert(first[0] == (StopView { context, block }));
        context
    } else {
        assert(rest[x - 1] == block);
        assert(decreases_to!(owner => owner.bodies));
        lemma_every_block_stops_in(owner.id, owner.head, owner.bodies, context, block)
    };
    lemma_in_joined(
        first,
        body_stops(owner.id, owner.head, owner.bodies, context),
        StopView { context: found, block },
    );
    found
}

proof fn lemma_every_block_stops_in(
    owner: Seq<char>,
    head: HeadView,
    bodies: Seq<BodyView>,
    context: ContextView,
    block: BlockView,
) -> (found: ContextView)
    requires
        flat_plain(flatten_bodies(bodies)),
        flatten_bodies(bodies).contains(block),
        forall|k: int|
            0 <= k < bodies.len() && (#[trigger] bodies[k]).role is Timeout && !(
            head is WatchGroup) ==> bodies[k].blocks.len() == 0,
    ensures
        body_stops(owner, head, bodies, context).contains(StopView { context: found, block }),
    decreases bodies,
{
    let rest = bodies.drop_last();
    let last = bodies[bodies.len() - 1];
    assert(bodies.last() == last);
    let inner = context_inside(owner, bodies.len() - 1, last.role, context);
    let a = flatten_bodies(rest);
    let b = flatten(last.blocks);
    lemma_plain_parts(a, b);
    let x = flatten_bodies(bodies).index_of(block);
    let found = if x < a.len() {
        assert(a[x] == block);
        assert(decreases_to!(bodies => rest));
        assert forall|k: int|
            0 <= k < rest.len() && (#[trigger] rest[k]).role is Timeout && !(
            head is WatchGroup) implies rest[k].blocks.len() == 0 by {
            assert(rest[k] == bodies[k]);
        }
        lemma_every_block_stops_in(owner, head, rest, context, block)
    } else {
        assert(b[x - a.len()] == block);
        if last.blocks.len() == 0 {
            assert(b =~= Seq::empty());
        }
        assert(decreases_to!(bodies => last.blocks));
        lemma_every_block_stops(last.blocks, inner, block)
    };
    lemma_in_joined(
        body_stops(owner, head, rest, context),
        stops(last.blocks, inner),
        StopView { context: found, block },
    );
    found
}

/// What an observation, an IF or a loop runs on the timeout of its condition is not followed: neither
/// such a block nor anything below it is found.
pub proof fn condition_timeouts_are_not_followed(
    blocks: Seq<BlockView>,
    owner: BlockView,
    k: int,
    block: BlockView,
)
    requires
        structural_ids(blocks).no_duplicates(),
        flatten(blocks).contains(owner),
        0 <= k < owner.bodies.len(),
        owner.bodies[k].role is Timeout,
        !(owner.head is WatchGroup),
        flatten(owner.bodies[k].blocks).contains(block),
    ensures
        found_context(blocks, block.id, nowhere()) is None,
{
    lemma_distinct_blocks(flatten(blocks));
    lemma_absent(blocks, nowhere(), owner, k, block);
    let a = lemma_first_where_found(stops(blocks, nowhere()), stop_at(block.id));
}

spec fn avoids(list: Seq<StopView>, id: Seq<char>) -> bool {
    forall|i: int| 0 <= i < list.len() ==> (#[trigger] list[i]).block.id != id
}

proof fn lemma_avoids_joined(a: Seq<StopView>, b: Seq<StopView>, id: Seq<char>)
    requires
        avoids(a, id),
        avoids(b, id),
    ensures
        avoids(a + b, id),
{
    assert forall|i: int| 0 <= i < (a + b).len() implies (#[trigger] (a + b)[i]).block.id != id by {
        if i < a.len() {
            assert((a + b)[i] == a[i]);
        } else {
            assert((a + b)[i] == b[i - a.len()]);
        }
    }
}

/// Stops within some blocks avoid a block of others.
proof fn lemma_avoids(
    list: Seq<StopView>,
    here: Seq<BlockView>,
    there: Seq<BlockView>,
    block: BlockView,
)
    requires
        within(list, here),
        distinct(here + there) || distinct(there + here),
        there.contains(block),
    ensures
        avoids(list, block.id),
{
    if distinct(here + there) {
        lemma_distinct_parts(here, there);
    } else {
        lemma_distinct_parts(there, here);
    }
    assert forall|i: int| 0 <= i < list.len() implies (#[trigger] list[i]).block.id
        != block.id by {
        assert(here.contains(list[i].block));
    }
}

/// What stands in a body of an owner stands below the owner.
proof fn lemma_in_bodies(bodies: Seq<BodyView>, k: int, block: BlockView)
    requires
        0 <= k < bodies.len(),
        flatten(bodies[k].blocks).contains(block),
    ensures
        flatten_bodies(bodies).contains(block),
{
    lemma_bodies_walk_split(bodies, k);
    let head = flatten_bodies(bodies.take(k));
    let j = flatten(bodies[k].blocks).index_of(block);
    assert(flatten_bodies(bodies)[head.len() + j] == block);
}

proof fn lemma_absent(
    blocks: Seq<BlockView>,
    context: ContextView,
    owner: BlockView,
    k: int,
    block: BlockView,
)
    requires
        distinct(flatten(blocks)),
        flatten(blocks).contains(owner),
        0 <= k < owner.bodies.len(),
        !followed(owner.head, owner.bodies[k].role),
        flatten(owner.bodies[k].blocks).contains(block),
    ensures
        avoids(stops(blocks, context), block.id),
    decreases blocks,
{
    let rest = blocks.drop_last();
    let last = blocks[blocks.len() - 1];
    let head = flatten(rest);
    let tail = flatten_block(last);
    lemma_distinct_parts(head, tail);
    lemma_in_bodies(owner.bodies, k, block);
    lemma_stops_within(rest, context);
    lemma_block_stops_within(last, context);
    let x = flatten(blocks).index_of(owner);
    if x < head.len() {
        assert(head[x] == owner);
        assert(decreases_to!(blocks => rest));
        lemma_absent(rest, context, owner, k, block);
        lemma_below_in_tree(rest, owner, block);
        lemma_avoids(block_stops(last, context), tail, head, block);
    } else {
        assert(tail[x - head.len()] == owner);
        assert(decreases_to!(blocks => last));
        lemma_absent_below(last, context, owner, k, block);
        lemma_below_in_block(last, owner, block);
        lemma_avoids(stops(rest, context), head, tail, block);
    }
    lemma_avoids_joined(stops(rest, context), block_stops(last, context), block.id);
}

proof fn lemma_absent_below(
    top: BlockView,
    context: ContextView,
    owner: BlockView,
    k: int,
    block: BlockView,
)
    requires
        distinct(flatten_block(top)),
        flatten_block(top).contains(owner),
        0 <= k < owner.bodies.len(),
        !followed(owner.head, owner.bodies[k].role),
        flatten(owner.bodies[k].blocks).contains(block),
    ensures
        avoids(block_stops(top, context), block.id),
    decreases top,
{
    let first = seq![StopView { context, block: top }];
    let rest = flatten_bodies(top.bodies);
    lemma_distinct_parts(seq![top], rest);
    lemma_in_bodies(owner.bodies, k, block);
    let x = flatten_block(top).index_of(owner);
    assert(decreases_to!(top => top.bodies));
    if x == 0 {
        lemma_absent_own(top, context, top.bodies, k, block);
    } else {
        assert(rest[x - 1] == owner);
        lemma_absent_in(top.id, top.head, top.bodies, context, owner, k, block);
        lemma_below_in_bodies(top.bodies, owner, block);
    }
    assert(seq![top].contains(top)) by {
        assert(seq![top][0] == top);
    }
    assert(avoids(first, block.id)) by {
        assert(rest.contains(block));
    }
    lemma_avoids_joined(
        first,
        body_stops(top.id, top.head, top.bodies, context),
        block.id,
    );
}

/// The stops of the bodies of a block avoid what is in one that is not followed.
proof fn lemma_absent_own(
    top: BlockView,
    context: ContextView,
    bodies: Seq<BodyView>,
    k: int,
    block: BlockView,
)
    requires
        0 <= k < bodies.len(),
        distinct(flatten_bodies(bodies)),
        !followed(top.head, bodies[k].role),
        flatten(bodies[k].blocks).contains(block),
    ensures
        avoids(body_stops(top.id, top.head, bodies, context), block.id),
    decreases bodies.len(),
{
    let rest = bodies.drop_last();
    let last = bodies[bodies.len() - 1];
    assert(bodies.last() == last);
    let inner = context_inside(top.id, bodies.len() - 1, last.role, context);
    let a = flatten_bodies(rest);
    let b = flatten(last.blocks);
    lemma_distinct_parts(a, b);
    lemma_body_stops_within(top.id, top.head, rest, context);
    lemma_stops_within(last.blocks, inner);
    if k < rest.len() {
        assert(rest[k] == bodies[k]);
        lemma_absent_own(top, context, rest, k, block);
        lemma_in_bodies(rest, k, block);
        lemma_avoids(stops(last.blocks, inner), b, a, block);
        lemma_avoids_joined(
            body_stops(top.id, top.head, rest, context),
            stops(last.blocks, inner),
            block.id,
        );
    } else {
        lemma_avoids(body_stops(top.id, top.head, rest, context), a, b, block);
    }
}

proof fn lemma_absent_in(
    above: Seq<char>,
    head: HeadView,
    bodies: Seq<BodyView>,
    context: ContextView,
    owner: BlockView,
    k: int,
    block: BlockView,
)
    requires
        distinct(flatten_bodies(bodies)),
        flatten_bodies(bodies).contains(owner),
        0 <= k < owner.bodies.len(),
        !followed(owner.head, owner.bodies[k].role),
        flatten(owner.bodies[k].blocks).contains(block),
    ensures
        avoids(body_stops(above, head, bodies, context), block.id),
    decreases bodies,
{
    let rest = bodies.drop_last();
    let last = bodies[bodies.len() - 1];
    assert(bodies.last() == last);
    let inner = context_inside(above, bodies.len() - 1, last.role, context);
    let a = flatten_bodies(rest);
    let b = flatten(last.blocks);
    lemma_distinct_parts(a, b);
    lemma_in_bodies(owner.bodies, k, block);
    lemma_body_stops_within(above, head, rest, context);
    lemma_stops_within(last.blocks, inner);
    let x = flatten_bodies(bodies).index_of(owner);
    if x < a.len() {
        assert(a[x] == owner);
        assert(decreases_to!(bodies => rest));
        lemma_absent_in(above, head, rest, context, owner, k, block);
        lemma_below_in_bodies(rest, owner, block);
        lemma_avoids(stops(last.blocks, inner), b, a, block);
    } else {
        assert(b[x - a.len()] == owner);
        assert(decreases_to!(bodies => last.blocks));
        lemma_absent(last.blocks, inner, owner, k, block);
        lemma_below_in_tree(last.blocks, owner, block);
        lemma_avoids(body_stops(above, head, rest, context), a, b, block);
    }
    lemma_avoids_joined(
        body_stops(above, head, rest, context),
        stops(last.blocks, inner),
        block.id,
    );
}

/// A snapshot is that of the run that a report starts.
pub open spec fn snapshot_of_run(
    snapshot: SnapshotView,
    macro_id: Seq<char>,
    start: EventView,
) -> bool {
    &&& snapshot.run_id == start.run_id
    &&& snapshot.definition.id == macro_id
    &&& start.fact matches FactView::RunStarted { macro_id: started, revision, definition_hash, .. }
        && started == macro_id && snapshot.definition.revision == revision
        && snapshot.definition_hash == definition_hash
}

/// The branch and the loop on the monitor agree with where the active block is located in the
/// definition of the run: directly in THEN or ELSE of an IF, in a lane or the timeout of a watch
/// group, the branch is that one; directly in a loop, the loop is that one; the other one is what the
/// owner of the container stands in. At the top there is neither.
pub proof fn monitor_shows_where_the_active_block_stands(
    macro_id: Seq<char>,
    snapshot: SnapshotView,
    events: Seq<EventView>,
    at: int,
    id: Seq<char>,
)
    requires
        last_start(events, macro_id) == Some(at),
        snapshot_of_run(snapshot, macro_id, events[at]),
        shaped(snapshot.definition.blocks),
        structural_ids(snapshot.definition.blocks).no_duplicates(),
        flat_plain(flatten(snapshot.definition.blocks)),
        monitored(Some(macro_id), Some(snapshot), events).active_block == Some(id),
        located(snapshot.definition.blocks, id) is Some,
    ensures
        ({
            let blocks = snapshot.definition.blocks;
            let shown = monitored(Some(macro_id), Some(snapshot), events);
            let owner_loop = |owner: Seq<char>| found_context(blocks, owner, nowhere())->0.loop_id;
            &&& match located(blocks, id)->0.container {
                ContainerView::Root => shown.active_branch is None && shown.active_loop is None,
                ContainerView::IfThen { if_id } => shown.active_branch == Some(if_id + " · THEN"@)
                    && shown.active_loop == owner_loop(if_id),
                ContainerView::IfElse { if_id } => shown.active_branch == Some(if_id + " · ELSE"@)
                    && shown.active_loop == owner_loop(if_id),
                ContainerView::LoopBody { loop_id } => shown.active_loop == Some(loop_id)
                    && shown.active_branch == found_context(blocks, loop_id, nowhere())->0.branch,
                ContainerView::WatchLaneBody { watch_id, lane_id } => shown.active_loop
                    == owner_loop(watch_id) && exists|k: int|
                    0 <= k < found_block(blocks, watch_id)->0.bodies.len() && lane_is(
                        #[trigger] found_block(blocks, watch_id)->0.bodies[k],
                        lane_id,
                    ) && shown.active_branch == Some(
                        watch_id + " · Priority "@ + decimal((k + 1) as nat) + " THEN"@,
                    ),
                ContainerView::TimeoutBody { owner_id } => shown.active_branch == Some(
                    owner_id + " · ON TIMEOUT"@,
                ) && shown.active_loop == owner_loop(owner_id),
            }
            &&& shown.loop_iterations == (match shown.active_loop {
                Some(loop_id) => if shown.iterations.dom().contains(loop_id) {
                    Some(shown.iterations[loop_id])
                } else {
                    None
                },
                None => None,
            })
        }),
{
    let blocks = snapshot.definition.blocks;
    let flat = flatten(blocks);
    let path = located(blocks, id)->0;
    lemma_last_start(events, macro_id);
    lemma_distinct_blocks(flat);
    located_block_reads_back(blocks, id);
    let list = container(blocks, path.container)->0;
    lemma_first_index(list, has_id(id));
    let i = place(blocks, path)->Ok_0;
    let block = list[i];
    lemma_container_in_tree(blocks, path.container, i);
    plain_macros_are_followed_throughout(blocks, block);
    let definition = snapshot_for(Some(snapshot), events[at]);
    assert(definition == Some(snapshot.definition));
    lemma_context_free(
        started(events[at]),
        run_reports(events.skip(at), events[at].run_id),
        known_loops(definition),
    );
    if path.container is Root {
        top_blocks_stand_nowhere(blocks, i);
    } else {
        let x = lemma_first_where_found(flat, owns(path.container));
        let owner = flat[x];
        lemma_first_index(owner.bodies, plays(path.container));
        let k = body_index(owner, path.container)->0;
        plain_macros_are_followed_throughout(blocks, owner);
        assert(own_plain(flat[x]));
        block_stands_in_its_body(blocks, owner, k, i);
        let f = lemma_first_where_found(flat, has_id(owner.id));
        assert(has_id(owner.id)(flat[x]));
        assert(flat[f].id == flat[x].id);
        assert(f == x);
        assert(found_block(blocks, owner.id) == Some(owner));
    }
}

/// A body is the lane of an identity.
pub open spec fn lane_is(body: BodyView, lane_id: Seq<char>) -> bool {
    body.role matches RoleView::Lane { id, .. } && id == lane_id
}

/// Reports by themselves show neither a branch nor a loop.
proof fn lemma_context_free(
    monitor: MonitorView,
    reports: Seq<EventView>,
    loops: Set<Seq<char>>,
)
    ensures
        after_all(monitor, reports, loops).active_branch == monitor.active_branch,
        after_all(monitor, reports, loops).active_loop == monitor.active_loop,
        after_all(monitor, reports, loops).loop_iterations == monitor.loop_iterations,
    decreases reports.len(),
{
    if reports.len() > 0 {
        lemma_context_free(monitor, reports.drop_last(), loops);
    }
}

/// The branch that is shown for a block of THEN is never the one that is shown for a block of ELSE.
pub proof fn branches_are_told_apart(owner: Seq<char>)
    ensures
        owner + " · THEN"@ != owner + " · ELSE"@,
        owner + " · THEN"@ != owner + " · ON TIMEOUT"@,
        owner + " · ELSE"@ != owner + " · ON TIMEOUT"@,
{
    reveal_strlit(" · THEN");
    reveal_strlit(" · ELSE");
    reveal_strlit(" · ON TIMEOUT");
    let n = owner.len() as int;
    let a = owner + " · THEN"@;
    let b = owner + " · ELSE"@;
    assert(a[n + 3] == 'T' && b[n + 3] == 'E');
    assert(a.len() != (owner + " · ON TIMEOUT"@).len());
    assert(b.len() != (owner + " · ON TIMEOUT"@).len());
}

} // verus!
