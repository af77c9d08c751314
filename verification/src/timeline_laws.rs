//! What holds of the timeline: how its lines are nested, and what each tells.
use crate::macro_engine::{BlockView, BodyView, HeadView, RoleView};
use crate::presentation::passive_text;
use crate::text::decimal;
use crate::timeline::{
    block_line, block_lines, body_lines, depth_inside, lines, lines_above, lines_below,
    TimelineRowView, TimelineSelectionView,
};
use vstd::prelude::*;

verus! {

/// A line tells a block: it has its identity, selects it, and shows whether it is enabled.
pub open spec fn line_tells(row: TimelineRowView, block: BlockView) -> bool {
    row.identity == Some(block.id) && row.selection == Some(
        TimelineSelectionView::Identity(block.id),
    ) && row.enabled == block.enabled && row.is_selectable && !row.is_loop_marker
        && row.lane_priority is None
}

/// The label of a line that tells a block names its kind.
pub proof fn lines_name_the_kind(block: BlockView, depth: int)
    ensures
        ({
            let label = block_line(block, depth).label;
            match block.head {
                HeadView::Observe { .. } => label == "OBSERVE"@,
                HeadView::Action { .. } => label == "ACTION"@,
                HeadView::If { .. } => label == "IF"@,
                HeadView::Wait { .. } => label == "WAIT"@,
                HeadView::RepeatN { .. } => label == "REPEAT"@,
                HeadView::RepeatUntil { .. } => label == "REPEAT UNTIL"@,
                HeadView::Continuous => label == "CONTINUOUS LOOP"@,
                HeadView::WatchGroup { .. } => label == "WATCH GROUP"@,
                HeadView::StopSuccess => label == "STOP"@,
                HeadView::StopError { .. } => label == "STOP ERROR"@,
                HeadView::Comment { .. } => label == "NOTE"@,
            }
        }),
        line_tells(block_line(block, depth), block),
{
}

/// A line heads a body of a block that stands at a depth, one step further in: with THEN or ELSE for
/// a branch, with its priority and what it watches for a lane, with what selects it for a timeout.
/// The body of a loop has no such line.
pub open spec fn line_heads(
    row: TimelineRowView,
    depth: int,
    owner: Seq<char>,
    body: BodyView,
    k: int,
) -> bool {
    &&& row.depth == depth + 1 && !row.is_loop_marker
    &&& match body.role {
        RoleView::Then => row.label == "THEN"@ && row.identity is None && !row.is_selectable,
        RoleView::Else => row.label == "ELSE"@ && row.identity is None && !row.is_selectable,
        RoleView::Loop => false,
        RoleView::Lane { id, enabled, condition } => row.identity == Some(id) && row.selection
            == Some(TimelineSelectionView::Identity(id)) && row.lane_priority == Some(k + 1)
            && row.label == "Priority "@ + decimal((k + 1) as nat) && row.enabled == enabled
            && row.summary == passive_text(condition) && row.is_selectable,
        RoleView::Timeout => row.label == "ON TIMEOUT"@ && row.identity is None && row.selection
            == Some(TimelineSelectionView::TimeoutBody { owner_id: owner }) && row.is_selectable,
    }
}

/// A line belongs to a body without heading it: THEN of a lane, two steps in, or the return of a loop,
/// one step in, which is on where the loop is.
pub open spec fn line_adds(
    row: TimelineRowView,
    depth: int,
    enabled: bool,
    body: BodyView,
) -> bool {
    match body.role {
        RoleView::Lane { .. } => row.depth == depth + 2 && row.label == "THEN"@
            && !row.is_selectable && !row.is_loop_marker && row.identity is None,
        RoleView::Loop => row.depth == depth + 1 && row.label == "LOOP"@ && row.is_loop_marker
            && !row.is_selectable && row.identity is None && row.enabled == enabled,
        _ => false,
    }
}

/// How much further in than its owner a block of a body stands.
pub open spec fn steps_in(role: RoleView) -> int {
    match role {
        RoleView::Then => 2,
        RoleView::Else => 2,
        RoleView::Loop => 1,
        RoleView::Lane { .. } => 3,
        RoleView::Timeout => 2,
    }
}

/// A line stands inside another: it and every line between them stand further in.
pub open spec fn within(rows: Seq<TimelineRowView>, i: int, j: int) -> bool {
    0 <= j < i < rows.len() && forall|m: int|
        j < m <= i ==> (#[trigger] rows[m]).depth > rows[j].depth
}

/// A line heads a body inside the line of its owner.
pub open spec fn heads_in(
    rows: Seq<TimelineRowView>,
    i: int,
    p: int,
    owner: BlockView,
    k: int,
) -> bool {
    0 <= k < owner.bodies.len() && within(rows, i, p) && line_tells(rows[p], owner) && line_heads(
        rows[i],
        rows[p].depth,
        owner.id,
        owner.bodies[k],
        k,
    )
}

/// A line belongs to a body inside the line of its owner.
pub open spec fn adds_in(
    rows: Seq<TimelineRowView>,
    i: int,
    p: int,
    owner: BlockView,
    k: int,
) -> bool {
    0 <= k < owner.bodies.len() && within(rows, i, p) && line_tells(rows[p], owner) && line_adds(
        rows[i],
        rows[p].depth,
        owner.enabled,
        owner.bodies[k],
    )
}

/// A line tells a block of a body inside the line of its owner and, unless the body is a loop's,
/// inside the line `h` that heads the body.
pub open spec fn tells_in(
    rows: Seq<TimelineRowView>,
    i: int,
    h: int,
    p: int,
    owner: BlockView,
    k: int,
    x: int,
) -> bool {
    &&& 0 <= k < owner.bodies.len() && within(rows, i, p) && line_tells(rows[p], owner)
    &&& 0 <= x < owner.bodies[k].blocks.len() && line_tells(rows[i], owner.bodies[k].blocks[x])
    &&& rows[i].depth == rows[p].depth + steps_in(owner.bodies[k].role)
    &&& owner.bodies[k].role !is Loop ==> heads_in(rows, h, p, owner, k) && within(rows, i, h)
}

/// A line has its place inside another one.
pub open spec fn nested(rows: Seq<TimelineRowView>, i: int) -> bool {
    ||| exists|p: int, owner: BlockView, k: int| #[trigger] heads_in(rows, i, p, owner, k)
    ||| exists|p: int, owner: BlockView, k: int| #[trigger] adds_in(rows, i, p, owner, k)
    ||| exists|h: int, p: int, owner: BlockView, k: int, x: int| #[trigger]
        tells_in(rows, i, h, p, owner, k, x)
}

/// A line tells one of the given blocks at the given depth, or has its place inside another one.
pub open spec fn has_place(
    rows: Seq<TimelineRowView>,
    blocks: Seq<BlockView>,
    depth: int,
    i: int,
) -> bool {
    ||| rows[i].depth == depth && exists|x: int|
        0 <= x < blocks.len() && line_tells(rows[i], #[trigger] blocks[x])
    ||| nested(rows, i)
}

/// A list of lines holds another one from an index on.
spec fn holds_part(rows: Seq<TimelineRowView>, part: Seq<TimelineRowView>, shift: int) -> bool {
    0 <= shift && shift + part.len() <= rows.len() && forall|m: int|
        0 <= m < part.len() ==> #[trigger] rows[shift + m] == part[m]
}

proof fn lemma_within_shift(
    part: Seq<TimelineRowView>,
    rows: Seq<TimelineRowView>,
    shift: int,
    i: int,
    j: int,
)
    requires
        holds_part(rows, part, shift),
        within(part, i, j),
    ensures
        within(rows, shift + i, shift + j),
        rows[shift + i] == part[i],
        rows[shift + j] == part[j],
{
    assert(rows[shift + i] == part[i] && rows[shift + j] == part[j]);
    assert forall|m: int| shift + j < m <= shift + i implies (#[trigger] rows[m]).depth
        > rows[shift + j].depth by {
        let n = m - shift;
        assert(rows[shift + n] == part[n]);
    }
}

proof fn lemma_nested_shift(
    part: Seq<TimelineRowView>,
    rows: Seq<TimelineRowView>,
    shift: int,
    i: int,
)
    requires
        holds_part(rows, part, shift),
        0 <= i < part.len(),
        nested(part, i),
    ensures
        nested(rows, shift + i),
{
    if exists|p: int, owner: BlockView, k: int| #[trigger] heads_in(part, i, p, owner, k) {
        let (p, owner, k) = choose|p: int, owner: BlockView, k: int| #[trigger]
            heads_in(part, i, p, owner, k);
        lemma_within_shift(part, rows, shift, i, p);
        assert(heads_in(rows, shift + i, shift + p, owner, k));
    } else if exists|p: int, owner: BlockView, k: int| #[trigger] adds_in(part, i, p, owner, k) {
        let (p, owner, k) = choose|p: int, owner: BlockView, k: int| #[trigger]
            adds_in(part, i, p, owner, k);
        lemma_within_shift(part, rows, shift, i, p);
        assert(adds_in(rows, shift + i, shift + p, owner, k));
    } else {
        let (h, p, owner, k, x) = choose|h: int, p: int, owner: BlockView, k: int, x: int|
            #[trigger] tells_in(part, i, h, p, owner, k, x);
        lemma_within_shift(part, rows, shift, i, p);
        if owner.bodies[k].role !is Loop {
            lemma_within_shift(part, rows, shift, h, p);
            lemma_within_shift(part, rows, shift, i, h);
            assert(heads_in(rows, shift + h, shift + p, owner, k));
        }
        assert(tells_in(rows, shift + i, shift + h, shift + p, owner, k, x));
    }
}

proof fn lemma_lines(blocks: Seq<BlockView>, depth: int)
    ensures
        forall|i: int|
            0 <= i < lines(blocks, depth).len() ==> (#[trigger] lines(blocks, depth)[i]).depth
                >= depth,
        forall|i: int|
            0 <= i < lines(blocks, depth).len() ==> #[trigger] has_place(
                lines(blocks, depth),
                blocks,
                depth,
                i,
            ),
    decreases blocks,
{
    if blocks.len() > 0 {
        let rest = blocks.drop_last();
        let last = blocks.last();
        assert(decreases_to!(blocks => rest));
        assert(decreases_to!(blocks => last));
        lemma_lines(rest, depth);
        lemma_block_lines(last, depth);
        let a = lines(rest, depth);
        let b = block_lines(last, depth);
        let rows = lines(blocks, depth);
        assert(rows == a + b);
        assert(holds_part(rows, a, 0));
        assert(holds_part(rows, b, a.len() as int));
        assert forall|i: int| 0 <= i < rows.len() implies (#[trigger] rows[i]).depth >= depth by {
            if i < a.len() {
                assert(rows[i] == a[i]);
            } else {
                assert(rows[i] == b[i - a.len()]);
            }
        }
        assert forall|i: int| 0 <= i < rows.len() implies #[trigger] has_place(
            rows,
            blocks,
            depth,
            i,
        ) by {
            if i < a.len() {
                assert(has_place(a, rest, depth, i));
                assert(rows[i] == a[i]);
                if nested(a, i) {
                    lemma_nested_shift(a, rows, 0, i);
                } else {
                    let x = choose|x: int|
                        0 <= x < rest.len() && line_tells(a[i], #[trigger] rest[x]);
                    assert(blocks[x] == rest[x]);
                }
            } else {
                let h = i - a.len();
                assert(has_place(b, seq![last], depth, h));
                assert(rows[i] == b[h]);
                if nested(b, h) {
                    lemma_nested_shift(b, rows, a.len() as int, h);
                } else {
                    assert(blocks[blocks.len() - 1] == last);
                }
            }
        }
    }
}

/// The place of a line among those of the bodies of a block that stands at a depth.
spec fn in_bodies(
    rows: Seq<TimelineRowView>,
    owner: BlockView,
    bodies: Seq<BodyView>,
    depth: int,
    i: int,
) -> bool {
    ||| exists|k: int| #[trigger] heads_one(rows, owner, bodies, depth, i, k)
    ||| exists|k: int| #[trigger] adds_one(rows, owner, bodies, depth, i, k)
    ||| exists|h: int, k: int, x: int| #[trigger] tells_one(rows, owner, bodies, depth, i, h, k, x)
    ||| nested(rows, i)
}

spec fn heads_one(
    rows: Seq<TimelineRowView>,
    owner: BlockView,
    bodies: Seq<BodyView>,
    depth: int,
    i: int,
    k: int,
) -> bool {
    0 <= i < rows.len() && 0 <= k < bodies.len() && line_heads(
        rows[i],
        depth,
        owner.id,
        bodies[k],
        k,
    )
}

spec fn adds_one(
    rows: Seq<TimelineRowView>,
    owner: BlockView,
    bodies: Seq<BodyView>,
    depth: int,
    i: int,
    k: int,
) -> bool {
    0 <= i < rows.len() && 0 <= k < bodies.len() && line_adds(
        rows[i],
        depth,
        owner.enabled,
        bodies[k],
    )
}

spec fn tells_one(
    rows: Seq<TimelineRowView>,
    owner: BlockView,
    bodies: Seq<BodyView>,
    depth: int,
    i: int,
    h: int,
    k: int,
    x: int,
) -> bool {
    &&& 0 <= i < rows.len() && 0 <= k < bodies.len() && 0 <= x < bodies[k].blocks.len()
    &&& line_tells(rows[i], bodies[k].blocks[x])
    &&& rows[i].depth == depth + steps_in(bodies[k].role)
    &&& bodies[k].role !is Loop ==> heads_one(rows, owner, bodies, depth, h, k) && within(
        rows,
        i,
        h,
    )
}

proof fn lemma_block_lines(block: BlockView, depth: int)
    ensures
        forall|i: int|
            0 <= i < block_lines(block, depth).len() ==> (#[trigger] block_lines(
                block,
                depth,
            )[i]).depth >= depth,
        forall|i: int|
            0 <= i < block_lines(block, depth).len() ==> #[trigger] has_place(
                block_lines(block, depth),
                seq![block],
                depth,
                i,
            ),
    decreases block,
{
    assert(decreases_to!(block => block.bodies));
    lemma_body_lines(block, block.bodies, depth);
    let rows = block_lines(block, depth);
    let part = body_lines(block.id, block.enabled, block.bodies, depth);
    assert(rows[0] == block_line(block, depth));
    assert(line_tells(rows[0], seq![block][0]));
    assert(holds_part(rows, part, 1));
    assert forall|m: int| 0 < m < rows.len() implies (#[trigger] rows[m]).depth > depth by {
        assert(rows[1 + (m - 1)] == part[m - 1]);
    }
    assert forall|i: int| 0 <= i < rows.len() implies #[trigger] has_place(
        rows,
        seq![block],
        depth,
        i,
    ) by {
        if i > 0 {
            let j = i - 1;
            assert(rows[1 + j] == part[j]);
            assert(within(rows, i, 0));
            assert(in_bodies(part, block, block.bodies, depth, j));
            if nested(part, j) {
                lemma_nested_shift(part, rows, 1, j);
            } else if exists|k: int| #[trigger]
                heads_one(part, block, block.bodies, depth, j, k) {
                let k = choose|k: int| #[trigger]
                    heads_one(part, block, block.bodies, depth, j, k);
                assert(heads_in(rows, i, 0, block, k));
            } else if exists|k: int| #[trigger] adds_one(part, block, block.bodies, depth, j, k) {
                let k = choose|k: int| #[trigger]
                    adds_one(part, block, block.bodies, depth, j, k);
                assert(adds_in(rows, i, 0, block, k));
            } else {
                let (h, k, x) = choose|h: int, k: int, x: int| #[trigger]
                    tells_one(part, block, block.bodies, depth, j, h, k, x);
                if block.bodies[k].role !is Loop {
                    lemma_within_shift(part, rows, 1, j, h);
                    assert(within(rows, 1 + h, 0));
                    assert(heads_in(rows, 1 + h, 0, block, k));
                }
                assert(tells_in(rows, i, 1 + h, 0, block, k, x));
            }
        }
    }
}

proof fn lemma_body_lines(owner: BlockView, bodies: Seq<BodyView>, depth: int)
    ensures
        forall|i: int|
            0 <= i < body_lines(owner.id, owner.enabled, bodies, depth).len() ==> (
            #[trigger] body_lines(owner.id, owner.enabled, bodies, depth)[i]).depth > depth,
        forall|i: int|
            0 <= i < body_lines(owner.id, owner.enabled, bodies, depth).len()
                ==> #[trigger] in_bodies(
                body_lines(owner.id, owner.enabled, bodies, depth),
                owner,
                bodies,
                depth,
                i,
            ),
    decreases bodies,
{
    if bodies.len() > 0 {
        let rest = bodies.drop_last();
        let last = bodies.last();
        let n = rest.len() as int;
        assert(decreases_to!(bodies => rest));
        assert(decreases_to!(bodies => last.blocks));
        let inside = depth_inside(last.role, depth);
        lemma_body_lines(owner, rest, depth);
        lemma_lines(last.blocks, inside);
        let a = body_lines(owner.id, owner.enabled, rest, depth);
        let top = lines_above(owner.id, n, last.role, depth);
        let b = lines(last.blocks, inside);
        let end = lines_below(owner.enabled, last.role, depth);
        let rows = body_lines(owner.id, owner.enabled, bodies, depth);
        assert(rows == a + (top + b + end));
        let s = a.len() as int;
        let t = s + top.len();
        assert(holds_part(rows, a, 0));
        assert(holds_part(rows, top, s));
        assert(holds_part(rows, b, t));
        assert(holds_part(rows, end, t + b.len()));
        assert(bodies[n] == last);
        assert(inside == depth + steps_in(last.role));
        assert forall|i: int| 0 <= i < rows.len() implies (#[trigger] rows[i]).depth > depth by {
            if i < s {
                assert(rows[0 + i] == a[i]);
            } else if i < t {
                assert(rows[s + (i - s)] == top[i - s]);
            } else if i < t + b.len() {
                assert(rows[t + (i - t)] == b[i - t]);
            } else {
                assert(rows[t + b.len() + (i - t - b.len())] == end[i - t - b.len()]);
            }
        }
        if last.role !is Loop {
            assert(rows[s + 0] == top[0]);
            assert(heads_one(rows, owner, bodies, depth, s, n));
        }
        assert forall|i: int| 0 <= i < rows.len() implies #[trigger] in_bodies(
            rows,
            owner,
            bodies,
            depth,
            i,
        ) by {
            if i < s {
                assert(in_bodies(a, owner, rest, depth, i));
                lemma_in_more(a, rows, owner, rest, bodies, depth, i);
            } else if i < t {
                assert(rows[s + (i - s)] == top[i - s]);
                if i > s {
                    assert(adds_one(rows, owner, bodies, depth, i, n));
                }
            } else if i < t + b.len() {
                let j = i - t;
                assert(rows[t + j] == b[j]);
                assert(has_place(b, last.blocks, inside, j));
                if nested(b, j) {
                    lemma_nested_shift(b, rows, t, j);
                } else {
                    let x = choose|x: int|
                        0 <= x < last.blocks.len() && line_tells(b[j], #[trigger] last.blocks[x]);
                    if last.role !is Loop {
                        assert forall|m: int| s < m <= i implies (#[trigger] rows[m]).depth
                            > rows[s].depth by {
                            if m < t {
                                assert(rows[s + (m - s)] == top[m - s]);
                            } else {
                                assert(rows[t + (m - t)] == b[m - t]);
                            }
                        }
                        assert(within(rows, i, s));
                    }
                    assert(tells_one(rows, owner, bodies, depth, i, s, n, x));
                }
            } else {
                let j = i - t - b.len();
                assert(rows[t + b.len() + j] == end[j]);
                assert(adds_one(rows, owner, bodies, depth, i, n));
            }
        }
    }
}

/// The place of a line among the first bodies is its place among all.
proof fn lemma_in_more(
    part: Seq<TimelineRowView>,
    rows: Seq<TimelineRowView>,
    owner: BlockView,
    rest: Seq<BodyView>,
    bodies: Seq<BodyView>,
    depth: int,
    i: int,
)
    requires
        holds_part(rows, part, 0),
        0 <= i < part.len(),
        bodies.len() > 0,
        rest == bodies.drop_last(),
        in_bodies(part, owner, rest, depth, i),
    ensures
        in_bodies(rows, owner, bodies, depth, i),
{
    assert(rows[0 + i] == part[i]);
    if nested(part, i) {
        lemma_nested_shift(part, rows, 0, i);
    } else if exists|k: int| #[trigger] heads_one(part, owner, rest, depth, i, k) {
        let k = choose|k: int| #[trigger] heads_one(part, owner, rest, depth, i, k);
        assert(heads_one(rows, owner, bodies, depth, i, k));
    } else if exists|k: int| #[trigger] adds_one(part, owner, rest, depth, i, k) {
        let k = choose|k: int| #[trigger] adds_one(part, owner, rest, depth, i, k);
        assert(adds_one(rows, owner, bodies, depth, i, k));
    } else {
        let (h, k, x) = choose|h: int, k: int, x: int| #[trigger]
            tells_one(part, owner, rest, depth, i, h, k, x);
        assert(bodies[k] == rest[k]);
        if rest[k].role !is Loop {
            lemma_within_shift(part, rows, 0, i, h);
            assert(heads_one(rows, owner, bodies, depth, h, k));
        }
        assert(tells_one(rows, owner, bodies, depth, i, h, k, x));
    }
}

/// The lines of the timeline are nested as the blocks are. A line at the outermost depth tells a block
/// of the list. Any other line stands inside the line of the block that owns a body: it heads the
/// body, belongs to it, or tells one of its blocks.
pub proof fn lines_are_nested_as_blocks(blocks: Seq<BlockView>, depth: int, i: int)
    requires
        0 <= i < lines(blocks, depth).len(),
    ensures
        has_place(lines(blocks, depth), blocks, depth, i),
{
    lemma_lines(blocks, depth);
}

} // verus!
