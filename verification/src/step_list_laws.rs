//! What holds of the step list: how its rows are nested, and what each tells.
use crate::canvas_model::SelectionView;
use crate::macro_engine::{BlockView, BodyView, RoleView};
use crate::step_list::{block_steps, body_steps, row_indent, steps, StepRowView};
use vstd::prelude::*;

verus! {

/// A row tells a block: it has its identity, selects it, and shows whether it is enabled.
pub open spec fn tells_block(row: StepRowView, block: BlockView) -> bool {
    row matches StepRowView::Block { id, enabled, selection, .. } && id == block.id && enabled
        == block.enabled && selection == SelectionView::Block(block.id)
}

/// A row heads a body: its title tells the role, it selects the branch, the lane or the timeout, and
/// it shows whether the body is empty.
pub open spec fn heads_body(row: StepRowView, owner: Seq<char>, body: BodyView) -> bool {
    row matches StepRowView::Section { title, selection, empty, .. } && empty == (
    body.blocks.len() == 0) && match body.role {
        RoleView::Then => title == "THEN"@ && selection == Some(
            SelectionView::IfThen { if_id: owner },
        ),
        RoleView::Else => title == "ELSE"@ && selection == Some(
            SelectionView::IfElse { if_id: owner },
        ),
        RoleView::Loop => title == "LOOP BODY"@ && selection is None,
        RoleView::Lane { id, .. } => title == "LANE "@ + id && selection == Some(
            SelectionView::Lane { group_id: owner, lane_id: id },
        ),
        RoleView::Timeout => title == "ON TIMEOUT"@ && selection == Some(
            SelectionView::TimeoutBody { owner_id: owner },
        ),
    }
}

/// A row stands right under another: it is one step further in, and every row between them stands
/// further in than the other too.
pub open spec fn under(rows: Seq<StepRowView>, i: int, j: int) -> bool {
    &&& 0 <= j < i < rows.len() && row_indent(rows[i]) == row_indent(rows[j]) + 1
    &&& forall|m: int| j < m < i ==> row_indent(#[trigger] rows[m]) > row_indent(rows[j])
}

/// A row heads a body of a block, right under the row of the block.
pub open spec fn heads_under(
    rows: Seq<StepRowView>,
    i: int,
    p: int,
    owner: BlockView,
    k: int,
) -> bool {
    0 <= k < owner.bodies.len() && under(rows, i, p) && tells_block(rows[p], owner) && heads_body(
        rows[i],
        owner.id,
        owner.bodies[k],
    )
}

/// A row tells a block of a body, right under the row that heads the body.
pub open spec fn tells_under(
    rows: Seq<StepRowView>,
    i: int,
    s: int,
    p: int,
    owner: BlockView,
    k: int,
    x: int,
) -> bool {
    heads_under(rows, s, p, owner, k) && under(rows, i, s) && 0 <= x < owner.bodies[k].blocks.len()
        && tells_block(rows[i], owner.bodies[k].blocks[x])
}

/// A row has its place: it tells one of the given blocks at the given indent, heads a body right
/// under the row of the body's owner, or tells a block right under the row that heads its body.
pub open spec fn placed(
    rows: Seq<StepRowView>,
    blocks: Seq<BlockView>,
    indent: int,
    i: int,
) -> bool {
    ||| row_indent(rows[i]) == indent && exists|x: int|
        0 <= x < blocks.len() && tells_block(rows[i], #[trigger] blocks[x])
    ||| exists|p: int, owner: BlockView, k: int| #[trigger] heads_under(rows, i, p, owner, k)
    ||| exists|s: int, p: int, owner: BlockView, k: int, x: int| #[trigger]
        tells_under(rows, i, s, p, owner, k, x)
}

/// A row stands inside another one of the list.
spec fn inner(rows: Seq<StepRowView>, i: int) -> bool {
    ||| exists|p: int, owner: BlockView, k: int| #[trigger] heads_under(rows, i, p, owner, k)
    ||| exists|s: int, p: int, owner: BlockView, k: int, x: int| #[trigger]
        tells_under(rows, i, s, p, owner, k, x)
}

proof fn lemma_under_shift(
    part: Seq<StepRowView>,
    rows: Seq<StepRowView>,
    shift: int,
    i: int,
    j: int,
)
    requires
        0 <= shift,
        shift + part.len() <= rows.len(),
        forall|m: int| 0 <= m < part.len() ==> #[trigger] rows[shift + m] == part[m],
        under(part, i, j),
    ensures
        under(rows, shift + i, shift + j),
{
    assert(rows[shift + i] == part[i] && rows[shift + j] == part[j]);
    assert forall|m: int| shift + j < m < shift + i implies row_indent(#[trigger] rows[m])
        > row_indent(rows[shift + j]) by {
        let n = m - shift;
        assert(rows[shift + n] == part[n]);
    }
}

/// What stands inside another row does so with more rows around.
proof fn lemma_inner_shift(
    part: Seq<StepRowView>,
    rows: Seq<StepRowView>,
    shift: int,
    i: int,
)
    requires
        0 <= shift,
        0 <= i < part.len(),
        shift + part.len() <= rows.len(),
        forall|m: int| 0 <= m < part.len() ==> #[trigger] rows[shift + m] == part[m],
        inner(part, i),
    ensures
        inner(rows, shift + i),
{
    if exists|p: int, owner: BlockView, k: int| #[trigger] heads_under(part, i, p, owner, k) {
        let (p, owner, k) = choose|p: int, owner: BlockView, k: int| #[trigger]
            heads_under(part, i, p, owner, k);
        lemma_under_shift(part, rows, shift, i, p);
        assert(rows[shift + i] == part[i] && rows[shift + p] == part[p]);
        assert(heads_under(rows, shift + i, shift + p, owner, k));
    } else {
        let (s, p, owner, k, x) = choose|s: int, p: int, owner: BlockView, k: int, x: int|
            #[trigger] tells_under(part, i, s, p, owner, k, x);
        lemma_under_shift(part, rows, shift, s, p);
        lemma_under_shift(part, rows, shift, i, s);
        assert(rows[shift + i] == part[i] && rows[shift + s] == part[s] && rows[shift + p]
            == part[p]);
        assert(heads_under(rows, shift + s, shift + p, owner, k));
        assert(tells_under(rows, shift + i, shift + s, shift + p, owner, k, x));
    }
}

/// A row at the indent of a list tells one of its blocks, or stands inside another row.
spec fn at_top(rows: Seq<StepRowView>, blocks: Seq<BlockView>, indent: int, i: int) -> bool {
    ||| row_indent(rows[i]) == indent && exists|x: int|
        0 <= x < blocks.len() && tells_block(rows[i], #[trigger] blocks[x])
    ||| inner(rows, i)
}

proof fn lemma_steps_placed(blocks: Seq<BlockView>, indent: int)
    ensures
        forall|i: int|
            0 <= i < steps(blocks, indent).len() ==> row_indent(#[trigger] steps(blocks, indent)[i])
                >= indent,
        forall|i: int|
            0 <= i < steps(blocks, indent).len() ==> #[trigger] at_top(
                steps(blocks, indent),
                blocks,
                indent,
                i,
            ),
    decreases blocks,
{
    if blocks.len() > 0 {
        let rest = blocks.drop_last();
        let last = blocks.last();
        assert(decreases_to!(blocks => rest));
        assert(decreases_to!(blocks => last));
        lemma_steps_placed(rest, indent);
        lemma_block_placed(last, indent);
        let a = steps(rest, indent);
        let b = block_steps(last, indent);
        let rows = steps(blocks, indent);
        assert(rows == a + b);
        assert forall|i: int| 0 <= i < rows.len() implies row_indent(#[trigger] rows[i])
            >= indent by {
            if i < a.len() {
                assert(rows[i] == a[i]);
            } else {
                assert(rows[i] == b[i - a.len()]);
            }
        }
        assert forall|i: int| 0 <= i < rows.len() implies #[trigger] at_top(
            rows,
            blocks,
            indent,
            i,
        ) by {
            if i < a.len() {
                assert(at_top(a, rest, indent, i));
                assert(rows[i] == a[i]);
                if inner(a, i) {
                    lemma_inner_shift(a, rows, 0, i);
                } else {
                    let x = choose|x: int|
                        0 <= x < rest.len() && tells_block(a[i], #[trigger] rest[x]);
                    assert(blocks[x] == rest[x]);
                }
            } else {
                let h = i - a.len();
                assert(at_top(b, seq![last], indent, h));
                assert(rows[i] == b[h]);
                if inner(b, h) {
                    lemma_inner_shift(b, rows, a.len() as int, h);
                } else {
                    assert(blocks[blocks.len() - 1] == last);
                }
            }
        }
    }
}

proof fn lemma_block_placed(block: BlockView, indent: int)
    ensures
        forall|i: int|
            0 <= i < block_steps(block, indent).len() ==> row_indent(
                #[trigger] block_steps(block, indent)[i],
            ) >= indent,
        forall|i: int|
            0 <= i < block_steps(block, indent).len() ==> #[trigger] at_top(
                block_steps(block, indent),
                seq![block],
                indent,
                i,
            ),
    decreases block,
{
    assert(decreases_to!(block => block.bodies));
    lemma_bodies_placed(block, block.bodies, indent + 1);
    let rows = block_steps(block, indent);
    let part = body_steps(block.id, block.bodies, indent + 1);
    assert(rows[0] == crate::step_list::block_row(block, indent));
    assert(tells_block(rows[0], seq![block][0]));
    assert(forall|m: int| 0 <= m < part.len() ==> #[trigger] rows[1 + m] == part[m]);
    assert forall|i: int| 0 <= i < rows.len() implies row_indent(#[trigger] rows[i]) >= indent by {
        if i > 0 {
            assert(rows[1 + (i - 1)] == part[i - 1]);
        }
    }
    assert forall|i: int| 0 <= i < rows.len() implies #[trigger] at_top(
        rows,
        seq![block],
        indent,
        i,
    ) by {
        if i > 0 {
            let h = i - 1;
            assert(rows[1 + h] == part[h]);
            assert(in_body(part, block, block.bodies, indent + 1, h));
            if inner(part, h) {
                lemma_inner_shift(part, rows, 1, h);
            } else if exists|k: int| #[trigger]
                heads_own(part, block, block.bodies, indent + 1, h, k) {
                let k = choose|k: int| #[trigger]
                    heads_own(part, block, block.bodies, indent + 1, h, k);
                lemma_under_first(rows, part, i);
                assert(heads_under(rows, i, 0, block, k));
            } else {
                let (s, k, x) = choose|s: int, k: int, x: int| #[trigger]
                    tells_own(part, block, block.bodies, indent + 1, h, s, k, x);
                assert(heads_own(part, block, block.bodies, indent + 1, s, k));
                assert(rows[1 + s] == part[s]);
                lemma_under_first(rows, part, 1 + s);
                assert(heads_under(rows, 1 + s, 0, block, k));
                lemma_under_shift(part, rows, 1, h, s);
                assert(tells_under(rows, i, 1 + s, 0, block, k, x));
            }
        }
    }
}

proof fn lemma_under_first(rows: Seq<StepRowView>, part: Seq<StepRowView>, i: int)
    requires
        0 < i < rows.len(),
        rows.len() == part.len() + 1,
        forall|m: int| 0 <= m < part.len() ==> #[trigger] rows[1 + m] == part[m],
        forall|m: int|
            0 <= m < part.len() ==> row_indent(#[trigger] part[m]) >= row_indent(rows[0]) + 1,
        row_indent(rows[i]) == row_indent(rows[0]) + 1,
    ensures
        under(rows, i, 0),
{
    assert forall|m: int| 0 < m < i implies row_indent(#[trigger] rows[m]) > row_indent(rows[0]) by {
        assert(rows[1 + (m - 1)] == part[m - 1]);
    }
}

/// A row heads one of the given bodies at the given indent.
spec fn heads_own(
    rows: Seq<StepRowView>,
    owner: BlockView,
    bodies: Seq<BodyView>,
    indent: int,
    i: int,
    k: int,
) -> bool {
    0 <= i < rows.len() && 0 <= k < bodies.len() && row_indent(rows[i]) == indent && heads_body(
        rows[i],
        owner.id,
        bodies[k],
    )
}

/// A row tells a block of one of the given bodies, right under the row that heads the body.
spec fn tells_own(
    rows: Seq<StepRowView>,
    owner: BlockView,
    bodies: Seq<BodyView>,
    indent: int,
    i: int,
    s: int,
    k: int,
    x: int,
) -> bool {
    heads_own(rows, owner, bodies, indent, s, k) && under(rows, i, s) && 0 <= x
        < bodies[k].blocks.len() && tells_block(rows[i], bodies[k].blocks[x])
}

spec fn in_body(
    rows: Seq<StepRowView>,
    owner: BlockView,
    bodies: Seq<BodyView>,
    indent: int,
    i: int,
) -> bool {
    ||| exists|k: int| #[trigger] heads_own(rows, owner, bodies, indent, i, k)
    ||| exists|s: int, k: int, x: int| #[trigger]
        tells_own(rows, owner, bodies, indent, i, s, k, x)
    ||| inner(rows, i)
}

proof fn lemma_bodies_placed(owner: BlockView, bodies: Seq<BodyView>, indent: int)
    ensures
        forall|i: int|
            0 <= i < body_steps(owner.id, bodies, indent).len() ==> row_indent(
                #[trigger] body_steps(owner.id, bodies, indent)[i],
            ) >= indent,
        forall|i: int|
            0 <= i < body_steps(owner.id, bodies, indent).len() ==> #[trigger] in_body(
                body_steps(owner.id, bodies, indent),
                owner,
                bodies,
                indent,
                i,
            ),
    decreases bodies,
{
    if bodies.len() > 0 {
        let rest = bodies.drop_last();
        let last = bodies.last();
        let n = rest.len() as int;
        assert(decreases_to!(bodies => rest));
        assert(decreases_to!(bodies => last.blocks));
        lemma_bodies_placed(owner, rest, indent);
        lemma_steps_placed(last.blocks, indent + 1);
        let a = body_steps(owner.id, rest, indent);
        let head = crate::step_list::section_row(owner.id, last, indent);
        let b = steps(last.blocks, indent + 1);
        let rows = body_steps(owner.id, bodies, indent);
        let s = a.len() as int;
        assert(rows == a + seq![head] + b);
        assert(rows[s] == head && bodies[n] == last);
        assert(forall|m: int| 0 <= m < a.len() ==> #[trigger] rows[0 + m] == a[m]);
        assert(forall|m: int| 0 <= m < b.len() ==> #[trigger] rows[s + 1 + m] == b[m]);
        assert(heads_own(rows, owner, bodies, indent, s, n));
        assert forall|i: int| 0 <= i < rows.len() implies row_indent(#[trigger] rows[i])
            >= indent by {
            if i < s {
                assert(rows[0 + i] == a[i]);
            } else if i > s {
                assert(rows[s + 1 + (i - s - 1)] == b[i - s - 1]);
            }
        }
        assert forall|i: int| 0 <= i < rows.len() implies #[trigger] in_body(
            rows,
            owner,
            bodies,
            indent,
            i,
        ) by {
            if i < s {
                assert(rows[0 + i] == a[i]);
                assert(in_body(a, owner, rest, indent, i));
                if inner(a, i) {
                    lemma_inner_shift(a, rows, 0, i);
                } else if exists|k: int| #[trigger] heads_own(a, owner, rest, indent, i, k) {
                    let k = choose|k: int| #[trigger] heads_own(a, owner, rest, indent, i, k);
                    assert(bodies[k] == rest[k]);
                    assert(heads_own(rows, owner, bodies, indent, i, k));
                } else {
                    let (t, k, x) = choose|t: int, k: int, x: int| #[trigger]
                        tells_own(a, owner, rest, indent, i, t, k, x);
                    assert(heads_own(a, owner, rest, indent, t, k));
                    assert(rows[0 + t] == a[t]);
                    assert(bodies[k] == rest[k]);
                    lemma_under_shift(a, rows, 0, i, t);
                    assert(heads_own(rows, owner, bodies, indent, t, k));
                    assert(tells_own(rows, owner, bodies, indent, i, t, k, x));
                }
            } else if i > s {
                let h = i - s - 1;
                assert(rows[s + 1 + h] == b[h]);
                assert(at_top(b, last.blocks, indent + 1, h));
                if inner(b, h) {
                    lemma_inner_shift(b, rows, s + 1, h);
                } else {
                    let x = choose|x: int|
                        0 <= x < last.blocks.len() && tells_block(b[h], #[trigger] last.blocks[x]);
                    assert forall|m: int| s < m < i implies row_indent(#[trigger] rows[m])
                        > row_indent(rows[s]) by {
                        assert(rows[s + 1 + (m - s - 1)] == b[m - s - 1]);
                    }
                    assert(under(rows, i, s));
                    assert(tells_own(rows, owner, bodies, indent, i, s, n, x));
                }
            }
        }
    }
}

/// The rows of the step list are nested as the blocks are: a row at the outermost indent tells a
/// block of the list; any other row either heads a body, right under the row of the block that owns
/// the body, or tells a block of a body, right under the row that heads it.
pub proof fn rows_are_nested_as_blocks(blocks: Seq<BlockView>, indent: int, i: int)
    requires
        0 <= i < steps(blocks, indent).len(),
    ensures
        placed(steps(blocks, indent), blocks, indent, i),
{
    lemma_steps_placed(blocks, indent);
    assert(at_top(steps(blocks, indent), blocks, indent, i));
}

} // verus!
