//! What holds of the lists of steps: each shows every block once, in the order of the walk.
use crate::canvas_laws::{every_block_is_one_node, stands_for};
use crate::canvas_model::canvas_of;
use crate::macro_engine::{BlockView, BodyView};
use crate::step_list::{block_row, block_steps, body_steps, steps, StepRowView};
use crate::timeline::{
    block_lines, body_lines, depth_inside, lines, lines_above, lines_below, TimelineRowView,
};
use crate::tree::{flatten, flatten_block, flatten_bodies};
use vstd::prelude::*;

verus! {

/// The identities of blocks, in order.
pub open spec fn names(flat: Seq<BlockView>) -> Seq<Seq<char>> {
    Seq::new(flat.len(), |i: int| flat[i].id)
}

proof fn lemma_names_add(a: Seq<BlockView>, b: Seq<BlockView>)
    ensures
        names(a + b) == names(a) + names(b),
{
    assert(names(a + b) =~= names(a) + names(b));
}

/// The rows of a step list that show blocks, in order.
pub open spec fn block_rows(rows: Seq<StepRowView>) -> Seq<StepRowView>
    decreases rows.len(),
{
    if rows.len() == 0 {
        Seq::empty()
    } else if rows.last() is Block {
        block_rows(rows.drop_last()).push(rows.last())
    } else {
        block_rows(rows.drop_last())
    }
}

proof fn lemma_block_rows_add(a: Seq<StepRowView>, b: Seq<StepRowView>)
    ensures
        block_rows(a + b) == block_rows(a) + block_rows(b),
    decreases b.len(),
{
    if b.len() == 0 {
        assert(a + b =~= a);
        assert(block_rows(a) + block_rows(b) =~= block_rows(a));
    } else {
        assert((a + b).drop_last() =~= a + b.drop_last());
        lemma_block_rows_add(a, b.drop_last());
        assert(block_rows(a + b) =~= block_rows(a) + block_rows(b));
    }
}

proof fn lemma_block_rows_one(row: StepRowView)
    ensures
        block_rows(seq![row]) == (if row is Block {
            seq![row]
        } else {
            Seq::<StepRowView>::empty()
        }),
{
    assert(seq![row].drop_last() =~= Seq::empty());
    assert(block_rows(seq![row].drop_last()) =~= Seq::empty());
    assert(block_rows(seq![row]) =~= (if row is Block {
        seq![row]
    } else {
        Seq::<StepRowView>::empty()
    }));
}

/// A row is the row of a block, however far it is set in.
spec fn tells(row: StepRowView, block: BlockView) -> bool {
    exists|indent: int| row == #[trigger] block_row(block, indent)
}

/// The rows are those of the blocks of a flat list, one for one and in order.
spec fn all_tell(rows: Seq<StepRowView>, flat: Seq<BlockView>) -> bool {
    rows.len() == flat.len() && forall|i: int|
        0 <= i < flat.len() ==> tells(#[trigger] rows[i], flat[i])
}

proof fn lemma_tell_joined(
    a: Seq<StepRowView>,
    x: Seq<BlockView>,
    b: Seq<StepRowView>,
    y: Seq<BlockView>,
)
    requires
        all_tell(a, x),
        all_tell(b, y),
    ensures
        all_tell(a + b, x + y),
{
    assert forall|i: int| 0 <= i < (x + y).len() implies tells(#[trigger] (a + b)[i], (x + y)[i]) by {
        if i < a.len() {
            assert(tells(a[i], x[i]));
        } else {
            assert(tells(b[i - a.len()], y[i - a.len()]));
        }
    }
}

proof fn lemma_rows_tell(blocks: Seq<BlockView>, indent: int)
    ensures
        all_tell(block_rows(steps(blocks, indent)), flatten(blocks)),
    decreases blocks,
{
    if blocks.len() > 0 {
        let rest = blocks.drop_last();
        let last = blocks[blocks.len() - 1];
        assert(decreases_to!(blocks => rest));
        assert(decreases_to!(blocks => last));
        lemma_rows_tell(rest, indent);
        lemma_block_rows_tell(last, indent);
        lemma_block_rows_add(steps(rest, indent), block_steps(last, indent));
        lemma_tell_joined(
            block_rows(steps(rest, indent)),
            flatten(rest),
            block_rows(block_steps(last, indent)),
            flatten_block(last),
        );
    }
}

proof fn lemma_block_rows_tell(block: BlockView, indent: int)
    ensures
        all_tell(block_rows(block_steps(block, indent)), flatten_block(block)),
    decreases block,
{
    let row = block_row(block, indent);
    let inner = body_steps(block.id, block.bodies, indent + 1);
    assert(decreases_to!(block => block.bodies));
    lemma_body_rows_tell(block.id, block.bodies, indent + 1);
    lemma_block_rows_add(seq![row], inner);
    lemma_block_rows_one(row);
    assert(tells(row, block));
    lemma_tell_joined(seq![row], seq![block], block_rows(inner), flatten_bodies(block.bodies));
}

proof fn lemma_body_rows_tell(owner: Seq<char>, bodies: Seq<BodyView>, indent: int)
    ensures
        all_tell(block_rows(body_steps(owner, bodies, indent)), flatten_bodies(bodies)),
    decreases bodies,
{
    if bodies.len() > 0 {
        let rest = bodies.drop_last();
        let last = bodies[bodies.len() - 1];
        assert(bodies.last() == last);
        assert(decreases_to!(bodies => rest));
        assert(decreases_to!(bodies => last.blocks));
        let row = crate::step_list::section_row(owner, last, indent);
        let front = body_steps(owner, rest, indent);
        lemma_body_rows_tell(owner, rest, indent);
        lemma_rows_tell(last.blocks, indent + 1);
        lemma_block_rows_add(front + seq![row], steps(last.blocks, indent + 1));
        lemma_block_rows_add(front, seq![row]);
        lemma_block_rows_one(row);
        assert(block_rows(front + seq![row]) =~= block_rows(front));
        lemma_tell_joined(
            block_rows(front),
            flatten_bodies(rest),
            block_rows(steps(last.blocks, indent + 1)),
            flatten(last.blocks),
        );
    }
}

/// The blocks that the rows of a step list show, in order.
pub open spec fn shown(rows: Seq<StepRowView>) -> Seq<Seq<char>> {
    Seq::new(block_rows(rows).len(), |i: int| block_rows(rows)[i]->Block_id)
}

/// The step list shows every block once, in the order of the walk.
pub proof fn step_list_shows_every_block(blocks: Seq<BlockView>, indent: int)
    ensures
        shown(steps(blocks, indent)) == names(flatten(blocks)),
{
    let rows = block_rows(steps(blocks, indent));
    lemma_rows_tell(blocks, indent);
    assert forall|i: int| 0 <= i < rows.len() implies (#[trigger] rows[i])->Block_id == flatten(
        blocks,
    )[i].id by {
        assert(tells(rows[i], flatten(blocks)[i]));
    }
    assert(shown(steps(blocks, indent)) =~= names(flatten(blocks)));
}

/// The canvas and the step list tell the same of a macro: the nodes of the one and the rows for
/// blocks of the other agree, one for one and in order, in identity, title, summary, category and
/// selection.
pub proof fn step_list_agrees_with_canvas(blocks: Seq<BlockView>)
    ensures
        ({
            let rows = block_rows(steps(blocks, 0));
            let nodes = canvas_of(blocks).nodes;
            &&& rows.len() == nodes.len()
            &&& forall|i: int|
                0 <= i < nodes.len() ==> ((#[trigger] rows[i]) matches StepRowView::Block {
                    id,
                    title,
                    summary,
                    category,
                    selection,
                    ..
                } && id == nodes[i].id && title == nodes[i].title && summary == nodes[i].summary
                    && category == nodes[i].category && selection == nodes[i].selection)
        }),
{
    let rows = block_rows(steps(blocks, 0));
    let nodes = canvas_of(blocks).nodes;
    let flat = flatten(blocks);
    lemma_rows_tell(blocks, 0);
    every_block_is_one_node(blocks);
    assert forall|i: int| 0 <= i < nodes.len() implies ((
    #[trigger] rows[i]) matches StepRowView::Block { id, title, summary, category, selection, .. }
        && id == nodes[i].id && title == nodes[i].title && summary == nodes[i].summary && category
        == nodes[i].category && selection == nodes[i].selection) by {
        assert(tells(rows[i], flat[i]));
        assert(stands_for(nodes[i], flat[i]));
    }
}

/// The row of a timeline shows a block: neither a lane nor a marker.
pub open spec fn shows_block(row: TimelineRowView) -> bool {
    row.identity is Some && row.lane_priority is None
}

/// The blocks that the rows of a timeline show, in order.
pub open spec fn told(rows: Seq<TimelineRowView>) -> Seq<Seq<char>>
    decreases rows.len(),
{
    if rows.len() == 0 {
        Seq::empty()
    } else if shows_block(rows.last()) {
        told(rows.drop_last()).push(rows.last().identity->0)
    } else {
        told(rows.drop_last())
    }
}

proof fn lemma_told_add(a: Seq<TimelineRowView>, b: Seq<TimelineRowView>)
    ensures
        told(a + b) == told(a) + told(b),
    decreases b.len(),
{
    if b.len() == 0 {
        assert(a + b =~= a);
        assert(told(a) + told(b) =~= told(a));
    } else {
        assert((a + b).drop_last() =~= a + b.drop_last());
        lemma_told_add(a, b.drop_last());
        assert(told(a + b) =~= told(a) + told(b));
    }
}

proof fn lemma_told_none(rows: Seq<TimelineRowView>)
    requires
        forall|i: int| 0 <= i < rows.len() ==> !shows_block(#[trigger] rows[i]),
    ensures
        told(rows) == Seq::<Seq<char>>::empty(),
    decreases rows.len(),
{
    if rows.len() > 0 {
        assert(!shows_block(rows[rows.len() - 1]));
        assert forall|i: int| 0 <= i < rows.drop_last().len() implies !shows_block(
            #[trigger] rows.drop_last()[i],
        ) by {
            assert(rows.drop_last()[i] == rows[i]);
        }
        lemma_told_none(rows.drop_last());
    }
}

/// The timeline shows every block once, in the order of the walk.
pub proof fn timeline_shows_every_block(blocks: Seq<BlockView>, depth: int)
    ensures
        told(lines(blocks, depth)) == names(flatten(blocks)),
    decreases blocks,
{
    if blocks.len() == 0 {
        assert(names(flatten(blocks)) =~= Seq::empty());
    } else {
        let rest = blocks.drop_last();
        let last = blocks[blocks.len() - 1];
        assert(decreases_to!(blocks => rest));
        assert(decreases_to!(blocks => last));
        timeline_shows_every_block(rest, depth);
        lemma_block_told(last, depth);
        lemma_told_add(lines(rest, depth), block_lines(last, depth));
        lemma_names_add(flatten(rest), flatten_block(last));
    }
}

proof fn lemma_block_told(block: BlockView, depth: int)
    ensures
        told(block_lines(block, depth)) == names(flatten_block(block)),
    decreases block,
{
    let row = crate::timeline::block_line(block, depth);
    let rest = body_lines(block.id, block.enabled, block.bodies, depth);
    assert(decreases_to!(block => block.bodies));
    lemma_bodies_told(block.id, block.enabled, block.bodies, depth);
    lemma_told_add(seq![row], rest);
    assert(seq![row].drop_last() =~= Seq::empty());
    assert(told(seq![row].drop_last()) =~= Seq::empty());
    assert(told(seq![row]) =~= seq![block.id]);
    lemma_names_add(seq![block], flatten_bodies(block.bodies));
    assert(names(seq![block]) =~= seq![block.id]);
}

proof fn lemma_bodies_told(owner: Seq<char>, enabled: bool, bodies: Seq<BodyView>, depth: int)
    ensures
        told(body_lines(owner, enabled, bodies, depth)) == names(flatten_bodies(bodies)),
    decreases bodies,
{
    if bodies.len() == 0 {
        assert(names(flatten_bodies(bodies)) =~= Seq::empty());
    } else {
        let rest = bodies.drop_last();
        let last = bodies[bodies.len() - 1];
        assert(bodies.last() == last);
        assert(decreases_to!(bodies => rest));
        assert(decreases_to!(bodies => last.blocks));
        let front = body_lines(owner, enabled, rest, depth);
        let above = lines_above(owner, bodies.len() - 1, last.role, depth);
        let inside = lines(last.blocks, depth_inside(last.role, depth));
        let below = lines_below(enabled, last.role, depth);
        lemma_bodies_told(owner, enabled, rest, depth);
        timeline_shows_every_block(last.blocks, depth_inside(last.role, depth));
        lemma_told_none(above);
        lemma_told_none(below);
        lemma_told_add(front, above + inside + below);
        lemma_told_add(above + inside, below);
        lemma_told_add(above, inside);
        lemma_names_add(flatten_bodies(rest), flatten(last.blocks));
        assert(told(above + inside + below) =~= told(inside));
    }
}

} // verus!
