//! The list of steps: every block as a row, indented under the body that owns it.
use crate::bodies::{owned_bodies, Body, Role};
use crate::canvas_model::{
    body_selection, selection_of_body, CanvasSelection, SelectionView,
};
use crate::content::{option_view, views};
use crate::macro_engine::{blocks_view, Block, BlockView, BodyView, MacroDefinition, RoleView};
use crate::places::{lanes_of, lemma_lanes_of};
use crate::presentation::{
    block_category, block_presentation, category, summary_text, title_text, BlockCategory,
};
use crate::tree::{lemma_child_smaller, size};
use vstd::prelude::*;
use vstd::string::StringExecFns;

verus! {

broadcast use crate::macro_engine::group_block_views;

/// A row of the list of steps.
#[derive(Debug, PartialEq, Eq)]
pub enum StepListRow {
    Block {
        id: String,
        indent: usize,
        title: String,
        summary: String,
        enabled: bool,
        category: BlockCategory,
        selection: CanvasSelection,
    },
    Section { title: String, indent: usize, selection: Option<CanvasSelection>, empty: bool },
}

/// The contents of a [`StepListRow`].
#[verifier::ext_equal]
pub ghost enum StepRowView {
    Block {
        id: Seq<char>,
        indent: int,
        title: Seq<char>,
        summary: Seq<char>,
        enabled: bool,
        category: BlockCategory,
        selection: SelectionView,
    },
    Section {
        title: Seq<char>,
        indent: int,
        selection: Option<SelectionView>,
        empty: bool,
    },
}

impl View for StepListRow {
    type V = StepRowView;

    open spec fn view(&self) -> StepRowView {
        match *self {
            StepListRow::Block { id, indent, title, summary, enabled, category, selection } => {
                StepRowView::Block {
                    id: id@,
                    indent: indent as int,
                    title: title@,
                    summary: summary@,
                    enabled,
                    category,
                    selection: selection@,
                }
            },
            StepListRow::Section { title, indent, selection, empty } => StepRowView::Section {
                title: title@,
                indent: indent as int,
                selection: option_view(selection),
                empty,
            },
        }
    }
}

pub open spec fn row_indent(row: StepRowView) -> int {
    match row {
        StepRowView::Block { indent, .. } => indent,
        StepRowView::Section { indent, .. } => indent,
    }
}

pub open spec fn row_title(row: StepRowView) -> Seq<char> {
    match row {
        StepRowView::Block { title, .. } => title,
        StepRowView::Section { title, .. } => title,
    }
}

pub open spec fn row_selection(row: StepRowView) -> Option<SelectionView> {
    match row {
        StepRowView::Block { selection, .. } => Some(selection),
        StepRowView::Section { selection, .. } => selection,
    }
}

impl StepListRow {
    pub fn indent(&self) -> (indent: usize)
        ensures
            indent == row_indent(self@),
    {
        match self {
            StepListRow::Block { indent, .. } => *indent,
            StepListRow::Section { indent, .. } => *indent,
        }
    }

    pub fn title(&self) -> (title: &str)
        ensures
            title@ == row_title(self@),
    {
        match self {
            StepListRow::Block { title, .. } => title.as_str(),
            StepListRow::Section { title, .. } => title.as_str(),
        }
    }

    pub fn block_id(&self) -> (id: Option<&str>)
        ensures
            option_view(id) == (match self@ {
                StepRowView::Block { id, .. } => Some(id),
                StepRowView::Section { .. } => None,
            }),
    {
        match self {
            StepListRow::Block { id, .. } => Some(id.as_str()),
            StepListRow::Section { .. } => None,
        }
    }

    pub fn selection(&self) -> (selection: Option<&CanvasSelection>)
        ensures
            option_view(selection) == row_selection(self@),
    {
        match self {
            StepListRow::Block { selection, .. } => Some(selection),
            StepListRow::Section { selection, .. } => match selection {
                Some(selection) => Some(selection),
                None => None,
            },
        }
    }
}

/// The row of a block.
pub open spec fn block_row(block: BlockView, indent: int) -> StepRowView {
    StepRowView::Block {
        id: block.id,
        indent,
        title: title_text(block.head),
        summary: summary_text(block.head, lanes_of(block).len()),
        enabled: block.enabled,
        category: category(block.head),
        selection: SelectionView::Block(block.id),
    }
}

pub open spec fn section_title(role: RoleView) -> Seq<char> {
    match role {
        RoleView::Then => "THEN"@,
        RoleView::Else => "ELSE"@,
        RoleView::Loop => "LOOP BODY"@,
        RoleView::Lane { id, .. } => "LANE "@ + id,
        RoleView::Timeout => "ON TIMEOUT"@,
    }
}

/// The row above the blocks of a body.
pub open spec fn section_row(owner: Seq<char>, body: BodyView, indent: int) -> StepRowView {
    StepRowView::Section {
        title: section_title(body.role),
        indent,
        selection: body_selection(owner, body.role),
        empty: body.blocks.len() == 0,
    }
}

/// The rows of a list of blocks.
pub open spec fn steps(blocks: Seq<BlockView>, indent: int) -> Seq<StepRowView>
    decreases blocks,
{
    if blocks.len() == 0 {
        Seq::empty()
    } else {
        steps(blocks.drop_last(), indent) + block_steps(blocks.last(), indent)
    }
}

/// The rows of a block: its own and, one step further in, those of its bodies.
pub open spec fn block_steps(block: BlockView, indent: int) -> Seq<StepRowView>
    decreases block,
{
    seq![block_row(block, indent)] + body_steps(block.id, block.bodies, indent + 1)
}

/// The rows of bodies: of each its section and, one step further in, those of its blocks.
pub open spec fn body_steps(owner: Seq<char>, bodies: Seq<BodyView>, indent: int) -> Seq<
    StepRowView,
>
    decreases bodies,
{
    if bodies.len() == 0 {
        Seq::empty()
    } else {
        body_steps(owner, bodies.drop_last(), indent) + seq![
            section_row(owner, bodies.last(), indent),
        ] + steps(bodies.last().blocks, indent + 1)
    }
}

fn section(owner: &String, body: &Body, indent: usize) -> (row: StepListRow)
    ensures
        row@ == section_row(owner@, body@, indent as int),
{
    let title = match &body.role {
        Role::Then => "THEN".to_owned(),
        Role::Else => "ELSE".to_owned(),
        Role::Loop => "LOOP BODY".to_owned(),
        Role::Lane(lane) => {
            let mut title = "LANE ".to_owned();
            title.append(lane.id.as_str());
            title
        },
        Role::Timeout => "ON TIMEOUT".to_owned(),
    };
    StepListRow::Section {
        title,
        indent,
        selection: selection_of_body(owner, &body.role),
        empty: body.blocks.len() == 0,
    }
}

fn step(block: &Block, indent: usize) -> (row: StepListRow)
    ensures
        row@ == block_row(block@, indent as int),
{
    proof {
        lemma_lanes_of(*block);
    }
    let (title, summary) = block_presentation(&block.kind);
    StepListRow::Block {
        id: block.id.clone(),
        indent,
        title,
        summary,
        enabled: block.enabled,
        category: block_category(&block.kind),
        selection: CanvasSelection::Block(block.id.clone()),
    }
}

/// Appends the rows of a list of blocks. Every row stands under at least as many rows as it is
/// indented.
fn append_blocks(blocks: &Vec<Block>, indent: usize, rows: &mut Vec<StepListRow>)
    requires
        indent <= old(rows)@.len(),
    ensures
        views(final(rows)@) == views(old(rows)@) + steps(blocks_view(blocks@), indent as int),
    decreases size(blocks_view(blocks@)),
{
    let ghost all = blocks_view(blocks@);
    let ghost before = views(rows@);
    let mut i: usize = 0;
    assert(views(rows@) =~= before + steps(all.take(0), indent as int));
    while i < blocks.len()
        invariant
            all == blocks_view(blocks@),
            i <= blocks@.len(),
            indent <= rows@.len(),
            views(rows@) == before + steps(all.take(i as int), indent as int),
        decreases blocks@.len() - i,
    {
        let block = &blocks[i];
        let ghost start = views(rows@);
        let row = step(block, indent);
        let ghost first = row@;
        rows.push(row);
        assert(rows.len() > indent);
        let bodies = owned_bodies(block);
        let mut k: usize = 0;
        assert(views(rows@) =~= start + seq![first] + body_steps(
            block@.id,
            block@.bodies.take(0),
            indent + 1,
        ));
        while k < bodies.len()
            invariant
                all == blocks_view(blocks@),
                i < blocks@.len(),
                block == blocks@[i as int],
                indent < usize::MAX,
                indent + 1 <= rows@.len(),
                k <= bodies@.len(),
                views(bodies@) == block@.bodies,
                views(rows@) == start + seq![first] + body_steps(
                    block@.id,
                    block@.bodies.take(k as int),
                    indent + 1,
                ),
            decreases bodies@.len() - k,
        {
            let body = &bodies[k];
            let ghost sofar = views(rows@);
            proof {
                assert(block@.bodies[k as int] == body@);
                lemma_child_smaller(all, i as int, k as int);
                assert(block@.bodies.take(k + 1).drop_last() =~= block@.bodies.take(k as int));
            }
            let title = section(&block.id, body, indent + 1);
            let ghost title_view = title@;
            rows.push(title);
            assert(views(rows@) =~= sofar.push(title_view));
            assert(rows.len() > indent + 1);
            append_blocks(body.blocks, indent + 2, rows);
            k += 1;
            assert(views(rows@) =~= start + seq![first] + body_steps(
                block@.id,
                block@.bodies.take(k as int),
                indent + 1,
            ));
            assert(views(rows@).len() == rows@.len());
        }
        proof {
            assert(block@.bodies.take(k as int) =~= block@.bodies);
            assert(all.take(i + 1).drop_last() =~= all.take(i as int));
            assert(all.take(i + 1).last() == block@);
            assert(block_steps(block@, indent as int) == seq![first] + body_steps(
                block@.id,
                block@.bodies,
                indent + 1,
            ));
        }
        i += 1;
        assert(views(rows@) =~= before + steps(all.take(i as int), indent as int));
    }
    assert(all.take(i as int) =~= all);
}

/// The rows of a definition.
pub fn project_step_list(definition: &MacroDefinition) -> (rows: Vec<StepListRow>)
    ensures
        views(rows@) == steps(definition@.blocks, 0),
{
    let mut rows: Vec<StepListRow> = Vec::new();
    append_blocks(&definition.blocks, 0, &mut rows);
    assert(views(rows@) =~= steps(definition@.blocks, 0));
    rows
}

} // verus!
