//! The timeline: the blocks of a macro as rows with markers for branches, lanes and loops.
use crate::bodies::{owned_bodies, role_view, Role};
use crate::content::{option_view, views};
use crate::macro_engine::{
    blocks_view, head_view, Block, BlockKind, BlockView, BodyView, HeadView, RoleView, WatchLane,
};
use crate::places::{lanes_of, lemma_lanes_of};
use crate::presentation::{
    block_summary, passive_condition_summary, passive_text, summary_text,
};
use crate::text::{append_decimal, decimal};
use crate::tree::{lemma_child_smaller, size};
use vstd::prelude::*;

verus! {

broadcast use crate::macro_engine::group_block_views;

/// What a row of the timeline selects.
#[derive(Debug, Clone, PartialEq, Eq)]
pub enum TimelineSelection {
    Identity(String),
    TimeoutBody { owner_id: String },
}

/// The contents of a [`TimelineSelection`].
#[verifier::ext_equal]
pub ghost enum TimelineSelectionView {
    Identity(Seq<char>),
    TimeoutBody { owner_id: Seq<char> },
}

impl View for TimelineSelection {
    type V = TimelineSelectionView;

    open spec fn view(&self) -> TimelineSelectionView {
        match *self {
            TimelineSelection::Identity(id) => TimelineSelectionView::Identity(id@),
            TimelineSelection::TimeoutBody { owner_id } => TimelineSelectionView::TimeoutBody {
                owner_id: owner_id@,
            },
        }
    }
}

/// A row of the timeline.
#[derive(Debug, Clone, PartialEq, Eq)]
pub struct TimelineRow {
    pub identity: Option<String>,
    pub selection: Option<TimelineSelection>,
    pub depth: usize,
    pub label: String,
    pub summary: String,
    pub lane_priority: Option<usize>,
    pub enabled: bool,
    pub is_loop_marker: bool,
    pub is_selectable: bool,
}

/// The contents of a [`TimelineRow`].
#[verifier::ext_equal]
pub ghost struct TimelineRowView {
    pub identity: Option<Seq<char>>,
    pub selection: Option<TimelineSelectionView>,
    pub depth: int,
    pub label: Seq<char>,
    pub summary: Seq<char>,
    pub lane_priority: Option<int>,
    pub enabled: bool,
    pub is_loop_marker: bool,
    pub is_selectable: bool,
}

impl View for TimelineRow {
    type V = TimelineRowView;

    open spec fn view(&self) -> TimelineRowView {
        TimelineRowView {
            identity: option_view(self.identity),
            selection: option_view(self.selection),
            depth: self.depth as int,
            label: self.label@,
            summary: self.summary@,
            lane_priority: match self.lane_priority {
                Some(priority) => Some(priority as int),
                None => None,
            },
            enabled: self.enabled,
            is_loop_marker: self.is_loop_marker,
            is_selectable: self.is_selectable,
        }
    }
}

/// What a block is called on the timeline.
pub open spec fn kind_label(head: HeadView) -> Seq<char> {
    match head {
        HeadView::Observe { .. } => "OBSERVE"@,
        HeadView::Action { .. } => "ACTION"@,
        HeadView::If { .. } => "IF"@,
        HeadView::Wait { .. } => "WAIT"@,
        HeadView::RepeatN { .. } => "REPEAT"@,
        HeadView::RepeatUntil { .. } => "REPEAT UNTIL"@,
        HeadView::Continuous => "CONTINUOUS LOOP"@,
        HeadView::WatchGroup { .. } => "WATCH GROUP"@,
        HeadView::StopSuccess => "STOP"@,
        HeadView::StopError { .. } => "STOP ERROR"@,
        HeadView::Comment { .. } => "NOTE"@,
    }
}

fn block_label(kind: &BlockKind) -> (label: &'static str)
    ensures
        label@ == kind_label(head_view(*kind)),
{
    match kind {
        BlockKind::Observe { .. } => "OBSERVE",
        BlockKind::Action { .. } => "ACTION",
        BlockKind::If { .. } => "IF",
        BlockKind::Wait { .. } => "WAIT",
        BlockKind::RepeatN { .. } => "REPEAT",
        BlockKind::RepeatUntil { .. } => "REPEAT UNTIL",
        BlockKind::Continuous { .. } => "CONTINUOUS LOOP",
        BlockKind::WatchGroup { .. } => "WATCH GROUP",
        BlockKind::StopSuccess => "STOP",
        BlockKind::StopError { .. } => "STOP ERROR",
        BlockKind::Comment { .. } => "NOTE",
    }
}

/// The row of a block.
pub open spec fn block_line(block: BlockView, depth: int) -> TimelineRowView {
    TimelineRowView {
        identity: Some(block.id),
        selection: Some(TimelineSelectionView::Identity(block.id)),
        depth,
        label: kind_label(block.head),
        summary: summary_text(block.head, lanes_of(block).len()),
        lane_priority: None,
        enabled: block.enabled,
        is_loop_marker: false,
        is_selectable: true,
    }
}

/// The row above a branch.
pub open spec fn branch_line(label: Seq<char>, depth: int) -> TimelineRowView {
    TimelineRowView {
        identity: None,
        selection: None,
        depth,
        label,
        summary: "Owned branch"@,
        lane_priority: None,
        enabled: true,
        is_loop_marker: false,
        is_selectable: false,
    }
}

/// The row above a timeout body.
pub open spec fn timeout_line(owner: Seq<char>, depth: int) -> TimelineRowView {
    TimelineRowView {
        identity: None,
        selection: Some(TimelineSelectionView::TimeoutBody { owner_id: owner }),
        depth,
        label: "ON TIMEOUT"@,
        summary: "Owned timeout branch"@,
        lane_priority: None,
        enabled: true,
        is_loop_marker: false,
        is_selectable: true,
    }
}

/// The row of a lane.
pub open spec fn lane_line(role: RoleView, priority: int, depth: int) -> TimelineRowView {
    TimelineRowView {
        identity: Some(role->Lane_id),
        selection: Some(TimelineSelectionView::Identity(role->Lane_id)),
        depth,
        label: "Priority "@ + decimal(priority as nat),
        summary: passive_text(role->Lane_condition),
        lane_priority: Some(priority),
        enabled: role->Lane_enabled,
        is_loop_marker: false,
        is_selectable: true,
    }
}

/// The row at the end of a loop.
pub open spec fn loop_line(enabled: bool, depth: int) -> TimelineRowView {
    TimelineRowView {
        identity: None,
        selection: None,
        depth,
        label: "LOOP"@,
        summary: "Return to loop start"@,
        lane_priority: None,
        enabled,
        is_loop_marker: true,
        is_selectable: false,
    }
}

/// The rows above the blocks of a body. Lanes come first among the bodies, so that a lane's index
/// gives its priority.
pub open spec fn lines_above(owner: Seq<char>, index: int, role: RoleView, depth: int) -> Seq<
    TimelineRowView,
> {
    match role {
        RoleView::Then => seq![branch_line("THEN"@, depth + 1)],
        RoleView::Else => seq![branch_line("ELSE"@, depth + 1)],
        RoleView::Loop => Seq::empty(),
        RoleView::Lane { .. } => seq![
            lane_line(role, index + 1, depth + 1),
            branch_line("THEN"@, depth + 2),
        ],
        RoleView::Timeout => seq![timeout_line(owner, depth + 1)],
    }
}

/// How deep the blocks of a body stand: one deeper than the rows above them.
pub open spec fn depth_inside(role: RoleView, depth: int) -> int {
    match role {
        RoleView::Loop => depth + 1,
        RoleView::Lane { .. } => depth + 3,
        _ => depth + 2,
    }
}

/// The rows below the blocks of a body.
pub open spec fn lines_below(enabled: bool, role: RoleView, depth: int) -> Seq<TimelineRowView> {
    if role is Loop {
        seq![loop_line(enabled, depth + 1)]
    } else {
        Seq::empty()
    }
}

/// The rows of a list of blocks.
pub open spec fn lines(blocks: Seq<BlockView>, depth: int) -> Seq<TimelineRowView>
    decreases blocks,
{
    if blocks.len() == 0 {
        Seq::empty()
    } else {
        lines(blocks.drop_last(), depth) + block_lines(blocks.last(), depth)
    }
}

/// The rows of a block.
pub open spec fn block_lines(block: BlockView, depth: int) -> Seq<TimelineRowView>
    decreases block,
{
    seq![block_line(block, depth)] + body_lines(block.id, block.enabled, block.bodies, depth)
}

/// The rows of the bodies of a block.
pub open spec fn body_lines(
    owner: Seq<char>,
    enabled: bool,
    bodies: Seq<BodyView>,
    depth: int,
) -> Seq<TimelineRowView>
    decreases bodies,
{
    if bodies.len() == 0 {
        Seq::empty()
    } else {
        body_lines(owner, enabled, bodies.drop_last(), depth) + (lines_above(
            owner,
            bodies.len() - 1,
            bodies.last().role,
            depth,
        ) + lines(bodies.last().blocks, depth_inside(bodies.last().role, depth)) + lines_below(
            enabled,
            bodies.last().role,
            depth,
        ))
    }
}

fn block_row(block: &Block, depth: usize) -> (row: TimelineRow)
    ensures
        row@ == block_line(block@, depth as int),
{
    proof {
        lemma_lanes_of(*block);
    }
    TimelineRow {
        identity: Some(block.id.clone()),
        selection: Some(TimelineSelection::Identity(block.id.clone())),
        depth,
        label: block_label(&block.kind).to_owned(),
        summary: block_summary(&block.kind),
        lane_priority: None,
        enabled: block.enabled,
        is_loop_marker: false,
        is_selectable: true,
    }
}

fn branch_row(label: &str, depth: usize) -> (row: TimelineRow)
    ensures
        row@ == branch_line(label@, depth as int),
{
    TimelineRow {
        identity: None,
        selection: None,
        depth,
        label: label.to_owned(),
        summary: "Owned branch".to_owned(),
        lane_priority: None,
        enabled: true,
        is_loop_marker: false,
        is_selectable: false,
    }
}

fn timeout_row(owner_id: &String, depth: usize) -> (row: TimelineRow)
    ensures
        row@ == timeout_line(owner_id@, depth as int),
{
    TimelineRow {
        identity: None,
        selection: Some(TimelineSelection::TimeoutBody { owner_id: owner_id.clone() }),
        depth,
        label: "ON TIMEOUT".to_owned(),
        summary: "Owned timeout branch".to_owned(),
        lane_priority: None,
        enabled: true,
        is_loop_marker: false,
        is_selectable: true,
    }
}

fn lane_row(lane: &WatchLane, priority: usize, depth: usize) -> (row: TimelineRow)
    ensures
        row@ == lane_line(role_view(Role::Lane(lane)), priority as int, depth as int),
{
    let mut label = "Priority ".to_owned();
    append_decimal(&mut label, priority as u64);
    TimelineRow {
        identity: Some(lane.id.clone()),
        selection: Some(TimelineSelection::Identity(lane.id.clone())),
        depth,
        label,
        summary: passive_condition_summary(&lane.condition),
        lane_priority: Some(priority),
        enabled: lane.enabled,
        is_loop_marker: false,
        is_selectable: true,
    }
}

fn loop_row(enabled: bool, depth: usize) -> (row: TimelineRow)
    ensures
        row@ == loop_line(enabled, depth as int),
{
    TimelineRow {
        identity: None,
        selection: None,
        depth,
        label: "LOOP".to_owned(),
        summary: "Return to loop start".to_owned(),
        lane_priority: None,
        enabled,
        is_loop_marker: true,
        is_selectable: false,
    }
}

/// Appends the rows above the blocks of a body, and tells how deep its blocks stand.
fn push_above(
    owner: &String,
    index: usize,
    role: &Role,
    depth: usize,
    rows: &mut Vec<TimelineRow>,
) -> (inside: usize)
    requires
        depth < old(rows)@.len(),
        index < usize::MAX,
    ensures
        views(final(rows)@) == views(old(rows)@) + lines_above(
            owner@,
            index as int,
            role_view(*role),
            depth as int,
        ),
        inside == depth_inside(role_view(*role), depth as int),
        inside <= final(rows)@.len(),
{
    let ghost before = views(rows@);
    assert(depth < rows.len());
    let inside: usize = match role {
        Role::Then => {
            rows.push(branch_row("THEN", depth + 1));
            assert(depth + 2 <= rows.len());
            depth + 2
        },
        Role::Else => {
            rows.push(branch_row("ELSE", depth + 1));
            assert(depth + 2 <= rows.len());
            depth + 2
        },
        Role::Loop => depth + 1,
        Role::Lane(lane) => {
            rows.push(lane_row(lane, index + 1, depth + 1));
            assert(depth + 2 <= rows.len());
            rows.push(branch_row("THEN", depth + 2));
            assert(depth + 3 <= rows.len());
            depth + 3
        },
        Role::Timeout => {
            rows.push(timeout_row(owner, depth + 1));
            assert(depth + 2 <= rows.len());
            depth + 2
        },
    };
    assert(views(rows@) =~= before + lines_above(
        owner@,
        index as int,
        role_view(*role),
        depth as int,
    ));
    inside
}

/// Appends the rows below the blocks of a body.
fn push_below(enabled: bool, role: &Role, depth: usize, rows: &mut Vec<TimelineRow>)
    requires
        depth < old(rows)@.len(),
    ensures
        views(final(rows)@) == views(old(rows)@) + lines_below(
            enabled,
            role_view(*role),
            depth as int,
        ),
{
    let ghost before = views(rows@);
    assert(depth < rows.len());
    if let Role::Loop = role {
        rows.push(loop_row(enabled, depth + 1));
    }
    assert(views(rows@) =~= before + lines_below(enabled, role_view(*role), depth as int));
}

/// Appends the rows of a list of blocks. Every row stands under at least as many rows as it is
/// deep.
fn append_blocks(blocks: &Vec<Block>, depth: usize, rows: &mut Vec<TimelineRow>)
    requires
        depth <= old(rows)@.len(),
    ensures
        views(final(rows)@) == views(old(rows)@) + lines(blocks_view(blocks@), depth as int),
    decreases size(blocks_view(blocks@)),
{
    let ghost all = blocks_view(blocks@);
    let ghost before = views(rows@);
    let mut i: usize = 0;
    assert(views(rows@) =~= before + lines(all.take(0), depth as int));
    while i < blocks.len()
        invariant
            all == blocks_view(blocks@),
            i <= blocks@.len(),
            depth <= rows@.len(),
            views(rows@) == before + lines(all.take(i as int), depth as int),
        decreases blocks@.len() - i,
    {
        let block = &blocks[i];
        let ghost start = views(rows@);
        let row = block_row(block, depth);
        let ghost first = row@;
        rows.push(row);
        let bodies = owned_bodies(block);
        let mut k: usize = 0;
        assert(views(rows@) =~= start + seq![first] + body_lines(
            block@.id,
            block@.enabled,
            block@.bodies.take(0),
            depth as int,
        ));
        while k < bodies.len()
            invariant
                all == blocks_view(blocks@),
                i < blocks@.len(),
                block == blocks@[i as int],
                depth < rows@.len(),
                k <= bodies@.len(),
                views(bodies@) == block@.bodies,
                views(rows@) == start + seq![first] + body_lines(
                    block@.id,
                    block@.enabled,
                    block@.bodies.take(k as int),
                    depth as int,
                ),
            decreases bodies@.len() - k,
        {
            let body = &bodies[k];
            let ghost sofar = views(rows@);
            proof {
                assert(block@.bodies[k as int] == body@);
                lemma_child_smaller(all, i as int, k as int);
                assert(block@.bodies.take(k + 1).drop_last() =~= block@.bodies.take(k as int));
                assert(block@.bodies.take(k + 1).last() == body@);
            }
            let inside = push_above(&block.id, k, &body.role, depth, rows);
            append_blocks(body.blocks, inside, rows);
            assert(views(rows@).len() == rows@.len());
            push_below(block.enabled, &body.role, depth, rows);
            assert(views(rows@).len() == rows@.len());
            k += 1;
            assert(views(rows@) =~= start + seq![first] + body_lines(
                block@.id,
                block@.enabled,
                block@.bodies.take(k as int),
                depth as int,
            ));
        }
        proof {
            assert(block@.bodies.take(k as int) =~= block@.bodies);
            assert(all.take(i + 1).drop_last() =~= all.take(i as int));
            assert(all.take(i + 1).last() == block@);
            assert(block_lines(block@, depth as int) == seq![first] + body_lines(
                block@.id,
                block@.enabled,
                block@.bodies,
                depth as int,
            ));
        }
        i += 1;
        assert(views(rows@) =~= before + lines(all.take(i as int), depth as int));
    }
    assert(all.take(i as int) =~= all);
}

/// The rows of a list of blocks.
pub fn project_timeline(blocks: &Vec<Block>) -> (rows: Vec<TimelineRow>)
    ensures
        views(rows@) == lines(blocks_view(blocks@), 0),
{
    let mut rows: Vec<TimelineRow> = Vec::new();
    append_blocks(blocks, 0, &mut rows);
    assert(views(rows@) =~= lines(blocks_view(blocks@), 0));
    rows
}

} // verus!
