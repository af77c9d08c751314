//! The canvas: blocks as nodes, bodies as groups, and the edges between them.
use crate::bodies::{owned_bodies, role_view, Body, Role};
use crate::container::{container, ContainerPath, ContainerView};
use crate::content::{clone_list, option_view, views, Content, Exact};
use crate::draft::EditorDraft;
use crate::editor_types::{BlockPathView, EditorCommand, InsertionTarget, InsertionTargetView};
use crate::edits::{block_at, is_lane, is_loop};
use crate::macro_engine::{
    blocks_view, Block, BlockKind, BlockView, BodyView, HeadView, MacroDefinition, RoleView,
};
use crate::places::{
    block_at_path, container_len, lanes_of, lemma_lanes_of, locate_block_path, located, sibling_at,
    sibling_position,
};
use crate::presentation::{
    block_category, block_presentation, category, summary_text, title_text, BlockCategory,
};
use crate::text::same_text;
use crate::tree::{
    child_containers, first_index, first_where, flatten, flatten_bodies, has_id,
    lemma_child_smaller, lemma_first_index, lemma_first_where_add, lemma_first_where_step,
    lemma_flatten_bodies_take, size,
};
use vstd::prelude::*;
use vstd::string::StringExecFns;

verus! {

broadcast use crate::macro_engine::group_block_views;

/// The bodies that are drawn as groups.
#[derive(Debug, Clone, Copy, PartialEq, Eq, Hash, Structural)]
pub enum CanvasGroupKind {
    IfThen,
    IfElse,
    LoopBody,
    WatchLaneThen,
    TimeoutBody,
}

#[derive(Debug, Clone, Copy, PartialEq, Eq, Structural)]
pub enum CanvasEdgeKind {
    Sequence,
    Branch,
    LoopReturn,
    WatchLane,
    Timeout,
}

#[derive(Debug, PartialEq, Eq, Hash)]
pub struct CanvasGroupId {
    pub owner_id: String,
    pub kind: CanvasGroupKind,
}

/// The contents of a [`CanvasGroupId`].
#[verifier::ext_equal]
pub ghost struct GroupIdView {
    pub owner_id: Seq<char>,
    pub kind: CanvasGroupKind,
}

impl View for CanvasGroupId {
    type V = GroupIdView;

    open spec fn view(&self) -> GroupIdView {
        GroupIdView { owner_id: self.owner_id@, kind: self.kind }
    }
}

impl Clone for CanvasGroupId {
    fn clone(&self) -> (copy: Self)
        ensures
            copy == *self,
    {
        CanvasGroupId { owner_id: self.owner_id.clone(), kind: self.kind }
    }
}

impl Exact for CanvasGroupId {
    fn same(&self, other: &Self) -> (equal: bool) {
        self.owner_id == other.owner_id && self.kind == other.kind
    }
}

impl Content for CanvasGroupId {
    fn duplicate(&self) -> (copy: Self) {
        self.clone()
    }
}

impl CanvasGroupId {
    pub fn loop_body(owner_id: &str) -> (id: Self)
        ensures
            id@ == (GroupIdView { owner_id: owner_id@, kind: CanvasGroupKind::LoopBody }),
    {
        CanvasGroupId { owner_id: owner_id.to_owned(), kind: CanvasGroupKind::LoopBody }
    }
}

/// What can be selected on the canvas.
#[derive(Debug, PartialEq, Eq, Hash)]
pub enum CanvasSelection {
    Block(String),
    Lane { group_id: String, lane_id: String },
    TimeoutBody { owner_id: String },
    IfThen { if_id: String },
    IfElse { if_id: String },
}

/// The contents of a [`CanvasSelection`].
#[verifier::ext_equal]
pub ghost enum SelectionView {
    Block(Seq<char>),
    Lane { group_id: Seq<char>, lane_id: Seq<char> },
    TimeoutBody { owner_id: Seq<char> },
    IfThen { if_id: Seq<char> },
    IfElse { if_id: Seq<char> },
}

impl View for CanvasSelection {
    type V = SelectionView;

    open spec fn view(&self) -> SelectionView {
        match *self {
            CanvasSelection::Block(id) => SelectionView::Block(id@),
            CanvasSelection::Lane { group_id, lane_id } => SelectionView::Lane {
                group_id: group_id@,
                lane_id: lane_id@,
            },
            CanvasSelection::TimeoutBody { owner_id } => SelectionView::TimeoutBody {
                owner_id: owner_id@,
            },
            CanvasSelection::IfThen { if_id } => SelectionView::IfThen { if_id: if_id@ },
            CanvasSelection::IfElse { if_id } => SelectionView::IfElse { if_id: if_id@ },
        }
    }
}

impl Clone for CanvasSelection {
    fn clone(&self) -> (copy: Self)
        ensures
            copy == *self,
    {
        match self {
            CanvasSelection::Block(id) => CanvasSelection::Block(id.clone()),
            CanvasSelection::Lane { group_id, lane_id } => CanvasSelection::Lane {
                group_id: group_id.clone(),
                lane_id: lane_id.clone(),
            },
            CanvasSelection::TimeoutBody { owner_id } => CanvasSelection::TimeoutBody {
                owner_id: owner_id.clone(),
            },
            CanvasSelection::IfThen { if_id } => CanvasSelection::IfThen { if_id: if_id.clone() },
            CanvasSelection::IfElse { if_id } => CanvasSelection::IfElse { if_id: if_id.clone() },
        }
    }
}

impl Content for CanvasSelection {
    fn duplicate(&self) -> (copy: Self) {
        self.clone()
    }
}

/// Where an edge leaves a block.
#[derive(Debug, PartialEq, Eq, Hash)]
pub enum OutputPort {
    Next(String),
    IfThen(String),
    IfElse(String),
    LoopBody(String),
    WatchLane { group_id: String, lane_id: String },
    TimeoutBody(String),
    /// A generated visual port for the return edge; never an editable insertion target.
    LoopReturn(String),
}

/// The contents of an [`OutputPort`].
#[verifier::ext_equal]
pub ghost enum PortView {
    Next(Seq<char>),
    IfThen(Seq<char>),
    IfElse(Seq<char>),
    LoopBody(Seq<char>),
    WatchLane { group_id: Seq<char>, lane_id: Seq<char> },
    TimeoutBody(Seq<char>),
    LoopReturn(Seq<char>),
}

impl View for OutputPort {
    type V = PortView;

    open spec fn view(&self) -> PortView {
        match *self {
            OutputPort::Next(id) => PortView::Next(id@),
            OutputPort::IfThen(id) => PortView::IfThen(id@),
            OutputPort::IfElse(id) => PortView::IfElse(id@),
            OutputPort::LoopBody(id) => PortView::LoopBody(id@),
            OutputPort::WatchLane { group_id, lane_id } => PortView::WatchLane {
                group_id: group_id@,
                lane_id: lane_id@,
            },
            OutputPort::TimeoutBody(id) => PortView::TimeoutBody(id@),
            OutputPort::LoopReturn(id) => PortView::LoopReturn(id@),
        }
    }
}

impl Clone for OutputPort {
    fn clone(&self) -> (copy: Self)
        ensures
            copy == *self,
    {
        match self {
            OutputPort::Next(id) => OutputPort::Next(id.clone()),
            OutputPort::IfThen(id) => OutputPort::IfThen(id.clone()),
            OutputPort::IfElse(id) => OutputPort::IfElse(id.clone()),
            OutputPort::LoopBody(id) => OutputPort::LoopBody(id.clone()),
            OutputPort::WatchLane { group_id, lane_id } => OutputPort::WatchLane {
                group_id: group_id.clone(),
                lane_id: lane_id.clone(),
            },
            OutputPort::TimeoutBody(id) => OutputPort::TimeoutBody(id.clone()),
            OutputPort::LoopReturn(id) => OutputPort::LoopReturn(id.clone()),
        }
    }
}

impl Content for OutputPort {
    fn duplicate(&self) -> (copy: Self) {
        self.clone()
    }
}

/// A block as it is drawn.
#[derive(Debug, Clone, PartialEq, Eq)]
pub struct CanvasNode {
    pub id: String,
    pub selection: CanvasSelection,
    pub category: BlockCategory,
    pub title: String,
    pub summary: String,
    pub outputs: Vec<OutputPort>,
    pub groups: Vec<CanvasGroupId>,
}

/// The contents of a [`CanvasNode`].
#[verifier::ext_equal]
pub ghost struct NodeView {
    pub id: Seq<char>,
    pub selection: SelectionView,
    pub category: BlockCategory,
    pub title: Seq<char>,
    pub summary: Seq<char>,
    pub outputs: Seq<PortView>,
    pub groups: Seq<GroupIdView>,
}

impl View for CanvasNode {
    type V = NodeView;

    open spec fn view(&self) -> NodeView {
        NodeView {
            id: self.id@,
            selection: self.selection@,
            category: self.category,
            title: self.title@,
            summary: self.summary@,
            outputs: views(self.outputs@),
            groups: views(self.groups@),
        }
    }
}

/// A body as it is drawn.
#[derive(Debug, Clone, PartialEq, Eq)]
pub struct CanvasGroup {
    pub id: CanvasGroupId,
    pub label: &'static str,
    pub member_ids: Vec<String>,
    pub selection: Option<CanvasSelection>,
    pub lane_priority: Option<usize>,
}

/// The contents of a [`CanvasGroup`].
#[verifier::ext_equal]
pub ghost struct GroupView {
    pub id: GroupIdView,
    pub label: Seq<char>,
    pub member_ids: Seq<Seq<char>>,
    pub selection: Option<SelectionView>,
    pub lane_priority: Option<int>,
}

impl View for CanvasGroup {
    type V = GroupView;

    open spec fn view(&self) -> GroupView {
        GroupView {
            id: self.id@,
            label: self.label@,
            member_ids: views(self.member_ids@),
            selection: option_view(self.selection),
            lane_priority: match self.lane_priority {
                Some(priority) => Some(priority as int),
                None => None,
            },
        }
    }
}

/// An edge between blocks.
#[derive(Debug, Clone, PartialEq, Eq)]
pub struct CanvasEdge {
    pub from: OutputPort,
    pub to: String,
    pub kind: CanvasEdgeKind,
    pub editable: bool,
}

/// The contents of a [`CanvasEdge`].
#[verifier::ext_equal]
pub ghost struct EdgeView {
    pub from: PortView,
    pub to: Seq<char>,
    pub kind: CanvasEdgeKind,
    pub editable: bool,
}

impl View for CanvasEdge {
    type V = EdgeView;

    open spec fn view(&self) -> EdgeView {
        EdgeView { from: self.from@, to: self.to@, kind: self.kind, editable: self.editable }
    }
}

/// Everything that the canvas draws.
#[derive(Debug, Clone, PartialEq)]
pub struct CanvasProjection {
    pub nodes: Vec<CanvasNode>,
    pub groups: Vec<CanvasGroup>,
    pub edges: Vec<CanvasEdge>,
}

/// The contents of a [`CanvasProjection`].
#[verifier::ext_equal]
pub ghost struct CanvasView {
    pub nodes: Seq<NodeView>,
    pub groups: Seq<GroupView>,
    pub edges: Seq<EdgeView>,
}

impl View for CanvasProjection {
    type V = CanvasView;

    open spec fn view(&self) -> CanvasView {
        CanvasView {
            nodes: views(self.nodes@),
            groups: views(self.groups@),
            edges: views(self.edges@),
        }
    }
}

/// The predicate that picks the nodes of one identity.
pub open spec fn node_is(id: Seq<char>) -> spec_fn(NodeView) -> bool {
    |node: NodeView| node.id == id
}

impl CanvasProjection {
    /// The first node of an identity.
    pub fn node(&self, id: &str) -> (found: Option<&CanvasNode>)
        ensures
            option_view(found) == first_where(self@.nodes, node_is(id@)),
    {
        let ghost all = self@.nodes;
        let mut i: usize = 0;
        while i < self.nodes.len()
            invariant
                i <= self.nodes@.len(),
                all == views(self.nodes@),
                first_where(all.take(i as int), node_is(id@)) is None,
            decreases self.nodes@.len() - i,
        {
            proof {
                lemma_first_where_step(all, i as int, node_is(id@));
            }
            if same_text(self.nodes[i].id.as_str(), id) {
                return Some(&self.nodes[i]);
            }
            i += 1;
        }
        assert(all.take(i as int) =~= all);
        None
    }
}

/// Why two blocks cannot be connected.
#[derive(Debug, PartialEq, Eq)]
pub enum CanvasConnectionError {
    MissingSource(String),
    MissingTarget(String),
    InvalidPort,
    IllegalSelf,
    IllegalDescendant,
}

/// The contents of a [`CanvasConnectionError`].
#[verifier::ext_equal]
pub ghost enum ConnectionErrorView {
    MissingSource(Seq<char>),
    MissingTarget(Seq<char>),
    InvalidPort,
    IllegalSelf,
    IllegalDescendant,
}

impl View for CanvasConnectionError {
    type V = ConnectionErrorView;

    open spec fn view(&self) -> ConnectionErrorView {
        match *self {
            CanvasConnectionError::MissingSource(id) => ConnectionErrorView::MissingSource(id@),
            CanvasConnectionError::MissingTarget(id) => ConnectionErrorView::MissingTarget(id@),
            CanvasConnectionError::InvalidPort => ConnectionErrorView::InvalidPort,
            CanvasConnectionError::IllegalSelf => ConnectionErrorView::IllegalSelf,
            CanvasConnectionError::IllegalDescendant => ConnectionErrorView::IllegalDescendant,
        }
    }
}

pub open spec fn connection_message(error: ConnectionErrorView) -> Seq<char> {
    match error {
        ConnectionErrorView::MissingSource(_) => "The connector source no longer exists."@,
        ConnectionErrorView::MissingTarget(_) => "The drop target no longer exists."@,
        ConnectionErrorView::InvalidPort => "That connector is not available for this block."@,
        ConnectionErrorView::IllegalSelf => "A block cannot connect to itself."@,
        ConnectionErrorView::IllegalDescendant => "A container cannot be moved into its own body."@,
    }
}

impl CanvasConnectionError {
    pub fn message(&self) -> (text: &'static str)
        ensures
            text@ == connection_message(self@),
    {
        match self {
            CanvasConnectionError::MissingSource(_) => "The connector source no longer exists.",
            CanvasConnectionError::MissingTarget(_) => "The drop target no longer exists.",
            CanvasConnectionError::InvalidPort => "That connector is not available for this block.",
            CanvasConnectionError::IllegalSelf => "A block cannot connect to itself.",
            CanvasConnectionError::IllegalDescendant => {
                "A container cannot be moved into its own body."
            },
        }
    }
}

/// A block that the run goes on from.
pub open spec fn continues(head: HeadView) -> bool {
    !(head is StopSuccess) && !(head is StopError)
}

/// A block has a body that runs on timeout.
pub open spec fn has_timeout(block: BlockView) -> bool {
    block.bodies.len() > 0 && block.bodies.last().role is Timeout
}

/// The ports of a block.
pub open spec fn ports(block: BlockView) -> Seq<PortView> {
    (match block.head {
        HeadView::If { .. } => seq![
            PortView::IfThen(block.id),
            PortView::IfElse(block.id),
            PortView::Next(block.id),
        ],
        HeadView::RepeatN { .. } => loop_ports(block.id),
        HeadView::RepeatUntil { .. } => loop_ports(block.id),
        HeadView::Continuous => loop_ports(block.id),
        HeadView::WatchGroup { .. } => lane_ports(block.id, lanes_of(block)).push(
            PortView::Next(block.id),
        ),
        HeadView::StopSuccess => Seq::empty(),
        HeadView::StopError { .. } => Seq::empty(),
        _ => seq![PortView::Next(block.id)],
    }) + (if has_timeout(block) {
        seq![PortView::TimeoutBody(block.id)]
    } else {
        Seq::empty()
    })
}

pub open spec fn loop_ports(id: Seq<char>) -> Seq<PortView> {
    seq![PortView::LoopBody(id), PortView::Next(id), PortView::LoopReturn(id)]
}

pub open spec fn lane_ports(id: Seq<char>, lanes: Seq<BodyView>) -> Seq<PortView> {
    Seq::new(
        lanes.len(),
        |i: int| PortView::WatchLane { group_id: id, lane_id: lanes[i].role->Lane_id },
    )
}

/// The node of a block.
pub open spec fn node_of(block: BlockView, groups: Seq<GroupIdView>) -> NodeView {
    NodeView {
        id: block.id,
        selection: SelectionView::Block(block.id),
        category: category(block.head),
        title: title_text(block.head),
        summary: summary_text(block.head, lanes_of(block).len()),
        outputs: ports(block),
        groups,
    }
}

/// The identity of the group that a body is drawn as.
pub open spec fn group_id(owner: Seq<char>, role: RoleView) -> GroupIdView {
    match role {
        RoleView::Then => GroupIdView { owner_id: owner, kind: CanvasGroupKind::IfThen },
        RoleView::Else => GroupIdView { owner_id: owner, kind: CanvasGroupKind::IfElse },
        RoleView::Loop => GroupIdView { owner_id: owner, kind: CanvasGroupKind::LoopBody },
        RoleView::Lane { id, .. } => GroupIdView {
            owner_id: owner + ":"@ + id,
            kind: CanvasGroupKind::WatchLaneThen,
        },
        RoleView::Timeout => GroupIdView { owner_id: owner, kind: CanvasGroupKind::TimeoutBody },
    }
}

pub open spec fn group_label(role: RoleView) -> Seq<char> {
    match role {
        RoleView::Then => "THEN"@,
        RoleView::Else => "ELSE"@,
        RoleView::Loop => "LOOP BODY"@,
        RoleView::Lane { .. } => "THEN"@,
        RoleView::Timeout => "ON TIMEOUT"@,
    }
}

/// What selecting a body selects; the body of a loop is not selected by itself.
pub open spec fn body_selection(owner: Seq<char>, role: RoleView) -> Option<SelectionView> {
    match role {
        RoleView::Then => Some(SelectionView::IfThen { if_id: owner }),
        RoleView::Else => Some(SelectionView::IfElse { if_id: owner }),
        RoleView::Loop => None,
        RoleView::Lane { id, .. } => Some(SelectionView::Lane { group_id: owner, lane_id: id }),
        RoleView::Timeout => Some(SelectionView::TimeoutBody { owner_id: owner }),
    }
}

/// The port that leads into a body.
pub open spec fn body_port(owner: Seq<char>, role: RoleView) -> PortView {
    match role {
        RoleView::Then => PortView::IfThen(owner),
        RoleView::Else => PortView::IfElse(owner),
        RoleView::Loop => PortView::LoopBody(owner),
        RoleView::Lane { id, .. } => PortView::WatchLane { group_id: owner, lane_id: id },
        RoleView::Timeout => PortView::TimeoutBody(owner),
    }
}

pub open spec fn body_edge_kind(role: RoleView) -> CanvasEdgeKind {
    match role {
        RoleView::Then => CanvasEdgeKind::Branch,
        RoleView::Else => CanvasEdgeKind::Branch,
        RoleView::Loop => CanvasEdgeKind::Sequence,
        RoleView::Lane { .. } => CanvasEdgeKind::WatchLane,
        RoleView::Timeout => CanvasEdgeKind::Timeout,
    }
}

pub open spec fn block_ids(blocks: Seq<BlockView>) -> Seq<Seq<char>> {
    Seq::new(blocks.len(), |i: int| blocks[i].id)
}

/// The group of a body. Lanes come first among the bodies of their owner, so that a lane's index
/// among the bodies is its place in the order of priorities.
pub open spec fn group_of(owner: Seq<char>, index: int, body: BodyView) -> GroupView {
    GroupView {
        id: group_id(owner, body.role),
        label: group_label(body.role),
        member_ids: block_ids(body.blocks),
        selection: body_selection(owner, body.role),
        lane_priority: if body.role is Lane {
            Some(index + 1)
        } else {
            None
        },
    }
}

/// The edge into a body that is not empty.
pub open spec fn entry_edges(owner: Seq<char>, body: BodyView) -> Seq<EdgeView> {
    if body.blocks.len() == 0 {
        Seq::empty()
    } else {
        seq![
            EdgeView {
                from: body_port(owner, body.role),
                to: body.blocks[0].id,
                kind: body_edge_kind(body.role),
                editable: true,
            },
        ]
    }
}

/// The edge from the end of a loop to its start.
pub open spec fn return_edges(owner: Seq<char>, role: RoleView) -> Seq<EdgeView> {
    if role is Loop {
        seq![
            EdgeView {
                from: PortView::LoopReturn(owner),
                to: owner,
                kind: CanvasEdgeKind::LoopReturn,
                editable: false,
            },
        ]
    } else {
        Seq::empty()
    }
}

/// The edges from each block of a list to the next, where the run goes on.
pub open spec fn sequence_edges(blocks: Seq<BlockView>) -> Seq<EdgeView>
    decreases blocks.len(),
{
    if blocks.len() < 2 {
        Seq::empty()
    } else {
        let rest = sequence_edges(blocks.drop_last());
        let from = blocks[blocks.len() - 2];
        if continues(from.head) {
            rest.push(
                EdgeView {
                    from: PortView::Next(from.id),
                    to: blocks.last().id,
                    kind: CanvasEdgeKind::Sequence,
                    editable: true,
                },
            )
        } else {
            rest
        }
    }
}

pub open spec fn empty_canvas() -> CanvasView {
    CanvasView { nodes: Seq::empty(), groups: Seq::empty(), edges: Seq::empty() }
}

/// Two parts of a canvas, one after the other.
pub open spec fn joined(left: CanvasView, right: CanvasView) -> CanvasView {
    CanvasView {
        nodes: left.nodes + right.nodes,
        groups: left.groups + right.groups,
        edges: left.edges + right.edges,
    }
}

/// What is drawn of the blocks of a list, without the edges between them.
pub open spec fn blocks_canvas(blocks: Seq<BlockView>, groups: Seq<GroupIdView>) -> CanvasView
    decreases blocks,
{
    if blocks.len() == 0 {
        empty_canvas()
    } else {
        joined(blocks_canvas(blocks.drop_last(), groups), block_canvas(blocks.last(), groups))
    }
}

/// What is drawn of a block.
pub open spec fn block_canvas(block: BlockView, groups: Seq<GroupIdView>) -> CanvasView
    decreases block,
{
    joined(
        CanvasView { nodes: seq![node_of(block, groups)], ..empty_canvas() },
        bodies_canvas(block.id, block.bodies, groups),
    )
}

/// What is drawn of the bodies of a block: of each its group, the edge into it, its blocks with
/// the edges between them, and the return of a loop.
pub open spec fn bodies_canvas(
    owner: Seq<char>,
    bodies: Seq<BodyView>,
    groups: Seq<GroupIdView>,
) -> CanvasView
    decreases bodies,
{
    if bodies.len() == 0 {
        empty_canvas()
    } else {
        let body = bodies.last();
        joined(
            bodies_canvas(owner, bodies.drop_last(), groups),
            joined(
                CanvasView {
                    groups: seq![group_of(owner, bodies.len() - 1, body)],
                    edges: entry_edges(owner, body),
                    ..empty_canvas()
                },
                joined(
                    blocks_canvas(body.blocks, groups.push(group_id(owner, body.role))),
                    CanvasView {
                        edges: sequence_edges(body.blocks) + return_edges(owner, body.role),
                        ..empty_canvas()
                    },
                ),
            ),
        )
    }
}

/// Everything that is drawn of a definition.
pub open spec fn canvas_of(blocks: Seq<BlockView>) -> CanvasView {
    joined(
        blocks_canvas(blocks, Seq::empty()),
        CanvasView { edges: sequence_edges(blocks), ..empty_canvas() },
    )
}

/// Whether a block has a body that runs on timeout.
fn has_timeout_body(block: &Block) -> (found: bool)
    ensures
        found == has_timeout(block@),
{
    let bodies = owned_bodies(block);
    if bodies.len() == 0 {
        return false;
    }
    let last = &bodies[bodies.len() - 1];
    assert(block@.bodies.last() == last@);
    match last.role {
        Role::Timeout => true,
        _ => false,
    }
}

fn push_loop_ports(id: &String, out: &mut Vec<OutputPort>)
    ensures
        views(final(out)@) == views(old(out)@) + loop_ports(id@),
{
    let ghost before = views(out@);
    out.push(OutputPort::LoopBody(id.clone()));
    out.push(OutputPort::Next(id.clone()));
    out.push(OutputPort::LoopReturn(id.clone()));
    assert(views(out@) =~= before + loop_ports(id@));
}

/// The ports of a block.
pub fn output_ports(block: &Block) -> (list: Vec<OutputPort>)
    ensures
        views(list@) == ports(block@),
{
    let mut list: Vec<OutputPort> = Vec::new();
    let id = &block.id;
    assert(views(list@) =~= Seq::empty());
    match &block.kind {
        BlockKind::If { .. } => {
            list.push(OutputPort::IfThen(id.clone()));
            list.push(OutputPort::IfElse(id.clone()));
            list.push(OutputPort::Next(id.clone()));
        },
        BlockKind::RepeatN { .. } => push_loop_ports(id, &mut list),
        BlockKind::RepeatUntil { .. } => push_loop_ports(id, &mut list),
        BlockKind::Continuous { .. } => push_loop_ports(id, &mut list),
        BlockKind::WatchGroup { group } => {
            proof {
                lemma_lanes_of(*block);
            }
            let mut i: usize = 0;
            while i < group.lanes.len()
                invariant
                    i <= group.lanes@.len(),
                    id@ == block@.id,
                    list@.len() == i,
                    forall|j: int|
                        0 <= j < i ==> (#[trigger] list@[j])@ == (PortView::WatchLane {
                            group_id: block@.id,
                            lane_id: group.lanes@[j].id@,
                        }),
                decreases group.lanes@.len() - i,
            {
                list.push(
                    OutputPort::WatchLane {
                        group_id: id.clone(),
                        lane_id: group.lanes[i].id.clone(),
                    },
                );
                i += 1;
            }
            assert(views(list@) =~= lane_ports(block@.id, lanes_of(block@)));
            let ghost before = views(list@);
            list.push(OutputPort::Next(id.clone()));
            assert(views(list@) =~= before.push(PortView::Next(block@.id)));
        },
        BlockKind::StopSuccess => {},
        BlockKind::StopError { .. } => {},
        _ => {
            list.push(OutputPort::Next(id.clone()));
        },
    }
    let ghost before = views(list@);
    if has_timeout_body(block) {
        list.push(OutputPort::TimeoutBody(id.clone()));
        assert(views(list@) =~= before + seq![PortView::TimeoutBody(block@.id)]);
    }
    assert(views(list@) =~= ports(block@));
    list
}

fn canvas_node(block: &Block, groups: &Vec<CanvasGroupId>) -> (node: CanvasNode)
    ensures
        node@ == node_of(block@, views(groups@)),
{
    proof {
        lemma_lanes_of(*block);
    }
    let (title, summary) = block_presentation(&block.kind);
    CanvasNode {
        id: block.id.clone(),
        selection: CanvasSelection::Block(block.id.clone()),
        category: block_category(&block.kind),
        title,
        summary,
        outputs: output_ports(block),
        groups: clone_list(groups),
    }
}

fn canvas_group_id(owner: &String, role: &Role) -> (id: CanvasGroupId)
    ensures
        id@ == group_id(owner@, role_view(*role)),
{
    match role {
        Role::Then => CanvasGroupId { owner_id: owner.clone(), kind: CanvasGroupKind::IfThen },
        Role::Else => CanvasGroupId { owner_id: owner.clone(), kind: CanvasGroupKind::IfElse },
        Role::Loop => CanvasGroupId::loop_body(owner.as_str()),
        Role::Lane(lane) => {
            let mut owner_id = owner.clone();
            owner_id.append(":");
            owner_id.append(lane.id.as_str());
            CanvasGroupId { owner_id, kind: CanvasGroupKind::WatchLaneThen }
        },
        Role::Timeout => CanvasGroupId {
            owner_id: owner.clone(),
            kind: CanvasGroupKind::TimeoutBody,
        },
    }
}

/// What selecting a body selects.
pub fn selection_of_body(owner: &String, role: &Role) -> (selection: Option<CanvasSelection>)
    ensures
        option_view(selection) == body_selection(owner@, role_view(*role)),
{
    match role {
        Role::Then => Some(CanvasSelection::IfThen { if_id: owner.clone() }),
        Role::Else => Some(CanvasSelection::IfElse { if_id: owner.clone() }),
        Role::Loop => None,
        Role::Lane(lane) => Some(
            CanvasSelection::Lane { group_id: owner.clone(), lane_id: lane.id.clone() },
        ),
        Role::Timeout => Some(CanvasSelection::TimeoutBody { owner_id: owner.clone() }),
    }
}

fn port_of_body(owner: &String, role: &Role) -> (port: OutputPort)
    ensures
        port@ == body_port(owner@, role_view(*role)),
{
    match role {
        Role::Then => OutputPort::IfThen(owner.clone()),
        Role::Else => OutputPort::IfElse(owner.clone()),
        Role::Loop => OutputPort::LoopBody(owner.clone()),
        Role::Lane(lane) => OutputPort::WatchLane {
            group_id: owner.clone(),
            lane_id: lane.id.clone(),
        },
        Role::Timeout => OutputPort::TimeoutBody(owner.clone()),
    }
}

fn canvas_group(owner: &String, index: usize, body: &Body) -> (group: CanvasGroup)
    requires
        index < usize::MAX,
    ensures
        group@ == group_of(owner@, index as int, body@),
{
    let mut member_ids: Vec<String> = Vec::new();
    let mut i: usize = 0;
    while i < body.blocks.len()
        invariant
            i <= body.blocks@.len(),
            member_ids@.len() == i,
            forall|j: int| 0 <= j < i ==> (#[trigger] member_ids@[j])@ == body.blocks@[j].id@,
        decreases body.blocks@.len() - i,
    {
        member_ids.push(body.blocks[i].id.clone());
        i += 1;
    }
    assert(views(member_ids@) =~= block_ids(blocks_view(body.blocks@)));
    let label = match &body.role {
        Role::Then => "THEN",
        Role::Else => "ELSE",
        Role::Loop => "LOOP BODY",
        Role::Lane(_) => "THEN",
        Role::Timeout => "ON TIMEOUT",
    };
    let lane_priority: Option<usize> = match &body.role {
        Role::Lane(_) => Some(index + 1),
        _ => None,
    };
    CanvasGroup {
        id: canvas_group_id(owner, &body.role),
        label,
        member_ids,
        selection: selection_of_body(owner, &body.role),
        lane_priority,
    }
}

fn push_sequence_edges(blocks: &Vec<Block>, edges: &mut Vec<CanvasEdge>)
    ensures
        views(final(edges)@) == views(old(edges)@) + sequence_edges(blocks_view(blocks@)),
{
    let ghost all = blocks_view(blocks@);
    let ghost before = views(edges@);
    let mut i: usize = 1;
    if blocks.len() == 0 {
        assert(views(edges@) =~= before + sequence_edges(all));
        return;
    }
    assert(views(edges@) =~= before + sequence_edges(all.take(1)));
    while i < blocks.len()
        invariant
            all == blocks_view(blocks@),
            1 <= i <= blocks@.len(),
            views(edges@) == before + sequence_edges(all.take(i as int)),
        decreases blocks@.len() - i,
    {
        let from = &blocks[i - 1];
        let ghost so_far = views(edges@);
        proof {
            assert(all.take(i + 1).drop_last() =~= all.take(i as int));
            assert(all.take(i + 1)[i - 1] == from@);
            assert(all.take(i + 1).last() == blocks@[i as int]@);
        }
        let go_on = match &from.kind {
            BlockKind::StopSuccess => false,
            BlockKind::StopError { .. } => false,
            _ => true,
        };
        if go_on {
            let edge = CanvasEdge {
                from: OutputPort::Next(from.id.clone()),
                to: blocks[i].id.clone(),
                kind: CanvasEdgeKind::Sequence,
                editable: true,
            };
            let ghost view = edge@;
            edges.push(edge);
            assert(views(edges@) =~= so_far.push(view));
        }
        i += 1;
        assert(views(edges@) =~= before + sequence_edges(all.take(i as int)));
    }
    assert(all.take(i as int) =~= all);
}

fn push_entry(owner: &String, index: usize, body: &Body, projection: &mut CanvasProjection)
    requires
        index < usize::MAX,
    ensures
        final(projection)@ == joined(
            old(projection)@,
            (CanvasView {
                groups: seq![group_of(owner@, index as int, body@)],
                edges: entry_edges(owner@, body@),
                ..empty_canvas()
            }),
        ),
{
    let ghost before = projection@;
    let group = canvas_group(owner, index, body);
    let ghost group_view = group@;
    projection.groups.push(group);
    assert(views(projection.groups@) =~= before.groups.push(group_view));
    if body.blocks.len() > 0 {
        let edge = CanvasEdge {
            from: port_of_body(owner, &body.role),
            to: body.blocks[0].id.clone(),
            kind: match &body.role {
                Role::Then => CanvasEdgeKind::Branch,
                Role::Else => CanvasEdgeKind::Branch,
                Role::Loop => CanvasEdgeKind::Sequence,
                Role::Lane(_) => CanvasEdgeKind::WatchLane,
                Role::Timeout => CanvasEdgeKind::Timeout,
            },
            editable: true,
        };
        let ghost view = edge@;
        projection.edges.push(edge);
        assert(views(projection.edges@) =~= before.edges.push(view));
    }
    assert(projection@ =~= joined(
        before,
        CanvasView {
            groups: seq![group_of(owner@, index as int, body@)],
            edges: entry_edges(owner@, body@),
            ..empty_canvas()
        },
    ));
}

fn push_exit(owner: &String, body: &Body, projection: &mut CanvasProjection)
    ensures
        final(projection)@ == joined(
            old(projection)@,
            (CanvasView {
                edges: sequence_edges(body@.blocks) + return_edges(owner@, body@.role),
                ..empty_canvas()
            }),
        ),
{
    let ghost before = projection@;
    push_sequence_edges(body.blocks, &mut projection.edges);
    let ghost middle = views(projection.edges@);
    if let Role::Loop = body.role {
        let edge = CanvasEdge {
            from: OutputPort::LoopReturn(owner.clone()),
            to: owner.clone(),
            kind: CanvasEdgeKind::LoopReturn,
            editable: false,
        };
        let ghost view = edge@;
        projection.edges.push(edge);
        assert(views(projection.edges@) =~= middle.push(view));
    }
    assert(projection@ =~= joined(
        before,
        CanvasView {
            edges: sequence_edges(body@.blocks) + return_edges(owner@, body@.role),
            ..empty_canvas()
        },
    ));
}

proof fn lemma_joined(a: CanvasView, b: CanvasView, c: CanvasView)
    ensures
        joined(joined(a, b), c) == joined(a, joined(b, c)),
        joined(a, empty_canvas()) == a,
{
    assert(joined(joined(a, b), c) =~= joined(a, joined(b, c)));
    assert(joined(a, empty_canvas()) =~= a);
}

/// Draws the blocks of a container, and everything below them.
fn append_container(
    blocks: &Vec<Block>,
    groups: &Vec<CanvasGroupId>,
    projection: &mut CanvasProjection,
)
    ensures
        final(projection)@ == joined(
            old(projection)@,
            blocks_canvas(blocks_view(blocks@), views(groups@)),
        ),
    decreases size(blocks_view(blocks@)),
{
    let ghost all = blocks_view(blocks@);
    let ghost before = projection@;
    let ghost inside = views(groups@);
    let mut i: usize = 0;
    proof {
        lemma_joined(before, before, before);
    }
    while i < blocks.len()
        invariant
            all == blocks_view(blocks@),
            inside == views(groups@),
            i <= blocks@.len(),
            projection@ == joined(before, blocks_canvas(all.take(i as int), inside)),
        decreases blocks@.len() - i,
    {
        let block = &blocks[i];
        let ghost start = projection@;
        let node = canvas_node(block, groups);
        let ghost node_view = node@;
        projection.nodes.push(node);
        let ghost head = CanvasView { nodes: seq![node_view], ..empty_canvas() };
        assert(projection@ =~= joined(start, head));
        let bodies = owned_bodies(block);
        let mut k: usize = 0;
        proof {
            lemma_joined(joined(start, head), start, start);
        }
        while k < bodies.len()
            invariant
                all == blocks_view(blocks@),
                inside == views(groups@),
                i < blocks@.len(),
                block == blocks@[i as int],
                k <= bodies@.len(),
                views(bodies@) == block@.bodies,
                projection@ == joined(
                    joined(start, head),
                    bodies_canvas(block@.id, block@.bodies.take(k as int), inside),
                ),
            decreases bodies@.len() - k,
        {
            let body = &bodies[k];
            let ghost part = block@.bodies.take(k + 1);
            let ghost sofar = projection@;
            proof {
                assert(block@.bodies[k as int] == body@);
                lemma_child_smaller(all, i as int, k as int);
                assert(part.drop_last() =~= block@.bodies.take(k as int));
                assert(part.last() == body@);
            }
            push_entry(&block.id, k, body, projection);
            let ghost entered = projection@;
            let mut nested = clone_list(groups);
            let id = canvas_group_id(&block.id, &body.role);
            let ghost id_view = id@;
            nested.push(id);
            assert(views(nested@) =~= inside.push(id_view));
            append_container(body.blocks, &nested, projection);
            let ghost filled = projection@;
            push_exit(&block.id, body, projection);
            proof {
                let entry = CanvasView {
                    groups: seq![group_of(block@.id, k as int, body@)],
                    edges: entry_edges(block@.id, body@),
                    ..empty_canvas()
                };
                let content = blocks_canvas(body@.blocks, inside.push(id_view));
                let exit = CanvasView {
                    edges: sequence_edges(body@.blocks) + return_edges(block@.id, body@.role),
                    ..empty_canvas()
                };
                let rest = bodies_canvas(block@.id, block@.bodies.take(k as int), inside);
                lemma_joined(sofar, entry, content);
                lemma_joined(sofar, joined(entry, content), exit);
                lemma_joined(entry, content, exit);
                lemma_joined(
                    joined(start, head),
                    rest,
                    joined(entry, joined(content, exit)),
                );
                assert(bodies_canvas(block@.id, part, inside) == joined(
                    rest,
                    joined(entry, joined(content, exit)),
                ));
            }
            k += 1;
        }
        proof {
            assert(block@.bodies.take(k as int) =~= block@.bodies);
            assert(all.take(i + 1).drop_last() =~= all.take(i as int));
            assert(all.take(i + 1).last() == block@);
            let owned = bodies_canvas(block@.id, block@.bodies, inside);
            assert(block_canvas(block@, inside) == joined(head, owned));
            lemma_joined(start, head, owned);
            lemma_joined(
                before,
                blocks_canvas(all.take(i as int), inside),
                block_canvas(block@, inside),
            );
        }
        i += 1;
    }
    assert(all.take(i as int) =~= all);
}

/// Lays out a definition as nodes, groups and edges.
pub fn project_canvas(definition: &MacroDefinition) -> (projection: CanvasProjection)
    ensures
        projection@ == canvas_of(definition@.blocks),
{
    let mut projection = CanvasProjection {
        nodes: Vec::new(),
        groups: Vec::new(),
        edges: Vec::new(),
    };
    let groups: Vec<CanvasGroupId> = Vec::new();
    proof {
        assert(projection@ =~= empty_canvas());
        assert(views(groups@) =~= Seq::empty());
    }
    append_container(&definition.blocks, &groups, &mut projection);
    push_sequence_edges(&definition.blocks, &mut projection.edges);
    assert(projection@ =~= canvas_of(definition@.blocks));
    projection
}

/// The block that a port belongs to.
pub open spec fn port_owner(port: PortView) -> Seq<char> {
    match port {
        PortView::Next(id) => id,
        PortView::IfThen(id) => id,
        PortView::IfElse(id) => id,
        PortView::LoopBody(id) => id,
        PortView::WatchLane { group_id, .. } => group_id,
        PortView::TimeoutBody(id) => id,
        PortView::LoopReturn(id) => id,
    }
}

/// The container that a port leads into, where it leads into one of its owner's.
pub open spec fn port_container(port: PortView) -> Option<ContainerView> {
    match port {
        PortView::Next(_) => None,
        PortView::IfThen(id) => Some(ContainerView::IfThen { if_id: id }),
        PortView::IfElse(id) => Some(ContainerView::IfElse { if_id: id }),
        PortView::LoopBody(id) => Some(ContainerView::LoopBody { loop_id: id }),
        PortView::WatchLane { group_id, lane_id } => Some(
            ContainerView::WatchLaneBody { watch_id: group_id, lane_id },
        ),
        PortView::TimeoutBody(id) => Some(ContainerView::TimeoutBody { owner_id: id }),
        PortView::LoopReturn(_) => None,
    }
}

/// A block offers a port.
pub open spec fn offers(block: BlockView, port: PortView) -> bool {
    match port {
        PortView::Next(_) => continues(block.head),
        PortView::IfThen(_) => block.head is If,
        PortView::IfElse(_) => block.head is If,
        PortView::LoopBody(_) => is_loop(block.head),
        PortView::WatchLane { lane_id, .. } => first_index(
            lanes_of(block),
            is_lane(lane_id),
        ) is Some,
        PortView::TimeoutBody(_) => has_timeout(block),
        PortView::LoopReturn(_) => false,
    }
}

/// Where a block goes that is dropped on a port: behind the port's owner, or at the end of the
/// body that the port leads into.
pub open spec fn port_target(blocks: Seq<BlockView>, port: PortView) -> Result<
    InsertionTargetView,
    ConnectionErrorView,
> {
    let missing = ConnectionErrorView::MissingSource(port_owner(port));
    if port is LoopReturn {
        Err(ConnectionErrorView::InvalidPort)
    } else {
        match located(blocks, port_owner(port)) {
            None => Err(missing),
            Some(path) => match block_at(blocks, path) {
                Err(_) => Err(missing),
                Ok(block) => if !offers(block, port) {
                    Err(ConnectionErrorView::InvalidPort)
                } else {
                    match port_container(port) {
                        None => match sibling_at(blocks, path) {
                            None => Err(missing),
                            Some((index, _)) => Ok(
                                InsertionTargetView { container: path.container, index: index + 1 },
                            ),
                        },
                        Some(inside) => match container(blocks, inside) {
                            None => Err(ConnectionErrorView::InvalidPort),
                            Some(list) => Ok(
                                InsertionTargetView { container: inside, index: list.len() as int },
                            ),
                        },
                    }
                },
            },
        }
    }
}

pub fn port_owner_id(port: &OutputPort) -> (id: &String)
    ensures
        id@ == port_owner(port@),
{
    match port {
        OutputPort::Next(id) => id,
        OutputPort::IfThen(id) => id,
        OutputPort::IfElse(id) => id,
        OutputPort::LoopBody(id) => id,
        OutputPort::WatchLane { group_id, .. } => group_id,
        OutputPort::TimeoutBody(id) => id,
        OutputPort::LoopReturn(id) => id,
    }
}

fn container_of_port(port: &OutputPort) -> (path: Option<ContainerPath>)
    ensures
        option_view(path) == port_container(port@),
{
    match port {
        OutputPort::Next(_) => None,
        OutputPort::IfThen(id) => Some(ContainerPath::IfThen { if_id: id.clone() }),
        OutputPort::IfElse(id) => Some(ContainerPath::IfElse { if_id: id.clone() }),
        OutputPort::LoopBody(id) => Some(ContainerPath::LoopBody { loop_id: id.clone() }),
        OutputPort::WatchLane { group_id, lane_id } => Some(
            ContainerPath::WatchLaneBody { watch_id: group_id.clone(), lane_id: lane_id.clone() },
        ),
        OutputPort::TimeoutBody(id) => Some(ContainerPath::TimeoutBody { owner_id: id.clone() }),
        OutputPort::LoopReturn(_) => None,
    }
}

fn block_offers(block: &Block, port: &OutputPort) -> (offered: bool)
    ensures
        offered == offers(block@, port@),
{
    match port {
        OutputPort::Next(_) => match &block.kind {
            BlockKind::StopSuccess => false,
            BlockKind::StopError { .. } => false,
            _ => true,
        },
        OutputPort::IfThen(_) => matches!(block.kind, BlockKind::If { .. }),
        OutputPort::IfElse(_) => matches!(block.kind, BlockKind::If { .. }),
        OutputPort::LoopBody(_) => match &block.kind {
            BlockKind::RepeatN { .. } => true,
            BlockKind::RepeatUntil { .. } => true,
            BlockKind::Continuous { .. } => true,
            _ => false,
        },
        OutputPort::WatchLane { lane_id, .. } => match &block.kind {
            BlockKind::WatchGroup { group } => {
                let position = crate::container::lane_position(&group.lanes, lane_id.as_str());
                proof {
                    crate::places::lemma_lane_of_group(*block, lane_id@, position);
                }
                position.is_some()
            },
            _ => {
                proof {
                    lemma_first_index(lanes_of(block@), is_lane(lane_id@));
                }
                false
            },
        },
        OutputPort::TimeoutBody(_) => has_timeout_body(block),
        OutputPort::LoopReturn(_) => false,
    }
}

/// Where a block goes that is dropped on a port.
pub fn insertion_target_for_port(definition: &MacroDefinition, port: &OutputPort) -> (result: Result<
    InsertionTarget,
    CanvasConnectionError,
>)
    ensures
        match result {
            Ok(target) => port_target(definition@.blocks, port@) == Ok::<_, ConnectionErrorView>(
                target@,
            ),
            Err(error) => port_target(definition@.blocks, port@) == Err::<
                InsertionTargetView,
                _,
            >(error@),
        },
{
    if let OutputPort::LoopReturn(_) = port {
        return Err(CanvasConnectionError::InvalidPort);
    }
    let owner = port_owner_id(port);
    let path = match locate_block_path(definition, owner.as_str()) {
        None => return Err(CanvasConnectionError::MissingSource(owner.clone())),
        Some(path) => path,
    };
    let block = match block_at_path(definition, &path) {
        None => return Err(CanvasConnectionError::MissingSource(owner.clone())),
        Some(block) => block,
    };
    if !block_offers(block, port) {
        return Err(CanvasConnectionError::InvalidPort);
    }
    match container_of_port(port) {
        None => match sibling_position(definition, &path) {
            None => Err(CanvasConnectionError::MissingSource(owner.clone())),
            Some((index, _)) => Ok(
                InsertionTarget { container: path.container, index: index + 1 },
            ),
        },
        Some(inside) => match container_len(definition, &inside) {
            None => Err(CanvasConnectionError::InvalidPort),
            Some(len) => Ok(InsertionTarget { container: inside, index: len }),
        },
    }
}

/// A block of the first identity has a block of the second below it. Among siblings the first of
/// the identity decides.
pub open spec fn has_below(blocks: Seq<BlockView>, ancestor: Seq<char>, id: Seq<char>) -> bool
    decreases blocks,
{
    if blocks.len() == 0 {
        false
    } else if has_below(blocks.drop_last(), ancestor, id) {
        true
    } else if first_index(blocks.drop_last(), has_id(ancestor)) is Some {
        false
    } else if blocks.last().id == ancestor {
        first_where(flatten_bodies(blocks.last().bodies), has_id(id)) is Some
    } else {
        bodies_have_below(blocks.last().bodies, ancestor, id)
    }
}

/// [`has_below`] for one of the bodies.
pub open spec fn bodies_have_below(
    bodies: Seq<BodyView>,
    ancestor: Seq<char>,
    id: Seq<char>,
) -> bool
    decreases bodies,
{
    bodies.len() > 0 && (bodies_have_below(bodies.drop_last(), ancestor, id) || has_below(
        bodies.last().blocks,
        ancestor,
        id,
    ))
}

/// Whether a block has a block of an identity below it.
fn descendants_contain(block: &Block, id: &str) -> (found: bool)
    ensures
        found == (first_where(flatten_bodies(block@.bodies), has_id(id@)) is Some),
{
    let bodies = child_containers(block);
    let mut k: usize = 0;
    assert(flatten_bodies(block@.bodies.take(0)) =~= Seq::empty());
    while k < bodies.len()
        invariant
            k <= bodies@.len(),
            bodies@.len() == block@.bodies.len(),
            forall|j: int|
                0 <= j < bodies@.len() ==> blocks_view((#[trigger] bodies@[j])@)
                    == block@.bodies[j].blocks,
            first_where(flatten_bodies(block@.bodies.take(k as int)), has_id(id@)) is None,
        decreases bodies@.len() - k,
    {
        proof {
            lemma_flatten_bodies_take(block@.bodies, k as int);
            lemma_first_where_add(
                flatten_bodies(block@.bodies.take(k as int)),
                flatten(block@.bodies[k as int].blocks),
                has_id(id@),
            );
        }
        if crate::tree::find_block(bodies[k], id).is_some() {
            proof {
                crate::tree::lemma_flatten_bodies_add(
                    block@.bodies.take(k + 1),
                    block@.bodies.skip(k + 1),
                );
                assert(block@.bodies.take(k + 1) + block@.bodies.skip(k + 1) =~= block@.bodies);
                lemma_first_where_add(
                    flatten_bodies(block@.bodies.take(k + 1)),
                    flatten_bodies(block@.bodies.skip(k + 1)),
                    has_id(id@),
                );
            }
            return true;
        }
        k += 1;
    }
    assert(block@.bodies.take(k as int) =~= block@.bodies);
    false
}

proof fn lemma_has_below_prefix(
    blocks: Seq<BlockView>,
    i: int,
    ancestor: Seq<char>,
    id: Seq<char>,
)
    requires
        0 <= i < blocks.len(),
        first_index(blocks.take(i), has_id(ancestor)) is None,
        !has_below(blocks.take(i), ancestor, id),
    ensures
        blocks[i].id == ancestor ==> has_below(blocks, ancestor, id) == (first_where(
            flatten_bodies(blocks[i].bodies),
            has_id(id),
        ) is Some),
        blocks[i].id != ancestor && bodies_have_below(blocks[i].bodies, ancestor, id)
            ==> has_below(blocks, ancestor, id),
    decreases blocks.len(),
{
    if i == blocks.len() - 1 {
        assert(blocks.drop_last() =~= blocks.take(i));
    } else {
        assert(blocks.drop_last().take(i) =~= blocks.take(i));
        lemma_has_below_prefix(blocks.drop_last(), i, ancestor, id);
        if blocks[i].id == ancestor {
            lemma_first_index(blocks.drop_last(), has_id(ancestor));
            assert(has_id(ancestor)(blocks.drop_last()[i]));
        }
    }
}

/// Whether a block of the first identity has a block of the second below it.
fn block_contains(blocks: &Vec<Block>, ancestor_id: &str, id: &str) -> (found: bool)
    ensures
        found == has_below(blocks_view(blocks@), ancestor_id@, id@),
    decreases size(blocks_view(blocks@)),
{
    let ghost all = blocks_view(blocks@);
    let mut i: usize = 0;
    while i < blocks.len()
        invariant
            all == blocks_view(blocks@),
            i <= blocks@.len(),
            first_index(all.take(i as int), has_id(ancestor_id@)) is None,
            !has_below(all.take(i as int), ancestor_id@, id@),
        decreases blocks@.len() - i,
    {
        let block = &blocks[i];
        proof {
            lemma_has_below_prefix(all, i as int, ancestor_id@, id@);
            assert(all.take(i + 1).drop_last() =~= all.take(i as int));
            assert(all.take(i + 1).last() == block@);
        }
        if same_text(block.id.as_str(), ancestor_id) {
            return descendants_contain(block, id);
        }
        let bodies = child_containers(block);
        let mut k: usize = 0;
        while k < bodies.len()
            invariant
                all == blocks_view(blocks@),
                i < blocks@.len(),
                block == blocks@[i as int],
                all[i as int].id != ancestor_id@,
                bodies_have_below(all[i as int].bodies, ancestor_id@, id@) ==> has_below(
                    all,
                    ancestor_id@,
                    id@,
                ),
                k <= bodies@.len(),
                bodies@.len() == block@.bodies.len(),
                forall|j: int|
                    0 <= j < bodies@.len() ==> blocks_view((#[trigger] bodies@[j])@)
                        == block@.bodies[j].blocks,
                !bodies_have_below(block@.bodies.take(k as int), ancestor_id@, id@),
            decreases bodies@.len() - k,
        {
            proof {
                lemma_child_smaller(all, i as int, k as int);
                assert(block@.bodies.take(k + 1).drop_last() =~= block@.bodies.take(k as int));
                assert(block@.bodies.take(k + 1).last() == block@.bodies[k as int]);
            }
            if block_contains(bodies[k], ancestor_id, id) {
                proof {
                    lemma_below_in_prefix(block@.bodies, k as int, ancestor_id@, id@);
                }
                return true;
            }
            k += 1;
        }
        proof {
            assert(block@.bodies.take(k as int) =~= block@.bodies);
        }
        i += 1;
    }
    assert(all.take(i as int) =~= all);
    false
}

proof fn lemma_below_in_prefix(
    bodies: Seq<BodyView>,
    k: int,
    ancestor: Seq<char>,
    id: Seq<char>,
)
    requires
        0 <= k < bodies.len(),
        has_below(bodies[k].blocks, ancestor, id),
    ensures
        bodies_have_below(bodies, ancestor, id),
    decreases bodies.len(),
{
    if k < bodies.len() - 1 {
        assert(bodies.drop_last()[k] == bodies[k]);
        lemma_below_in_prefix(bodies.drop_last(), k, ancestor, id);
    }
}

/// The index of a move, which counts without the block that is moved.
pub open spec fn move_index(
    blocks: Seq<BlockView>,
    source: BlockPathView,
    target: InsertionTargetView,
) -> int {
    if source.container != target.container {
        target.index
    } else {
        match sibling_at(blocks, source) {
            None => target.index,
            Some((index, _)) => if index < target.index {
                target.index - 1
            } else {
                target.index
            },
        }
    }
}

/// The move that connecting a port to a block stands for.
pub open spec fn connection(
    blocks: Seq<BlockView>,
    port: PortView,
    target: Seq<char>,
) -> Result<(BlockPathView, InsertionTargetView), ConnectionErrorView> {
    match located(blocks, target) {
        None => Err(ConnectionErrorView::MissingTarget(target)),
        Some(source) => match port_target(blocks, port) {
            Err(error) => Err(error),
            Ok(destination) => if target == port_owner(port) {
                Err(ConnectionErrorView::IllegalSelf)
            } else if has_below(blocks, target, port_owner(port)) {
                Err(ConnectionErrorView::IllegalDescendant)
            } else {
                Ok(
                    (
                        source,
                        InsertionTargetView {
                            index: move_index(blocks, source, destination),
                            ..destination
                        },
                    ),
                )
            },
        },
    }
}

/// The edit that connecting a port to a block stands for.
pub fn connection_command(draft: &EditorDraft, port: OutputPort, target_block_id: &str) -> (result:
    Result<EditorCommand, CanvasConnectionError>)
    ensures
        match result {
            Ok(command) => command matches EditorCommand::MoveBlock { source, target }
                && connection(draft.definition@.blocks, port@, target_block_id@) == Ok::<
                _,
                ConnectionErrorView,
            >((source@, target@)),
            Err(error) => connection(draft.definition@.blocks, port@, target_block_id@) == Err::<
                (BlockPathView, InsertionTargetView),
                _,
            >(error@),
        },
{
    let definition = &draft.definition;
    let source = match locate_block_path(definition, target_block_id) {
        None => return Err(CanvasConnectionError::MissingTarget(target_block_id.to_owned())),
        Some(source) => source,
    };
    let mut destination = match insertion_target_for_port(definition, &port) {
        Err(error) => return Err(error),
        Ok(destination) => destination,
    };
    let anchor = port_owner_id(&port);
    if same_text(target_block_id, anchor.as_str()) {
        return Err(CanvasConnectionError::IllegalSelf);
    }
    if block_contains(&definition.blocks, target_block_id, anchor.as_str()) {
        return Err(CanvasConnectionError::IllegalDescendant);
    }
    if source.container.same(&destination.container) {
        if let Some((index, _)) = sibling_position(definition, &source) {
            if index < destination.index {
                destination.index = destination.index - 1;
            }
        }
    }
    Ok(EditorCommand::MoveBlock { source, target: destination })
}

} // verus!
