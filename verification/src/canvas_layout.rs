//! Where the canvas draws its nodes.
use crate::canvas_model::{
    node_is, port_owner, port_owner_id, CanvasEdgeKind, CanvasGroupId, CanvasGroupKind, CanvasNode,
    CanvasProjection, CanvasView, EdgeView, GroupIdView, GroupView, NodeView,
};
use crate::content::{views, Exact};
use crate::macro_engine::F32Bits;
use crate::single::{
    equal_singles, finite, is_finite, round_single, rounded, single_bits, single_from,
    singles_equal, SINGLE_ONE,
};
use crate::text::{number_rank, rank_text, same_text, text_rank, Rank};
use crate::text_table::TextTable;
use crate::tree::{first_index, lemma_first_index, lemma_is_first_index};
use vstd::prelude::*;

verus! {

/// Bits of the smallest zoom that is kept, 0.001.
pub const MIN_FIT_ZOOM: u32 = 0x3A83_126F;

/// Bits of the largest zoom that is kept, 1.75.
pub const MAX_ZOOM: u32 = 0x3FE0_0000;

/// Width of a node.
pub const NODE_WIDTH: i128 = 280;

/// Height of a node.
pub const NODE_HEIGHT: i128 = 88;

/// Space between the layers of nodes.
pub const LAYER_GAP: i128 = 72;

/// Space between the nodes of a layer.
pub const SIBLING_GAP: i128 = 36;

/// A point of the canvas.
#[derive(Debug, Clone, Copy)]
pub struct Position {
    pub x: F32Bits,
    pub y: F32Bits,
}

pub open spec fn finite_position(position: Position) -> bool {
    finite(position.x) && finite(position.y)
}

pub open spec fn equal_positions(a: Position, b: Position) -> bool {
    equal_singles(a.x, b.x) && equal_singles(a.y, b.y)
}

impl PartialEq for Position {
    fn eq(&self, other: &Self) -> (equal: bool) {
        singles_equal(self.x, other.x) && singles_equal(self.y, other.y)
    }
}

impl vstd::std_specs::cmp::PartialEqSpecImpl for Position {
    open spec fn obeys_eq_spec() -> bool {
        true
    }

    open spec fn eq_spec(&self, other: &Self) -> bool {
        equal_positions(*self, *other)
    }
}

fn position_is_finite(position: Position) -> (result: bool)
    ensures
        result == finite_position(position),
{
    is_finite(position.x) && is_finite(position.y)
}

/// Presentation state of the canvas of one macro.
#[derive(Debug)]
pub struct MacroCanvasLayout {
    pub node_positions: TextTable<Position>,
    pub pan: Position,
    pub zoom: F32Bits,
    pub library_width: Option<F32Bits>,
    pub inspector_width: Option<F32Bits>,
}

/// The contents of a [`MacroCanvasLayout`].
#[verifier::ext_equal]
pub ghost struct LayoutView {
    pub positions: Map<Seq<char>, Position>,
    pub pan: Position,
    pub zoom: F32Bits,
    pub library_width: Option<F32Bits>,
    pub inspector_width: Option<F32Bits>,
}

impl View for MacroCanvasLayout {
    type V = LayoutView;

    open spec fn view(&self) -> LayoutView {
        LayoutView {
            positions: self.node_positions@,
            pan: self.pan,
            zoom: self.zoom,
            library_width: self.library_width,
            inspector_width: self.inspector_width,
        }
    }
}

impl Clone for MacroCanvasLayout {
    fn clone(&self) -> (copy: Self)
        ensures
            copy@ == self@,
    {
        MacroCanvasLayout {
            node_positions: self.node_positions.clone(),
            pan: self.pan,
            zoom: self.zoom,
            library_width: self.library_width,
            inspector_width: self.inspector_width,
        }
    }
}

/// The origin of the canvas.
pub open spec fn origin() -> Position {
    Position { x: F32Bits(0), y: F32Bits(0) }
}

/// The layout without any node, at the origin and unscaled.
pub open spec fn plain_layout() -> LayoutView {
    LayoutView {
        positions: Map::empty(),
        pan: origin(),
        zoom: F32Bits(SINGLE_ONE),
        library_width: None,
        inspector_width: None,
    }
}

impl Default for MacroCanvasLayout {
    fn default() -> (layout: Self)
        ensures
            layout@ == plain_layout(),
    {
        MacroCanvasLayout {
            node_positions: TextTable::new(),
            pan: Position { x: F32Bits(0), y: F32Bits(0) },
            zoom: F32Bits(SINGLE_ONE),
            library_width: None,
            inspector_width: None,
        }
    }
}

/// Every number of a layout is finite.
pub open spec fn finite_layout(layout: LayoutView) -> bool {
    &&& forall|id: Seq<char>|
        layout.positions.dom().contains(id) ==> finite_position(#[trigger] layout.positions[id])
    &&& finite_position(layout.pan)
    &&& finite(layout.zoom)
    &&& layout.library_width matches Some(width) ==> finite(width)
    &&& layout.inspector_width matches Some(width) ==> finite(width)
}

/// Two layouts compare as equal.
pub open spec fn equal_layouts(a: LayoutView, b: LayoutView) -> bool {
    &&& forall|id: Seq<char>| #[trigger]
        a.positions.dom().contains(id) <==> b.positions.dom().contains(id)
    &&& forall|id: Seq<char>| #[trigger]
        a.positions.dom().contains(id) ==> equal_positions(a.positions[id], b.positions[id])
    &&& equal_positions(a.pan, b.pan)
    &&& equal_singles(a.zoom, b.zoom)
    &&& equal_widths(a.library_width, b.library_width)
    &&& equal_widths(a.inspector_width, b.inspector_width)
}

pub open spec fn equal_widths(a: Option<F32Bits>, b: Option<F32Bits>) -> bool {
    match (a, b) {
        (Some(x), Some(y)) => equal_singles(x, y),
        (None, None) => true,
        _ => false,
    }
}

fn widths_equal(a: Option<F32Bits>, b: Option<F32Bits>) -> (equal: bool)
    ensures
        equal == equal_widths(a, b),
{
    match (a, b) {
        (Some(x), Some(y)) => singles_equal(x, y),
        (None, None) => true,
        _ => false,
    }
}

fn width_is_finite(width: Option<F32Bits>) -> (result: bool)
    ensures
        result == (width matches Some(inner) ==> finite(inner)),
{
    match width {
        Some(inner) => is_finite(inner),
        None => true,
    }
}

impl MacroCanvasLayout {
    /// Whether every number of the layout is finite.
    pub fn is_finite(&self) -> (result: bool)
        ensures
            result == finite_layout(self@),
    {
        let ids = self.node_positions.ids();
        let mut i: usize = 0;
        while i < ids.len()
            invariant
                i <= ids@.len(),
                forall|id: Seq<char>|
                    self.node_positions@.dom().contains(id) <==> #[trigger] views(ids@).contains(
                        id,
                    ),
                forall|j: int|
                    0 <= j < i ==> finite_position(
                        self.node_positions@[#[trigger] views(ids@)[j]],
                    ),
            decreases ids@.len() - i,
        {
            let id = ids[i].as_str();
            proof {
                assert(views(ids@)[i as int] == id@);
                assert(views(ids@).contains(id@));
            }
            if let Some(position) = self.node_positions.get(id) {
                if !position_is_finite(*position) {
                    assert(!finite_position(self@.positions[id@]));
                    return false;
                }
            }
            i += 1;
        }
        proof {
            assert forall|id: Seq<char>| self@.positions.dom().contains(id) implies finite_position(
                #[trigger] self@.positions[id],
            ) by {
                assert(views(ids@).contains(id));
                let j = choose|j: int| 0 <= j < views(ids@).len() && views(ids@)[j] == id;
                assert(finite_position(self.node_positions@[views(ids@)[j]]));
            }
        }
        position_is_finite(self.pan) && is_finite(self.zoom) && width_is_finite(
            self.library_width,
        ) && width_is_finite(self.inspector_width)
    }
}

impl PartialEq for MacroCanvasLayout {
    fn eq(&self, other: &Self) -> (equal: bool) {
        let within = self.node_positions.within(&other.node_positions);
        let around = other.node_positions.within(&self.node_positions);
        proof {
            let a = self@.positions;
            let b = other@.positions;
            assert forall|id: Seq<char>| equal_positions(a[id], b[id]) == #[trigger] equal_positions(
                b[id],
                a[id],
            ) by {}
        }
        within && around && self.pan == other.pan && singles_equal(self.zoom, other.zoom) && widths_equal(
            self.library_width,
            other.library_width,
        ) && widths_equal(self.inspector_width, other.inspector_width)
    }
}

impl vstd::std_specs::cmp::PartialEqSpecImpl for MacroCanvasLayout {
    open spec fn obeys_eq_spec() -> bool {
        true
    }

    open spec fn eq_spec(&self, other: &Self) -> bool {
        equal_layouts(self@, other@)
    }
}

#[derive(Debug, PartialEq, Eq)]
pub enum CanvasLayoutError {
    MissingNode(String),
    NonFinitePosition,
}

/// The contents of a [`CanvasLayoutError`].
#[verifier::ext_equal]
pub ghost enum LayoutErrorView {
    MissingNode(Seq<char>),
    NonFinitePosition,
}

impl View for CanvasLayoutError {
    type V = LayoutErrorView;

    open spec fn view(&self) -> LayoutErrorView {
        match *self {
            CanvasLayoutError::MissingNode(id) => LayoutErrorView::MissingNode(id@),
            CanvasLayoutError::NonFinitePosition => LayoutErrorView::NonFinitePosition,
        }
    }
}

/// A change of the layout that can be taken back.
#[derive(Debug, PartialEq)]
pub enum LayoutEdit {
    NodePosition { id: String, before: Option<Position>, after: Option<Position> },
    Layout { before: MacroCanvasLayout, after: MacroCanvasLayout },
}

/// The contents of a [`LayoutEdit`].
#[verifier::ext_equal]
pub ghost enum LayoutEditView {
    NodePosition { id: Seq<char>, before: Option<Position>, after: Option<Position> },
    Layout { before: LayoutView, after: LayoutView },
}

impl View for LayoutEdit {
    type V = LayoutEditView;

    open spec fn view(&self) -> LayoutEditView {
        match *self {
            LayoutEdit::NodePosition { id, before, after } => LayoutEditView::NodePosition {
                id: id@,
                before,
                after,
            },
            LayoutEdit::Layout { before, after } => LayoutEditView::Layout {
                before: before@,
                after: after@,
            },
        }
    }
}

impl Clone for LayoutEdit {
    fn clone(&self) -> (copy: Self)
        ensures
            copy@ == self@,
    {
        match self {
            LayoutEdit::NodePosition { id, before, after } => LayoutEdit::NodePosition {
                id: id.clone(),
                before: *before,
                after: *after,
            },
            LayoutEdit::Layout { before, after } => LayoutEdit::Layout {
                before: before.clone(),
                after: after.clone(),
            },
        }
    }
}

/// A layout with the position of one node set or removed.
pub open spec fn with_position(
    layout: LayoutView,
    id: Seq<char>,
    position: Option<Position>,
) -> LayoutView {
    LayoutView {
        positions: match position {
            Some(position) => layout.positions.insert(id, position),
            None => layout.positions.remove(id),
        },
        ..layout
    }
}

/// A layout as it was before an edit.
pub open spec fn before_edit(layout: LayoutView, edit: LayoutEditView) -> LayoutView {
    match edit {
        LayoutEditView::NodePosition { id, before, .. } => with_position(layout, id, before),
        LayoutEditView::Layout { before, .. } => before,
    }
}

/// A layout as it is after an edit.
pub open spec fn after_edit(layout: LayoutView, edit: LayoutEditView) -> LayoutView {
    match edit {
        LayoutEditView::NodePosition { id, after, .. } => with_position(layout, id, after),
        LayoutEditView::Layout { after, .. } => after,
    }
}

fn set_position(layout: &mut MacroCanvasLayout, id: &String, position: Option<Position>)
    ensures
        final(layout)@ == with_position(old(layout)@, id@, position),
{
    match position {
        Some(position) => layout.node_positions.insert(id.clone(), position),
        None => layout.node_positions.remove(id.as_str()),
    }
}

impl LayoutEdit {
    pub fn apply_before(&self, layout: &mut MacroCanvasLayout)
        ensures
            final(layout)@ == before_edit(old(layout)@, self@),
    {
        match self {
            LayoutEdit::NodePosition { id, before, .. } => set_position(layout, id, *before),
            LayoutEdit::Layout { before, .. } => {
                *layout = before.clone();
            },
        }
    }

    pub fn apply_after(&self, layout: &mut MacroCanvasLayout)
        ensures
            final(layout)@ == after_edit(old(layout)@, self@),
    {
        match self {
            LayoutEdit::NodePosition { id, after, .. } => set_position(layout, id, *after),
            LayoutEdit::Layout { after, .. } => {
                *layout = after.clone();
            },
        }
    }
}

/// The position of a node, if it has one.
pub open spec fn position_of(layout: LayoutView, id: Seq<char>) -> Option<Position> {
    if layout.positions.dom().contains(id) {
        Some(layout.positions[id])
    } else {
        None
    }
}

/// A position that equals the one a node has moves nothing.
pub open spec fn stays(before: Option<Position>, position: Position) -> bool {
    before matches Some(current) && equal_positions(current, position)
}

/// What moving a node answers: the edit, unless the position is not finite.
pub open spec fn moved_node(layout: LayoutView, id: Seq<char>, position: Position) -> Result<
    LayoutEditView,
    LayoutErrorView,
> {
    let before = position_of(layout, id);
    if !finite_position(position) {
        Err(LayoutErrorView::NonFinitePosition)
    } else if stays(before, position) {
        Ok(LayoutEditView::NodePosition { id, before, after: before })
    } else {
        Ok(LayoutEditView::NodePosition { id, before, after: Some(position) })
    }
}

pub struct CanvasLayoutEngine;

impl CanvasLayoutEngine {
    /// Moves a node. The layout is then as after the edit that is returned; a refused move leaves
    /// it as it was.
    pub fn move_node(layout: &mut MacroCanvasLayout, block_id: &str, position: Position) -> (result:
        Result<LayoutEdit, CanvasLayoutError>)
        ensures
            match result {
                Ok(edit) => moved_node(old(layout)@, block_id@, position) == Ok::<
                    _,
                    LayoutErrorView,
                >(edit@) && final(layout)@ == after_edit(old(layout)@, edit@),
                Err(error) => moved_node(old(layout)@, block_id@, position) == Err::<
                    LayoutEditView,
                    _,
                >(error@) && final(layout)@ == old(layout)@,
            },
    {
        if !position_is_finite(position) {
            return Err(CanvasLayoutError::NonFinitePosition);
        }
        let before: Option<Position> = match layout.node_positions.get(block_id) {
            Some(position) => Some(*position),
            None => None,
        };
        if let Some(current) = before {
            if current == position {
                assert(layout@.positions.insert(block_id@, current) =~= layout@.positions);
                return Ok(
                    LayoutEdit::NodePosition { id: block_id.to_owned(), before, after: before },
                );
            }
        }
        layout.node_positions.insert(block_id.to_owned(), position);
        Ok(
            LayoutEdit::NodePosition { id: block_id.to_owned(), before, after: Some(position) },
        )
    }
}

/// A zoom as it is kept: within its bounds where it is a positive number, and one otherwise.
pub open spec fn kept_zoom(zoom: F32Bits) -> F32Bits {
    if zoom.0 == 0 || zoom.0 >= 0x7F80_0000 {
        F32Bits(SINGLE_ONE)
    } else if zoom.0 < MIN_FIT_ZOOM {
        F32Bits(MIN_FIT_ZOOM)
    } else if zoom.0 > MAX_ZOOM {
        F32Bits(MAX_ZOOM)
    } else {
        zoom
    }
}

/// The bits of positive numbers are ordered as the numbers are, and come before all others.
pub fn valid_persisted_zoom(zoom: F32Bits) -> (kept: F32Bits)
    ensures
        kept == kept_zoom(zoom),
{
    if zoom.0 == 0 || zoom.0 >= 0x7F80_0000 {
        F32Bits(SINGLE_ONE)
    } else if zoom.0 < MIN_FIT_ZOOM {
        F32Bits(MIN_FIT_ZOOM)
    } else if zoom.0 > MAX_ZOOM {
        F32Bits(MAX_ZOOM)
    } else {
        zoom
    }
}

/// The edge that an edge of the graph is between nodes, by their indices. The return of a loop
/// leads back and is left out.
pub open spec fn link(nodes: Seq<NodeView>, edge: EdgeView) -> Option<(int, int)> {
    if edge.kind == CanvasEdgeKind::LoopReturn {
        None
    } else {
        match (
            first_index(nodes, node_is(port_owner(edge.from))),
            first_index(nodes, node_is(edge.to)),
        ) {
            (Some(from), Some(to)) => Some((from, to)),
            _ => None,
        }
    }
}

/// The edges between nodes.
pub open spec fn links(nodes: Seq<NodeView>, edges: Seq<EdgeView>) -> Seq<(int, int)>
    decreases edges.len(),
{
    if edges.len() == 0 {
        Seq::empty()
    } else {
        let rest = links(nodes, edges.drop_last());
        match link(nodes, edges.last()) {
            Some(pair) => rest.push(pair),
            None => rest,
        }
    }
}

/// Some edge leads to a node.
pub open spec fn entered(list: Seq<(int, int)>, node: int) -> bool {
    exists|k: int| 0 <= k < list.len() && (#[trigger] list[k]).1 == node
}

/// The depths to start from: nodes that no edge leads to stand at the top.
pub open spec fn top_depths(count: nat, list: Seq<(int, int)>) -> Seq<Option<nat>> {
    Seq::new(
        count,
        |i: int|
            if entered(list, i) {
                None
            } else {
                Some(0nat)
            },
    )
}

/// The depth of a node after its edges were followed once.
pub open spec fn deeper(list: Seq<(int, int)>, depths: Seq<Option<nat>>, node: int) -> Option<nat>
    decreases list.len(),
{
    if list.len() == 0 {
        depths[node]
    } else {
        let rest = deeper(list.drop_last(), depths, node);
        if list.last().1 == node && depths[list.last().0] is Some && (rest is None || rest->0
            < depths[list.last().0]->0 + 1) {
            Some(depths[list.last().0]->0 + 1)
        } else {
            rest
        }
    }
}

/// The depths after every edge was followed once.
pub open spec fn next_depths(list: Seq<(int, int)>, depths: Seq<Option<nat>>) -> Seq<Option<nat>> {
    Seq::new(depths.len(), |i: int| deeper(list, depths, i))
}

/// The depths after a number of rounds: the length of the longest way from the top to a node that
/// is no longer than the number of rounds.
pub open spec fn depths_after(count: nat, list: Seq<(int, int)>, rounds: nat) -> Seq<Option<nat>>
    decreases rounds,
{
    if rounds == 0 {
        top_depths(count, list)
    } else {
        next_depths(list, depths_after(count, list, (rounds - 1) as nat))
    }
}

/// The depths of the nodes of a graph. No way without a cycle is longer than the number of nodes.
pub open spec fn node_depths(graph: CanvasView) -> Seq<Option<nat>> {
    depths_after(graph.nodes.len(), links(graph.nodes, graph.edges), graph.nodes.len())
}

/// The layer of a node: the depth of the first node of its identity.
pub open spec fn layer_of(graph: CanvasView, node: int) -> nat {
    match first_index(graph.nodes, node_is(graph.nodes[node].id)) {
        Some(i) => match node_depths(graph)[i] {
            Some(depth) => depth,
            None => 0,
        },
        None => 0,
    }
}

/// By what the nodes of a layer are ordered: the groups they stand in, from the outermost in.
#[derive(Debug, PartialEq, Eq)]
struct LaneKey {
    kind: u8,
    ordinal: usize,
    owner: String,
}

/// The contents of a `LaneKey`.
#[verifier::ext_equal]
pub ghost struct KeyView {
    pub kind: int,
    pub ordinal: int,
    pub owner: Seq<char>,
}

impl View for LaneKey {
    type V = KeyView;

    closed spec fn view(&self) -> KeyView {
        KeyView { kind: self.kind as int, ordinal: self.ordinal as int, owner: self.owner@ }
    }
}

pub open spec fn kind_order(kind: CanvasGroupKind) -> int {
    match kind {
        CanvasGroupKind::IfThen => 0,
        CanvasGroupKind::WatchLaneThen => 1,
        CanvasGroupKind::LoopBody => 1,
        CanvasGroupKind::IfElse => 2,
        CanvasGroupKind::TimeoutBody => 3,
    }
}

/// The predicate that picks the groups of one identity.
pub open spec fn group_is(id: GroupIdView) -> spec_fn(GroupView) -> bool {
    |group: GroupView| group.id == id
}

pub open spec fn group_key(groups: Seq<GroupView>, id: GroupIdView) -> KeyView {
    KeyView {
        kind: kind_order(id.kind),
        ordinal: match first_index(groups, group_is(id)) {
            Some(i) => match groups[i].lane_priority {
                Some(priority) => priority,
                None => 0,
            },
            None => 0,
        },
        owner: id.owner_id,
    }
}

pub open spec fn node_keys(graph: CanvasView, node: int) -> Seq<KeyView> {
    let groups = graph.nodes[node].groups;
    Seq::new(groups.len(), |k: int| group_key(graph.groups, groups[k]))
}

pub open spec fn key_rank(a: KeyView, b: KeyView) -> Rank {
    if a.kind != b.kind {
        number_rank(a.kind, b.kind)
    } else if a.ordinal != b.ordinal {
        number_rank(a.ordinal, b.ordinal)
    } else {
        text_rank(a.owner, b.owner)
    }
}

/// The order of lists of keys: by the first that differs, and a list before its continuations.
pub open spec fn keys_rank(a: Seq<KeyView>, b: Seq<KeyView>) -> Rank
    decreases a.len(),
{
    if a.len() == 0 {
        if b.len() == 0 {
            Rank::Same
        } else {
            Rank::Before
        }
    } else if b.len() == 0 {
        Rank::After
    } else if key_rank(a[0], b[0]) != Rank::Same {
        key_rank(a[0], b[0])
    } else {
        keys_rank(a.drop_first(), b.drop_first())
    }
}

/// The order of nodes within a layer: by their groups, then by their identities.
pub open spec fn node_rank(graph: CanvasView, a: int, b: int) -> Rank {
    let rank = keys_rank(node_keys(graph, a), node_keys(graph, b));
    if rank != Rank::Same {
        rank
    } else {
        text_rank(graph.nodes[a].id, graph.nodes[b].id)
    }
}

/// A list of nodes in order with one more, behind all that do not come after it.
pub open spec fn ranked(graph: CanvasView, list: Seq<int>, node: int) -> Seq<int>
    decreases list.len(),
{
    if list.len() > 0 && node_rank(graph, list.last(), node) == Rank::After {
        ranked(graph, list.drop_last(), node).push(list.last())
    } else {
        list.push(node)
    }
}

/// The nodes of a layer among the first of a graph, in order.
pub open spec fn layer_nodes(graph: CanvasView, layer: nat, upto: nat) -> Seq<int>
    decreases upto,
{
    if upto == 0 {
        Seq::empty()
    } else {
        let rest = layer_nodes(graph, layer, (upto - 1) as nat);
        if layer_of(graph, upto - 1) == layer {
            ranked(graph, rest, upto - 1)
        } else {
            rest
        }
    }
}

/// Half the width of a row of nodes.
pub open spec fn half_width(count: int) -> int {
    rounded(rounded(rounded(count) * NODE_WIDTH) + rounded(rounded(count - 1) * SIBLING_GAP)) / 2
}

/// Where the node of an index stands in a row of nodes: the row is centred, and the layers follow
/// each other downwards. Every step rounds as single precision does.
pub open spec fn slot(index: int, count: int, layer: int) -> Position {
    Position {
        x: F32Bits(
            single_bits(
                rounded(rounded(rounded(index) * (NODE_WIDTH + SIBLING_GAP)) - half_width(count)),
            ) as u32,
        ),
        y: F32Bits(single_bits(rounded(rounded(layer) * (NODE_HEIGHT + LAYER_GAP))) as u32),
    }
}

/// Positions with those of the first nodes of a row.
pub open spec fn with_row(
    graph: CanvasView,
    positions: Map<Seq<char>, Position>,
    row: Seq<int>,
    layer: nat,
    upto: nat,
) -> Map<Seq<char>, Position>
    decreases upto,
{
    if upto == 0 {
        positions
    } else {
        with_row(graph, positions, row, layer, (upto - 1) as nat).insert(
            graph.nodes[row[upto - 1]].id,
            slot(upto - 1, row.len() as int, layer as int),
        )
    }
}

/// The positions of the nodes of the first layers.
pub open spec fn arranged_positions(graph: CanvasView, layers: nat) -> Map<Seq<char>, Position>
    decreases layers,
{
    if layers == 0 {
        Map::empty()
    } else {
        let layer = (layers - 1) as nat;
        let row = layer_nodes(graph, layer, graph.nodes.len());
        with_row(graph, arranged_positions(graph, layer), row, layer, row.len())
    }
}

/// The layout in which every node has its place by depth.
pub open spec fn arranged(graph: CanvasView) -> LayoutView {
    LayoutView {
        positions: arranged_positions(graph, graph.nodes.len() + 1),
        ..plain_layout()
    }
}

fn find_node(nodes: &Vec<CanvasNode>, id: &str) -> (found: Option<usize>)
    ensures
        match found {
            Some(i) => first_index(views(nodes@), node_is(id@)) == Some(i as int) && i
                < nodes@.len(),
            None => first_index(views(nodes@), node_is(id@)) is None,
        },
{
    let ghost all = views(nodes@);
    let mut i: usize = 0;
    while i < nodes.len()
        invariant
            all == views(nodes@),
            i <= nodes@.len(),
            forall|j: int| 0 <= j < i ==> (#[trigger] all[j]).id != id@,
        decreases nodes@.len() - i,
    {
        assert(all[i as int] == nodes@[i as int]@);
        if same_text(nodes[i].id.as_str(), id) {
            proof {
                lemma_is_first_index(all, node_is(id@), i as int);
            }
            return Some(i);
        }
        i += 1;
    }
    proof {
        lemma_first_index(all, node_is(id@));
    }
    None
}

/// Pairs of indices as integers.
spec fn pairs(list: Seq<(usize, usize)>) -> Seq<(int, int)> {
    Seq::new(list.len(), |i: int| (list[i].0 as int, list[i].1 as int))
}

/// Depths as numbers.
spec fn depths_view(list: Seq<Option<usize>>) -> Seq<Option<nat>> {
    Seq::new(
        list.len(),
        |i: int|
            match list[i] {
                Some(depth) => Some(depth as nat),
                None => None,
            },
    )
}

fn graph_links(graph: &CanvasProjection) -> (list: Vec<(usize, usize)>)
    ensures
        pairs(list@) == links(graph@.nodes, graph@.edges),
        forall|k: int|
            0 <= k < list@.len() ==> (#[trigger] list@[k]).0 < graph.nodes@.len() && list@[k].1
                < graph.nodes@.len(),
{
    let mut list: Vec<(usize, usize)> = Vec::new();
    let ghost all = graph@.edges;
    let mut i: usize = 0;
    assert(pairs(list@) =~= links(graph@.nodes, all.take(0)));
    while i < graph.edges.len()
        invariant
            all == views(graph.edges@),
            all == graph@.edges,
            i <= graph.edges@.len(),
            pairs(list@) == links(graph@.nodes, all.take(i as int)),
            forall|k: int|
                0 <= k < list@.len() ==> (#[trigger] list@[k]).0 < graph.nodes@.len() && list@[k].1
                    < graph.nodes@.len(),
        decreases graph.edges@.len() - i,
    {
        let edge = &graph.edges[i];
        let ghost before = pairs(list@);
        proof {
            assert(all.take(i + 1).drop_last() =~= all.take(i as int));
            assert(all.take(i + 1).last() == edge@);
        }
        if edge.kind != CanvasEdgeKind::LoopReturn {
            let from = find_node(&graph.nodes, port_owner_id(&edge.from).as_str());
            let to = find_node(&graph.nodes, edge.to.as_str());
            if let (Some(from), Some(to)) = (from, to) {
                list.push((from, to));
                assert(pairs(list@) =~= before.push((from as int, to as int)));
            }
        }
        i += 1;
    }
    assert(all.take(i as int) =~= all);
    list
}

fn follow_edges(list: &Vec<(usize, usize)>, depths: &Vec<Option<usize>>, round: usize) -> (next: Vec<
    Option<usize>,
>)
    requires
        round < usize::MAX,
        forall|k: int|
            0 <= k < list@.len() ==> (#[trigger] list@[k]).0 < depths@.len() && list@[k].1
                < depths@.len(),
        forall|i: int|
            0 <= i < depths@.len() ==> ((#[trigger] depths@[i]) matches Some(depth) ==> depth
                <= round),
    ensures
        depths_view(next@) == next_depths(pairs(list@), depths_view(depths@)),
        forall|i: int|
            0 <= i < next@.len() ==> ((#[trigger] next@[i]) matches Some(depth) ==> depth <= round
                + 1),
{
    let ghost old_depths = depths_view(depths@);
    let ghost all = pairs(list@);
    let mut next: Vec<Option<usize>> = Vec::new();
    let mut i: usize = 0;
    while i < depths.len()
        invariant
            i <= depths@.len(),
            next@ == depths@.take(i as int),
        decreases depths@.len() - i,
    {
        next.push(depths[i]);
        i += 1;
        assert(next@ =~= depths@.take(i as int));
    }
    assert(next@ =~= depths@);
    let mut k: usize = 0;
    assert forall|j: int| 0 <= j < next@.len() implies depths_view(next@)[j] == #[trigger] deeper(
        all.take(0),
        old_depths,
        j,
    ) by {}
    while k < list.len()
        invariant
            round < usize::MAX,
            all == pairs(list@),
            old_depths == depths_view(depths@),
            k <= list@.len(),
            next@.len() == depths@.len(),
            forall|k: int|
                0 <= k < list@.len() ==> (#[trigger] list@[k]).0 < depths@.len() && list@[k].1
                    < depths@.len(),
            forall|i: int|
                0 <= i < depths@.len() ==> ((#[trigger] depths@[i]) matches Some(depth) ==> depth
                    <= round),
            forall|i: int|
                0 <= i < next@.len() ==> ((#[trigger] next@[i]) matches Some(depth) ==> depth
                    <= round + 1),
            forall|j: int|
                0 <= j < next@.len() ==> depths_view(next@)[j] == #[trigger] deeper(
                    all.take(k as int),
                    old_depths,
                    j,
                ),
        decreases list@.len() - k,
    {
        let (from, to) = list[k];
        let ghost before = next@;
        proof {
            assert(all.take(k + 1).drop_last() =~= all.take(k as int));
            assert(all.take(k + 1).last() == (from as int, to as int));
            assert(list@[k as int].0 < depths@.len());
            assert(depths_view(before)[to as int] == deeper(
                all.take(k as int),
                old_depths,
                to as int,
            ));
        }
        if let Some(depth) = depths[from] {
            let better = match next[to] {
                None => true,
                Some(known) => known < depth + 1,
            };
            if better {
                next.set(to, Some(depth + 1));
            }
        }
        k += 1;
        assert forall|j: int| 0 <= j < next@.len() implies depths_view(next@)[j]
            == #[trigger] deeper(all.take(k as int), old_depths, j) by {
            assert(depths_view(before)[j] == deeper(all.take(k - 1), old_depths, j));
        }
    }
    proof {
        assert(all.take(k as int) =~= all);
        assert(depths_view(next@) =~= next_depths(all, old_depths));
    }
    next
}

fn graph_depths(graph: &CanvasProjection) -> (depths: Vec<Option<usize>>)
    ensures
        depths_view(depths@) == node_depths(graph@),
        depths@.len() == graph.nodes@.len(),
        forall|i: int|
            0 <= i < depths@.len() ==> ((#[trigger] depths@[i]) matches Some(depth) ==> depth
                <= graph.nodes@.len()),
{
    let list = graph_links(graph);
    let ghost all = pairs(list@);
    let count = graph.nodes.len();
    let mut depths: Vec<Option<usize>> = Vec::new();
    let mut i: usize = 0;
    while i < count
        invariant
            i <= count,
            all == pairs(list@),
            depths@.len() == i,
            forall|j: int| 0 <= j < i ==> depths_view(depths@)[j] == #[trigger] top_depths(count as nat, all)[j],
            forall|j: int| 0 <= j < i ==> ((#[trigger] depths@[j]) matches Some(depth) ==> depth == 0),
        decreases count - i,
    {
        let mut found = false;
        let mut k: usize = 0;
        while k < list.len()
            invariant
                all == pairs(list@),
                k <= list@.len(),
                found ==> entered(all, i as int),
                !found ==> forall|j: int| 0 <= j < k ==> (#[trigger] all[j]).1 != i,
            decreases list@.len() - k,
        {
            if list[k].1 == i {
                assert(all[k as int].1 == i);
                found = true;
            }
            k += 1;
        }
        let ghost before = depths@;
        if found {
            depths.push(None);
        } else {
            depths.push(Some(0));
        }
        proof {
            assert forall|j: int| 0 <= j < i + 1 implies depths_view(depths@)[j]
                == #[trigger] top_depths(count as nat, all)[j] by {
                if j < i {
                    assert(depths_view(before)[j] == top_depths(count as nat, all)[j]);
                }
            }
        }
        i += 1;
    }
    assert(depths_view(depths@) =~= top_depths(count as nat, all));
    let mut round: usize = 0;
    while round < count
        invariant
            count == graph.nodes@.len(),
            all == pairs(list@),
            all == links(graph@.nodes, graph@.edges),
            round <= count,
            depths@.len() == count,
            forall|k: int|
                0 <= k < list@.len() ==> (#[trigger] list@[k]).0 < count && list@[k].1 < count,
            forall|i: int|
                0 <= i < depths@.len() ==> ((#[trigger] depths@[i]) matches Some(depth) ==> depth
                    <= round),
            depths_view(depths@) == depths_after(count as nat, all, round as nat),
        decreases count - round,
    {
        let next = follow_edges(&list, &depths, round);
        assert(depths_view(next@).len() == count);
        depths = next;
        round += 1;
    }
    depths
}

fn graph_layers(graph: &CanvasProjection) -> (layers: Vec<usize>)
    ensures
        layers@.len() == graph.nodes@.len(),
        forall|i: int|
            0 <= i < layers@.len() ==> (#[trigger] layers@[i]) == layer_of(graph@, i) && layers@[i]
                <= graph.nodes@.len(),
{
    let depths = graph_depths(graph);
    let mut layers: Vec<usize> = Vec::new();
    let mut i: usize = 0;
    while i < graph.nodes.len()
        invariant
            i <= graph.nodes@.len(),
            layers@.len() == i,
            depths@.len() == graph.nodes@.len(),
            depths_view(depths@) == node_depths(graph@),
            forall|j: int|
                0 <= j < depths@.len() ==> ((#[trigger] depths@[j]) matches Some(depth) ==> depth
                    <= graph.nodes@.len()),
            forall|j: int|
                0 <= j < i ==> (#[trigger] layers@[j]) == layer_of(graph@, j) && layers@[j]
                    <= graph.nodes@.len(),
        decreases graph.nodes@.len() - i,
    {
        assert(graph@.nodes[i as int] == graph.nodes@[i as int]@);
        let layer: usize = match find_node(&graph.nodes, graph.nodes[i].id.as_str()) {
            Some(at) => {
                assert(depths_view(depths@)[at as int] == node_depths(graph@)[at as int]);
                match depths[at] {
                    Some(depth) => depth,
                    None => 0,
                }
            },
            None => 0,
        };
        assert(layer == layer_of(graph@, i as int));
        layers.push(layer);
        i += 1;
    }
    layers
}

fn lane_key(graph: &CanvasProjection, id: &CanvasGroupId) -> (key: LaneKey)
    ensures
        key@ == group_key(graph@.groups, id@),
{
    let ghost all = graph@.groups;
    let kind: u8 = match id.kind {
        CanvasGroupKind::IfThen => 0,
        CanvasGroupKind::WatchLaneThen => 1,
        CanvasGroupKind::LoopBody => 1,
        CanvasGroupKind::IfElse => 2,
        CanvasGroupKind::TimeoutBody => 3,
    };
    let mut i: usize = 0;
    while i < graph.groups.len()
        invariant
            all == views(graph.groups@),
            all == graph@.groups,
            kind == kind_order(id.kind),
            i <= graph.groups@.len(),
            forall|j: int| 0 <= j < i ==> (#[trigger] all[j]).id != id@,
        decreases graph.groups@.len() - i,
    {
        let group = &graph.groups[i];
        assert(all[i as int] == group@);
        if group.id.same(id) {
            proof {
                lemma_is_first_index(all, group_is(id@), i as int);
            }
            let ordinal: usize = match group.lane_priority {
                Some(priority) => priority,
                None => 0,
            };
            return LaneKey { kind, ordinal, owner: id.owner_id.clone() };
        }
        i += 1;
    }
    proof {
        lemma_first_index(all, group_is(id@));
    }
    LaneKey { kind, ordinal: 0, owner: id.owner_id.clone() }
}

fn node_lane_key(graph: &CanvasProjection, node: usize) -> (keys: Vec<LaneKey>)
    requires
        node < graph.nodes@.len(),
    ensures
        views(keys@) == node_keys(graph@, node as int),
{
    let groups = &graph.nodes[node].groups;
    let mut keys: Vec<LaneKey> = Vec::new();
    let mut i: usize = 0;
    assert(graph@.nodes[node as int] == graph.nodes@[node as int]@);
    while i < groups.len()
        invariant
            i <= groups@.len(),
            keys@.len() == i,
            forall|j: int|
                0 <= j < i ==> (#[trigger] keys@[j])@ == group_key(graph@.groups, groups@[j]@),
        decreases groups@.len() - i,
    {
        keys.push(lane_key(graph, &groups[i]));
        i += 1;
    }
    assert(views(keys@) =~= node_keys(graph@, node as int));
    keys
}

fn rank_key(a: &LaneKey, b: &LaneKey) -> (rank: Rank)
    ensures
        rank == key_rank(a@, b@),
{
    if a.kind < b.kind {
        Rank::Before
    } else if b.kind < a.kind {
        Rank::After
    } else if a.ordinal < b.ordinal {
        Rank::Before
    } else if b.ordinal < a.ordinal {
        Rank::After
    } else {
        rank_text(a.owner.as_str(), b.owner.as_str())
    }
}

fn rank_keys(a: &Vec<LaneKey>, b: &Vec<LaneKey>) -> (rank: Rank)
    ensures
        rank == keys_rank(views(a@), views(b@)),
{
    let ghost left = views(a@);
    let ghost right = views(b@);
    let mut i: usize = 0;
    assert(left.skip(0) =~= left);
    assert(right.skip(0) =~= right);
    while i < a.len() && i < b.len()
        invariant
            left == views(a@),
            right == views(b@),
            i <= a@.len(),
            i <= b@.len(),
            keys_rank(left, right) == keys_rank(left.skip(i as int), right.skip(i as int)),
        decreases a@.len() - i,
    {
        proof {
            assert(left.skip(i as int)[0] == a@[i as int]@);
            assert(right.skip(i as int)[0] == b@[i as int]@);
            assert(left.skip(i as int).drop_first() =~= left.skip(i + 1));
            assert(right.skip(i as int).drop_first() =~= right.skip(i + 1));
        }
        let rank = rank_key(&a[i], &b[i]);
        if rank != Rank::Same {
            return rank;
        }
        i += 1;
    }
    if i < b.len() {
        Rank::Before
    } else if i < a.len() {
        Rank::After
    } else {
        Rank::Same
    }
}

fn rank_nodes(graph: &CanvasProjection, keys: &Vec<Vec<LaneKey>>, a: usize, b: usize) -> (rank: Rank)
    requires
        a < graph.nodes@.len(),
        b < graph.nodes@.len(),
        keys@.len() == graph.nodes@.len(),
        forall|i: int|
            0 <= i < keys@.len() ==> views((#[trigger] keys@[i])@) == node_keys(graph@, i),
    ensures
        rank == node_rank(graph@, a as int, b as int),
{
    proof {
        assert(views(keys@[a as int]@) == node_keys(graph@, a as int));
        assert(views(keys@[b as int]@) == node_keys(graph@, b as int));
        assert(graph@.nodes[a as int] == graph.nodes@[a as int]@);
        assert(graph@.nodes[b as int] == graph.nodes@[b as int]@);
    }
    let rank = rank_keys(&keys[a], &keys[b]);
    if rank != Rank::Same {
        return rank;
    }
    rank_text(graph.nodes[a].id.as_str(), graph.nodes[b].id.as_str())
}

/// Indices as integers.
spec fn integers(list: Seq<usize>) -> Seq<int> {
    Seq::new(list.len(), |i: int| list[i] as int)
}

fn place_node(graph: &CanvasProjection, keys: &Vec<Vec<LaneKey>>, row: &mut Vec<usize>, node: usize)
    requires
        node < graph.nodes@.len(),
        keys@.len() == graph.nodes@.len(),
        forall|i: int|
            0 <= i < keys@.len() ==> views((#[trigger] keys@[i])@) == node_keys(graph@, i),
        forall|i: int| 0 <= i < old(row)@.len() ==> (#[trigger] old(row)@[i]) < graph.nodes@.len(),
    ensures
        integers(final(row)@) == ranked(graph@, integers(old(row)@), node as int),
        forall|i: int|
            0 <= i < final(row)@.len() ==> (#[trigger] final(row)@[i]) < graph.nodes@.len(),
{
    let ghost all = integers(row@);
    let mut at: usize = row.len();
    assert(all.take(at as int) =~= all);
    assert(all.skip(at as int) =~= Seq::empty());
    assert(ranked(graph@, all.take(at as int), node as int) + all.skip(at as int) =~= ranked(
        graph@,
        all,
        node as int,
    ));
    while at > 0 && rank_nodes(graph, keys, row[at - 1], node) == Rank::After
        invariant
            all == integers(row@),
            at <= row@.len(),
            node < graph.nodes@.len(),
            keys@.len() == graph.nodes@.len(),
            forall|i: int|
                0 <= i < keys@.len() ==> views((#[trigger] keys@[i])@) == node_keys(graph@, i),
            forall|i: int| 0 <= i < row@.len() ==> (#[trigger] row@[i]) < graph.nodes@.len(),
            ranked(graph@, all.take(at as int), node as int) + all.skip(at as int) == ranked(
                graph@,
                all,
                node as int,
            ),
        decreases at,
    {
        proof {
            let front = all.take(at as int);
            assert(front.drop_last() =~= all.take(at - 1));
            assert(front.last() == row@[at - 1] as int);
            assert(ranked(graph@, all.take(at - 1), node as int) + all.skip(at - 1) =~= ranked(
                graph@,
                front,
                node as int,
            ) + all.skip(at as int));
        }
        at -= 1;
    }
    proof {
        let front = all.take(at as int);
        if at > 0 {
            assert(front.last() == row@[at - 1] as int);
        }
        assert(ranked(graph@, front, node as int) == front.push(node as int));
    }
    let ghost before = row@;
    row.insert(at, node);
    proof {
        assert(integers(row@) =~= all.take(at as int).push(node as int) + all.skip(at as int));
        assert forall|i: int| 0 <= i < row@.len() implies (#[trigger] row@[i])
            < graph.nodes@.len() by {
            if i < at {
                assert(row@[i] == before[i]);
            } else if i > at {
                assert(row@[i] == before[i - 1]);
            }
        }
    }
}

/// A bounded number of steps of a bounded size leads a bounded way.
pub proof fn lemma_within(count: int, step: int, most: int)
    requires
        0 <= count <= most,
        0 <= step <= 1000,
    ensures
        0 <= count * step <= 1000 * most,
{
    assert(0 <= count * step <= 1000 * most) by (nonlinear_arith)
        requires
            0 <= count <= most,
            0 <= step <= 1000,
    ;
}

fn slot_position(index: usize, count: usize, layer: usize) -> (position: Position)
    requires
        index < count,
    ensures
        position == slot(index as int, count as int, layer as int),
        finite_position(position),
{
    let total: i128 = round_single(count as i128);
    let gaps: i128 = round_single(count as i128 - 1);
    let steps: i128 = round_single(index as i128);
    let depth: i128 = round_single(layer as i128);
    let most: i128 = 2 * usize::MAX as i128;
    assert(0 <= total <= most && 0 <= gaps <= most && 0 <= steps <= most && 0 <= depth <= most);
    proof {
        lemma_within(total as int, NODE_WIDTH as int, most as int);
        lemma_within(gaps as int, SIBLING_GAP as int, most as int);
        lemma_within(steps as int, NODE_WIDTH + SIBLING_GAP, most as int);
        lemma_within(depth as int, NODE_HEIGHT + LAYER_GAP, most as int);
    }
    let width: i128 = round_single(
        round_single(total * NODE_WIDTH) + round_single(gaps * SIBLING_GAP),
    );
    let left: i128 = round_single(steps * (NODE_WIDTH + SIBLING_GAP));
    let x: i128 = round_single(left - width / 2);
    let y: i128 = round_single(depth * (NODE_HEIGHT + LAYER_GAP));
    Position { x: single_from(x), y: single_from(y) }
}

/// Gives every node its place by depth: the nodes of a layer stand in a row, ordered by the groups
/// they stand in and then by their identities.
pub fn auto_arrange(graph: &CanvasProjection) -> (layout: MacroCanvasLayout)
    ensures
        layout@ == arranged(graph@),
        finite_layout(layout@),
{
    let layers = graph_layers(graph);
    let count = graph.nodes.len();
    let mut keys: Vec<Vec<LaneKey>> = Vec::new();
    let mut i: usize = 0;
    while i < count
        invariant
            count == graph.nodes@.len(),
            i <= count,
            keys@.len() == i,
            forall|j: int|
                0 <= j < i ==> views((#[trigger] keys@[j])@) == node_keys(graph@, j),
        decreases count - i,
    {
        keys.push(node_lane_key(graph, i));
        i += 1;
    }
    let mut layout = MacroCanvasLayout::default();
    let mut layer: usize = 0;
    loop
        invariant_except_break
            layout@ == (LayoutView {
                positions: arranged_positions(graph@, layer as nat),
                ..plain_layout()
            }),
        invariant
            finite_layout(layout@),
            count == graph.nodes@.len(),
            layer <= count,
            layers@.len() == count,
            forall|j: int| 0 <= j < count ==> (#[trigger] layers@[j]) == layer_of(graph@, j),
            keys@.len() == count,
            forall|j: int|
                0 <= j < count ==> views((#[trigger] keys@[j])@) == node_keys(graph@, j),
        ensures
            layout@ == arranged(graph@),
        decreases count - layer,
    {
        let mut row: Vec<usize> = Vec::new();
        let mut n: usize = 0;
        assert(integers(row@) =~= layer_nodes(graph@, layer as nat, 0));
        while n < count
            invariant
                count == graph.nodes@.len(),
                n <= count,
                layers@.len() == count,
                forall|j: int| 0 <= j < count ==> (#[trigger] layers@[j]) == layer_of(graph@, j),
                keys@.len() == count,
                forall|j: int|
                    0 <= j < count ==> views((#[trigger] keys@[j])@) == node_keys(graph@, j),
                forall|i: int| 0 <= i < row@.len() ==> (#[trigger] row@[i]) < count,
                integers(row@) == layer_nodes(graph@, layer as nat, n as nat),
            decreases count - n,
        {
            if layers[n] == layer {
                place_node(graph, &keys, &mut row, n);
            }
            n += 1;
        }
        let ghost line = integers(row@);
        let ghost start = layout@.positions;
        let mut k: usize = 0;
        while k < row.len()
            invariant
                count == graph.nodes@.len(),
                k <= row@.len(),
                finite_layout(layout@),
                line == integers(row@),
                forall|i: int| 0 <= i < row@.len() ==> (#[trigger] row@[i]) < count,
                layout@ == (LayoutView {
                    positions: with_row(graph@, start, line, layer as nat, k as nat),
                    ..plain_layout()
                }),
            decreases row@.len() - k,
        {
            let node = row[k];
            assert(graph@.nodes[line[k as int]] == graph.nodes@[node as int]@);
            let ghost before = layout@.positions;
            layout.node_positions.insert(
                graph.nodes[node].id.clone(),
                slot_position(k, row.len(), layer),
            );
            assert forall|id: Seq<char>|
                layout@.positions.dom().contains(id) implies finite_position(
                #[trigger] layout@.positions[id],
            ) by {
                if id != graph.nodes@[node as int].id@ {
                    assert(finite_position(before[id]));
                }
            }
            k += 1;
        }
        if layer == count {
            break;
        }
        layer += 1;
    }
    layout
}

/// A node of the graph has an identity.
pub open spec fn graph_has(graph: CanvasView, id: Seq<char>) -> bool {
    first_index(graph.nodes, node_is(id)) is Some
}

/// A saved position that is still of use.
pub open spec fn usable(graph: CanvasView, saved: LayoutView, id: Seq<char>) -> bool {
    saved.positions.dom().contains(id) && graph_has(graph, id) && finite_position(
        saved.positions[id],
    )
}

/// A saved layout, made to fit a graph: positions of use are kept, missing ones are arranged, and
/// pan and zoom are repaired.
pub open spec fn reconciled(graph: CanvasView, saved: LayoutView) -> LayoutView {
    let fresh = arranged(graph).positions;
    LayoutView {
        positions: Map::new(
            |id: Seq<char>| usable(graph, saved, id) || fresh.dom().contains(id),
            |id: Seq<char>|
                if usable(graph, saved, id) {
                    saved.positions[id]
                } else {
                    fresh[id]
                },
        ),
        pan: if finite_position(saved.pan) {
            saved.pan
        } else {
            origin()
        },
        zoom: kept_zoom(saved.zoom),
        ..saved
    }
}

/// Makes a saved layout fit a graph.
pub fn reconcile_layout(graph: &CanvasProjection, saved: MacroCanvasLayout) -> (layout:
    MacroCanvasLayout)
    ensures
        layout@ == reconciled(graph@, saved@),
        forall|id: Seq<char>|
            layout@.positions.dom().contains(id) ==> finite_position(
                #[trigger] layout@.positions[id],
            ),
        finite_position(layout@.pan),
        finite(layout@.zoom),
{
    let fresh = auto_arrange(graph);
    let mut positions = fresh.node_positions.clone();
    let ids = saved.node_positions.ids();
    let ghost listed = views(ids@);
    let ghost base = fresh@.positions;
    let mut i: usize = 0;
    proof {
        assert(base == arranged(graph@).positions);
    }
    while i < ids.len()
        invariant
            i <= ids@.len(),
            listed == views(ids@),
            base == arranged(graph@).positions,
            forall|id: Seq<char>|
                saved@.positions.dom().contains(id) <==> #[trigger] listed.contains(id),
            forall|id: Seq<char>| #[trigger]
                positions@.dom().contains(id) <==> (base.dom().contains(id) || (usable(
                    graph@,
                    saved@,
                    id,
                ) && listed.take(i as int).contains(id))),
            forall|id: Seq<char>| #[trigger]
                positions@.dom().contains(id) ==> positions@[id] == (if usable(graph@, saved@, id)
                    && listed.take(i as int).contains(id) {
                    saved@.positions[id]
                } else {
                    base[id]
                }),
        decreases ids@.len() - i,
    {
        let id = ids[i].as_str();
        let ghost before = positions@;
        proof {
            assert(listed[i as int] == id@);
            assert(listed.contains(id@));
            assert(listed.take(i + 1) =~= listed.take(i as int).push(id@));
            let done = listed.take(i as int);
            let more = listed.take(i + 1);
            assert forall|other: Seq<char>|
                more.contains(other) <==> (done.contains(other) || other == id@) by {
                if more.contains(other) {
                    let j = choose|j: int| 0 <= j < more.len() && more[j] == other;
                    if j < i {
                        assert(done[j] == other);
                    }
                }
                if done.contains(other) {
                    let j = choose|j: int| 0 <= j < done.len() && done[j] == other;
                    assert(more[j] == other);
                }
                if other == id@ {
                    assert(more[i as int] == other);
                }
            }
        }
        if let Some(position) = saved.node_positions.get(id) {
            if find_node(&graph.nodes, id).is_some() && position_is_finite(*position) {
                positions.insert(id.to_owned(), *position);
            }
        }
        i += 1;
    }
    let pan = if position_is_finite(saved.pan) {
        saved.pan
    } else {
        Position { x: F32Bits(0), y: F32Bits(0) }
    };
    let layout = MacroCanvasLayout {
        node_positions: positions,
        pan,
        zoom: valid_persisted_zoom(saved.zoom),
        library_width: saved.library_width,
        inspector_width: saved.inspector_width,
    };
    proof {
        assert(listed.take(i as int) =~= listed);
        assert(layout@.positions =~= reconciled(graph@, saved@).positions);
        assert forall|id: Seq<char>| layout@.positions.dom().contains(id) implies finite_position(
            #[trigger] layout@.positions[id],
        ) by {
            if !usable(graph@, saved@, id) {
                assert(finite_position(fresh@.positions[id]));
            }
        }
    }
    layout
}

} // verus!
