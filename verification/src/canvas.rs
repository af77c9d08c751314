//! Gestures on the canvas, and what they ask for.
use crate::canvas_layout::{origin, Position};
use crate::canvas_layout::{
    equal_positions, position_of, stays, LayoutEdit, LayoutEditView, LayoutView, MacroCanvasLayout,
};
use crate::canvas_model::{
    connection, connection_command, connection_message, node_is, CanvasConnectionError,
    CanvasProjection, CanvasSelection, CanvasView, ConnectionErrorView, OutputPort, PortView,
    SelectionView,
};
use crate::command_view::CommandView;
use crate::content::option_view;
use crate::draft::EditorDraft;
use crate::editor_types::{BlockFamily, EditorCommand};
use crate::macro_engine::{BlockView, F32Bits};
use crate::single::{finite, is_finite, magnitude, singles_equal};
use crate::tree::first_where;
use vstd::prelude::*;
use vstd::string::StringExecFns;

verus! {

/// What lies under the pointer.
#[derive(Debug, PartialEq, Eq)]
pub enum CanvasHit {
    Background,
    Node(String),
    Input(String),
    Output(OutputPort),
}

/// The contents of a [`CanvasHit`].
#[verifier::ext_equal]
pub ghost enum HitView {
    Background,
    Node(Seq<char>),
    Input(Seq<char>),
    Output(PortView),
}

impl View for CanvasHit {
    type V = HitView;

    open spec fn view(&self) -> HitView {
        match *self {
            CanvasHit::Background => HitView::Background,
            CanvasHit::Node(id) => HitView::Node(id@),
            CanvasHit::Input(id) => HitView::Input(id@),
            CanvasHit::Output(port) => HitView::Output(port@),
        }
    }
}

impl Clone for CanvasHit {
    fn clone(&self) -> (copy: Self)
        ensures
            copy == *self,
    {
        match self {
            CanvasHit::Background => CanvasHit::Background,
            CanvasHit::Node(id) => CanvasHit::Node(id.clone()),
            CanvasHit::Input(id) => CanvasHit::Input(id.clone()),
            CanvasHit::Output(port) => CanvasHit::Output(port.clone()),
        }
    }
}

impl Default for CanvasHit {
    fn default() -> (hit: Self)
        ensures
            hit == CanvasHit::Background,
    {
        CanvasHit::Background
    }
}

/// By what the canvas is zoomed: a factor as it is, or a turn of the wheel, whose factor is e to the
/// power of a hundredth of it.
#[derive(Debug, Clone, Copy, PartialEq)]
pub enum ZoomFactor {
    Pinch(F32Bits),
    Wheel(F32Bits),
}

/// What a gesture asks for.
#[derive(Debug, Clone, PartialEq)]
pub enum CanvasAction {
    /// Moves the canvas by the sum of what the middle and the primary button were dragged.
    Pan { middle: Position, primary: Position },
    Zoom { pointer: Position, factor: ZoomFactor },
    MoveNode { id: String, delta: Position },
    Select(CanvasSelection),
    FinishConnection { source: OutputPort, target_block_id: String },
    OpenAddStep { source: OutputPort, world_position: Position, allowed: Vec<BlockFamily> },
    RejectedConnection(String),
    CancelGesture,
}

/// The contents of a [`CanvasAction`].
#[verifier::ext_equal]
pub ghost enum ActionView {
    Pan { middle: Position, primary: Position },
    Zoom { pointer: Position, factor: ZoomFactor },
    MoveNode { id: Seq<char>, delta: Position },
    Select(SelectionView),
    FinishConnection { source: PortView, target_block_id: Seq<char> },
    OpenAddStep { source: PortView, world_position: Position, allowed: Seq<BlockFamily> },
    RejectedConnection(Seq<char>),
    CancelGesture,
}

impl View for CanvasAction {
    type V = ActionView;

    open spec fn view(&self) -> ActionView {
        match *self {
            CanvasAction::Pan { middle, primary } => ActionView::Pan { middle, primary },
            CanvasAction::Zoom { pointer, factor } => ActionView::Zoom { pointer, factor },
            CanvasAction::MoveNode { id, delta } => ActionView::MoveNode { id: id@, delta },
            CanvasAction::Select(selection) => ActionView::Select(selection@),
            CanvasAction::FinishConnection { source, target_block_id } => {
                ActionView::FinishConnection {
                    source: source@,
                    target_block_id: target_block_id@,
                }
            },
            CanvasAction::OpenAddStep { source, world_position, allowed } => {
                ActionView::OpenAddStep { source: source@, world_position, allowed: allowed@ }
            },
            CanvasAction::RejectedConnection(message) => ActionView::RejectedConnection(message@),
            CanvasAction::CancelGesture => ActionView::CancelGesture,
        }
    }
}

/// What the pointer and the keys did since the last frame.
#[derive(Debug, Clone)]
pub struct CanvasInputFrame {
    pub hovered: bool,
    pub hit: CanvasHit,
    pub pointer: Option<Position>,
    pub primary_drag_delta: Position,
    pub middle_drag_delta: Position,
    pub wheel_y: F32Bits,
    pub pinch_zoom: F32Bits,
    pub space_down: bool,
    pub command_down: bool,
}

impl Default for CanvasInputFrame {
    fn default() -> (frame: Self)
        ensures
            !frame.hovered,
            frame.hit == CanvasHit::Background,
            frame.pointer is None,
            frame.primary_drag_delta == origin(),
            frame.middle_drag_delta == origin(),
            frame.wheel_y == F32Bits(0),
            frame.pinch_zoom == F32Bits(0x3F80_0000),
            !frame.space_down,
            !frame.command_down,
    {
        let zero = Position { x: F32Bits(0), y: F32Bits(0) };
        CanvasInputFrame {
            hovered: false,
            hit: CanvasHit::Background,
            pointer: None,
            primary_drag_delta: zero,
            middle_drag_delta: zero,
            wheel_y: F32Bits(0),
            pinch_zoom: F32Bits(0x3F80_0000),
            space_down: false,
            command_down: false,
        }
    }
}

/// A pinch zooms: its factor is a number that is more than one step of single precision at one away
/// from one.
pub open spec fn pinches(factor: F32Bits) -> bool {
    finite(factor) && !(0x3F7F_FFFE <= factor.0 <= 0x3F80_0001)
}

/// The wheel turned: by a number whose size is above one step of single precision at one.
pub open spec fn wheels(turn: F32Bits) -> bool {
    0x3400_0000 < magnitude(turn) <= 0x7F80_0000
}

/// Something was dragged: by anything that does not compare as equal to zero.
pub open spec fn dragged(delta: Position) -> bool {
    !equal_positions(delta, origin())
}

fn was_dragged(delta: Position) -> (result: bool)
    ensures
        result == dragged(delta),
{
    !(singles_equal(delta.x, F32Bits(0)) && singles_equal(delta.y, F32Bits(0)))
}

/// What a frame of input asks for. Zooming comes before panning, and panning before anything else.
pub open spec fn gesture(frame: CanvasInputFrame) -> ActionView {
    let pointer = match frame.pointer {
        Some(pointer) => pointer,
        None => origin(),
    };
    if !frame.hovered {
        ActionView::CancelGesture
    } else if pinches(frame.pinch_zoom) {
        ActionView::Zoom { pointer, factor: ZoomFactor::Pinch(frame.pinch_zoom) }
    } else if wheels(frame.wheel_y) {
        ActionView::Zoom { pointer, factor: ZoomFactor::Wheel(frame.wheel_y) }
    } else if dragged(frame.middle_drag_delta) || (frame.space_down && dragged(
        frame.primary_drag_delta,
    )) {
        ActionView::Pan { middle: frame.middle_drag_delta, primary: frame.primary_drag_delta }
    } else if frame.command_down || !dragged(frame.primary_drag_delta) {
        ActionView::CancelGesture
    } else {
        match frame.hit@ {
            HitView::Node(id) => ActionView::MoveNode { id, delta: frame.primary_drag_delta },
            HitView::Background => ActionView::Pan {
                middle: origin(),
                primary: frame.primary_drag_delta,
            },
            _ => ActionView::CancelGesture,
        }
    }
}

pub fn reduce_canvas_input(frame: CanvasInputFrame) -> (action: CanvasAction)
    ensures
        action@ == gesture(frame),
{
    let zero = Position { x: F32Bits(0), y: F32Bits(0) };
    let pointer = match frame.pointer {
        Some(pointer) => pointer,
        None => zero,
    };
    if !frame.hovered {
        return CanvasAction::CancelGesture;
    }
    let pinch: u32 = frame.pinch_zoom.0;
    if is_finite(frame.pinch_zoom) && !(0x3F7F_FFFE <= pinch && pinch <= 0x3F80_0001) {
        return CanvasAction::Zoom { pointer, factor: ZoomFactor::Pinch(frame.pinch_zoom) };
    }
    let turn: u32 = frame.wheel_y.0 % 0x8000_0000;
    if 0x3400_0000 < turn && turn <= 0x7F80_0000 {
        return CanvasAction::Zoom { pointer, factor: ZoomFactor::Wheel(frame.wheel_y) };
    }
    let primary = was_dragged(frame.primary_drag_delta);
    if was_dragged(frame.middle_drag_delta) || (frame.space_down && primary) {
        return CanvasAction::Pan {
            middle: frame.middle_drag_delta,
            primary: frame.primary_drag_delta,
        };
    }
    if frame.command_down || !primary {
        return CanvasAction::CancelGesture;
    }
    match frame.hit {
        CanvasHit::Node(id) => CanvasAction::MoveNode { id, delta: frame.primary_drag_delta },
        CanvasHit::Background => CanvasAction::Pan {
            middle: zero,
            primary: frame.primary_drag_delta,
        },
        _ => CanvasAction::CancelGesture,
    }
}

/// What the canvas answers to a frame.
#[derive(Debug, Clone)]
pub struct CanvasResponse {
    pub action: Option<CanvasAction>,
    pub selection: Option<CanvasSelection>,
    pub editor_command: Option<EditorCommand>,
    pub layout_changed: bool,
    pub layout_edit: Option<LayoutEdit>,
}

/// The contents of a [`CanvasResponse`].
#[verifier::ext_equal]
pub ghost struct ResponseView {
    pub action: Option<ActionView>,
    pub selection: Option<SelectionView>,
    pub editor_command: Option<CommandView>,
    pub layout_changed: bool,
    pub layout_edit: Option<LayoutEditView>,
}

impl View for CanvasResponse {
    type V = ResponseView;

    open spec fn view(&self) -> ResponseView {
        ResponseView {
            action: option_view(self.action),
            selection: option_view(self.selection),
            editor_command: option_view(self.editor_command),
            layout_changed: self.layout_changed,
            layout_edit: option_view(self.layout_edit),
        }
    }
}

/// The answer that asks for nothing.
pub open spec fn no_response() -> ResponseView {
    ResponseView {
        action: None,
        selection: None,
        editor_command: None,
        layout_changed: false,
        layout_edit: None,
    }
}

impl Default for CanvasResponse {
    fn default() -> (response: Self)
        ensures
            response@ == no_response(),
    {
        CanvasResponse {
            action: None,
            selection: None,
            editor_command: None,
            layout_changed: false,
            layout_edit: None,
        }
    }
}

/// The families that a new step may belong to: all of them.
pub open spec fn all_families() -> Seq<BlockFamily> {
    seq![
        BlockFamily::TextObservation,
        BlockFamily::ImageObservation,
        BlockFamily::TextMatchedClick,
        BlockFamily::ImageMatchedClick,
        BlockFamily::SavedLocationClick,
        BlockFamily::Loop,
        BlockFamily::Other,
    ]
}

pub fn allowed_families() -> (families: Vec<BlockFamily>)
    ensures
        families@ == all_families(),
{
    let mut families: Vec<BlockFamily> = Vec::new();
    families.push(BlockFamily::TextObservation);
    families.push(BlockFamily::ImageObservation);
    families.push(BlockFamily::TextMatchedClick);
    families.push(BlockFamily::ImageMatchedClick);
    families.push(BlockFamily::SavedLocationClick);
    families.push(BlockFamily::Loop);
    families.push(BlockFamily::Other);
    assert(families@ =~= all_families());
    families
}

/// The answer to a connector that ends nowhere: a new step is offered there.
pub open spec fn step_offered(source: PortView, world_position: Position) -> ResponseView {
    ResponseView {
        action: Some(
            ActionView::OpenAddStep { source, world_position, allowed: all_families() },
        ),
        ..no_response()
    }
}

/// The answer to a connection that is refused: the reason, and no command.
pub open spec fn refused(error: ConnectionErrorView) -> ResponseView {
    ResponseView {
        action: Some(ActionView::RejectedConnection(connection_message(error))),
        ..no_response()
    }
}

/// The answer to a connector that ends on something.
pub open spec fn connected(blocks: Seq<BlockView>, source: PortView, target: HitView) -> ResponseView {
    match target {
        HitView::Background => step_offered(source, origin()),
        HitView::Output(_) => step_offered(source, origin()),
        HitView::Node(id) => connected_to(blocks, source, id),
        HitView::Input(id) => connected_to(blocks, source, id),
    }
}

/// The answer to a connector that ends on a block.
pub open spec fn connected_to(blocks: Seq<BlockView>, source: PortView, id: Seq<char>) -> ResponseView {
    match connection(blocks, source, id) {
        Ok((path, target)) => ResponseView {
            action: Some(ActionView::FinishConnection { source, target_block_id: id }),
            editor_command: Some(CommandView::MoveBlock { source: path, target }),
            ..no_response()
        },
        Err(error) => refused(error),
    }
}

pub fn rejected_response(error: CanvasConnectionError) -> (response: CanvasResponse)
    ensures
        response@ == refused(error@),
{
    CanvasResponse {
        action: Some(CanvasAction::RejectedConnection(error.message().to_owned())),
        selection: None,
        editor_command: None,
        layout_changed: false,
        layout_edit: None,
    }
}

fn offer_step(source: OutputPort, world_position: Position) -> (response: CanvasResponse)
    ensures
        response@ == step_offered(source@, world_position),
{
    CanvasResponse {
        action: Some(
            CanvasAction::OpenAddStep { source, world_position, allowed: allowed_families() },
        ),
        selection: None,
        editor_command: None,
        layout_changed: false,
        layout_edit: None,
    }
}

/// What a connector that ends on something asks for.
pub fn finish_connection(draft: &EditorDraft, source: OutputPort, target: CanvasHit) -> (response:
    CanvasResponse)
    ensures
        response@ == connected(draft@.definition.blocks, source@, target@),
{
    let target_id = match target {
        CanvasHit::Node(id) => id,
        CanvasHit::Input(id) => id,
        _ => return offer_step(source, Position { x: F32Bits(0), y: F32Bits(0) }),
    };
    match connection_command(draft, source.clone(), target_id.as_str()) {
        Ok(command) => CanvasResponse {
            action: Some(
                CanvasAction::FinishConnection { source, target_block_id: target_id },
            ),
            selection: None,
            editor_command: Some(command),
            layout_changed: false,
            layout_edit: None,
        },
        Err(error) => rejected_response(error),
    }
}

/// The answer to a connector that is let go: on the background a new step is offered at the
/// pointer, and without a draft the connection is refused.
pub open spec fn dropped(
    blocks: Option<Seq<BlockView>>,
    source: PortView,
    target: HitView,
    world_position: Position,
) -> ResponseView {
    if target is Background {
        step_offered(source, world_position)
    } else {
        match blocks {
            Some(blocks) => connected(blocks, source, target),
            None => refused(ConnectionErrorView::MissingSource("draft"@)),
        }
    }
}

/// The blocks of a draft that may be missing.
pub open spec fn blocks_of(draft: Option<&EditorDraft>) -> Option<Seq<BlockView>> {
    match draft {
        Some(draft) => Some(draft@.definition.blocks),
        None => None,
    }
}

/// What a connector that is let go asks for.
pub fn drop_connector(
    draft: Option<&EditorDraft>,
    source: OutputPort,
    target: CanvasHit,
    world_position: Position,
) -> (response: CanvasResponse)
    ensures
        response@ == dropped(blocks_of(draft), source@, target@, world_position),
{
    if let CanvasHit::Background = &target {
        return offer_step(source, world_position);
    }
    match draft {
        Some(draft) => finish_connection(draft, source, target),
        None => rejected_response(CanvasConnectionError::MissingSource("draft".to_owned())),
    }
}

/// What is selected by a click: the node under the pointer.
pub open spec fn clicked(graph: CanvasView, hit: HitView) -> Option<SelectionView> {
    let id = match hit {
        HitView::Node(id) => Some(id),
        HitView::Input(id) => Some(id),
        _ => None,
    };
    match id {
        Some(id) => match first_where(graph.nodes, node_is(id)) {
            Some(node) => Some(node.selection),
            None => None,
        },
        None => None,
    }
}

pub fn selection_for_hit(graph: &CanvasProjection, hit: &CanvasHit) -> (selection: Option<
    CanvasSelection,
>)
    ensures
        option_view(selection) == clicked(graph@, hit@),
{
    let id = match hit {
        CanvasHit::Node(id) => id,
        CanvasHit::Input(id) => id,
        _ => return None,
    };
    match graph.node(id.as_str()) {
        Some(node) => Some(node.selection.clone()),
        None => None,
    }
}

/// What a drag of the primary button takes hold of.
#[derive(Debug, PartialEq)]
pub enum DragStart {
    Node { id: String, before: Position },
    Connector(OutputPort),
    Nothing,
}

/// The contents of a [`DragStart`].
#[verifier::ext_equal]
pub ghost enum DragView {
    Node { id: Seq<char>, before: Position },
    Connector(PortView),
    Nothing,
}

impl View for DragStart {
    type V = DragView;

    open spec fn view(&self) -> DragView {
        match *self {
            DragStart::Node { id, before } => DragView::Node { id: id@, before },
            DragStart::Connector(port) => DragView::Connector(port@),
            DragStart::Nothing => DragView::Nothing,
        }
    }
}

/// A drag takes hold of a node, or of a connector where edits are allowed; the space bar and the
/// command key keep it from either.
pub open spec fn held(
    layout: LayoutView,
    hit: HitView,
    space_down: bool,
    command_down: bool,
    editable: bool,
) -> DragView {
    if space_down || command_down {
        DragView::Nothing
    } else {
        match hit {
            HitView::Node(id) => DragView::Node {
                id,
                before: match position_of(layout, id) {
                    Some(position) => position,
                    None => origin(),
                },
            },
            HitView::Output(port) => if editable {
                DragView::Connector(port)
            } else {
                DragView::Nothing
            },
            _ => DragView::Nothing,
        }
    }
}

pub fn start_drag(
    layout: &MacroCanvasLayout,
    hit: &CanvasHit,
    space_down: bool,
    command_down: bool,
    editable: bool,
) -> (start: DragStart)
    ensures
        start@ == held(layout@, hit@, space_down, command_down, editable),
{
    if space_down || command_down {
        return DragStart::Nothing;
    }
    match hit {
        CanvasHit::Node(id) => {
            let before = match layout.node_positions.get(id.as_str()) {
                Some(position) => *position,
                None => Position { x: F32Bits(0), y: F32Bits(0) },
            };
            DragStart::Node { id: id.clone(), before }
        },
        CanvasHit::Output(port) => if editable {
            DragStart::Connector(port.clone())
        } else {
            DragStart::Nothing
        },
        _ => DragStart::Nothing,
    }
}

/// The edit that a finished drag of a node leaves: none where the node stands as before.
pub open spec fn drag_edit(layout: LayoutView, id: Seq<char>, before: Position) -> Option<
    LayoutEditView,
> {
    let after = position_of(layout, id);
    if stays(after, before) {
        None
    } else {
        Some(LayoutEditView::NodePosition { id, before: Some(before), after })
    }
}

pub fn finish_node_drag(layout: &MacroCanvasLayout, id: &str, before: Position) -> (edit: Option<
    LayoutEdit,
>)
    ensures
        option_view(edit) == drag_edit(layout@, id@, before),
{
    let after: Option<Position> = match layout.node_positions.get(id) {
        Some(position) => Some(*position),
        None => None,
    };
    if let Some(position) = after {
        if position == before {
            return None;
        }
    }
    Some(LayoutEdit::NodePosition { id: id.to_owned(), before: Some(before), after })
}

/// A text, cut short where it is longer than a number of characters.
pub open spec fn shortened(value: Seq<char>, maximum: int) -> Seq<char> {
    if value.len() <= maximum {
        value
    } else {
        value.take(maximum) + "…"@
    }
}

pub fn truncate(value: &str, maximum: usize) -> (text: String)
    ensures
        text@ == shortened(value@, maximum as int),
{
    if value.unicode_len() <= maximum {
        return value.to_owned();
    }
    let mut text = value.substring_char(0, maximum).to_owned();
    text.append("…");
    text
}

} // verus!
