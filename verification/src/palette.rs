//! The palette: new blocks, and where they go.
use crate::canvas_model::{
    connection_message, insertion_target_for_port, port_target, CanvasSelection,
    ConnectionErrorView, OutputPort, PortView, SelectionView,
};
use crate::command_view::{CommandView, GuardView};
use crate::container::{container, ContainerPath, ContainerView};
use crate::content::option_view;
use crate::draft::EditorDraft;
use crate::editor_types::{
    BlockPathView, EditorCommand, InsertionTarget, InsertionTargetView,
};
use crate::edits::block_at;
use crate::identities::structural_ids;
use crate::macro_engine::{
    Action, ActionView, Block, BlockKind, BlockView, BodyView, Condition, ConditionView,
    DetectorFamily, HeadView, Limit, MacroDefinitionView, MouseButton, ObserveMode, OutcomeView,
    PassiveCondition, PassiveView, RoleView, TimeoutOutcome, WaitView, WatchGroup, WatchLane,
};
use crate::places::{
    block_at_path, container_len, lanes_of, lemma_lanes_of, locate_block_path, located, sibling_at,
    sibling_position,
};
use crate::sources::{
    checked_now, condition_with_source, fresh_id, matched_observation_source, matched_source_for,
    next_unique_id, observation_source, source_for,
};
use vstd::prelude::*;
use vstd::string::StringExecFns;

verus! {

broadcast use crate::macro_engine::group_block_views;

/// What the palette offers.
#[derive(Debug, Clone, Copy, PartialEq, Eq, Structural)]
pub enum PaletteKind {
    Observe,
    Action,
    If,
    Repeat,
    Watch,
    Wait,
    Stop,
}

/// The place behind all blocks of the root.
pub open spec fn root_end(blocks: Seq<BlockView>) -> InsertionTargetView {
    InsertionTargetView { container: ContainerView::Root, index: blocks.len() as int }
}

/// The place behind all blocks of a container.
pub open spec fn end_of(blocks: Seq<BlockView>, path: ContainerView) -> InsertionTargetView {
    InsertionTargetView {
        container: path,
        index: match container(blocks, path) {
            Some(list) => list.len() as int,
            None => 0,
        },
    }
}

/// The body that new blocks go to when a block is selected.
pub open spec fn child_container(block: BlockView) -> Option<ContainerView> {
    match block.head {
        HeadView::If { .. } => Some(ContainerView::IfThen { if_id: block.id }),
        HeadView::RepeatN { .. } => Some(ContainerView::LoopBody { loop_id: block.id }),
        HeadView::RepeatUntil { .. } => Some(ContainerView::LoopBody { loop_id: block.id }),
        HeadView::Continuous => Some(ContainerView::LoopBody { loop_id: block.id }),
        HeadView::WatchGroup { .. } => if lanes_of(block).len() == 0 {
            None
        } else {
            Some(
                ContainerView::WatchLaneBody {
                    watch_id: block.id,
                    lane_id: lanes_of(block)[0].role->Lane_id,
                },
            )
        },
        _ => None,
    }
}

/// The place behind a block.
pub open spec fn behind(blocks: Seq<BlockView>, path: BlockPathView) -> InsertionTargetView {
    InsertionTargetView {
        container: path.container,
        index: match sibling_at(blocks, path) {
            Some((index, _)) => index + 1,
            None => 0,
        },
    }
}

/// Where a new block goes: into the selected body, into the first body of the selected block, or
/// else behind the selected block; at the end of the root where that is nowhere.
pub open spec fn place_for(blocks: Seq<BlockView>, selected: Option<SelectionView>) -> InsertionTargetView {
    match selected {
        Some(SelectionView::TimeoutBody { owner_id }) => {
            let path = ContainerView::TimeoutBody { owner_id };
            if container(blocks, path) is Some {
                end_of(blocks, path)
            } else {
                root_end(blocks)
            }
        },
        Some(SelectionView::Lane { group_id, lane_id }) => end_of(
            blocks,
            ContainerView::WatchLaneBody { watch_id: group_id, lane_id },
        ),
        Some(SelectionView::Block(id)) => match located(blocks, id) {
            None => root_end(blocks),
            Some(path) => match block_at(blocks, path) {
                Ok(block) => match child_container(block) {
                    Some(child) => end_of(blocks, child),
                    None => behind(blocks, path),
                },
                Err(_) => behind(blocks, path),
            },
        },
        _ => root_end(blocks),
    }
}

fn end_of_root(draft: &EditorDraft) -> (target: InsertionTarget)
    ensures
        target@ == root_end(draft@.definition.blocks),
{
    InsertionTarget { container: ContainerPath::Root, index: draft.definition.blocks.len() }
}

fn end_of_container(draft: &EditorDraft, container: ContainerPath) -> (target: InsertionTarget)
    ensures
        target@ == end_of(draft@.definition.blocks, container@),
{
    let index: usize = match container_len(&draft.definition, &container) {
        Some(len) => len,
        None => 0,
    };
    InsertionTarget { container, index }
}

fn first_body(block: &Block) -> (path: Option<ContainerPath>)
    ensures
        option_view(path) == child_container(block@),
{
    proof {
        lemma_lanes_of(*block);
    }
    match &block.kind {
        BlockKind::If { .. } => Some(ContainerPath::IfThen { if_id: block.id.clone() }),
        BlockKind::RepeatN { .. } => Some(ContainerPath::LoopBody { loop_id: block.id.clone() }),
        BlockKind::RepeatUntil { .. } => Some(
            ContainerPath::LoopBody { loop_id: block.id.clone() },
        ),
        BlockKind::Continuous { .. } => Some(
            ContainerPath::LoopBody { loop_id: block.id.clone() },
        ),
        BlockKind::WatchGroup { group } => if group.lanes.len() == 0 {
            None
        } else {
            assert(lanes_of(block@)[0] == crate::macro_engine::lane_view(group.lanes@[0]));
            Some(
                ContainerPath::WatchLaneBody {
                    watch_id: block.id.clone(),
                    lane_id: group.lanes[0].id.clone(),
                },
            )
        },
        _ => None,
    }
}

pub fn insertion_target(draft: &EditorDraft, selected: Option<&CanvasSelection>) -> (target:
    InsertionTarget)
    ensures
        target@ == place_for(draft@.definition.blocks, option_view(selected)),
{
    let selection = match selected {
        None => return end_of_root(draft),
        Some(selection) => selection,
    };
    match selection {
        CanvasSelection::TimeoutBody { owner_id } => {
            let container = ContainerPath::TimeoutBody { owner_id: owner_id.clone() };
            if container_len(&draft.definition, &container).is_some() {
                end_of_container(draft, container)
            } else {
                end_of_root(draft)
            }
        },
        CanvasSelection::Lane { group_id, lane_id } => end_of_container(
            draft,
            ContainerPath::WatchLaneBody { watch_id: group_id.clone(), lane_id: lane_id.clone() },
        ),
        CanvasSelection::Block(id) => {
            let path = match locate_block_path(&draft.definition, id.as_str()) {
                None => return end_of_root(draft),
                Some(path) => path,
            };
            if let Some(block) = block_at_path(&draft.definition, &path) {
                if let Some(child) = first_body(block) {
                    return end_of_container(draft, child);
                }
            }
            let index: usize = match sibling_position(&draft.definition, &path) {
                Some((index, _)) => index + 1,
                None => 0,
            };
            InsertionTarget { container: path.container, index }
        },
        _ => end_of_root(draft),
    }
}

/// The block or lane that a selection names.
pub open spec fn named(selection: Option<SelectionView>) -> Option<Seq<char>> {
    match selection {
        Some(SelectionView::Block(id)) => Some(id),
        Some(SelectionView::Lane { lane_id, .. }) => Some(lane_id),
        _ => None,
    }
}

pub fn selected_name<'a>(selection: Option<&'a CanvasSelection>) -> (id: Option<&'a str>)
    ensures
        option_view(id) == named(option_view(selection)),
{
    match selection {
        Some(CanvasSelection::Block(id)) => Some(id.as_str()),
        Some(CanvasSelection::Lane { lane_id, .. }) => Some(lane_id.as_str()),
        _ => None,
    }
}

pub open spec fn palette_prefix(kind: PaletteKind) -> Seq<char> {
    match kind {
        PaletteKind::Observe => "observe"@,
        PaletteKind::Action => "action"@,
        PaletteKind::If => "if"@,
        PaletteKind::Repeat => "repeat"@,
        PaletteKind::Watch => "watch"@,
        PaletteKind::Wait => "wait"@,
        PaletteKind::Stop => "stop"@,
    }
}

fn prefix_of(kind: PaletteKind) -> (prefix: &'static str)
    ensures
        prefix@ == palette_prefix(kind),
{
    match kind {
        PaletteKind::Observe => "observe",
        PaletteKind::Action => "action",
        PaletteKind::If => "if",
        PaletteKind::Repeat => "repeat",
        PaletteKind::Watch => "watch",
        PaletteKind::Wait => "wait",
        PaletteKind::Stop => "stop",
    }
}

/// A new observation: of the first text rule, or else of the first image rule.
pub open spec fn new_observation(definition: MacroDefinitionView, id: Seq<char>) -> Option<ConditionView> {
    if definition.text_rules.len() > 0 {
        Some(
            ConditionView {
                family: DetectorFamily::Text,
                source: id,
                rule: definition.text_rules[0].id,
                wait: WaitView::CheckNow,
            },
        )
    } else if definition.image_rules.len() > 0 {
        Some(
            ConditionView {
                family: DetectorFamily::Image,
                source: id,
                rule: definition.image_rules[0].id,
                wait: WaitView::CheckNow,
            },
        )
    } else {
        None
    }
}

/// A left click on what an observation found.
pub open spec fn new_click(source: (Seq<char>, GuardView)) -> ActionView {
    match source.1.condition.family {
        DetectorFamily::Text => ActionView::ClickTextMatch {
            source: source.0,
            button: MouseButton::Left,
        },
        DetectorFamily::Image => ActionView::ClickImageMatch {
            source: source.0,
            button: MouseButton::Left,
        },
    }
}

/// An enabled block with the given head and bodies.
pub open spec fn enabled_block(id: Seq<char>, head: HeadView, bodies: Seq<BodyView>) -> BlockView {
    BlockView { id, enabled: true, head, bodies }
}

/// The block that the palette makes, or why it can make none.
pub open spec fn new_block(
    definition: MacroDefinitionView,
    selected: Option<Seq<char>>,
    kind: PaletteKind,
) -> Result<BlockView, Seq<char>> {
    let used = structural_ids(definition.blocks).to_set();
    let id = fresh_id(palette_prefix(kind), used);
    match kind {
        PaletteKind::Observe => match new_observation(definition, id) {
            Some(condition) => Ok(enabled_block(id, HeadView::Observe { condition }, Seq::empty())),
            None => Err("Add a text or image rule before inserting an observation."@),
        },
        PaletteKind::Action => match matched_source_for(definition, selected) {
            Some(source) => Ok(
                enabled_block(id, HeadView::Action { action: new_click(source) }, Seq::empty()),
            ),
            None => Err("Add or select an observation before inserting an action."@),
        },
        PaletteKind::If => match source_for(definition.blocks, selected) {
            Some(source) => Ok(
                enabled_block(
                    id,
                    HeadView::If { condition: checked_now(source.1.condition, source.0).condition },
                    seq![
                        BodyView { role: RoleView::Then, blocks: Seq::empty() },
                        BodyView { role: RoleView::Else, blocks: Seq::empty() },
                    ],
                ),
            ),
            None => Err("Add or select an observation before inserting an IF."@),
        },
        PaletteKind::Repeat => Ok(
            enabled_block(
                id,
                HeadView::RepeatN { count: 2 },
                seq![BodyView { role: RoleView::Loop, blocks: Seq::empty() }],
            ),
        ),
        PaletteKind::Watch => match source_for(definition.blocks, selected) {
            Some(source) => Ok(
                enabled_block(
                    id,
                    HeadView::WatchGroup {
                        timeout_ms: Limit::Unlimited,
                        outcome: OutcomeView::Continue,
                        cooldown_ms: 250,
                    },
                    seq![
                        BodyView {
                            role: RoleView::Lane {
                                id: fresh_id("lane"@, used),
                                enabled: true,
                                condition: PassiveView {
                                    family: source.1.condition.family,
                                    source: source.0,
                                    rule: source.1.condition.rule,
                                },
                            },
                            blocks: Seq::empty(),
                        },
                    ],
                ),
            ),
            None => Err("Add or select an observation before inserting a Watch Group."@),
        },
        PaletteKind::Wait => Ok(enabled_block(id, HeadView::Wait { duration_ms: 250 }, Seq::empty())),
        PaletteKind::Stop => Ok(enabled_block(id, HeadView::StopSuccess, Seq::empty())),
    }
}

fn empty_bodies() -> (body: Vec<Block>)
    ensures
        body@ == Seq::<Block>::empty(),
        crate::macro_engine::blocks_view(body@) == Seq::<BlockView>::empty(),
{
    let body: Vec<Block> = Vec::new();
    assert(crate::macro_engine::blocks_view(body@) =~= Seq::<BlockView>::empty());
    body
}

fn observe_kind(draft: &EditorDraft, id: &String) -> (kind: Result<BlockKind, String>)
    ensures
        match new_observation(draft@.definition, id@) {
            Some(condition) => kind matches Ok(kind) && crate::macro_engine::head_view(kind)
                == (HeadView::Observe { condition }) && crate::macro_engine::kind_bodies(kind)
                == Seq::<BodyView>::empty(),
            None => kind matches Err(message) && message@
                == "Add a text or image rule before inserting an observation."@,
        },
{
    if draft.definition.text_rules.len() > 0 {
        Ok(
            BlockKind::Observe {
                condition: Condition::Text {
                    source_block_id: id.clone(),
                    rule_id: draft.definition.text_rules[0].id.clone(),
                    mode: ObserveMode::CheckNow,
                },
            },
        )
    } else if draft.definition.image_rules.len() > 0 {
        Ok(
            BlockKind::Observe {
                condition: Condition::Image {
                    source_block_id: id.clone(),
                    rule_id: draft.definition.image_rules[0].id.clone(),
                    mode: ObserveMode::CheckNow,
                },
            },
        )
    } else {
        Err("Add a text or image rule before inserting an observation.".to_owned())
    }
}

fn watch_kind(source_id: String, condition: Condition, lane_id: String) -> (kind: BlockKind)
    ensures
        crate::macro_engine::head_view(kind) == (HeadView::WatchGroup {
            timeout_ms: Limit::Unlimited,
            outcome: OutcomeView::Continue,
            cooldown_ms: 250,
        }),
        crate::macro_engine::kind_bodies(kind) == seq![
            BodyView {
                role: RoleView::Lane {
                    id: lane_id@,
                    enabled: true,
                    condition: PassiveView {
                        family: condition@.condition.family,
                        source: source_id@,
                        rule: condition@.condition.rule,
                    },
                },
                blocks: Seq::empty(),
            },
        ],
{
    let passive = match condition {
        Condition::Text { rule_id, .. } => PassiveCondition::Text {
            source_block_id: source_id,
            rule_id,
        },
        Condition::Image { rule_id, .. } => PassiveCondition::Image {
            source_block_id: source_id,
            rule_id,
        },
    };
    let lane = WatchLane {
        id: lane_id,
        enabled: true,
        condition: passive,
        then_body: empty_bodies(),
    };
    let ghost first = crate::macro_engine::lane_view(lane);
    let mut lanes: Vec<WatchLane> = Vec::new();
    lanes.push(lane);
    let kind = BlockKind::WatchGroup {
        group: WatchGroup {
            lanes,
            timeout_ms: Limit::Unlimited,
            timeout_outcome: TimeoutOutcome::Continue,
            cooldown_ms: 250,
        },
    };
    assert(crate::macro_engine::lanes_view(lanes@) =~= seq![first]);
    assert(crate::macro_engine::kind_bodies(kind) =~= seq![first]);
    kind
}

/// The command that inserts what the palette makes, or why it cannot.
pub open spec fn palette_insert(
    definition: MacroDefinitionView,
    selected: Option<SelectionView>,
    kind: PaletteKind,
) -> Result<CommandView, Seq<char>> {
    match new_block(definition, named(selected), kind) {
        Ok(block) => Ok(
            CommandView::InsertBlock { target: place_for(definition.blocks, selected), block },
        ),
        Err(message) => Err(message),
    }
}

/// A command or a message, by its contents.
pub open spec fn command_or_message(result: Result<EditorCommand, String>) -> Result<
    CommandView,
    Seq<char>,
> {
    match result {
        Ok(command) => Ok(command@),
        Err(message) => Err(message@),
    }
}

/// The command that inserts a block of a kind at the selection.
pub fn palette_command_for_selection(
    draft: &EditorDraft,
    selected: Option<&CanvasSelection>,
    kind: PaletteKind,
) -> (result: Result<EditorCommand, String>)
    ensures
        command_or_message(result) == palette_insert(draft@.definition, option_view(selected), kind),
{
    let target = insertion_target(draft, selected);
    let selected_id = selected_name(selected);
    let id = next_unique_id(draft, prefix_of(kind));
    let ghost definition = draft@.definition;
    let ghost name = named(option_view(selected));
    let kind_of_block: BlockKind = match kind {
        PaletteKind::Observe => match observe_kind(draft, &id) {
            Ok(kind) => kind,
            Err(message) => return Err(message),
        },
        PaletteKind::Action => match matched_observation_source(draft, selected_id) {
            Some((source_id, Condition::Text { .. })) => BlockKind::Action {
                action: Action::ClickTextMatch {
                    source_block_id: source_id,
                    button: MouseButton::Left,
                },
            },
            Some((source_id, Condition::Image { .. })) => BlockKind::Action {
                action: Action::ClickImageMatch {
                    source_block_id: source_id,
                    button: MouseButton::Left,
                },
            },
            None => {
                return Err(
                    "Add or select an observation before inserting an action.".to_owned(),
                );
            },
        },
        PaletteKind::If => match observation_source(draft, selected_id) {
            Some((source_id, condition)) => {
                let kind = BlockKind::If {
                    condition: condition_with_source(condition, source_id),
                    then_body: empty_bodies(),
                    else_body: empty_bodies(),
                };
                assert(crate::macro_engine::kind_bodies(kind) =~= seq![
                    BodyView { role: RoleView::Then, blocks: Seq::empty() },
                    BodyView { role: RoleView::Else, blocks: Seq::empty() },
                ]);
                kind
            },
            None => {
                return Err("Add or select an observation before inserting an IF.".to_owned());
            },
        },
        PaletteKind::Repeat => {
            let kind = BlockKind::RepeatN { count: 2, body: empty_bodies() };
            assert(crate::macro_engine::kind_bodies(kind) =~= seq![
                BodyView { role: RoleView::Loop, blocks: Seq::empty() },
            ]);
            kind
        },
        PaletteKind::Watch => match observation_source(draft, selected_id) {
            Some((source_id, condition)) => watch_kind(
                source_id,
                condition,
                next_unique_id(draft, "lane"),
            ),
            None => {
                return Err(
                    "Add or select an observation before inserting a Watch Group.".to_owned(),
                );
            },
        },
        PaletteKind::Wait => BlockKind::Wait { duration_ms: 250 },
        PaletteKind::Stop => BlockKind::StopSuccess,
    };
    let block = Block { id, enabled: true, kind: kind_of_block };
    assert(new_block(definition, name, kind) is Ok);
    assert(block@ =~= new_block(definition, name, kind)->Ok_0);
    Ok(EditorCommand::InsertBlock { target, block })
}

/// The command that inserts a block of a kind at a selected block.
pub fn palette_command(draft: &EditorDraft, selected_id: Option<&str>, kind: PaletteKind) -> (result:
    Result<EditorCommand, String>)
    ensures
        command_or_message(result) == palette_insert(
            draft@.definition,
            match option_view(selected_id) {
                Some(id) => Some(SelectionView::Block(id)),
                None => None,
            },
            kind,
        ),
{
    match selected_id {
        None => palette_command_for_selection(draft, None, kind),
        Some(id) => {
            let selection = CanvasSelection::Block(id.to_owned());
            palette_command_for_selection(draft, Some(&selection), kind)
        },
    }
}

/// Why a connection is refused, in words.
pub open spec fn rejection_text(error: ConnectionErrorView) -> Seq<char> {
    "Connection rejected: "@ + connection_message(error)
}

/// An insertion sent to where a port leads; nothing else can be sent there.
pub open spec fn retargeted(blocks: Seq<BlockView>, port: PortView, command: CommandView) -> Result<
    CommandView,
    Seq<char>,
> {
    match command {
        CommandView::InsertBlock { block, .. } => match port_target(blocks, port) {
            Ok(target) => Ok(CommandView::InsertBlock { target, block }),
            Err(error) => Err(rejection_text(error)),
        },
        _ => Err("Canvas Add step can only insert a new canonical block."@),
    }
}

pub fn retarget_insert_command(draft: &EditorDraft, port: &OutputPort, command: EditorCommand) -> (result:
    Result<EditorCommand, String>)
    ensures
        command_or_message(result) == retargeted(draft@.definition.blocks, port@, command@),
{
    match command {
        EditorCommand::InsertBlock { block, .. } => match insertion_target_for_port(
            &draft.definition,
            port,
        ) {
            Ok(target) => Ok(EditorCommand::InsertBlock { target, block }),
            Err(error) => {
                let mut message = "Connection rejected: ".to_owned();
                message.append(error.message());
                Err(message)
            },
        },
        _ => Err("Canvas Add step can only insert a new canonical block.".to_owned()),
    }
}

/// The command that adds a note, at the end of the root or where a port leads.
pub open spec fn note_insert(definition: MacroDefinitionView, port: Option<PortView>) -> Result<
    CommandView,
    Seq<char>,
> {
    let command = CommandView::InsertBlock {
        target: root_end(definition.blocks),
        block: enabled_block(
            fresh_id("note"@, structural_ids(definition.blocks).to_set()),
            HeadView::Comment { text: "New step"@ },
            Seq::empty(),
        ),
    };
    match port {
        None => Ok(command),
        Some(port) => retargeted(definition.blocks, port, command),
    }
}

pub fn note_command(draft: &EditorDraft, port: Option<&OutputPort>) -> (result: Result<
    EditorCommand,
    String,
>)
    ensures
        command_or_message(result) == note_insert(draft@.definition, option_view(port)),
{
    let block = Block {
        id: next_unique_id(draft, "note"),
        enabled: true,
        kind: BlockKind::Comment { text: "New step".to_owned() },
    };
    let command = EditorCommand::InsertBlock { target: end_of_root(draft), block };
    match port {
        None => Ok(command),
        Some(port) => retarget_insert_command(draft, port, command),
    }
}

/// The command of a click in the palette: at the selection, or where a pending port leads.
pub open spec fn add_step(
    definition: MacroDefinitionView,
    selected: Option<SelectionView>,
    port: Option<PortView>,
    kind: PaletteKind,
) -> Result<CommandView, Seq<char>> {
    match (palette_insert(definition, selected, kind), port) {
        (Ok(command), Some(port)) => retargeted(definition.blocks, port, command),
        (result, _) => result,
    }
}

pub fn add_step_command(
    draft: &EditorDraft,
    selected: Option<&CanvasSelection>,
    port: Option<&OutputPort>,
    kind: PaletteKind,
) -> (result: Result<EditorCommand, String>)
    ensures
        command_or_message(result) == add_step(
            draft@.definition,
            option_view(selected),
            option_view(port),
            kind,
        ),
{
    match palette_command_for_selection(draft, selected, kind) {
        Err(message) => Err(message),
        Ok(command) => match port {
            None => Ok(command),
            Some(port) => retarget_insert_command(draft, port, command),
        },
    }
}

} // verus!
