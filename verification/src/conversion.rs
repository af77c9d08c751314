//! Conversions: what a block can become, and what that would keep, need and drop.
use crate::block_edit::{
    block_family, conversion_preview, family, preview_conversion, saved_location,
};
use crate::block_equality::same_mode;
use crate::command_view::{CommandView, ConversionTargetView, GuardView, ModeView};
use crate::content::views;
use crate::draft::{applied, apply_editor_command, EditorDraft, EditorDraftView};
use crate::editor_types::{
    BlockFamily, BlockPath, BlockPathView, ChildDisposition, ConversionPreview,
    ConversionPreviewView, ConversionTarget, EditorCommand,
};
use crate::edits::block_at;
use crate::macro_engine::{
    blocks_view, head_view, kind_bodies, Action, ActionView, Block, BlockKind, BlockView, BodyView,
    Condition, ConditionView, DetectorFamily, HeadView, Limit, MacroDefinition, MacroDefinitionView,
    MouseButton, ObserveMode, OutcomeView, PointDefinition, PointDefinitionView, RoleView,
    TimeoutOutcome, WaitView,
};
use crate::places::{block_at_path, locate_block_path, located};
use crate::rule_edits::{
    image_rule_is, image_rule_position, region_is, region_position, text_rule_is,
    text_rule_position,
};
use crate::sources::{
    checked_now, condition_with_source, matched_observation_sources, matched_sources,
    observation_sources, sources_in,
};
use crate::text::{append_decimal, blank, decimal, decimal_text, is_blank, same_text};
use crate::tree::first_index;
use vstd::prelude::*;
use vstd::string::StringExecFns;

verus! {

broadcast use crate::macro_engine::group_block_views;

/// A conversion that waits to be confirmed.
#[derive(Debug, Clone, PartialEq)]
pub struct PendingConversion {
    pub block_id: String,
    pub preview: ConversionPreview,
    pub required_values: Vec<(String, String)>,
    pub command: EditorCommand,
    pub structural_children: bool,
}

/// The contents of a [`PendingConversion`].
#[verifier::ext_equal]
pub ghost struct PendingView {
    pub block_id: Seq<char>,
    pub preview: ConversionPreviewView,
    pub required_values: Seq<(Seq<char>, Seq<char>)>,
    pub command: CommandView,
    pub structural_children: bool,
}

impl View for PendingConversion {
    type V = PendingView;

    open spec fn view(&self) -> PendingView {
        PendingView {
            block_id: self.block_id@,
            preview: self.preview@,
            required_values: views(self.required_values@),
            command: self.command@,
            structural_children: self.structural_children,
        }
    }
}

pub open spec fn target_family(target: ConversionTargetView) -> BlockFamily {
    match target {
        ConversionTargetView::TextObservation { .. } => BlockFamily::TextObservation,
        ConversionTargetView::ImageObservation { .. } => BlockFamily::ImageObservation,
        ConversionTargetView::ClickTextMatch { .. } => BlockFamily::TextMatchedClick,
        ConversionTargetView::ClickImageMatch { .. } => BlockFamily::ImageMatchedClick,
        ConversionTargetView::ClickPoint { .. } => BlockFamily::SavedLocationClick,
        ConversionTargetView::ClickRegion { .. } => BlockFamily::SavedLocationClick,
        ConversionTargetView::RepeatN { .. } => BlockFamily::Loop,
        ConversionTargetView::RepeatUntil { .. } => BlockFamily::Loop,
    }
}

pub fn conversion_target_family(target: &ConversionTarget) -> (result: BlockFamily)
    ensures
        result == target_family(target@),
{
    match target {
        ConversionTarget::TextObservation { .. } => BlockFamily::TextObservation,
        ConversionTarget::ImageObservation { .. } => BlockFamily::ImageObservation,
        ConversionTarget::ClickTextMatch { .. } => BlockFamily::TextMatchedClick,
        ConversionTarget::ClickImageMatch { .. } => BlockFamily::ImageMatchedClick,
        ConversionTarget::ClickPoint { .. } => BlockFamily::SavedLocationClick,
        ConversionTarget::ClickRegion { .. } => BlockFamily::SavedLocationClick,
        ConversionTarget::RepeatN { .. } => BlockFamily::Loop,
        ConversionTarget::RepeatUntil { .. } => BlockFamily::Loop,
    }
}

/// A limit by its name and number.
pub open spec fn limit_name(limit: Limit<u64>) -> Seq<char> {
    match limit {
        Limit::Finite(value) => "Finite("@ + decimal(value as nat) + ")"@,
        Limit::Unlimited => "Unlimited"@,
    }
}

fn name_of_limit(limit: &Limit<u64>) -> (text: String)
    ensures
        text@ == limit_name(*limit),
{
    match limit {
        Limit::Finite(value) => {
            let mut text = "Finite(".to_owned();
            append_decimal(&mut text, *value);
            text.append(")");
            text
        },
        Limit::Unlimited => "Unlimited".to_owned(),
    }
}

/// The values that a conversion needs, as they are shown before it is confirmed.
pub open spec fn needed_values(target: ConversionTargetView) -> Seq<(Seq<char>, Seq<char>)> {
    match target {
        ConversionTargetView::ClickPoint { point_id, .. } => seq![("point_id"@, point_id)],
        ConversionTargetView::ClickRegion { region_id, .. } => seq![("region_id"@, region_id)],
        ConversionTargetView::RepeatN { count } => seq![("count"@, decimal(count as nat))],
        ConversionTargetView::RepeatUntil { max_iterations, .. } => seq![
            ("max_iterations"@, limit_name(max_iterations)),
        ],
        _ => Seq::empty(),
    }
}

/// A list of one pair.
fn one_pair(name: &str, value: String) -> (list: Vec<(String, String)>)
    ensures
        views(list@) == seq![(name@, value@)],
{
    let mut list: Vec<(String, String)> = Vec::new();
    let ghost text = value@;
    list.push((name.to_owned(), value));
    assert(views(list@) =~= seq![(name@, text)]);
    list
}

fn no_pairs() -> (list: Vec<(String, String)>)
    ensures
        views(list@) == Seq::<(Seq<char>, Seq<char>)>::empty(),
{
    let list: Vec<(String, String)> = Vec::new();
    assert(views(list@) =~= Seq::<(Seq<char>, Seq<char>)>::empty());
    list
}

pub fn conversion_required_values(target: &ConversionTarget) -> (values: Vec<(String, String)>)
    ensures
        views(values@) == needed_values(target@),
{
    match target {
        ConversionTarget::ClickPoint { point_id, .. } => one_pair("point_id", point_id.clone()),
        ConversionTarget::ClickRegion { region_id, .. } => one_pair("region_id", region_id.clone()),
        ConversionTarget::RepeatN { count } => one_pair("count", decimal_text(*count as u64)),
        ConversionTarget::RepeatUntil { max_iterations, .. } => one_pair(
            "max_iterations",
            name_of_limit(max_iterations),
        ),
        _ => no_pairs(),
    }
}

/// A conversion within the family of a block, before it is confirmed.
pub open spec fn within_family(
    block: BlockView,
    path: BlockPathView,
    target: ConversionTargetView,
) -> PendingView {
    PendingView {
        block_id: block.id,
        preview: conversion_preview(family(block.head), target_family(target)),
        required_values: needed_values(target),
        command: CommandView::ConvertBlock { path, target },
        structural_children: false,
    }
}

pub fn compatible_conversion_preview(block: &Block, path: BlockPath, target: ConversionTarget) -> (pending:
    PendingConversion)
    ensures
        pending@ == within_family(block@, path@, target@),
{
    let family = conversion_target_family(&target);
    PendingConversion {
        block_id: block.id.clone(),
        preview: preview_conversion(block, family),
        required_values: conversion_required_values(&target),
        command: EditorCommand::ConvertBlock { path, target },
        structural_children: false,
    }
}

/// The mode of an observation.
pub open spec fn mode_of(block: BlockView, condition: ConditionView) -> ModeView {
    ModeView { wait: condition.wait, bodies: block.bodies }
}

/// A conversion would change a block.
pub open spec fn target_changes(block: BlockView, target: ConversionTargetView) -> bool {
    match (block.head, target) {
        (HeadView::Observe { condition }, ConversionTargetView::TextObservation { mode }) => {
            condition.family is Text ==> mode_of(block, condition) != mode
        },
        (HeadView::Observe { condition }, ConversionTargetView::ImageObservation { mode }) => {
            condition.family is Image ==> mode_of(block, condition) != mode
        },
        (
            HeadView::Action { action: ActionView::ClickTextMatch { button, .. } },
            ConversionTargetView::ClickTextMatch { button: wanted },
        ) => button != wanted,
        (
            HeadView::Action { action: ActionView::ClickImageMatch { button, .. } },
            ConversionTargetView::ClickImageMatch { button: wanted },
        ) => button != wanted,
        (
            HeadView::Action { action: ActionView::ClickPoint { point_id, button } },
            ConversionTargetView::ClickPoint { point_id: place, button: wanted },
        ) => point_id != place || button != wanted,
        (
            HeadView::Action { action: ActionView::ClickRegion { region_id, button } },
            ConversionTargetView::ClickRegion { region_id: place, button: wanted },
        ) => region_id != place || button != wanted,
        _ => true,
    }
}

pub fn conversion_target_changes(block: &Block, target: &ConversionTarget) -> (changes: bool)
    ensures
        changes == target_changes(block@, target@),
{
    match (&block.kind, target) {
        (
            BlockKind::Observe { condition: Condition::Text { mode, .. } },
            ConversionTarget::TextObservation { mode: wanted },
        ) => !same_mode(mode, wanted),
        (
            BlockKind::Observe { condition: Condition::Image { mode, .. } },
            ConversionTarget::ImageObservation { mode: wanted },
        ) => !same_mode(mode, wanted),
        (
            BlockKind::Action { action: Action::ClickTextMatch { button, .. } },
            ConversionTarget::ClickTextMatch { button: wanted },
        ) => *button != *wanted,
        (
            BlockKind::Action { action: Action::ClickImageMatch { button, .. } },
            ConversionTarget::ClickImageMatch { button: wanted },
        ) => *button != *wanted,
        (
            BlockKind::Action { action: Action::ClickPoint { point_id, button } },
            ConversionTarget::ClickPoint { point_id: place, button: wanted },
        ) => *point_id != *place || *button != *wanted,
        (
            BlockKind::Action { action: Action::ClickRegion { region_id, button } },
            ConversionTarget::ClickRegion { region_id: place, button: wanted },
        ) => *region_id != *place || *button != *wanted,
        _ => true,
    }
}

/// A mode that waits for a match. A wait keeps its timeout and what happens when it runs out.
pub open spec fn waiting_true(mode: ModeView) -> ModeView {
    match mode.wait {
        WaitView::CheckNow => ModeView {
            wait: WaitView::WaitForTrue {
                timeout_ms: Limit::Unlimited,
                outcome: OutcomeView::Continue,
            },
            bodies: Seq::empty(),
        },
        WaitView::WaitForTrue { .. } => mode,
        WaitView::WaitForFalse { timeout_ms, outcome } => ModeView {
            wait: WaitView::WaitForTrue { timeout_ms, outcome },
            ..mode
        },
    }
}

/// A mode that waits for a disappearance, which keeps as much.
pub open spec fn waiting_false(mode: ModeView) -> ModeView {
    match mode.wait {
        WaitView::CheckNow => ModeView {
            wait: WaitView::WaitForFalse {
                timeout_ms: Limit::Unlimited,
                outcome: OutcomeView::Continue,
            },
            bodies: Seq::empty(),
        },
        WaitView::WaitForFalse { .. } => mode,
        WaitView::WaitForTrue { timeout_ms, outcome } => ModeView {
            wait: WaitView::WaitForFalse { timeout_ms, outcome },
            ..mode
        },
    }
}

pub fn wait_true(current: &ObserveMode) -> (mode: ObserveMode)
    ensures
        mode@ == waiting_true(current@),
{
    match current {
        ObserveMode::CheckNow => ObserveMode::WaitForTrue {
            timeout_ms: Limit::Unlimited,
            timeout_outcome: TimeoutOutcome::Continue,
        },
        ObserveMode::WaitForTrue { timeout_ms, timeout_outcome } => ObserveMode::WaitForTrue {
            timeout_ms: *timeout_ms,
            timeout_outcome: timeout_outcome.clone(),
        },
        ObserveMode::WaitForFalse { timeout_ms, timeout_outcome } => ObserveMode::WaitForTrue {
            timeout_ms: *timeout_ms,
            timeout_outcome: timeout_outcome.clone(),
        },
    }
}

pub fn wait_false(current: &ObserveMode) -> (mode: ObserveMode)
    ensures
        mode@ == waiting_false(current@),
{
    match current {
        ObserveMode::CheckNow => ObserveMode::WaitForFalse {
            timeout_ms: Limit::Unlimited,
            timeout_outcome: TimeoutOutcome::Continue,
        },
        ObserveMode::WaitForFalse { timeout_ms, timeout_outcome } => ObserveMode::WaitForFalse {
            timeout_ms: *timeout_ms,
            timeout_outcome: timeout_outcome.clone(),
        },
        ObserveMode::WaitForTrue { timeout_ms, timeout_outcome } => ObserveMode::WaitForFalse {
            timeout_ms: *timeout_ms,
            timeout_outcome: timeout_outcome.clone(),
        },
    }
}

/// The mode that does not wait.
pub open spec fn at_once() -> ModeView {
    ModeView { wait: WaitView::CheckNow, bodies: Seq::empty() }
}

pub open spec fn button_name(button: MouseButton) -> Seq<char> {
    match button {
        MouseButton::Left => "Left"@,
        MouseButton::Right => "Right"@,
    }
}

fn name_of_button(button: MouseButton) -> (name: &'static str)
    ensures
        name@ == button_name(button),
{
    match button {
        MouseButton::Left => "Left",
        MouseButton::Right => "Right",
    }
}

/// The label of a saved place.
pub open spec fn place_label(kind: Seq<char>, id: Seq<char>, button: MouseButton) -> Seq<char> {
    kind + id + " ("@ + button_name(button) + ")"@
}

/// The clicks on saved points and regions with one button.
pub open spec fn saved_targets(definition: MacroDefinitionView, button: MouseButton) -> Seq<
    (Seq<char>, ConversionTargetView),
> {
    Seq::new(
        definition.points.len(),
        |i: int|
            (
                place_label("Point: "@, definition.points[i].id, button),
                ConversionTargetView::ClickPoint { point_id: definition.points[i].id, button },
            ),
    ) + Seq::new(
        definition.regions.len(),
        |i: int|
            (
                place_label("Region: "@, definition.regions[i].id, button),
                ConversionTargetView::ClickRegion { region_id: definition.regions[i].id, button },
            ),
    )
}

/// The loops that run until one of some observations matches.
pub open spec fn until_targets(sources: Seq<(Seq<char>, GuardView)>) -> Seq<
    (Seq<char>, ConversionTargetView),
> {
    Seq::new(
        sources.len(),
        |i: int|
            (
                "Repeat Until: "@ + sources[i].0,
                ConversionTargetView::RepeatUntil {
                    condition: checked_now(sources[i].1.condition, sources[i].0),
                    max_iterations: Limit::Finite(100),
                },
            ),
    )
}

/// What a block can become within its family, with the labels of the choices.
pub open spec fn family_targets(definition: MacroDefinitionView, block: BlockView) -> Seq<
    (Seq<char>, ConversionTargetView),
> {
    match block.head {
        HeadView::Observe { condition } => match condition.family {
            DetectorFamily::Text => seq![
                ("Text: Check now"@, ConversionTargetView::TextObservation { mode: at_once() }),
                (
                    "Text: Wait true"@,
                    ConversionTargetView::TextObservation {
                        mode: waiting_true(mode_of(block, condition)),
                    },
                ),
                (
                    "Text: Wait false"@,
                    ConversionTargetView::TextObservation {
                        mode: waiting_false(mode_of(block, condition)),
                    },
                ),
            ],
            DetectorFamily::Image => seq![
                ("Image: Check now"@, ConversionTargetView::ImageObservation { mode: at_once() }),
                (
                    "Image: Wait true"@,
                    ConversionTargetView::ImageObservation {
                        mode: waiting_true(mode_of(block, condition)),
                    },
                ),
                (
                    "Image: Wait false"@,
                    ConversionTargetView::ImageObservation {
                        mode: waiting_false(mode_of(block, condition)),
                    },
                ),
            ],
        },
        HeadView::Action { action: ActionView::ClickTextMatch { .. } } => seq![
            (
                "Text click: Left"@,
                ConversionTargetView::ClickTextMatch { button: MouseButton::Left },
            ),
            (
                "Text click: Right"@,
                ConversionTargetView::ClickTextMatch { button: MouseButton::Right },
            ),
        ],
        HeadView::Action { action: ActionView::ClickImageMatch { .. } } => seq![
            (
                "Image click: Left"@,
                ConversionTargetView::ClickImageMatch { button: MouseButton::Left },
            ),
            (
                "Image click: Right"@,
                ConversionTargetView::ClickImageMatch { button: MouseButton::Right },
            ),
        ],
        HeadView::Action { .. } => if saved_location(block.head) {
            saved_targets(definition, MouseButton::Left) + saved_targets(
                definition,
                MouseButton::Right,
            )
        } else {
            Seq::empty()
        },
        HeadView::RepeatN { .. } => until_targets(sources_in(definition.blocks)),
        HeadView::RepeatUntil { .. } => seq![
            ("Repeat N"@, ConversionTargetView::RepeatN { count: 2 }),
        ],
        _ => Seq::empty(),
    }
}

/// Those of some targets that would change a block, each with what it would mean.
pub open spec fn changing(
    block: BlockView,
    path: BlockPathView,
    targets: Seq<(Seq<char>, ConversionTargetView)>,
) -> Seq<(Seq<char>, PendingView)>
    decreases targets.len(),
{
    if targets.len() == 0 {
        Seq::empty()
    } else {
        let rest = changing(block, path, targets.drop_last());
        let (label, target) = targets.last();
        if target_changes(block, target) {
            rest.push((label, within_family(block, path, target)))
        } else {
            rest
        }
    }
}

fn label_of_place(kind: &str, id: &String, button: MouseButton) -> (label: String)
    ensures
        label@ == place_label(kind@, id@, button),
{
    let mut label = kind.to_owned();
    label.append(id.as_str());
    label.append(" (");
    label.append(name_of_button(button));
    label.append(")");
    label
}

fn add_saved_targets(
    definition: &MacroDefinition,
    button: MouseButton,
    targets: &mut Vec<(String, ConversionTarget)>,
)
    ensures
        views(final(targets)@) == views(old(targets)@) + saved_targets(definition@, button),
{
    let ghost start = views(targets@);
    let ghost all = saved_targets(definition@, button);
    let mut i: usize = 0;
    assert(views(targets@) =~= start + all.take(0));
    while i < definition.points.len()
        invariant
            all == saved_targets(definition@, button),
            i <= definition.points@.len(),
            views(targets@) == start + all.take(i as int),
        decreases definition.points@.len() - i,
    {
        let point = &definition.points[i];
        let ghost before = views(targets@);
        assert(definition@.points[i as int] == point@);
        targets.push(
            (
                label_of_place("Point: ", &point.id, button),
                ConversionTarget::ClickPoint { point_id: point.id.clone(), button },
            ),
        );
        proof {
            assert(views(targets@) =~= before.push(all[i as int]));
            assert(start + all.take(i + 1) =~= before.push(all[i as int]));
        }
        i += 1;
    }
    let ghost count = definition.points@.len();
    let mut k: usize = 0;
    while k < definition.regions.len()
        invariant
            all == saved_targets(definition@, button),
            k <= definition.regions@.len(),
            count == definition.points@.len(),
            views(targets@) == start + all.take(count + k),
        decreases definition.regions@.len() - k,
    {
        let region = &definition.regions[k];
        let ghost before = views(targets@);
        assert(definition@.regions[k as int] == region@);
        targets.push(
            (
                label_of_place("Region: ", &region.id, button),
                ConversionTarget::ClickRegion { region_id: region.id.clone(), button },
            ),
        );
        proof {
            assert(views(targets@) =~= before.push(all[count + k]));
            assert(start + all.take(count + k + 1) =~= before.push(all[count + k]));
        }
        k += 1;
    }
    assert(all.take(count + k) =~= all);
}

fn add_until_targets(draft: &EditorDraft, targets: &mut Vec<(String, ConversionTarget)>)
    requires
        old(targets)@.len() == 0,
    ensures
        views(final(targets)@) == until_targets(sources_in(draft@.definition.blocks)),
{
    let sources = observation_sources(draft);
    let ghost all = until_targets(views(sources@));
    let mut i: usize = 0;
    while i < sources.len()
        invariant
            i <= sources@.len(),
            all == until_targets(views(sources@)),
            targets@.len() == i,
            forall|j: int| 0 <= j < i ==> (#[trigger] targets@[j])@ == all[j],
        decreases sources@.len() - i,
    {
        let source = &sources[i];
        let mut label = "Repeat Until: ".to_owned();
        label.append(source.0.as_str());
        assert(views(sources@)[i as int] == source@);
        targets.push(
            (
                label,
                ConversionTarget::RepeatUntil {
                    condition: condition_with_source(source.1.clone(), source.0.clone()),
                    max_iterations: Limit::Finite(100),
                },
            ),
        );
        i += 1;
    }
    assert(views(targets@) =~= all);
}

fn targets_of(draft: &EditorDraft, block: &Block) -> (targets: Vec<(String, ConversionTarget)>)
    ensures
        views(targets@) == family_targets(draft@.definition, block@),
{
    let mut targets: Vec<(String, ConversionTarget)> = Vec::new();
    assert(views(targets@) =~= Seq::empty());
    match &block.kind {
        BlockKind::Observe { condition: Condition::Text { mode, .. } } => {
            targets.push(
                (
                    "Text: Check now".to_owned(),
                    ConversionTarget::TextObservation { mode: ObserveMode::CheckNow },
                ),
            );
            targets.push(
                (
                    "Text: Wait true".to_owned(),
                    ConversionTarget::TextObservation { mode: wait_true(mode) },
                ),
            );
            targets.push(
                (
                    "Text: Wait false".to_owned(),
                    ConversionTarget::TextObservation { mode: wait_false(mode) },
                ),
            );
        },
        BlockKind::Observe { condition: Condition::Image { mode, .. } } => {
            targets.push(
                (
                    "Image: Check now".to_owned(),
                    ConversionTarget::ImageObservation { mode: ObserveMode::CheckNow },
                ),
            );
            targets.push(
                (
                    "Image: Wait true".to_owned(),
                    ConversionTarget::ImageObservation { mode: wait_true(mode) },
                ),
            );
            targets.push(
                (
                    "Image: Wait false".to_owned(),
                    ConversionTarget::ImageObservation { mode: wait_false(mode) },
                ),
            );
        },
        BlockKind::Action { action: Action::ClickTextMatch { .. } } => {
            targets.push(
                (
                    "Text click: Left".to_owned(),
                    ConversionTarget::ClickTextMatch { button: MouseButton::Left },
                ),
            );
            targets.push(
                (
                    "Text click: Right".to_owned(),
                    ConversionTarget::ClickTextMatch { button: MouseButton::Right },
                ),
            );
        },
        BlockKind::Action { action: Action::ClickImageMatch { .. } } => {
            targets.push(
                (
                    "Image click: Left".to_owned(),
                    ConversionTarget::ClickImageMatch { button: MouseButton::Left },
                ),
            );
            targets.push(
                (
                    "Image click: Right".to_owned(),
                    ConversionTarget::ClickImageMatch { button: MouseButton::Right },
                ),
            );
        },
        BlockKind::Action { action: Action::ClickPoint { .. } }
        | BlockKind::Action { action: Action::ClickRegion { .. } } => {
            add_saved_targets(&draft.definition, MouseButton::Left, &mut targets);
            add_saved_targets(&draft.definition, MouseButton::Right, &mut targets);
        },
        BlockKind::RepeatN { .. } => {
            add_until_targets(draft, &mut targets);
        },
        BlockKind::RepeatUntil { .. } => {
            targets.push(("Repeat N".to_owned(), ConversionTarget::RepeatN { count: 2 }));
        },
        _ => {},
    }
    assert(views(targets@) =~= family_targets(draft@.definition, block@));
    targets
}

/// The conversions that a block can be given within its family, each with its label.
pub fn conversion_choices(draft: &EditorDraft, block: &Block, path: &BlockPath) -> (choices: Vec<
    (String, PendingConversion),
>)
    ensures
        views(choices@) == changing(
            block@,
            path@,
            family_targets(draft@.definition, block@),
        ),
{
    let targets = targets_of(draft, block);
    let ghost all = views(targets@);
    let mut choices: Vec<(String, PendingConversion)> = Vec::new();
    let mut i: usize = 0;
    assert(views(choices@) =~= changing(block@, path@, all.take(0)));
    while i < targets.len()
        invariant
            i <= targets@.len(),
            all == views(targets@),
            views(choices@) == changing(block@, path@, all.take(i as int)),
        decreases targets@.len() - i,
    {
        let (label, target) = &targets[i];
        let ghost before = views(choices@);
        proof {
            assert(all.take(i + 1).drop_last() =~= all.take(i as int));
            assert(all.take(i + 1).last() == (label@, target@));
        }
        if conversion_target_changes(block, target) {
            choices.push(
                (
                    label.clone(),
                    compatible_conversion_preview(block, path.clone(), target.clone()),
                ),
            );
            assert(views(choices@) =~= before.push(
                (label@, within_family(block@, path@, target@)),
            ));
        }
        i += 1;
    }
    assert(all.take(i as int) =~= all);
    choices
}

/// What a block can be replaced by.
#[derive(Debug, PartialEq, Eq)]
pub enum ReplacementKind {
    DetectorText(String),
    DetectorImage(String),
    ActionText(String),
    ActionImage(String),
    Loop,
    Wait,
    Note,
    Stop,
}

/// The contents of a [`ReplacementKind`].
#[verifier::ext_equal]
pub ghost enum ReplacementView {
    DetectorText(Seq<char>),
    DetectorImage(Seq<char>),
    ActionText(Seq<char>),
    ActionImage(Seq<char>),
    Loop,
    Wait,
    Note,
    Stop,
}

impl View for ReplacementKind {
    type V = ReplacementView;

    open spec fn view(&self) -> ReplacementView {
        match *self {
            ReplacementKind::DetectorText(id) => ReplacementView::DetectorText(id@),
            ReplacementKind::DetectorImage(id) => ReplacementView::DetectorImage(id@),
            ReplacementKind::ActionText(id) => ReplacementView::ActionText(id@),
            ReplacementKind::ActionImage(id) => ReplacementView::ActionImage(id@),
            ReplacementKind::Loop => ReplacementView::Loop,
            ReplacementKind::Wait => ReplacementView::Wait,
            ReplacementKind::Note => ReplacementView::Note,
            ReplacementKind::Stop => ReplacementView::Stop,
        }
    }
}

impl Clone for ReplacementKind {
    fn clone(&self) -> (copy: Self)
        ensures
            copy == *self,
    {
        match self {
            ReplacementKind::DetectorText(id) => ReplacementKind::DetectorText(id.clone()),
            ReplacementKind::DetectorImage(id) => ReplacementKind::DetectorImage(id.clone()),
            ReplacementKind::ActionText(id) => ReplacementKind::ActionText(id.clone()),
            ReplacementKind::ActionImage(id) => ReplacementKind::ActionImage(id.clone()),
            ReplacementKind::Loop => ReplacementKind::Loop,
            ReplacementKind::Wait => ReplacementKind::Wait,
            ReplacementKind::Note => ReplacementKind::Note,
            ReplacementKind::Stop => ReplacementKind::Stop,
        }
    }
}

/// What a block is after its replacement.
pub open spec fn replacement_head(id: Seq<char>, kind: ReplacementView) -> HeadView {
    match kind {
        ReplacementView::DetectorText(rule) => HeadView::Observe {
            condition: ConditionView {
                family: DetectorFamily::Text,
                source: id,
                rule,
                wait: WaitView::CheckNow,
            },
        },
        ReplacementView::DetectorImage(rule) => HeadView::Observe {
            condition: ConditionView {
                family: DetectorFamily::Image,
                source: id,
                rule,
                wait: WaitView::CheckNow,
            },
        },
        ReplacementView::ActionText(source) => HeadView::Action {
            action: ActionView::ClickTextMatch { source, button: MouseButton::Left },
        },
        ReplacementView::ActionImage(source) => HeadView::Action {
            action: ActionView::ClickImageMatch { source, button: MouseButton::Left },
        },
        ReplacementView::Loop => HeadView::RepeatN { count: 2 },
        ReplacementView::Wait => HeadView::Wait { duration_ms: 250 },
        ReplacementView::Note => HeadView::Comment { text: "Replaced step"@ },
        ReplacementView::Stop => HeadView::StopSuccess,
    }
}

/// The bodies of a replacement.
pub open spec fn replacement_bodies(kind: ReplacementView) -> Seq<BodyView> {
    match kind {
        ReplacementView::Loop => seq![BodyView { role: RoleView::Loop, blocks: Seq::empty() }],
        _ => Seq::empty(),
    }
}

/// The values that a replacement needs, as they are shown before it is confirmed.
pub open spec fn replacement_values(kind: ReplacementView) -> Seq<(Seq<char>, Seq<char>)> {
    match kind {
        ReplacementView::DetectorText(rule) => seq![("text_rule"@, rule)],
        ReplacementView::DetectorImage(rule) => seq![("image_rule"@, rule)],
        ReplacementView::ActionText(source) => seq![("text_source"@, source)],
        ReplacementView::ActionImage(source) => seq![("image_source"@, source)],
        ReplacementView::Loop => seq![("count"@, "2"@)],
        ReplacementView::Wait => seq![("duration_ms"@, "250"@)],
        ReplacementView::Note => seq![("text"@, "Replaced step"@)],
        ReplacementView::Stop => Seq::empty(),
    }
}

/// A block has bodies that a replacement has to decide about.
pub open spec fn has_contents(block: BlockView) -> bool {
    match block.head {
        HeadView::Observe { .. } => block.bodies.len() > 0,
        HeadView::If { .. } => true,
        HeadView::RepeatN { .. } => true,
        HeadView::RepeatUntil { .. } => true,
        HeadView::Continuous => true,
        HeadView::WatchGroup { .. } => true,
        _ => false,
    }
}

/// A replacement, before it is confirmed.
pub open spec fn replacement(
    block: BlockView,
    path: BlockPathView,
    kind: ReplacementView,
) -> PendingView {
    PendingView {
        block_id: block.id,
        preview: ConversionPreviewView::ReplaceRequired {
            from: family(block.head),
            to: BlockFamily::Other,
            reason:
                "Replacing an unrelated type requires confirmation; removed settings remain available only through undo."@,
        },
        required_values: replacement_values(kind),
        command: CommandView::ReplaceBlock {
            path,
            replacement: BlockView {
                id: block.id,
                enabled: block.enabled,
                head: replacement_head(block.id, kind),
                bodies: replacement_bodies(kind),
            },
            children: ChildDisposition::KeepOwnedContents,
        },
        structural_children: has_contents(block),
    }
}

pub fn has_replaceable_children(block: &Block) -> (result: bool)
    ensures
        result == has_contents(block@),
{
    match &block.kind {
        BlockKind::Observe { condition } => {
            let mode = match condition {
                Condition::Text { mode, .. } => mode,
                Condition::Image { mode, .. } => mode,
            };
            assert(block@.bodies == crate::macro_engine::mode_bodies(*mode));
            match mode {
                ObserveMode::CheckNow => false,
                ObserveMode::WaitForTrue { timeout_outcome, .. } => matches!(
                    timeout_outcome,
                    TimeoutOutcome::RunBody { .. }
                ),
                ObserveMode::WaitForFalse { timeout_outcome, .. } => matches!(
                    timeout_outcome,
                    TimeoutOutcome::RunBody { .. }
                ),
            }
        },
        BlockKind::If { .. } => true,
        BlockKind::RepeatN { .. } => true,
        BlockKind::RepeatUntil { .. } => true,
        BlockKind::Continuous { .. } => true,
        BlockKind::WatchGroup { .. } => true,
        _ => false,
    }
}

fn kind_of_replacement(id: &String, kind: &ReplacementKind) -> (result: BlockKind)
    ensures
        head_view(result) == replacement_head(id@, kind@),
        kind_bodies(result) == replacement_bodies(kind@),
{
    match kind {
        ReplacementKind::DetectorText(rule_id) => BlockKind::Observe {
            condition: Condition::Text {
                source_block_id: id.clone(),
                rule_id: rule_id.clone(),
                mode: ObserveMode::CheckNow,
            },
        },
        ReplacementKind::DetectorImage(rule_id) => BlockKind::Observe {
            condition: Condition::Image {
                source_block_id: id.clone(),
                rule_id: rule_id.clone(),
                mode: ObserveMode::CheckNow,
            },
        },
        ReplacementKind::ActionText(source_id) => BlockKind::Action {
            action: Action::ClickTextMatch {
                source_block_id: source_id.clone(),
                button: MouseButton::Left,
            },
        },
        ReplacementKind::ActionImage(source_id) => BlockKind::Action {
            action: Action::ClickImageMatch {
                source_block_id: source_id.clone(),
                button: MouseButton::Left,
            },
        },
        ReplacementKind::Loop => {
            let body: Vec<Block> = Vec::new();
            assert(blocks_view(body@) =~= Seq::empty());
            let result = BlockKind::RepeatN { count: 2, body };
            assert(kind_bodies(result) =~= replacement_bodies(kind@));
            result
        },
        ReplacementKind::Wait => BlockKind::Wait { duration_ms: 250 },
        ReplacementKind::Note => BlockKind::Comment { text: "Replaced step".to_owned() },
        ReplacementKind::Stop => BlockKind::StopSuccess,
    }
}

fn values_of_replacement(kind: &ReplacementKind) -> (values: Vec<(String, String)>)
    ensures
        views(values@) == replacement_values(kind@),
{
    match kind {
        ReplacementKind::DetectorText(rule_id) => one_pair("text_rule", rule_id.clone()),
        ReplacementKind::DetectorImage(rule_id) => one_pair("image_rule", rule_id.clone()),
        ReplacementKind::ActionText(source_id) => one_pair("text_source", source_id.clone()),
        ReplacementKind::ActionImage(source_id) => one_pair("image_source", source_id.clone()),
        ReplacementKind::Loop => one_pair("count", "2".to_owned()),
        ReplacementKind::Wait => one_pair("duration_ms", "250".to_owned()),
        ReplacementKind::Note => one_pair("text", "Replaced step".to_owned()),
        ReplacementKind::Stop => no_pairs(),
    }
}

pub fn replace_block_preview(block: &Block, path: BlockPath, kind: ReplacementKind) -> (pending:
    PendingConversion)
    ensures
        pending@ == replacement(block@, path@, kind@),
{
    let new_kind = kind_of_replacement(&block.id, &kind);
    PendingConversion {
        block_id: block.id.clone(),
        preview: ConversionPreview::ReplaceRequired {
            from: block_family(block),
            to: BlockFamily::Other,
            reason:
                "Replacing an unrelated type requires confirmation; removed settings remain available only through undo.",
        },
        required_values: values_of_replacement(&kind),
        command: EditorCommand::ReplaceBlock {
            path,
            replacement: Block { id: block.id.clone(), enabled: block.enabled, kind: new_kind },
            children: ChildDisposition::KeepOwnedContents,
        },
        structural_children: has_replaceable_children(block),
    }
}

/// The click on what an observation found, as a replacement with its label.
pub open spec fn action_replacement(source: (Seq<char>, GuardView)) -> (
    Seq<char>,
    ReplacementView,
) {
    match source.1.condition.family {
        DetectorFamily::Text => (
            "Action: Text source "@ + source.0,
            ReplacementView::ActionText(source.0),
        ),
        DetectorFamily::Image => (
            "Action: Image source "@ + source.0,
            ReplacementView::ActionImage(source.0),
        ),
    }
}

/// Everything that a block can be replaced by, with the labels of the choices.
pub open spec fn replacements(definition: MacroDefinitionView) -> Seq<(Seq<char>, ReplacementView)> {
    let matched = matched_sources(definition);
    Seq::new(
        definition.text_rules.len(),
        |i: int|
            (
                "Detector: Text "@ + definition.text_rules[i].id,
                ReplacementView::DetectorText(definition.text_rules[i].id),
            ),
    ) + Seq::new(
        definition.image_rules.len(),
        |i: int|
            (
                "Detector: Image "@ + definition.image_rules[i].id,
                ReplacementView::DetectorImage(definition.image_rules[i].id),
            ),
    ) + Seq::new(matched.len(), |i: int| action_replacement(matched[i])) + seq![
        ("Replace as Loop"@, ReplacementView::Loop),
        ("Replace as Wait"@, ReplacementView::Wait),
        ("Replace as Note"@, ReplacementView::Note),
        ("Replace as Stop"@, ReplacementView::Stop),
    ]
}

/// The replacements of a block, each with what it would mean.
pub open spec fn replacing(
    block: BlockView,
    path: BlockPathView,
    kinds: Seq<(Seq<char>, ReplacementView)>,
) -> Seq<(Seq<char>, PendingView)> {
    Seq::new(kinds.len(), |i: int| (kinds[i].0, replacement(block, path, kinds[i].1)))
}

fn labelled(prefix: &str, id: &String) -> (label: String)
    ensures
        label@ == prefix@ + id@,
{
    let mut label = prefix.to_owned();
    label.append(id.as_str());
    label
}

fn kinds_of_replacement(draft: &EditorDraft) -> (kinds: Vec<(String, ReplacementKind)>)
    ensures
        views(kinds@) == replacements(draft@.definition),
{
    let definition = &draft.definition;
    let ghost all = replacements(draft@.definition);
    let mut kinds: Vec<(String, ReplacementKind)> = Vec::new();
    let mut i: usize = 0;
    while i < definition.text_rules.len()
        invariant
            all == replacements(definition@),
            i <= definition.text_rules@.len(),
            kinds@.len() == i,
            forall|j: int| 0 <= j < kinds@.len() ==> (#[trigger] kinds@[j])@ == all[j],
        decreases definition.text_rules@.len() - i,
    {
        let id = &definition.text_rules[i].id;
        assert(definition@.text_rules[i as int] == definition.text_rules@[i as int]@);
        kinds.push(
            (labelled("Detector: Text ", id), ReplacementKind::DetectorText(id.clone())),
        );
        i += 1;
    }
    let ghost texts = definition.text_rules@.len();
    let mut k: usize = 0;
    while k < definition.image_rules.len()
        invariant
            all == replacements(definition@),
            texts == definition.text_rules@.len(),
            k <= definition.image_rules@.len(),
            kinds@.len() == texts + k,
            forall|j: int| 0 <= j < kinds@.len() ==> (#[trigger] kinds@[j])@ == all[j],
        decreases definition.image_rules@.len() - k,
    {
        let id = &definition.image_rules[k].id;
        assert(definition@.image_rules[k as int] == definition.image_rules@[k as int]@);
        kinds.push(
            (labelled("Detector: Image ", id), ReplacementKind::DetectorImage(id.clone())),
        );
        k += 1;
    }
    let ghost rules = texts + definition.image_rules@.len();
    let sources = matched_observation_sources(draft);
    let mut n: usize = 0;
    while n < sources.len()
        invariant
            all == replacements(draft@.definition),
            views(sources@) == matched_sources(draft@.definition),
            rules == draft.definition.text_rules@.len() + draft.definition.image_rules@.len(),
            n <= sources@.len(),
            kinds@.len() == rules + n,
            forall|j: int| 0 <= j < kinds@.len() ==> (#[trigger] kinds@[j])@ == all[j],
        decreases sources@.len() - n,
    {
        let (id, condition) = &sources[n];
        assert(views(sources@)[n as int] == sources@[n as int]@);
        let kind = match condition {
            Condition::Text { .. } => (
                labelled("Action: Text source ", id),
                ReplacementKind::ActionText(id.clone()),
            ),
            Condition::Image { .. } => (
                labelled("Action: Image source ", id),
                ReplacementKind::ActionImage(id.clone()),
            ),
        };
        kinds.push(kind);
        n += 1;
    }
    kinds.push(("Replace as Loop".to_owned(), ReplacementKind::Loop));
    kinds.push(("Replace as Wait".to_owned(), ReplacementKind::Wait));
    kinds.push(("Replace as Note".to_owned(), ReplacementKind::Note));
    kinds.push(("Replace as Stop".to_owned(), ReplacementKind::Stop));
    assert(views(kinds@) =~= all);
    kinds
}

/// The replacements that a block can be given, each with its label.
pub fn replacement_choices(draft: &EditorDraft, block: &Block, path: &BlockPath) -> (choices: Vec<
    (String, PendingConversion),
>)
    ensures
        views(choices@) == replacing(block@, path@, replacements(draft@.definition)),
{
    let kinds = kinds_of_replacement(draft);
    let ghost all = replacing(block@, path@, views(kinds@));
    let mut choices: Vec<(String, PendingConversion)> = Vec::new();
    let mut i: usize = 0;
    while i < kinds.len()
        invariant
            i <= kinds@.len(),
            all == replacing(block@, path@, views(kinds@)),
            choices@.len() == i,
            forall|j: int| 0 <= j < i ==> (#[trigger] choices@[j])@ == all[j],
        decreases kinds@.len() - i,
    {
        let (label, kind) = &kinds[i];
        assert(views(kinds@)[i as int] == (label@, kind@));
        choices.push((label.clone(), replace_block_preview(block, path.clone(), kind.clone())));
        i += 1;
    }
    assert(views(choices@) =~= all);
    choices
}

/// A block makes an observation, of one family if one is asked for.
pub open spec fn observes(
    blocks: Seq<BlockView>,
    id: Seq<char>,
    family: Option<DetectorFamily>,
) -> bool {
    match located(blocks, id) {
        None => false,
        Some(path) => match block_at(blocks, path) {
            Ok(block) => match block.head {
                HeadView::Observe { condition } => family is None || family == Some(
                    condition.family,
                ),
                _ => false,
            },
            Err(_) => false,
        },
    }
}

fn is_observation(
    definition: &MacroDefinition,
    id: &str,
    family: Option<DetectorFamily>,
) -> (result: bool)
    ensures
        result == observes(definition@.blocks, id@, family),
{
    let path = match locate_block_path(definition, id) {
        None => return false,
        Some(path) => path,
    };
    match block_at_path(definition, &path) {
        None => false,
        Some(block) => match &block.kind {
            BlockKind::Observe { condition: Condition::Text { .. } } => match family {
                None => true,
                Some(DetectorFamily::Text) => true,
                Some(DetectorFamily::Image) => false,
            },
            BlockKind::Observe { condition: Condition::Image { .. } } => match family {
                None => true,
                Some(DetectorFamily::Text) => false,
                Some(DetectorFamily::Image) => true,
            },
            _ => false,
        },
    }
}

/// A point is saved.
pub open spec fn has_point(points: Seq<PointDefinitionView>, id: Seq<char>) -> bool {
    exists|i: int| 0 <= i < points.len() && (#[trigger] points[i]).id == id
}

fn point_is_saved(points: &Vec<PointDefinition>, id: &str) -> (result: bool)
    ensures
        result == has_point(views(points@), id@),
{
    let ghost all = views(points@);
    let mut i: usize = 0;
    while i < points.len()
        invariant
            i <= points@.len(),
            all == views(points@),
            forall|j: int| 0 <= j < i ==> (#[trigger] all[j]).id != id@,
        decreases points@.len() - i,
    {
        assert(all[i as int] == points@[i as int]@);
        if same_text(points[i].id.as_str(), id) {
            return true;
        }
        i += 1;
    }
    false
}

/// The values that a conversion carries are ones that it can be applied with.
pub open spec fn values_hold(definition: MacroDefinitionView, command: CommandView) -> bool {
    match command {
        CommandView::ConvertBlock { target, .. } => match target {
            ConversionTargetView::ClickPoint { point_id, .. } => has_point(
                definition.points,
                point_id,
            ),
            ConversionTargetView::ClickRegion { region_id, .. } => first_index(
                definition.regions,
                region_is(region_id),
            ) is Some,
            ConversionTargetView::RepeatN { count } => count > 0,
            ConversionTargetView::RepeatUntil { condition, max_iterations } => max_iterations
                != Limit::Finite(0u64) && observes(
                definition.blocks,
                condition.condition.source,
                None,
            ),
            _ => true,
        },
        CommandView::ReplaceBlock { replacement, .. } => match replacement.head {
            HeadView::Wait { duration_ms } => duration_ms > 0,
            HeadView::Comment { text } => !blank(text),
            HeadView::RepeatN { count } => count > 0,
            HeadView::Observe { condition } => match condition.family {
                DetectorFamily::Text => first_index(
                    definition.text_rules,
                    text_rule_is(condition.rule),
                ) is Some,
                DetectorFamily::Image => first_index(
                    definition.image_rules,
                    image_rule_is(condition.rule),
                ) is Some,
            },
            HeadView::Action { action: ActionView::ClickTextMatch { source, .. } } => observes(
                definition.blocks,
                source,
                Some(DetectorFamily::Text),
            ),
            HeadView::Action { action: ActionView::ClickImageMatch { source, .. } } => observes(
                definition.blocks,
                source,
                Some(DetectorFamily::Image),
            ),
            _ => true,
        },
        _ => true,
    }
}

fn required_values_valid(definition: &MacroDefinition, command: &EditorCommand) -> (valid: bool)
    ensures
        valid == values_hold(definition@, command@),
{
    match command {
        EditorCommand::ConvertBlock { target, .. } => match target {
            ConversionTarget::ClickPoint { point_id, .. } => point_is_saved(
                &definition.points,
                point_id.as_str(),
            ),
            ConversionTarget::ClickRegion { region_id, .. } => region_position(
                &definition.regions,
                region_id.as_str(),
            ).is_some(),
            ConversionTarget::RepeatN { count } => *count > 0,
            ConversionTarget::RepeatUntil { condition, max_iterations } => {
                let bounded = match max_iterations {
                    Limit::Finite(maximum) => *maximum > 0,
                    Limit::Unlimited => true,
                };
                let source = match condition {
                    Condition::Text { source_block_id, .. } => source_block_id,
                    Condition::Image { source_block_id, .. } => source_block_id,
                };
                bounded && is_observation(definition, source.as_str(), None)
            },
            _ => true,
        },
        EditorCommand::ReplaceBlock { replacement, .. } => match &replacement.kind {
            BlockKind::Wait { duration_ms } => *duration_ms > 0,
            BlockKind::Comment { text } => !is_blank(text.as_str()),
            BlockKind::RepeatN { count, .. } => *count > 0,
            BlockKind::Observe { condition: Condition::Text { rule_id, .. } } => {
                text_rule_position(&definition.text_rules, rule_id.as_str()).is_some()
            },
            BlockKind::Observe { condition: Condition::Image { rule_id, .. } } => {
                image_rule_position(&definition.image_rules, rule_id.as_str()).is_some()
            },
            BlockKind::Action { action: Action::ClickTextMatch { source_block_id, .. } } => {
                is_observation(
                    definition,
                    source_block_id.as_str(),
                    Some(DetectorFamily::Text),
                )
            },
            BlockKind::Action { action: Action::ClickImageMatch { source_block_id, .. } } => {
                is_observation(
                    definition,
                    source_block_id.as_str(),
                    Some(DetectorFamily::Image),
                )
            },
            _ => true,
        },
        _ => true,
    }
}

/// The observation whose match the block that a replacement brings clicks on.
pub open spec fn clicked_source(replacement: BlockView) -> Option<(Seq<char>, DetectorFamily)> {
    match replacement.head {
        HeadView::Action { action: ActionView::ClickTextMatch { source, .. } } => Some(
            (source, DetectorFamily::Text),
        ),
        HeadView::Action { action: ActionView::ClickImageMatch { source, .. } } => Some(
            (source, DetectorFamily::Image),
        ),
        _ => None,
    }
}

/// The observation that a replacement clicks on outlives the replacement: it is in the macro
/// afterwards, or it is among the contents that the replacement keeps. The block that is replaced
/// does not outlive it.
pub open spec fn source_stays(
    command: CommandView,
    after: Seq<BlockView>,
) -> bool {
    command matches CommandView::ReplaceBlock { replacement, children, .. } ==> (clicked_source(
        replacement,
    ) matches Some((source, family)) ==> observes(after, source, Some(family)) || (children
        == ChildDisposition::KeepOwnedContents && source != replacement.id))
}

fn source_outlives(command: &EditorCommand, after: &MacroDefinition) -> (stays: bool)
    ensures
        stays == source_stays(command@, after@.blocks),
{
    match command {
        EditorCommand::ReplaceBlock { replacement, children, .. } => {
            let clicked = match &replacement.kind {
                BlockKind::Action { action: Action::ClickTextMatch { source_block_id, .. } } => Some(
                    (source_block_id, DetectorFamily::Text),
                ),
                BlockKind::Action { action: Action::ClickImageMatch { source_block_id, .. } } => Some(
                    (source_block_id, DetectorFamily::Image),
                ),
                _ => None,
            };
            match clicked {
                Some((source, family)) => is_observation(after, source.as_str(), Some(family)) || (
                *children == ChildDisposition::KeepOwnedContents && !same_text(
                    source.as_str(),
                    replacement.id.as_str(),
                )),
                None => true,
            }
        },
        _ => true,
    }
}

/// A conversion may be confirmed: its values hold, the draft would accept it, and what it clicks on
/// stays.
pub open spec fn may_confirm(draft: EditorDraftView, command: CommandView) -> bool {
    let (after, answer) = applied(draft, command);
    values_hold(draft.definition, command) && answer is Ok && source_stays(
        command,
        after.definition.blocks,
    )
}

pub fn pending_conversion_valid(draft: &EditorDraft, pending: &PendingConversion) -> (valid: bool)
    ensures
        valid == may_confirm(draft@, pending@.command),
{
    if !required_values_valid(&draft.definition, &pending.command) {
        return false;
    }
    let mut candidate = draft.clone();
    apply_editor_command(&mut candidate, pending.command.clone()).is_ok() && source_outlives(
        &pending.command,
        &candidate.definition,
    )
}

/// One change of the values of a conversion before it is confirmed.
#[derive(Debug, PartialEq, Eq)]
pub enum PendingEdit {
    Count(u32),
    Maximum(u64),
    Duration(u64),
    Text(String),
    Children(ChildDisposition),
}

/// A block with another head.
pub open spec fn with_new_head(block: BlockView, head: HeadView) -> BlockView {
    BlockView { head, ..block }
}

/// A conversion after one of its values was changed. A value that the conversion does not have
/// changes nothing.
pub open spec fn pending_after(pending: PendingView, edit: PendingEdit) -> PendingView {
    match (edit, pending.command) {
        (
            PendingEdit::Count(count),
            CommandView::ConvertBlock { path, target: ConversionTargetView::RepeatN { .. } },
        ) => PendingView {
            command: CommandView::ConvertBlock {
                path,
                target: ConversionTargetView::RepeatN { count },
            },
            required_values: seq![("count"@, decimal(count as nat))],
            ..pending
        },
        (
            PendingEdit::Maximum(maximum),
            CommandView::ConvertBlock {
                path,
                target: ConversionTargetView::RepeatUntil {
                    condition,
                    max_iterations: Limit::Finite(_),
                },
            },
        ) => PendingView {
            command: CommandView::ConvertBlock {
                path,
                target: ConversionTargetView::RepeatUntil {
                    condition,
                    max_iterations: Limit::Finite(maximum),
                },
            },
            required_values: seq![("max_iterations"@, decimal(maximum as nat))],
            ..pending
        },
        (
            PendingEdit::Children(children),
            CommandView::ReplaceBlock { path, replacement, .. },
        ) => PendingView {
            command: CommandView::ReplaceBlock { path, replacement, children },
            ..pending
        },
        (edit, CommandView::ReplaceBlock { path, replacement, children }) => match (
            edit,
            replacement.head,
        ) {
            (PendingEdit::Count(count), HeadView::RepeatN { .. }) => PendingView {
                command: CommandView::ReplaceBlock {
                    path,
                    replacement: with_new_head(replacement, HeadView::RepeatN { count }),
                    children,
                },
                required_values: seq![("count"@, decimal(count as nat))],
                ..pending
            },
            (PendingEdit::Duration(duration_ms), HeadView::Wait { .. }) => PendingView {
                command: CommandView::ReplaceBlock {
                    path,
                    replacement: with_new_head(replacement, HeadView::Wait { duration_ms }),
                    children,
                },
                required_values: seq![("duration_ms"@, decimal(duration_ms as nat))],
                ..pending
            },
            (PendingEdit::Text(text), HeadView::Comment { .. }) => PendingView {
                command: CommandView::ReplaceBlock {
                    path,
                    replacement: with_new_head(replacement, HeadView::Comment { text: text@ }),
                    children,
                },
                required_values: seq![("text"@, text@)],
                ..pending
            },
            _ => pending,
        },
        _ => pending,
    }
}

/// Changes a value of a conversion that waits to be confirmed.
pub fn edit_pending(pending: PendingConversion, edit: PendingEdit) -> (edited: PendingConversion)
    ensures
        edited@ == pending_after(pending@, edit),
{
    let ghost before = pending@;
    let PendingConversion { block_id, preview, required_values, command, structural_children } =
        pending;
    let (command, values): (EditorCommand, Option<Vec<(String, String)>>) = match command {
        EditorCommand::ConvertBlock { path, target } => match (edit, target) {
            (PendingEdit::Count(count), ConversionTarget::RepeatN { .. }) => (
                EditorCommand::ConvertBlock { path, target: ConversionTarget::RepeatN { count } },
                Some(one_pair("count", decimal_text(count as u64))),
            ),
            (
                PendingEdit::Maximum(maximum),
                ConversionTarget::RepeatUntil { condition, max_iterations: Limit::Finite(_) },
            ) => (
                EditorCommand::ConvertBlock {
                    path,
                    target: ConversionTarget::RepeatUntil {
                        condition,
                        max_iterations: Limit::Finite(maximum),
                    },
                },
                Some(one_pair("max_iterations", decimal_text(maximum))),
            ),
            (_, target) => (EditorCommand::ConvertBlock { path, target }, None),
        },
        EditorCommand::ReplaceBlock { path, replacement, children } => {
            let Block { id, enabled, kind } = replacement;
            let (kind, children, values): (
                BlockKind,
                ChildDisposition,
                Option<Vec<(String, String)>>,
            ) = match (edit, kind) {
                (PendingEdit::Children(children), kind) => (kind, children, None),
                (PendingEdit::Count(count), BlockKind::RepeatN { body, .. }) => (
                    BlockKind::RepeatN { count, body },
                    children,
                    Some(one_pair("count", decimal_text(count as u64))),
                ),
                (PendingEdit::Duration(duration_ms), BlockKind::Wait { .. }) => (
                    BlockKind::Wait { duration_ms },
                    children,
                    Some(one_pair("duration_ms", decimal_text(duration_ms))),
                ),
                (PendingEdit::Text(text), BlockKind::Comment { .. }) => (
                    BlockKind::Comment { text: text.clone() },
                    children,
                    Some(one_pair("text", text)),
                ),
                (_, kind) => (kind, children, None),
            };
            (
                EditorCommand::ReplaceBlock {
                    path,
                    replacement: Block { id, enabled, kind },
                    children,
                },
                values,
            )
        },
        command => (command, None),
    };
    let required_values = match values {
        Some(values) => values,
        None => required_values,
    };
    PendingConversion { block_id, preview, required_values, command, structural_children }
}

/// The word for what becomes of the bodies of a block that is replaced.
pub open spec fn disposition_word(command: CommandView) -> Seq<char> {
    match command {
        CommandView::ReplaceBlock { children: ChildDisposition::KeepOwnedContents, .. } => "Keep"@,
        CommandView::ReplaceBlock { children: ChildDisposition::DeleteOwnedContents, .. } => {
            "Delete"@
        },
        _ => "Not applicable"@,
    }
}

pub fn disposition_label(pending: &PendingConversion) -> (word: &'static str)
    ensures
        word@ == disposition_word(pending@.command),
{
    match &pending.command {
        EditorCommand::ReplaceBlock { children, .. } => match children {
            ChildDisposition::KeepOwnedContents => "Keep",
            ChildDisposition::DeleteOwnedContents => "Delete",
        },
        _ => "Not applicable",
    }
}

/// Names with a comma between each two.
pub open spec fn comma_list(names: Seq<Seq<char>>) -> Seq<char>
    decreases names.len(),
{
    if names.len() == 0 {
        Seq::empty()
    } else if names.len() == 1 {
        names[0]
    } else {
        comma_list(names.drop_last()) + ", "@ + names.last()
    }
}

fn join_names(names: &Vec<&'static str>) -> (text: String)
    ensures
        text@ == comma_list(views(names@)),
{
    let ghost all = views(names@);
    let mut text = String::new();
    let mut i: usize = 0;
    assert(text@ =~= comma_list(all.take(0)));
    while i < names.len()
        invariant
            i <= names@.len(),
            all == views(names@),
            text@ == comma_list(all.take(i as int)),
        decreases names@.len() - i,
    {
        let ghost before = text@;
        proof {
            assert(all.take(i + 1).drop_last() =~= all.take(i as int));
            assert(all.take(i + 1).last() == names@[i as int]@);
        }
        if i > 0 {
            text.append(", ");
        }
        text.append(names[i]);
        assert(text@ =~= comma_list(all.take(i + 1)));
        i += 1;
    }
    assert(all.take(i as int) =~= all);
    text
}

/// A line of a preview: nothing for an empty list.
pub open spec fn names_line(title: Seq<char>, names: Seq<Seq<char>>) -> Seq<Seq<char>> {
    if comma_list(names).len() == 0 {
        Seq::empty()
    } else {
        seq![title + comma_list(names)]
    }
}

/// The lines of a preview: why a replacement is needed, or what is kept, needed and dropped.
pub open spec fn preview_text(preview: ConversionPreviewView) -> Seq<Seq<char>> {
    match preview {
        ConversionPreviewView::ReplaceRequired { reason, .. } => seq![reason],
        ConversionPreviewView::Compatible { preserved_fields, required_fields, removed_fields } => {
            names_line("Preserved: "@, preserved_fields) + names_line(
                "Required: "@,
                required_fields,
            ) + names_line("Removed (undo only): "@, removed_fields)
        },
    }
}

fn add_names_line(title: &str, names: &Vec<&'static str>, lines: &mut Vec<String>)
    ensures
        views(final(lines)@) == views(old(lines)@) + names_line(title@, views(names@)),
{
    let joined = join_names(names);
    let ghost before = views(lines@);
    if joined.as_str().unicode_len() > 0 {
        let mut line = title.to_owned();
        line.append(joined.as_str());
        lines.push(line);
    }
    assert(views(lines@) =~= before + names_line(title@, views(names@)));
}

/// The lines that explain a conversion before it is confirmed.
pub fn preview_lines(preview: &ConversionPreview) -> (lines: Vec<String>)
    ensures
        views(lines@) == preview_text(preview@),
{
    let mut lines: Vec<String> = Vec::new();
    assert(views(lines@) =~= Seq::empty());
    match preview {
        ConversionPreview::ReplaceRequired { reason, .. } => {
            lines.push((*reason).to_owned());
        },
        ConversionPreview::Compatible { preserved_fields, required_fields, removed_fields } => {
            add_names_line("Preserved: ", preserved_fields, &mut lines);
            add_names_line("Required: ", required_fields, &mut lines);
            add_names_line("Removed (undo only): ", removed_fields, &mut lines);
        },
    }
    assert(views(lines@) =~= preview_text(preview@));
    lines
}

} // verus!
