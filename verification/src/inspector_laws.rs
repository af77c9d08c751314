//! What holds of the inspector and of the conversions that it offers: they show the block that is
//! selected, and what is entered there is what it gets.
use crate::command_view::{CommandView, ConversionTargetView, ModeView};
use crate::commands::edited;
use crate::conversion::{
    family_targets, may_confirm, pending_after, replacement, waiting_false, waiting_true, PendingEdit, PendingView,
    ReplacementView,
};
use crate::draft::EditorDraftView;
use crate::edit_laws::{changed_path, settings_are_read_back};
use crate::editor_types::BlockPathView;
use crate::edits::{block_at, is_lane};
use crate::inspector::{
    block_panel, inspected, limit_after, max_change, messages_for, mode_after,
    mode_with_timeout, scale_fault, scales_fault, watch_change, FlowEdit, InspectorIntentView,
    InspectorView,
};
use crate::macro_engine::{
    ActionView, BlockView, BodyView, HeadView, Limit, MacroDefinitionView,
    MouseButton, RoleView, ValidationProblemView, WaitView,
};
use crate::places::{lanes_of, watches};
use crate::rule_edits::{image_rule_is, region_is, text_rule_is, EditedView};
use crate::sources::sources_in;
use crate::text::blank;
use crate::tree::{
    first_index, first_where, flatten, found_block, lemma_first_index, lemma_first_where_found,
};
use vstd::prelude::*;

verus! {

/// A panel shows the detector of a condition: the rule of the macro that the condition names, of its
/// family, and nothing where the macro has no such rule.
pub open spec fn shows_detector(
    panel: InspectorView,
    definition: MacroDefinitionView,
    id: Seq<char>,
    text: bool,
    rule: Seq<char>,
    mode: ModeView,
) -> bool {
    match panel {
        InspectorView::Text(shown) => text && shown.block_id == id && shown.rule.id == rule
            && definition.text_rules.contains(shown.rule) && shown.observe_mode == mode
            && shown.region_id == shown.rule.region_id && shown.expected == shown.rule.expected
            && shown.threshold == shown.rule.threshold && shown.poll_interval_ms
            == shown.rule.poll_interval_ms,
        InspectorView::Image(shown) => !text && shown.block_id == id && shown.rule.id == rule
            && definition.image_rules.contains(shown.rule) && shown.observe_mode == mode
            && shown.region_id == shown.rule.region_id && shown.template_id
            == shown.rule.template.id && shown.threshold == shown.rule.threshold
            && shown.scales_percent == shown.rule.scales_percent && shown.stable_frames
            == shown.rule.stable_frames && shown.runner_up_margin
            == shown.rule.minimum_runner_up_margin && shown.poll_interval_ms
            == shown.rule.poll_interval_ms,
        InspectorView::Flow(_) => false,
        InspectorView::Empty => if text {
            forall|i: int|
                0 <= i < definition.text_rules.len() ==> (#[trigger] definition.text_rules[i]).id
                    != rule
        } else {
            forall|i: int|
                0 <= i < definition.image_rules.len() ==> (#[trigger] definition.image_rules[i]).id
                    != rule
        },
    }
}

proof fn lemma_rules(definition: MacroDefinitionView, rule: Seq<char>)
    ensures
        match first_index(definition.text_rules, text_rule_is(rule)) {
            Some(i) => definition.text_rules.contains(definition.text_rules[i])
                && definition.text_rules[i].id == rule,
            None => forall|i: int|
                0 <= i < definition.text_rules.len() ==> (#[trigger] definition.text_rules[i]).id
                    != rule,
        },
        match first_index(definition.image_rules, image_rule_is(rule)) {
            Some(i) => definition.image_rules.contains(definition.image_rules[i])
                && definition.image_rules[i].id == rule,
            None => forall|i: int|
                0 <= i < definition.image_rules.len() ==> (#[trigger] definition.image_rules[i]).id
                    != rule,
        },
{
    lemma_first_index(definition.text_rules, text_rule_is(rule));
    lemma_first_index(definition.image_rules, image_rule_is(rule));
    match first_index(definition.text_rules, text_rule_is(rule)) {
        Some(i) => {
            assert(definition.text_rules.contains(definition.text_rules[i]));
        },
        None => {
            assert forall|i: int| 0 <= i < definition.text_rules.len() implies (
            #[trigger] definition.text_rules[i]).id != rule by {
                assert(!text_rule_is(rule)(definition.text_rules[i]));
            }
        },
    }
    match first_index(definition.image_rules, image_rule_is(rule)) {
        Some(i) => {
            assert(definition.image_rules.contains(definition.image_rules[i]));
        },
        None => {
            assert forall|i: int| 0 <= i < definition.image_rules.len() implies (
            #[trigger] definition.image_rules[i]).id != rule by {
                assert(!image_rule_is(rule)(definition.image_rules[i]));
            }
        },
    }
}

/// The inspector shows the block that is selected: for an observation, an IF or a loop with a
/// condition the rule that it looks for and how it waits, with what runs on timeout; for a wait, a
/// loop with a count and a watch group the values that can be edited.
pub proof fn inspector_shows_the_block(
    definition: MacroDefinitionView,
    id: Seq<char>,
    problems: Seq<ValidationProblemView>,
)
    requires
        found_block(definition.blocks, id) is Some,
    ensures
        ({
            let block = found_block(definition.blocks, id)->0;
            let panel = inspected(definition, id, problems);
            match block.head {
                HeadView::Observe { condition } => shows_detector(
                    panel,
                    definition,
                    id,
                    condition.family is Text,
                    condition.rule,
                    ModeView { wait: condition.wait, bodies: block.bodies },
                ),
                HeadView::If { condition } => shows_detector(
                    panel,
                    definition,
                    id,
                    condition.family is Text,
                    condition.rule,
                    ModeView { wait: condition.wait, bodies: block.bodies.skip(2) },
                ),
                HeadView::RepeatUntil { condition, max_iterations } => {
                    &&& shows_detector(
                        panel,
                        definition,
                        id,
                        condition.family is Text,
                        condition.rule,
                        ModeView { wait: condition.wait, bodies: block.bodies.skip(1) },
                    )
                    &&& panel is Text ==> panel->Text_0.repeat_until_max == Some(max_iterations)
                    &&& panel is Image ==> panel->Image_0.repeat_until_max == Some(max_iterations)
                },
                _ => panel is Flow && panel->Flow_0.block_id == id && panel->Flow_0.edit == (
                match block.head {
                    HeadView::Wait { duration_ms } => Some(FlowEdit::Wait { duration_ms }),
                    HeadView::RepeatN { count } => Some(FlowEdit::RepeatN { count }),
                    HeadView::WatchGroup { timeout_ms, cooldown_ms, .. } => Some(
                        FlowEdit::Watch { timeout_ms, cooldown_ms },
                    ),
                    _ => None,
                }),
            }
        }),
{
    let block = found_block(definition.blocks, id)->0;
    match block.head {
        HeadView::Observe { condition } => lemma_rules(definition, condition.rule),
        HeadView::If { condition } => lemma_rules(definition, condition.rule),
        HeadView::RepeatUntil { condition, .. } => lemma_rules(definition, condition.rule),
        _ => {},
    }
}

/// For a lane the inspector shows the rule that the lane watches and its place in the order of
/// priorities; how a lane waits cannot be edited.
pub proof fn inspector_shows_the_lane(
    definition: MacroDefinitionView,
    id: Seq<char>,
    problems: Seq<ValidationProblemView>,
)
    requires
        found_block(definition.blocks, id) is None,
        first_where(flatten(definition.blocks), watches(id)) is Some,
    ensures
        ({
            let group = first_where(flatten(definition.blocks), watches(id))->0;
            let panel = inspected(definition, id, problems);
            exists|k: int|
                0 <= k < lanes_of(group).len() && is_lane(id)(#[trigger] lanes_of(group)[k]) && {
                    let condition = lanes_of(group)[k].role->Lane_condition;
                    &&& shows_detector(
                        panel,
                        definition,
                        id,
                        condition.family is Text,
                        condition.rule,
                        ModeView { wait: WaitView::CheckNow, bodies: Seq::empty() },
                    )
                    &&& panel is Text ==> panel->Text_0.lane_priority == Some(k + 1)
                        && !panel->Text_0.supports_observe_mode
                    &&& panel is Image ==> panel->Image_0.lane_priority == Some(k + 1)
                        && !panel->Image_0.supports_observe_mode
                }
        }),
{
    let flat = flatten(definition.blocks);
    let at = lemma_first_where_found(flat, watches(id));
    let group = flat[at];
    lemma_first_index(lanes_of(group), is_lane(id));
    let k = first_index(lanes_of(group), is_lane(id))->0;
    lemma_rules(definition, lanes_of(group)[k].role->Lane_condition.rule);
    assert(is_lane(id)(lanes_of(group)[k]));
}

/// The problems that the inspector shows are those of the selected block, and no others.
pub proof fn inspector_shows_its_own_problems(problems: Seq<ValidationProblemView>, id: Seq<char>)
    ensures
        forall|i: int|
            0 <= i < problems.len() && (#[trigger] problems[i]).block_id == Some(id)
                ==> messages_for(problems, id).contains(problems[i].message),
        forall|k: int|
            0 <= k < messages_for(problems, id).len() ==> tells_of(
                problems,
                id,
                #[trigger] messages_for(problems, id)[k],
            ),
    decreases problems.len(),
{
    if problems.len() > 0 {
        let rest = problems.drop_last();
        let before = messages_for(rest, id);
        let now = messages_for(problems, id);
        inspector_shows_its_own_problems(rest, id);
        assert forall|i: int|
            0 <= i < problems.len() && (#[trigger] problems[i]).block_id == Some(
                id,
            ) implies now.contains(problems[i].message) by {
            if i < rest.len() {
                assert(rest[i] == problems[i]);
                let k = before.index_of(rest[i].message);
                assert(now[k] == problems[i].message);
            } else {
                assert(now[before.len() as int] == problems[i].message);
            }
        }
        assert forall|k: int| 0 <= k < now.len() implies tells_of(
            problems,
            id,
            #[trigger] now[k],
        ) by {
            if k < before.len() {
                assert(now[k] == before[k]);
                assert(tells_of(rest, id, before[k]));
                let i = choose|i: int|
                    0 <= i < rest.len() && (#[trigger] rest[i]).block_id == Some(id)
                        && rest[i].message == before[k];
                assert(problems[i] == rest[i]);
            } else {
                assert(problems[problems.len() - 1].message == now[k]);
            }
        }
    }
}

/// A message is that of a problem of a block.
pub open spec fn tells_of(
    problems: Seq<ValidationProblemView>,
    id: Seq<char>,
    message: Seq<char>,
) -> bool {
    exists|i: int|
        0 <= i < problems.len() && (#[trigger] problems[i]).block_id == Some(id)
            && problems[i].message == message
}

/// A value that was set is the value that the inspector shows of the block afterwards.
pub proof fn set_values_are_shown(
    before: EditedView,
    path: BlockPathView,
    command: CommandView,
    messages: Seq<Seq<char>>,
)
    requires
        changed_path(command) == Some(path),
        edited(before, command) is Ok,
    ensures
        ({
            let after = edited(before, command)->Ok_0;
            let block = block_at(after.definition.blocks, path)->Ok_0;
            let panel = block_panel(after.definition, path.block_id, block, messages);
            &&& block_at(after.definition.blocks, path) is Ok
            &&& match command {
                CommandView::SetWaitDuration { duration_ms, .. } => panel is Flow
                    && panel->Flow_0.edit == Some(FlowEdit::Wait { duration_ms }),
                CommandView::SetRepeatCount { count, .. } => panel is Flow && panel->Flow_0.edit
                    == Some(FlowEdit::RepeatN { count }),
                CommandView::SetWatchSettings { timeout_ms, cooldown_ms, .. } => panel is Flow
                    && panel->Flow_0.edit == Some(FlowEdit::Watch { timeout_ms, cooldown_ms }),
                CommandView::SetRepeatUntilMax { max_iterations, .. } => (panel is Text
                    ==> panel->Text_0.repeat_until_max == Some(max_iterations)) && (panel is Image
                    ==> panel->Image_0.repeat_until_max == Some(max_iterations)),
                CommandView::SetConditionMode { mode, .. } => (panel is Text
                    ==> panel->Text_0.observe_mode.wait == mode.wait) && (panel is Image
                    ==> panel->Image_0.observe_mode.wait == mode.wait),
                _ => true,
            }
        }),
{
    settings_are_read_back(before, command);
}

/// A number that is entered for a limit becomes the limit; the same number again leaves it; the
/// switch makes a limited one unlimited and an unlimited one limited by the number.
pub proof fn limits_are_what_is_entered(limit: Limit<u64>, value: u64)
    ensures
        limit is Unlimited && value == 5000 ==> limit_after(limit, value, false) is Unlimited,
        limit is Unlimited && value != 5000 ==> limit_after(limit, value, false) == Limit::Finite(
            value,
        ),
        limit is Finite ==> limit_after(limit, value, false) == Limit::Finite(value),
        limit is Finite ==> limit_after(limit, value, true) is Unlimited,
        limit is Unlimited && value == 5000 ==> limit_after(limit, value, true) == Limit::Finite(
            value,
        ),
{
}

/// The maximum of a loop is changed exactly where the number or the switch was: to the number, to
/// none where there was one, and to the number where there was none.
pub proof fn maximum_is_what_is_entered(
    id: Seq<char>,
    current: Limit<u64>,
    maximum: u64,
    toggled: bool,
)
    ensures
        ({
            let shown = match current {
                Limit::Finite(number) => number,
                Limit::Unlimited => 100u64,
            };
            let change = max_change(id, current, maximum, toggled);
            &&& change is None <==> !toggled && maximum == shown
            &&& !toggled && maximum != shown ==> change == Some(
                InspectorIntentView::SetRepeatUntilMax { block_id: id, max: Limit::Finite(maximum) },
            )
            &&& toggled && current is Finite ==> change == Some(
                InspectorIntentView::SetRepeatUntilMax { block_id: id, max: Limit::Unlimited },
            )
            &&& toggled && current is Unlimited ==> change == Some(
                InspectorIntentView::SetRepeatUntilMax { block_id: id, max: Limit::Finite(maximum) },
            )
        }),
{
}

/// The settings of a watch group are changed exactly where a number or the switch was, to what was
/// entered.
pub proof fn watch_settings_are_what_is_entered(
    id: Seq<char>,
    timeout_ms: Limit<u64>,
    cooldown_ms: u64,
    timeout: u64,
    cooldown: u64,
    toggled: bool,
)
    ensures
        ({
            let shown = match timeout_ms {
                Limit::Finite(number) => number,
                Limit::Unlimited => 5000u64,
            };
            let change = watch_change(id, timeout_ms, cooldown_ms, timeout, cooldown, toggled);
            &&& change is None <==> !toggled && timeout == shown && cooldown == cooldown_ms
            &&& change is Some ==> change->0 is SetWatchSettings
                && change->0->SetWatchSettings_block_id == id
                && change->0->SetWatchSettings_cooldown_ms == cooldown
            &&& change is Some && (!toggled || timeout_ms is Unlimited)
                ==> change->0->SetWatchSettings_timeout_ms == Limit::Finite(timeout)
            &&& toggled && timeout_ms is Finite
                ==> change->0->SetWatchSettings_timeout_ms is Unlimited
        }),
{
}

/// The next way to wait: from none to waiting for a match without an end, from there to waiting for
/// its end for as long, and from there to none again. A new timeout changes only the timeout of a
/// wait, and there is none to change where nothing waits.
pub proof fn ways_to_wait_come_round(mode: ModeView, timeout_ms: Limit<u64>)
    ensures
        mode.wait is CheckNow ==> mode_after(mode).wait is WaitForTrue && mode_after(
            mode,
        ).wait->WaitForTrue_timeout_ms is Unlimited && mode_after(mode).bodies.len() == 0,
        mode.wait is WaitForTrue ==> mode_after(mode).wait == (WaitView::WaitForFalse {
            timeout_ms: mode.wait->WaitForTrue_timeout_ms,
            outcome: mode.wait->WaitForTrue_outcome,
        }) && mode_after(mode).bodies == mode.bodies,
        mode.wait is WaitForFalse ==> mode_after(mode).wait is CheckNow && mode_after(
            mode,
        ).bodies.len() == 0,
        mode_with_timeout(mode, timeout_ms) is None <==> mode.wait is CheckNow,
        mode.wait is WaitForTrue ==> mode_with_timeout(mode, timeout_ms) == Some(
            ModeView {
                wait: WaitView::WaitForTrue {
                    timeout_ms,
                    outcome: mode.wait->WaitForTrue_outcome,
                },
                ..mode
            },
        ),
        mode.wait is WaitForFalse ==> mode_with_timeout(mode, timeout_ms) == Some(
            ModeView {
                wait: WaitView::WaitForFalse {
                    timeout_ms,
                    outcome: mode.wait->WaitForFalse_outcome,
                },
                ..mode
            },
        ),
{
}

proof fn lemma_scale_fault(scales: Seq<u16>)
    ensures
        scale_fault(scales) is None <==> (forall|i: int|
            0 <= i < scales.len() ==> #[trigger] scales[i] != 0) && scales.no_duplicates(),
    decreases scales.len(),
{
    if scales.len() > 0 {
        let rest = scales.drop_last();
        let n = rest.len() as int;
        lemma_scale_fault(rest);
        assert(scales.last() == scales[n]);
        assert(forall|i: int| 0 <= i < n ==> rest[i] == scales[i]);
        if scale_fault(scales) is None {
            assert forall|i: int, j: int| 0 <= i < scales.len() && 0 <= j < scales.len() && i
                != j implies scales[i] != scales[j] by {
                if i < n && j < n {
                    assert(rest[i] != rest[j]);
                } else if i < n {
                    assert(rest[i] == scales[i]);
                } else {
                    assert(rest[j] == scales[j]);
                }
            }
            assert forall|i: int| 0 <= i < scales.len() implies #[trigger] scales[i] != 0 by {
                if i < n {
                    assert(rest[i] != 0);
                }
            }
        }
        if (forall|i: int| 0 <= i < scales.len() ==> #[trigger] scales[i] != 0)
            && scales.no_duplicates() {
            assert forall|i: int| 0 <= i < n implies #[trigger] rest[i] != 0 by {
                assert(scales[i] != 0);
            }
            assert forall|i: int, j: int| 0 <= i < n && 0 <= j < n && i != j implies rest[i]
                != rest[j] by {
                assert(scales[i] != scales[j]);
            }
            assert(scales[n] != 0);
            if rest.contains(scales.last()) {
                let i = rest.index_of(scales.last());
                assert(scales[i] == scales[n]);
            }
        }
    }
}

/// The scales of an image rule are accepted exactly where there are one to sixteen of them, all
/// different and none of them zero.
pub proof fn accepted_scales_are_distinct(scales: Seq<u16>)
    ensures
        scales_fault(scales) is None <==> 1 <= scales.len() <= 16 && (forall|i: int|
            0 <= i < scales.len() ==> #[trigger] scales[i] != 0) && scales.no_duplicates(),
{
    lemma_scale_fault(scales);
}

/// What an observation can become waits as its label says: for a match or for its end, for as long
/// and with the same outcome as before where it waited before, and without an end where it did not.
pub proof fn offered_waits_keep_the_timeout(mode: ModeView)
    ensures
        waiting_true(mode).wait is WaitForTrue,
        waiting_false(mode).wait is WaitForFalse,
        mode.wait is CheckNow ==> waiting_true(mode).wait->WaitForTrue_timeout_ms is Unlimited
            && waiting_false(mode).wait->WaitForFalse_timeout_ms is Unlimited,
        mode.wait is WaitForTrue ==> waiting_true(mode) == mode && waiting_false(mode)
            == (ModeView {
            wait: WaitView::WaitForFalse {
                timeout_ms: mode.wait->WaitForTrue_timeout_ms,
                outcome: mode.wait->WaitForTrue_outcome,
            },
            ..mode
        }),
        mode.wait is WaitForFalse ==> waiting_false(mode) == mode && waiting_true(mode)
            == (ModeView {
            wait: WaitView::WaitForTrue {
                timeout_ms: mode.wait->WaitForFalse_timeout_ms,
                outcome: mode.wait->WaitForFalse_outcome,
            },
            ..mode
        }),
{
}

/// A replacement keeps the identity and the switch of the block that it replaces, and is what was
/// chosen: an observation at once by the chosen rule, a left click on the match of the chosen source,
/// a loop of two rounds, a wait of a quarter of a second, a note, or a good end. What the block holds
/// is kept until something else is chosen.
pub proof fn replacement_is_what_was_chosen(
    block: BlockView,
    path: BlockPathView,
    kind: ReplacementView,
)
    ensures
        ({
            let pending = replacement(block, path, kind);
            let new = pending.command->replacement;
            &&& pending.block_id == block.id && pending.command is ReplaceBlock
            &&& pending.command->ReplaceBlock_path == path
            &&& pending.command->children is KeepOwnedContents
            &&& new.id == block.id && new.enabled == block.enabled
            &&& match kind {
                ReplacementView::DetectorText(rule) => new.head is Observe
                    && new.head->Observe_condition.family is Text
                    && new.head->Observe_condition.rule == rule
                    && new.head->Observe_condition.source == block.id
                    && new.head->Observe_condition.wait is CheckNow && new.bodies.len() == 0,
                ReplacementView::DetectorImage(rule) => new.head is Observe
                    && new.head->Observe_condition.family is Image
                    && new.head->Observe_condition.rule == rule
                    && new.head->Observe_condition.source == block.id
                    && new.head->Observe_condition.wait is CheckNow && new.bodies.len() == 0,
                ReplacementView::ActionText(source) => new.head == (HeadView::Action {
                    action: ActionView::ClickTextMatch { source, button: MouseButton::Left },
                }) && new.bodies.len() == 0,
                ReplacementView::ActionImage(source) => new.head == (HeadView::Action {
                    action: ActionView::ClickImageMatch { source, button: MouseButton::Left },
                }) && new.bodies.len() == 0,
                ReplacementView::Loop => new.head == (HeadView::RepeatN { count: 2 }) && new.bodies
                    == seq![BodyView { role: RoleView::Loop, blocks: Seq::<BlockView>::empty() }],
                ReplacementView::Wait => new.head == (HeadView::Wait { duration_ms: 250 })
                    && new.bodies.len() == 0,
                ReplacementView::Note => new.head is Comment && new.bodies.len() == 0,
                ReplacementView::Stop => new.head is StopSuccess && new.bodies.len() == 0,
            }
        }),
{
}

/// What is entered while a conversion waits for its confirmation is what the conversion then does,
/// where it has such a value; nothing else of it changes.
pub proof fn entered_values_are_converted_to(pending: PendingView, edit: PendingEdit)
    ensures
        ({
            let after = pending_after(pending, edit);
            &&& after.block_id == pending.block_id && after.preview == pending.preview
            &&& match (edit, pending.command) {
                (
                    PendingEdit::Count(count),
                    CommandView::ConvertBlock { path, target: ConversionTargetView::RepeatN { .. } },
                ) => after.command == (CommandView::ConvertBlock {
                    path,
                    target: ConversionTargetView::RepeatN { count },
                }),
                (
                    PendingEdit::Children(children),
                    CommandView::ReplaceBlock { path, replacement, .. },
                ) => after.command == (CommandView::ReplaceBlock { path, replacement, children }),
                (
                    PendingEdit::Count(count),
                    CommandView::ReplaceBlock { path, replacement, children },
                ) => replacement.head is RepeatN ==> after.command == (CommandView::ReplaceBlock {
                    path,
                    replacement: BlockView { head: HeadView::RepeatN { count }, ..replacement },
                    children,
                }),
                (
                    PendingEdit::Duration(duration_ms),
                    CommandView::ReplaceBlock { path, replacement, children },
                ) => replacement.head is Wait ==> after.command == (CommandView::ReplaceBlock {
                    path,
                    replacement: BlockView { head: HeadView::Wait { duration_ms }, ..replacement },
                    children,
                }),
                (
                    PendingEdit::Text(text),
                    CommandView::ReplaceBlock { path, replacement, children },
                ) => replacement.head is Comment ==> after.command == (CommandView::ReplaceBlock {
                    path,
                    replacement: BlockView {
                        head: HeadView::Comment { text: text@ },
                        ..replacement
                    },
                    children,
                }),
                (
                    PendingEdit::Maximum(maximum),
                    CommandView::ConvertBlock {
                        path,
                        target: ConversionTargetView::RepeatUntil {
                            condition,
                            max_iterations: Limit::Finite(_),
                        },
                    },
                ) => after.command == (CommandView::ConvertBlock {
                    path,
                    target: ConversionTargetView::RepeatUntil {
                        condition,
                        max_iterations: Limit::Finite(maximum),
                    },
                }),
                _ => after == pending,
            }
        }),
{
}

/// A conversion can be confirmed only where its values hold: its point or region is one of the
/// macro's, its count, its maximum, its duration is not zero, its note is not blank, its rule is one
/// of the macro's, and what it goes by is observed.
pub proof fn confirmed_conversions_are_sensible(draft: EditorDraftView, command: CommandView)
    requires
        may_confirm(draft, command),
    ensures
        ({
            let definition = draft.definition;
            match command {
                CommandView::ConvertBlock { target, .. } => match target {
                    ConversionTargetView::ClickPoint { point_id, .. } => exists|i: int|
                        0 <= i < definition.points.len() && (#[trigger] definition.points[i]).id
                            == point_id,
                    ConversionTargetView::ClickRegion { region_id, .. } => exists|i: int|
                        0 <= i < definition.regions.len() && (#[trigger] definition.regions[i]).id
                            == region_id,
                    ConversionTargetView::RepeatN { count } => count > 0,
                    ConversionTargetView::RepeatUntil { max_iterations, .. } => max_iterations
                        != Limit::Finite(0u64),
                    _ => true,
                },
                CommandView::ReplaceBlock { replacement, .. } => match replacement.head {
                    HeadView::Wait { duration_ms } => duration_ms > 0,
                    HeadView::Comment { text } => !blank(text),
                    HeadView::RepeatN { count } => count > 0,
                    HeadView::Observe { condition } => if condition.family is Text {
                        exists|i: int|
                            0 <= i < definition.text_rules.len() && (
                            #[trigger] definition.text_rules[i]).id == condition.rule
                    } else {
                        exists|i: int|
                            0 <= i < definition.image_rules.len() && (
                            #[trigger] definition.image_rules[i]).id == condition.rule
                    },
                    _ => true,
                },
                _ => true,
            }
        }),
{
    let definition = draft.definition;
    match command {
        CommandView::ConvertBlock { target, .. } => {
            if let ConversionTargetView::ClickRegion { region_id, .. } = target {
                lemma_first_index(definition.regions, region_is(region_id));
                let i = first_index(definition.regions, region_is(region_id))->0;
                assert(definition.regions[i].id == region_id);
            }
        },
        CommandView::ReplaceBlock { replacement, .. } => {
            if let HeadView::Observe { condition } = replacement.head {
                lemma_rules(definition, condition.rule);
                lemma_first_index(definition.text_rules, text_rule_is(condition.rule));
                lemma_first_index(definition.image_rules, image_rule_is(condition.rule));
            }
        },
        _ => {},
    }
}

/// What an observation, a click on a match or a loop can become does what its label says: it is
/// checked at once, waited for, or waited for until it is gone; it clicks with the left or the right
/// button; a loop repeats twice, or until one of the observations, which it then checks at once, for
/// at most a hundred rounds.
pub proof fn offered_conversions_do_what_they_say(definition: MacroDefinitionView, block: BlockView)
    ensures
        ({
            let targets = family_targets(definition, block);
            let sources = sources_in(definition.blocks);
            match block.head {
                HeadView::Observe { condition } => {
                    let text = condition.family is Text;
                    &&& targets.len() == 3
                    &&& forall|i: int|
                        0 <= i < 3 ==> (if text {
                            (#[trigger] targets[i]).1 is TextObservation
                        } else {
                            targets[i].1 is ImageObservation
                        })
                    &&& targets[0].0 == (if text {
                        "Text: Check now"@
                    } else {
                        "Image: Check now"@
                    }) && observed_mode(targets[0].1).wait is CheckNow
                    &&& targets[1].0 == (if text {
                        "Text: Wait true"@
                    } else {
                        "Image: Wait true"@
                    }) && observed_mode(targets[1].1).wait is WaitForTrue
                    &&& targets[2].0 == (if text {
                        "Text: Wait false"@
                    } else {
                        "Image: Wait false"@
                    }) && observed_mode(targets[2].1).wait is WaitForFalse
                },
                HeadView::Action { action: ActionView::ClickTextMatch { .. } } => targets == seq![
                    (
                        "Text click: Left"@,
                        ConversionTargetView::ClickTextMatch { button: MouseButton::Left },
                    ),
                    (
                        "Text click: Right"@,
                        ConversionTargetView::ClickTextMatch { button: MouseButton::Right },
                    ),
                ],
                HeadView::Action { action: ActionView::ClickImageMatch { .. } } => targets == seq![
                    (
                        "Image click: Left"@,
                        ConversionTargetView::ClickImageMatch { button: MouseButton::Left },
                    ),
                    (
                        "Image click: Right"@,
                        ConversionTargetView::ClickImageMatch { button: MouseButton::Right },
                    ),
                ],
                HeadView::RepeatUntil { .. } => targets == seq![
                    ("Repeat N"@, ConversionTargetView::RepeatN { count: 2 }),
                ],
                HeadView::RepeatN { .. } => targets.len() == sources.len() && forall|i: int|
                    0 <= i < targets.len() ==> (#[trigger] targets[i]).1 is RepeatUntil && {
                        let (source, guard) = sources[i];
                        let condition = targets[i].1->condition.condition;
                        &&& targets[i].0 == "Repeat Until: "@ + source
                        &&& condition.source == source && condition.rule == guard.condition.rule
                        &&& condition.family == guard.condition.family
                        &&& condition.wait is CheckNow && targets[i].1->condition.bodies.len() == 0
                        &&& targets[i].1->RepeatUntil_max_iterations == Limit::Finite(100u64)
                    },
                _ => true,
            }
        }),
{
    let targets = family_targets(definition, block);
    if let HeadView::Observe { condition } = block.head {
        assert(targets.len() == 3);
    }
}

/// How an observation waits that a conversion makes.
pub open spec fn observed_mode(target: ConversionTargetView) -> ModeView {
    match target {
        ConversionTargetView::TextObservation { mode } => mode,
        ConversionTargetView::ImageObservation { mode } => mode,
        _ => ModeView { wait: WaitView::CheckNow, bodies: Seq::empty() },
    }
}

} // verus!
