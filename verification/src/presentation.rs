//! Words for blocks: the titles and summaries that every list of blocks shows.
use crate::macro_engine::{
    condition_view, head_view, wait_view, Action, ActionView, BlockKind, Condition, ConditionView,
    DetectorFamily, HeadView, Limit, MouseButton, ObserveMode, PassiveCondition, PassiveView,
    WaitView,
};
use crate::text::{decimal, decimal_text};
use vstd::prelude::*;
use vstd::string::StringExecFns;

verus! {

/// The four kinds of blocks that are told apart at a glance.
#[derive(Debug, Clone, Copy, PartialEq, Eq, Structural)]
pub enum BlockCategory {
    Observe,
    Decide,
    Repeat,
    Act,
}

pub open spec fn category(head: HeadView) -> BlockCategory {
    match head {
        HeadView::Observe { .. } => BlockCategory::Observe,
        HeadView::WatchGroup { .. } => BlockCategory::Observe,
        HeadView::If { .. } => BlockCategory::Decide,
        HeadView::RepeatN { .. } => BlockCategory::Repeat,
        HeadView::RepeatUntil { .. } => BlockCategory::Repeat,
        HeadView::Continuous => BlockCategory::Repeat,
        _ => BlockCategory::Act,
    }
}

pub fn block_category(kind: &BlockKind) -> (result: BlockCategory)
    ensures
        result == category(head_view(*kind)),
{
    match kind {
        BlockKind::Observe { .. } => BlockCategory::Observe,
        BlockKind::WatchGroup { .. } => BlockCategory::Observe,
        BlockKind::If { .. } => BlockCategory::Decide,
        BlockKind::RepeatN { .. } => BlockCategory::Repeat,
        BlockKind::RepeatUntil { .. } => BlockCategory::Repeat,
        BlockKind::Continuous { .. } => BlockCategory::Repeat,
        _ => BlockCategory::Act,
    }
}

pub open spec fn wait_verb(wait: WaitView) -> Seq<char> {
    match wait {
        WaitView::CheckNow => "Check"@,
        WaitView::WaitForTrue { .. } => "Wait for"@,
        WaitView::WaitForFalse { .. } => "Wait until absent"@,
    }
}

pub fn observe_verb(mode: &ObserveMode) -> (verb: &'static str)
    ensures
        verb@ == wait_verb(wait_view(*mode)),
{
    match mode {
        ObserveMode::CheckNow => "Check",
        ObserveMode::WaitForTrue { .. } => "Wait for",
        ObserveMode::WaitForFalse { .. } => "Wait until absent",
    }
}

/// What a condition observes, by the rule it uses.
pub open spec fn condition_text(condition: ConditionView) -> Seq<char> {
    wait_verb(condition.wait) + (match condition.family {
        DetectorFamily::Text => " text | "@,
        DetectorFamily::Image => " image | "@,
    }) + condition.rule
}

pub fn condition_summary(condition: &Condition) -> (summary: String)
    ensures
        summary@ == condition_text(condition_view(*condition)),
{
    match condition {
        Condition::Text { rule_id, mode, .. } => {
            let mut summary = observe_verb(mode).to_owned();
            summary.append(" text | ");
            summary.append(rule_id.as_str());
            summary
        },
        Condition::Image { rule_id, mode, .. } => {
            let mut summary = observe_verb(mode).to_owned();
            summary.append(" image | ");
            summary.append(rule_id.as_str());
            summary
        },
    }
}

pub open spec fn condition_title(condition: ConditionView) -> Seq<char> {
    match (condition.family, condition.wait) {
        (DetectorFamily::Text, WaitView::CheckNow) => "Check text"@,
        (DetectorFamily::Text, WaitView::WaitForTrue { .. }) => "Wait for text"@,
        (DetectorFamily::Text, WaitView::WaitForFalse { .. }) => "Wait until text is absent"@,
        (DetectorFamily::Image, WaitView::CheckNow) => "Check image"@,
        (DetectorFamily::Image, WaitView::WaitForTrue { .. }) => "Wait for image"@,
        (DetectorFamily::Image, WaitView::WaitForFalse { .. }) => "Wait until image is absent"@,
    }
}

fn observation_title(condition: &Condition) -> (title: &'static str)
    ensures
        title@ == condition_title(condition_view(*condition)),
{
    match condition {
        Condition::Text { mode, .. } => match mode {
            ObserveMode::CheckNow => "Check text",
            ObserveMode::WaitForTrue { .. } => "Wait for text",
            ObserveMode::WaitForFalse { .. } => "Wait until text is absent",
        },
        Condition::Image { mode, .. } => match mode {
            ObserveMode::CheckNow => "Check image",
            ObserveMode::WaitForTrue { .. } => "Wait for image",
            ObserveMode::WaitForFalse { .. } => "Wait until image is absent",
        },
    }
}

/// What a lane observes, by the rule it uses.
pub open spec fn passive_text(condition: PassiveView) -> Seq<char> {
    (match condition.family {
        DetectorFamily::Text => "Watch text | "@,
        DetectorFamily::Image => "Watch image | "@,
    }) + condition.rule
}

pub fn passive_condition_summary(condition: &PassiveCondition) -> (summary: String)
    ensures
        summary@ == passive_text(condition@),
{
    match condition {
        PassiveCondition::Text { rule_id, .. } => {
            let mut summary = "Watch text | ".to_owned();
            summary.append(rule_id.as_str());
            summary
        },
        PassiveCondition::Image { rule_id, .. } => {
            let mut summary = "Watch image | ".to_owned();
            summary.append(rule_id.as_str());
            summary
        },
    }
}

pub open spec fn button_word(button: MouseButton) -> Seq<char> {
    match button {
        MouseButton::Left => "Left"@,
        MouseButton::Right => "Right"@,
    }
}

pub fn button_text(button: MouseButton) -> (text: &'static str)
    ensures
        text@ == button_word(button),
{
    match button {
        MouseButton::Left => "Left",
        MouseButton::Right => "Right",
    }
}

pub open spec fn action_text(action: ActionView) -> Seq<char> {
    match action {
        ActionView::ClickTextMatch { button, .. } => button_word(button) + "-click text match"@,
        ActionView::ClickImageMatch { button, .. } => button_word(button) + "-click image match"@,
        ActionView::ClickPoint { point_id, button } => button_word(button) + "-click point | "@
            + point_id,
        ActionView::ClickRegion { region_id, button } => button_word(button) + "-click region | "@
            + region_id,
        ActionView::MoveOnly { .. } => "Move pointer without clicking"@,
    }
}

pub fn action_presentation(action: &Action) -> (text: String)
    ensures
        text@ == action_text(action@),
{
    match action {
        Action::ClickTextMatch { button, .. } => {
            let mut text = button_text(*button).to_owned();
            text.append("-click text match");
            text
        },
        Action::ClickImageMatch { button, .. } => {
            let mut text = button_text(*button).to_owned();
            text.append("-click image match");
            text
        },
        Action::ClickPoint { point_id, button } => {
            let mut text = button_text(*button).to_owned();
            text.append("-click point | ");
            text.append(point_id.as_str());
            text
        },
        Action::ClickRegion { region_id, button } => {
            let mut text = button_text(*button).to_owned();
            text.append("-click region | ");
            text.append(region_id.as_str());
            text
        },
        Action::MoveOnly { .. } => "Move pointer without clicking".to_owned(),
    }
}

pub open spec fn limit_text(limit: Limit<u64>) -> Seq<char> {
    match limit {
        Limit::Finite(value) => decimal(value as nat),
        Limit::Unlimited => "Unlimited"@,
    }
}

pub fn format_limit(limit: &Limit<u64>) -> (text: String)
    ensures
        text@ == limit_text(*limit),
{
    match limit {
        Limit::Finite(value) => decimal_text(*value),
        Limit::Unlimited => "Unlimited".to_owned(),
    }
}

/// Whole seconds are shown as seconds, everything else as milliseconds.
pub open spec fn duration_text(duration_ms: u64) -> Seq<char> {
    if duration_ms >= 1000 && duration_ms % 1000 == 0 {
        decimal((duration_ms / 1000) as nat) + " seconds"@
    } else {
        decimal(duration_ms as nat) + " ms"@
    }
}

pub fn format_duration(duration_ms: u64) -> (text: String)
    ensures
        text@ == duration_text(duration_ms),
{
    if duration_ms >= 1_000 && duration_ms % 1_000 == 0 {
        let mut text = decimal_text(duration_ms / 1_000);
        text.append(" seconds");
        text
    } else {
        let mut text = decimal_text(duration_ms);
        text.append(" ms");
        text
    }
}

/// The number of lanes of a block.
pub open spec fn lane_total(kind: BlockKind) -> nat {
    match kind {
        BlockKind::WatchGroup { group } => group.lanes@.len(),
        _ => 0,
    }
}

/// What a block does, in one line.
pub open spec fn summary_text(head: HeadView, lanes: nat) -> Seq<char> {
    match head {
        HeadView::Observe { condition } => condition_text(condition),
        HeadView::Action { action } => action_text(action),
        HeadView::If { condition } => condition_text(condition),
        HeadView::Wait { duration_ms } => duration_text(duration_ms),
        HeadView::RepeatN { count } => decimal(count as nat) + " iterations"@,
        HeadView::RepeatUntil { condition, max_iterations } => condition_text(condition) + " | "@
            + limit_text(max_iterations) + " iterations"@,
        HeadView::Continuous => "Until stopped"@,
        HeadView::WatchGroup { timeout_ms, .. } => decimal(lanes) + " lanes | "@ + limit_text(
            timeout_ms,
        ) + " timeout"@,
        HeadView::StopSuccess => "Complete successfully"@,
        HeadView::StopError { message } => message,
        HeadView::Comment { text } => text,
    }
}

pub fn block_summary(kind: &BlockKind) -> (summary: String)
    ensures
        summary@ == summary_text(head_view(*kind), lane_total(*kind)),
{
    match kind {
        BlockKind::Observe { condition } => condition_summary(condition),
        BlockKind::Action { action } => action_presentation(action),
        BlockKind::If { condition, .. } => condition_summary(condition),
        BlockKind::Wait { duration_ms } => format_duration(*duration_ms),
        BlockKind::RepeatN { count, .. } => {
            let mut text = decimal_text(*count as u64);
            text.append(" iterations");
            text
        },
        BlockKind::RepeatUntil { condition, max_iterations, .. } => {
            let mut text = condition_summary(condition);
            let limit = format_limit(max_iterations);
            text.append(" | ");
            text.append(limit.as_str());
            text.append(" iterations");
            text
        },
        BlockKind::Continuous { .. } => "Until stopped".to_owned(),
        BlockKind::WatchGroup { group } => {
            let mut text = decimal_text(group.lanes.len() as u64);
            let limit = format_limit(&group.timeout_ms);
            text.append(" lanes | ");
            text.append(limit.as_str());
            text.append(" timeout");
            text
        },
        BlockKind::StopSuccess => "Complete successfully".to_owned(),
        BlockKind::StopError { message } => message.clone(),
        BlockKind::Comment { text } => text.clone(),
    }
}

/// What a block is called on the canvas and in the list of steps.
pub open spec fn title_text(head: HeadView) -> Seq<char> {
    match head {
        HeadView::Observe { condition } => condition_title(condition),
        HeadView::Action { action } => action_text(action),
        HeadView::If { .. } => "If"@,
        HeadView::Wait { .. } => "Wait"@,
        HeadView::RepeatN { .. } => "Repeat"@,
        HeadView::RepeatUntil { .. } => "Repeat Until"@,
        HeadView::Continuous => "Continuous Loop"@,
        HeadView::WatchGroup { .. } => "Watch Group"@,
        HeadView::StopSuccess => "Stop"@,
        HeadView::StopError { .. } => "Stop Error"@,
        HeadView::Comment { .. } => "Note"@,
    }
}

/// The title and the summary of a block.
pub fn block_presentation(kind: &BlockKind) -> (words: (String, String))
    ensures
        words.0@ == title_text(head_view(*kind)),
        words.1@ == summary_text(head_view(*kind), lane_total(*kind)),
{
    let summary = block_summary(kind);
    let title = match kind {
        BlockKind::Observe { condition } => observation_title(condition).to_owned(),
        BlockKind::Action { action } => action_presentation(action),
        BlockKind::If { .. } => "If".to_owned(),
        BlockKind::Wait { .. } => "Wait".to_owned(),
        BlockKind::RepeatN { .. } => "Repeat".to_owned(),
        BlockKind::RepeatUntil { .. } => "Repeat Until".to_owned(),
        BlockKind::Continuous { .. } => "Continuous Loop".to_owned(),
        BlockKind::WatchGroup { .. } => "Watch Group".to_owned(),
        BlockKind::StopSuccess => "Stop".to_owned(),
        BlockKind::StopError { .. } => "Stop Error".to_owned(),
        BlockKind::Comment { .. } => "Note".to_owned(),
    };
    (title, summary)
}

} // verus!
