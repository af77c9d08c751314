//! The contents of commands, and of what commands carry.
use crate::content::{clone_list, views};
use crate::editor_types::{
    BlockPathView, ChildDisposition, ConversionTarget, EditorCommand, IfBranch,
    InsertionTargetView, LoopDeletionChoice,
};
use crate::macro_engine::{
    condition_bodies, condition_view, mode_bodies, wait_view, AssetRefView, BlockView, BodyView,
    Condition, ConditionView, ImageRuleVerificationArtifactView, ImageRuleView, Limit, MouseButton,
    ObserveMode, RectRatio, TargetProfileView, TextRuleView, ValidationProblemView, WaitView,
};
use vstd::prelude::*;

verus! {

/// The contents of an [`ObserveMode`]: how it waits, and the body that its timeout may run.
#[verifier::ext_equal]
pub ghost struct ModeView {
    pub wait: WaitView,
    pub bodies: Seq<BodyView>,
}

impl View for ObserveMode {
    type V = ModeView;

    open spec fn view(&self) -> ModeView {
        ModeView { wait: wait_view(*self), bodies: mode_bodies(*self) }
    }
}

/// The contents of a [`Condition`]: what it observes, and the body that its timeout may run.
#[verifier::ext_equal]
pub ghost struct GuardView {
    pub condition: ConditionView,
    pub bodies: Seq<BodyView>,
}

impl View for Condition {
    type V = GuardView;

    open spec fn view(&self) -> GuardView {
        GuardView { condition: condition_view(*self), bodies: condition_bodies(*self) }
    }
}

/// The contents of a [`ConversionTarget`].
#[verifier::ext_equal]
pub ghost enum ConversionTargetView {
    TextObservation { mode: ModeView },
    ImageObservation { mode: ModeView },
    ClickTextMatch { button: MouseButton },
    ClickImageMatch { button: MouseButton },
    ClickPoint { point_id: Seq<char>, button: MouseButton },
    ClickRegion { region_id: Seq<char>, button: MouseButton },
    RepeatN { count: u32 },
    RepeatUntil { condition: GuardView, max_iterations: Limit<u64> },
}

impl View for ConversionTarget {
    type V = ConversionTargetView;

    open spec fn view(&self) -> ConversionTargetView {
        match *self {
            ConversionTarget::TextObservation { mode } => ConversionTargetView::TextObservation {
                mode: mode@,
            },
            ConversionTarget::ImageObservation { mode } => ConversionTargetView::ImageObservation {
                mode: mode@,
            },
            ConversionTarget::ClickTextMatch { button } => ConversionTargetView::ClickTextMatch {
                button,
            },
            ConversionTarget::ClickImageMatch { button } => ConversionTargetView::ClickImageMatch {
                button,
            },
            ConversionTarget::ClickPoint { point_id, button } => ConversionTargetView::ClickPoint {
                point_id: point_id@,
                button,
            },
            ConversionTarget::ClickRegion { region_id, button } => {
                ConversionTargetView::ClickRegion { region_id: region_id@, button }
            },
            ConversionTarget::RepeatN { count } => ConversionTargetView::RepeatN { count },
            ConversionTarget::RepeatUntil { condition, max_iterations } => {
                ConversionTargetView::RepeatUntil { condition: condition@, max_iterations }
            },
        }
    }
}

/// The contents of an [`EditorCommand`].
#[allow(inconsistent_fields)]
#[verifier::ext_equal]
pub ghost enum CommandView {
    InsertBlock { target: InsertionTargetView, block: BlockView },
    RemoveBlock { path: BlockPathView, loop_choice: Option<LoopDeletionChoice> },
    DuplicateBlock { source: BlockPathView, target: InsertionTargetView },
    SetBlockEnabled { path: BlockPathView, enabled: bool },
    SetLaneEnabled { group_id: Seq<char>, lane_id: Seq<char>, enabled: bool },
    ReorderSibling { path: BlockPathView, to_index: int },
    MoveBlock { source: BlockPathView, target: InsertionTargetView },
    TransferIfBranch { if_id: Seq<char>, branch: IfBranch, block_id: Seq<char>, to_index: int },
    MoveLane { group_id: Seq<char>, lane_id: Seq<char>, to_index: int },
    ConvertBlock { path: BlockPathView, target: ConversionTargetView },
    SetConditionMode { path: BlockPathView, mode: ModeView },
    SetWaitDuration { path: BlockPathView, duration_ms: u64 },
    SetRepeatCount { path: BlockPathView, count: u32 },
    SetRepeatUntilMax { path: BlockPathView, max_iterations: Limit<u64> },
    SetWatchSettings { path: BlockPathView, timeout_ms: Limit<u64>, cooldown_ms: u64 },
    ReplaceBlock { path: BlockPathView, replacement: BlockView, children: ChildDisposition },
    ReplaceTextRule { rule: TextRuleView },
    ReplaceImageRule { rule: ImageRuleView },
    RecaptureRegion { region_id: Seq<char>, rect: RectRatio },
    ReplaceTarget { target: TargetProfileView },
    ApplyTemplateRecapture { rule_id: Seq<char>, template: AssetRefView },
    ApplyImageVerification {
        rule_id: Seq<char>,
        verification: ImageRuleVerificationArtifactView,
    },
    ClearImageVerification { rule_id: Seq<char> },
    MarkValidated { runtime_problems: Seq<ValidationProblemView> },
    Undo,
    Redo,
}

impl View for EditorCommand {
    type V = CommandView;

    open spec fn view(&self) -> CommandView {
        match *self {
            EditorCommand::InsertBlock { target, block } => CommandView::InsertBlock {
                target: target@,
                block: block@,
            },
            EditorCommand::RemoveBlock { path, loop_choice } => CommandView::RemoveBlock {
                path: path@,
                loop_choice,
            },
            EditorCommand::DuplicateBlock { source, target } => CommandView::DuplicateBlock {
                source: source@,
                target: target@,
            },
            EditorCommand::SetBlockEnabled { path, enabled } => CommandView::SetBlockEnabled {
                path: path@,
                enabled,
            },
            EditorCommand::SetLaneEnabled { group_id, lane_id, enabled } => {
                CommandView::SetLaneEnabled { group_id: group_id@, lane_id: lane_id@, enabled }
            },
            EditorCommand::ReorderSibling { path, to_index } => CommandView::ReorderSibling {
                path: path@,
                to_index: to_index as int,
            },
            EditorCommand::MoveBlock { source, target } => CommandView::MoveBlock {
                source: source@,
                target: target@,
            },
            EditorCommand::TransferIfBranch { if_id, branch, block_id, to_index } => {
                CommandView::TransferIfBranch {
                    if_id: if_id@,
                    branch,
                    block_id: block_id@,
                    to_index: to_index as int,
                }
            },
            EditorCommand::MoveLane { group_id, lane_id, to_index } => CommandView::MoveLane {
                group_id: group_id@,
                lane_id: lane_id@,
                to_index: to_index as int,
            },
            EditorCommand::ConvertBlock { path, target } => CommandView::ConvertBlock {
                path: path@,
                target: target@,
            },
            EditorCommand::SetConditionMode { path, mode } => CommandView::SetConditionMode {
                path: path@,
                mode: mode@,
            },
            EditorCommand::SetWaitDuration { path, duration_ms } => CommandView::SetWaitDuration {
                path: path@,
                duration_ms,
            },
            EditorCommand::SetRepeatCount { path, count } => CommandView::SetRepeatCount {
                path: path@,
                count,
            },
            EditorCommand::SetRepeatUntilMax { path, max_iterations } => {
                CommandView::SetRepeatUntilMax { path: path@, max_iterations }
            },
            EditorCommand::SetWatchSettings { path, timeout_ms, cooldown_ms } => {
                CommandView::SetWatchSettings { path: path@, timeout_ms, cooldown_ms }
            },
            EditorCommand::ReplaceBlock { path, replacement, children } => {
                CommandView::ReplaceBlock { path: path@, replacement: replacement@, children }
            },
            EditorCommand::ReplaceTextRule { rule } => CommandView::ReplaceTextRule { rule: rule@ },
            EditorCommand::ReplaceImageRule { rule } => CommandView::ReplaceImageRule {
                rule: rule@,
            },
            EditorCommand::RecaptureRegion { region_id, rect } => CommandView::RecaptureRegion {
                region_id: region_id@,
                rect,
            },
            EditorCommand::ReplaceTarget { target } => CommandView::ReplaceTarget {
                target: target@,
            },
            EditorCommand::ApplyTemplateRecapture { rule_id, template } => {
                CommandView::ApplyTemplateRecapture { rule_id: rule_id@, template: template@ }
            },
            EditorCommand::ApplyImageVerification { rule_id, verification } => {
                CommandView::ApplyImageVerification {
                    rule_id: rule_id@,
                    verification: verification@,
                }
            },
            EditorCommand::ClearImageVerification { rule_id } => {
                CommandView::ClearImageVerification { rule_id: rule_id@ }
            },
            EditorCommand::MarkValidated { runtime_problems } => CommandView::MarkValidated {
                runtime_problems: views(runtime_problems@),
            },
            EditorCommand::Undo => CommandView::Undo,
            EditorCommand::Redo => CommandView::Redo,
        }
    }
}

impl Clone for ConversionTarget {
    fn clone(&self) -> (copy: Self)
        ensures
            copy@ == self@,
    {
        match self {
            ConversionTarget::TextObservation { mode } => ConversionTarget::TextObservation {
                mode: mode.clone(),
            },
            ConversionTarget::ImageObservation { mode } => ConversionTarget::ImageObservation {
                mode: mode.clone(),
            },
            ConversionTarget::ClickTextMatch { button } => ConversionTarget::ClickTextMatch {
                button: *button,
            },
            ConversionTarget::ClickImageMatch { button } => ConversionTarget::ClickImageMatch {
                button: *button,
            },
            ConversionTarget::ClickPoint { point_id, button } => ConversionTarget::ClickPoint {
                point_id: point_id.clone(),
                button: *button,
            },
            ConversionTarget::ClickRegion { region_id, button } => ConversionTarget::ClickRegion {
                region_id: region_id.clone(),
                button: *button,
            },
            ConversionTarget::RepeatN { count } => ConversionTarget::RepeatN { count: *count },
            ConversionTarget::RepeatUntil { condition, max_iterations } => ConversionTarget::RepeatUntil {
                condition: condition.clone(),
                max_iterations: *max_iterations,
            },
        }
    }
}

impl Clone for EditorCommand {
    fn clone(&self) -> (copy: Self)
        ensures
            copy@ == self@,
    {
        match self {
            EditorCommand::InsertBlock { target, block } => EditorCommand::InsertBlock {
                target: target.clone(),
                block: block.clone(),
            },
            EditorCommand::RemoveBlock { path, loop_choice } => EditorCommand::RemoveBlock {
                path: path.clone(),
                loop_choice: *loop_choice,
            },
            EditorCommand::DuplicateBlock { source, target } => EditorCommand::DuplicateBlock {
                source: source.clone(),
                target: target.clone(),
            },
            EditorCommand::SetBlockEnabled { path, enabled } => EditorCommand::SetBlockEnabled {
                path: path.clone(),
                enabled: *enabled,
            },
            EditorCommand::SetLaneEnabled { group_id, lane_id, enabled } => EditorCommand::SetLaneEnabled {
                group_id: group_id.clone(),
                lane_id: lane_id.clone(),
                enabled: *enabled,
            },
            EditorCommand::ReorderSibling { path, to_index } => EditorCommand::ReorderSibling {
                path: path.clone(),
                to_index: *to_index,
            },
            EditorCommand::MoveBlock { source, target } => EditorCommand::MoveBlock {
                source: source.clone(),
                target: target.clone(),
            },
            EditorCommand::TransferIfBranch { if_id, branch, block_id, to_index } => EditorCommand::TransferIfBranch {
                if_id: if_id.clone(),
                branch: *branch,
                block_id: block_id.clone(),
                to_index: *to_index,
            },
            EditorCommand::MoveLane { group_id, lane_id, to_index } => EditorCommand::MoveLane {
                group_id: group_id.clone(),
                lane_id: lane_id.clone(),
                to_index: *to_index,
            },
            EditorCommand::ConvertBlock { path, target } => EditorCommand::ConvertBlock {
                path: path.clone(),
                target: target.clone(),
            },
            EditorCommand::SetConditionMode { path, mode } => EditorCommand::SetConditionMode {
                path: path.clone(),
                mode: mode.clone(),
            },
            EditorCommand::SetWaitDuration { path, duration_ms } => EditorCommand::SetWaitDuration {
                path: path.clone(),
                duration_ms: *duration_ms,
            },
            EditorCommand::SetRepeatCount { path, count } => EditorCommand::SetRepeatCount {
                path: path.clone(),
                count: *count,
            },
            EditorCommand::SetRepeatUntilMax { path, max_iterations } => EditorCommand::SetRepeatUntilMax {
                path: path.clone(),
                max_iterations: *max_iterations,
            },
            EditorCommand::SetWatchSettings { path, timeout_ms, cooldown_ms } => EditorCommand::SetWatchSettings {
                path: path.clone(),
                timeout_ms: *timeout_ms,
                cooldown_ms: *cooldown_ms,
            },
            EditorCommand::ReplaceBlock { path, replacement, children } => EditorCommand::ReplaceBlock {
                path: path.clone(),
                replacement: replacement.clone(),
                children: *children,
            },
            EditorCommand::ReplaceTextRule { rule } => EditorCommand::ReplaceTextRule {
                rule: rule.clone(),
            },
            EditorCommand::ReplaceImageRule { rule } => EditorCommand::ReplaceImageRule {
                rule: rule.clone(),
            },
            EditorCommand::RecaptureRegion { region_id, rect } => EditorCommand::RecaptureRegion {
                region_id: region_id.clone(),
                rect: *rect,
            },
            EditorCommand::ReplaceTarget { target } => EditorCommand::ReplaceTarget {
                target: target.clone(),
            },
            EditorCommand::ApplyTemplateRecapture { rule_id, template } => EditorCommand::ApplyTemplateRecapture {
                rule_id: rule_id.clone(),
                template: template.clone(),
            },
            EditorCommand::ApplyImageVerification { rule_id, verification } => EditorCommand::ApplyImageVerification {
                rule_id: rule_id.clone(),
                verification: verification.clone(),
            },
            EditorCommand::ClearImageVerification { rule_id } => EditorCommand::ClearImageVerification {
                rule_id: rule_id.clone(),
            },
            EditorCommand::MarkValidated { runtime_problems } => EditorCommand::MarkValidated {
                runtime_problems: clone_list(runtime_problems),
            },
            EditorCommand::Undo => EditorCommand::Undo,
            EditorCommand::Redo => EditorCommand::Redo,
        }
    }
}

} // verus!
