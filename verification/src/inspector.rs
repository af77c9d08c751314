//! The inspector: the settings of the selected block, and the edits it asks for.
use crate::block_edit::head_condition;
use crate::command_view::ModeView;
use crate::content::{clone_option, option_view, views, Alike};
use crate::edits::is_lane;
use crate::macro_engine::{
    head_view, lane_view, AssetRef, AssetRefView, Block, BlockKind, BlockView, Condition,
    DetectorFamily, F32Bits, F64Bits, HeadView, ImageRule, ImageRuleView, Limit, MacroDefinition,
    MacroDefinitionView, MatchSelectionPolicy, ObserveMode, OutcomeView, PassiveCondition,
    PreprocessProfile, TextMatchMode, TextRule, TextRuleView, TimeoutOutcome, ValidationProblem,
    ValidationProblemView, WaitView, WatchLane, DEFAULT_MAX_SCALES,
};
use crate::places::{lanes_of, lemma_lane_of_group, lemma_lanes_of, watches};
use crate::presentation::{format_limit, limit_text};
use crate::rule_edits::{image_rule_is, image_rule_position, text_rule_is, text_rule_position};
use crate::text::{append_decimal, decimal, decimal_text, same_text};
use crate::tree::{
    find_block, first_index, first_where, flatten, found_block, lemma_first_where_step, walk,
};
use vstd::prelude::*;
use vstd::string::StringExecFns;

verus! {

broadcast use crate::macro_engine::group_block_views;

/// What the inspector says while nothing is selected.
pub const EMPTY_INSPECTOR_PROMPT: &'static str = "Select a canonical canvas block.";

/// What the inspector asks the page to do.
#[allow(inconsistent_fields)]
#[derive(Debug, Clone, PartialEq)]
pub enum InspectorIntent {
    TestOcr { block_id: String },
    TestImage { block_id: String },
    RecaptureRegion { region_id: String },
    RecaptureTemplate { rule_id: String },
    CaptureImageNegative { block_id: String },
    ReplaceTextRule { rule: TextRule },
    ReplaceImageRule { rule: ImageRule },
    SetConditionMode { block_id: String, mode: ObserveMode },
    SetRepeatUntilMax { block_id: String, max: Limit<u64> },
    SetWaitDuration { block_id: String, duration_ms: u64 },
    SetRepeatCount { block_id: String, count: u32 },
    SetWatchSettings { block_id: String, timeout_ms: Limit<u64>, cooldown_ms: u64 },
    InvalidEdit { message: String },
}

/// The contents of an [`InspectorIntent`].
#[allow(inconsistent_fields)]
#[verifier::ext_equal]
pub ghost enum InspectorIntentView {
    TestOcr { block_id: Seq<char> },
    TestImage { block_id: Seq<char> },
    RecaptureRegion { region_id: Seq<char> },
    RecaptureTemplate { rule_id: Seq<char> },
    CaptureImageNegative { block_id: Seq<char> },
    ReplaceTextRule { rule: TextRuleView },
    ReplaceImageRule { rule: ImageRuleView },
    SetConditionMode { block_id: Seq<char>, mode: ModeView },
    SetRepeatUntilMax { block_id: Seq<char>, max: Limit<u64> },
    SetWaitDuration { block_id: Seq<char>, duration_ms: u64 },
    SetRepeatCount { block_id: Seq<char>, count: u32 },
    SetWatchSettings { block_id: Seq<char>, timeout_ms: Limit<u64>, cooldown_ms: u64 },
    InvalidEdit { message: Seq<char> },
}

impl View for InspectorIntent {
    type V = InspectorIntentView;

    open spec fn view(&self) -> InspectorIntentView {
        match *self {
            InspectorIntent::TestOcr { block_id } => InspectorIntentView::TestOcr {
                block_id: block_id@,
            },
            InspectorIntent::TestImage { block_id } => InspectorIntentView::TestImage {
                block_id: block_id@,
            },
            InspectorIntent::RecaptureRegion { region_id } => {
                InspectorIntentView::RecaptureRegion { region_id: region_id@ }
            },
            InspectorIntent::RecaptureTemplate { rule_id } => {
                InspectorIntentView::RecaptureTemplate { rule_id: rule_id@ }
            },
            InspectorIntent::CaptureImageNegative { block_id } => {
                InspectorIntentView::CaptureImageNegative { block_id: block_id@ }
            },
            InspectorIntent::ReplaceTextRule { rule } => InspectorIntentView::ReplaceTextRule {
                rule: rule@,
            },
            InspectorIntent::ReplaceImageRule { rule } => InspectorIntentView::ReplaceImageRule {
                rule: rule@,
            },
            InspectorIntent::SetConditionMode { block_id, mode } => {
                InspectorIntentView::SetConditionMode { block_id: block_id@, mode: mode@ }
            },
            InspectorIntent::SetRepeatUntilMax { block_id, max } => {
                InspectorIntentView::SetRepeatUntilMax { block_id: block_id@, max }
            },
            InspectorIntent::SetWaitDuration { block_id, duration_ms } => {
                InspectorIntentView::SetWaitDuration { block_id: block_id@, duration_ms }
            },
            InspectorIntent::SetRepeatCount { block_id, count } => {
                InspectorIntentView::SetRepeatCount { block_id: block_id@, count }
            },
            InspectorIntent::SetWatchSettings { block_id, timeout_ms, cooldown_ms } => {
                InspectorIntentView::SetWatchSettings {
                    block_id: block_id@,
                    timeout_ms,
                    cooldown_ms,
                }
            },
            InspectorIntent::InvalidEdit { message } => InspectorIntentView::InvalidEdit {
                message: message@,
            },
        }
    }
}

/// The settings of a text detector.
#[derive(Debug, Clone, PartialEq)]
pub struct TextInspector {
    pub block_id: String,
    pub region_id: String,
    pub expected: String,
    pub mode: String,
    pub threshold: F64Bits,
    pub normalization: String,
    pub profile: String,
    pub poll_interval_ms: u64,
    pub timeout: String,
    pub policy: String,
    pub actions: Vec<InspectorIntent>,
    pub problems: Vec<String>,
    pub lane_priority: Option<usize>,
    pub flow_fields: Vec<(String, String)>,
    pub rule: TextRule,
    pub observe_mode: ObserveMode,
    pub repeat_until_max: Option<Limit<u64>>,
    pub supports_observe_mode: bool,
}

/// The contents of a [`TextInspector`].
#[verifier::ext_equal]
pub ghost struct TextInspectorView {
    pub block_id: Seq<char>,
    pub region_id: Seq<char>,
    pub expected: Seq<char>,
    pub mode: Seq<char>,
    pub threshold: F64Bits,
    pub normalization: Seq<char>,
    pub profile: Seq<char>,
    pub poll_interval_ms: u64,
    pub timeout: Seq<char>,
    pub policy: Seq<char>,
    pub actions: Seq<InspectorIntentView>,
    pub problems: Seq<Seq<char>>,
    pub lane_priority: Option<int>,
    pub flow_fields: Seq<(Seq<char>, Seq<char>)>,
    pub rule: TextRuleView,
    pub observe_mode: ModeView,
    pub repeat_until_max: Option<Limit<u64>>,
    pub supports_observe_mode: bool,
}

pub open spec fn priority_view(priority: Option<usize>) -> Option<int> {
    match priority {
        Some(priority) => Some(priority as int),
        None => None,
    }
}

impl View for TextInspector {
    type V = TextInspectorView;

    open spec fn view(&self) -> TextInspectorView {
        TextInspectorView {
            block_id: self.block_id@,
            region_id: self.region_id@,
            expected: self.expected@,
            mode: self.mode@,
            threshold: self.threshold,
            normalization: self.normalization@,
            profile: self.profile@,
            poll_interval_ms: self.poll_interval_ms,
            timeout: self.timeout@,
            policy: self.policy@,
            actions: views(self.actions@),
            problems: views(self.problems@),
            lane_priority: priority_view(self.lane_priority),
            flow_fields: views(self.flow_fields@),
            rule: self.rule@,
            observe_mode: self.observe_mode@,
            repeat_until_max: self.repeat_until_max,
            supports_observe_mode: self.supports_observe_mode,
        }
    }
}

/// The settings of an image detector.
#[derive(Debug, Clone, PartialEq)]
pub struct ImageInspector {
    pub block_id: String,
    pub region_id: String,
    pub template_id: String,
    pub scales_percent: Vec<u16>,
    pub threshold: F32Bits,
    pub policy: String,
    pub stable_frames: u8,
    pub runner_up_margin: F32Bits,
    pub poll_interval_ms: u64,
    pub timeout: String,
    pub actions: Vec<InspectorIntent>,
    pub problems: Vec<String>,
    pub lane_priority: Option<usize>,
    pub flow_fields: Vec<(String, String)>,
    pub rule: ImageRule,
    pub observe_mode: ObserveMode,
    pub repeat_until_max: Option<Limit<u64>>,
    pub available_templates: Vec<AssetRef>,
    pub supports_observe_mode: bool,
}

/// The contents of an [`ImageInspector`].
#[verifier::ext_equal]
pub ghost struct ImageInspectorView {
    pub block_id: Seq<char>,
    pub region_id: Seq<char>,
    pub template_id: Seq<char>,
    pub scales_percent: Seq<u16>,
    pub threshold: F32Bits,
    pub policy: Seq<char>,
    pub stable_frames: u8,
    pub runner_up_margin: F32Bits,
    pub poll_interval_ms: u64,
    pub timeout: Seq<char>,
    pub actions: Seq<InspectorIntentView>,
    pub problems: Seq<Seq<char>>,
    pub lane_priority: Option<int>,
    pub flow_fields: Seq<(Seq<char>, Seq<char>)>,
    pub rule: ImageRuleView,
    pub observe_mode: ModeView,
    pub repeat_until_max: Option<Limit<u64>>,
    pub available_templates: Seq<AssetRefView>,
    pub supports_observe_mode: bool,
}

impl View for ImageInspector {
    type V = ImageInspectorView;

    open spec fn view(&self) -> ImageInspectorView {
        ImageInspectorView {
            block_id: self.block_id@,
            region_id: self.region_id@,
            template_id: self.template_id@,
            scales_percent: self.scales_percent@,
            threshold: self.threshold,
            policy: self.policy@,
            stable_frames: self.stable_frames,
            runner_up_margin: self.runner_up_margin,
            poll_interval_ms: self.poll_interval_ms,
            timeout: self.timeout@,
            actions: views(self.actions@),
            problems: views(self.problems@),
            lane_priority: priority_view(self.lane_priority),
            flow_fields: views(self.flow_fields@),
            rule: self.rule@,
            observe_mode: self.observe_mode@,
            repeat_until_max: self.repeat_until_max,
            available_templates: views(self.available_templates@),
            supports_observe_mode: self.supports_observe_mode,
        }
    }
}

/// What can be edited of a block without a detector.
#[derive(Debug, Clone, Copy, PartialEq, Eq, Structural)]
pub enum FlowEdit {
    Wait { duration_ms: u64 },
    RepeatN { count: u32 },
    Watch { timeout_ms: Limit<u64>, cooldown_ms: u64 },
}

/// The settings of a block without a detector.
#[derive(Debug, Clone, PartialEq, Eq)]
pub struct FlowInspector {
    pub block_id: String,
    pub kind: String,
    pub fields: Vec<(String, String)>,
    pub problems: Vec<String>,
    pub edit: Option<FlowEdit>,
}

/// The contents of a [`FlowInspector`].
#[verifier::ext_equal]
pub ghost struct FlowInspectorView {
    pub block_id: Seq<char>,
    pub kind: Seq<char>,
    pub fields: Seq<(Seq<char>, Seq<char>)>,
    pub problems: Seq<Seq<char>>,
    pub edit: Option<FlowEdit>,
}

impl View for FlowInspector {
    type V = FlowInspectorView;

    open spec fn view(&self) -> FlowInspectorView {
        FlowInspectorView {
            block_id: self.block_id@,
            kind: self.kind@,
            fields: views(self.fields@),
            problems: views(self.problems@),
            edit: self.edit,
        }
    }
}

/// What the inspector shows.
#[derive(Debug, Clone, PartialEq)]
pub enum InspectorProjection {
    Text(TextInspector),
    Image(ImageInspector),
    Flow(FlowInspector),
    Empty,
}

/// The contents of an [`InspectorProjection`].
#[verifier::ext_equal]
pub ghost enum InspectorView {
    Text(TextInspectorView),
    Image(ImageInspectorView),
    Flow(FlowInspectorView),
    Empty,
}

impl View for InspectorProjection {
    type V = InspectorView;

    open spec fn view(&self) -> InspectorView {
        match *self {
            InspectorProjection::Text(panel) => InspectorView::Text(panel@),
            InspectorProjection::Image(panel) => InspectorView::Image(panel@),
            InspectorProjection::Flow(panel) => InspectorView::Flow(panel@),
            InspectorProjection::Empty => InspectorView::Empty,
        }
    }
}

/// The block that a problem leads to.
pub fn problem_navigation_target(problems: &[ValidationProblem], index: usize) -> (target: Option<
    String,
>)
    ensures
        option_view(target) == (if index < problems@.len() {
            problems@[index as int]@.block_id
        } else {
            None
        }),
{
    if index < problems.len() {
        clone_option(&problems[index].block_id)
    } else {
        None
    }
}

pub open spec fn on_off_word(value: bool) -> Seq<char> {
    if value {
        "on"@
    } else {
        "off"@
    }
}

fn on_off(value: bool) -> (word: &'static str)
    ensures
        word@ == on_off_word(value),
{
    if value {
        "on"
    } else {
        "off"
    }
}

pub open spec fn mode_word(wait: WaitView) -> Seq<char> {
    match wait {
        WaitView::CheckNow => "Check now"@,
        WaitView::WaitForTrue { .. } => "Wait for match"@,
        WaitView::WaitForFalse { .. } => "Wait for disappearance"@,
    }
}

fn mode_label(mode: &ObserveMode) -> (label: &'static str)
    ensures
        label@ == mode_word(mode@.wait),
{
    match mode {
        ObserveMode::CheckNow => "Check now",
        ObserveMode::WaitForTrue { .. } => "Wait for match",
        ObserveMode::WaitForFalse { .. } => "Wait for disappearance",
    }
}

/// The timeout that is shown: that of the wait, or else that of the rule.
pub open spec fn timeout_text(wait: WaitView, rule_timeout: Limit<u64>) -> Seq<char> {
    match wait {
        WaitView::CheckNow => limit_text(rule_timeout),
        WaitView::WaitForTrue { timeout_ms, .. } => limit_text(timeout_ms),
        WaitView::WaitForFalse { timeout_ms, .. } => limit_text(timeout_ms),
    }
}

fn shown_timeout(mode: &ObserveMode, rule_timeout: &Limit<u64>) -> (text: String)
    ensures
        text@ == timeout_text(mode@.wait, *rule_timeout),
{
    match mode {
        ObserveMode::CheckNow => format_limit(rule_timeout),
        ObserveMode::WaitForTrue { timeout_ms, .. } => format_limit(timeout_ms),
        ObserveMode::WaitForFalse { timeout_ms, .. } => format_limit(timeout_ms),
    }
}

pub open spec fn profile_name(profile: PreprocessProfile) -> Seq<char> {
    match profile {
        PreprocessProfile::Original => "Original"@,
        PreprocessProfile::Grayscale => "Grayscale"@,
        PreprocessProfile::HighContrast => "HighContrast"@,
        PreprocessProfile::SmallText => "SmallText"@,
    }
}

pub fn preprocess_label(profile: PreprocessProfile) -> (name: &'static str)
    ensures
        name@ == profile_name(profile),
{
    match profile {
        PreprocessProfile::Original => "Original",
        PreprocessProfile::Grayscale => "Grayscale",
        PreprocessProfile::HighContrast => "HighContrast",
        PreprocessProfile::SmallText => "SmallText",
    }
}

pub open spec fn policy_name(policy: MatchSelectionPolicy) -> Seq<char> {
    match policy {
        MatchSelectionPolicy::ExactlyOne => "ExactlyOne"@,
        MatchSelectionPolicy::HighestScore => "HighestScore"@,
        MatchSelectionPolicy::FirstReadingOrder => "FirstReadingOrder"@,
        MatchSelectionPolicy::Topmost => "Topmost"@,
        MatchSelectionPolicy::Bottommost => "Bottommost"@,
    }
}

pub fn policy_label(policy: MatchSelectionPolicy) -> (name: &'static str)
    ensures
        name@ == policy_name(policy),
{
    match policy {
        MatchSelectionPolicy::ExactlyOne => "ExactlyOne",
        MatchSelectionPolicy::HighestScore => "HighestScore",
        MatchSelectionPolicy::FirstReadingOrder => "FirstReadingOrder",
        MatchSelectionPolicy::Topmost => "Topmost",
        MatchSelectionPolicy::Bottommost => "Bottommost",
    }
}

/// What of a block's problems the inspector shows: the messages of those that name it.
pub open spec fn messages_for(problems: Seq<ValidationProblemView>, id: Seq<char>) -> Seq<Seq<char>>
    decreases problems.len(),
{
    if problems.len() == 0 {
        Seq::empty()
    } else {
        let rest = messages_for(problems.drop_last(), id);
        if problems.last().block_id == Some(id) {
            rest.push(problems.last().message)
        } else {
            rest
        }
    }
}

fn selected_problems(problems: &[ValidationProblem], id: &str) -> (messages: Vec<String>)
    ensures
        views(messages@) == messages_for(views(problems@), id@),
{
    let mut messages: Vec<String> = Vec::new();
    let ghost all = views(problems@);
    let mut i: usize = 0;
    assert(views(messages@) =~= messages_for(all.take(0), id@));
    while i < problems.len()
        invariant
            all == views(problems@),
            i <= problems@.len(),
            views(messages@) == messages_for(all.take(i as int), id@),
        decreases problems@.len() - i,
    {
        let ghost before = views(messages@);
        proof {
            assert(all.take(i + 1).drop_last() =~= all.take(i as int));
            assert(all.take(i + 1).last() == problems@[i as int]@);
        }
        if let Some(block_id) = &problems[i].block_id {
            if same_text(block_id.as_str(), id) {
                messages.push(problems[i].message.clone());
                assert(views(messages@) =~= before.push(problems@[i as int]@.message));
            }
        }
        i += 1;
    }
    assert(all.take(i as int) =~= all);
    messages
}

/// The panel of a text detector.
pub open spec fn text_panel(
    id: Seq<char>,
    rule: TextRuleView,
    mode: ModeView,
    problems: Seq<Seq<char>>,
    flow_fields: Seq<(Seq<char>, Seq<char>)>,
    repeat_until_max: Option<Limit<u64>>,
    lane_priority: Option<int>,
) -> TextInspectorView {
    TextInspectorView {
        block_id: id,
        region_id: rule.region_id,
        expected: rule.expected,
        mode: mode_word(mode.wait),
        threshold: rule.threshold,
        normalization: "case "@ + on_off_word(rule.case_sensitive) + " | cross-line "@
            + on_off_word(rule.allow_cross_line),
        profile: profile_name(rule.preprocess),
        poll_interval_ms: rule.poll_interval_ms,
        timeout: timeout_text(mode.wait, rule.timeout_ms),
        policy: policy_name(rule.match_policy),
        actions: seq![
            InspectorIntentView::TestOcr { block_id: id },
            InspectorIntentView::RecaptureRegion { region_id: rule.region_id },
        ],
        problems,
        lane_priority,
        flow_fields,
        rule,
        observe_mode: mode,
        repeat_until_max,
        supports_observe_mode: lane_priority is None,
    }
}

fn text_projection(
    id: &str,
    rule: &TextRule,
    mode: &ObserveMode,
    problems: Vec<String>,
    flow_fields: Vec<(String, String)>,
    repeat_until_max: Option<Limit<u64>>,
    lane_priority: Option<usize>,
) -> (panel: InspectorProjection)
    ensures
        panel@ == InspectorView::Text(
            text_panel(
                id@,
                rule@,
                mode@,
                views(problems@),
                views(flow_fields@),
                repeat_until_max,
                priority_view(lane_priority),
            ),
        ),
{
    let mut normalization = "case ".to_owned();
    normalization.append(on_off(rule.case_sensitive));
    normalization.append(" | cross-line ");
    normalization.append(on_off(rule.allow_cross_line));
    let mut actions: Vec<InspectorIntent> = Vec::new();
    actions.push(InspectorIntent::TestOcr { block_id: id.to_owned() });
    actions.push(InspectorIntent::RecaptureRegion { region_id: rule.region_id.clone() });
    let supports_observe_mode = lane_priority.is_none();
    let panel = TextInspector {
        block_id: id.to_owned(),
        region_id: rule.region_id.clone(),
        expected: rule.expected.clone(),
        mode: mode_label(mode).to_owned(),
        threshold: rule.threshold,
        normalization,
        profile: preprocess_label(rule.preprocess).to_owned(),
        poll_interval_ms: rule.poll_interval_ms,
        timeout: shown_timeout(mode, &rule.timeout_ms),
        policy: policy_label(rule.match_policy).to_owned(),
        actions,
        problems,
        lane_priority,
        flow_fields,
        rule: rule.clone(),
        observe_mode: mode.clone(),
        repeat_until_max,
        supports_observe_mode,
    };
    proof {
        let expected = text_panel(
            id@,
            rule@,
            mode@,
            views(problems@),
            views(flow_fields@),
            repeat_until_max,
            priority_view(lane_priority),
        );
        assert(panel@.actions =~= expected.actions);
        assert(panel@ =~= expected);
    }
    InspectorProjection::Text(panel)
}

/// The templates of the image rules of a definition.
pub open spec fn templates_of(rules: Seq<ImageRuleView>) -> Seq<AssetRefView> {
    Seq::new(rules.len(), |i: int| rules[i].template)
}

/// The panel of an image detector.
pub open spec fn image_panel(
    id: Seq<char>,
    rule: ImageRuleView,
    mode: ModeView,
    problems: Seq<Seq<char>>,
    flow_fields: Seq<(Seq<char>, Seq<char>)>,
    repeat_until_max: Option<Limit<u64>>,
    rules: Seq<ImageRuleView>,
    lane_priority: Option<int>,
) -> ImageInspectorView {
    ImageInspectorView {
        block_id: id,
        region_id: rule.region_id,
        template_id: rule.template.id,
        scales_percent: rule.scales_percent,
        threshold: rule.threshold,
        policy: policy_name(rule.match_policy),
        stable_frames: rule.stable_frames,
        runner_up_margin: rule.minimum_runner_up_margin,
        poll_interval_ms: rule.poll_interval_ms,
        timeout: timeout_text(mode.wait, rule.timeout_ms),
        actions: seq![
            InspectorIntentView::TestImage { block_id: id },
            InspectorIntentView::RecaptureRegion { region_id: rule.region_id },
            InspectorIntentView::RecaptureTemplate { rule_id: rule.id },
            InspectorIntentView::CaptureImageNegative { block_id: id },
        ],
        problems,
        lane_priority,
        flow_fields,
        rule,
        observe_mode: mode,
        repeat_until_max,
        available_templates: templates_of(rules),
        supports_observe_mode: lane_priority is None,
    }
}

fn collect_templates(rules: &Vec<ImageRule>) -> (templates: Vec<AssetRef>)
    ensures
        views(templates@) == templates_of(views(rules@)),
{
    let mut templates: Vec<AssetRef> = Vec::new();
    let mut i: usize = 0;
    while i < rules.len()
        invariant
            i <= rules@.len(),
            templates@.len() == i,
            forall|j: int|
                0 <= j < i ==> (#[trigger] templates@[j])@ == views(rules@)[j].template,
        decreases rules@.len() - i,
    {
        templates.push(rules[i].template.clone());
        i += 1;
    }
    assert(views(templates@) =~= templates_of(views(rules@)));
    templates
}

fn image_projection(
    id: &str,
    rule: &ImageRule,
    mode: &ObserveMode,
    problems: Vec<String>,
    flow_fields: Vec<(String, String)>,
    repeat_until_max: Option<Limit<u64>>,
    image_rules: &Vec<ImageRule>,
    lane_priority: Option<usize>,
) -> (panel: InspectorProjection)
    ensures
        panel@ == InspectorView::Image(
            image_panel(
                id@,
                rule@,
                mode@,
                views(problems@),
                views(flow_fields@),
                repeat_until_max,
                views(image_rules@),
                priority_view(lane_priority),
            ),
        ),
{
    let mut actions: Vec<InspectorIntent> = Vec::new();
    actions.push(InspectorIntent::TestImage { block_id: id.to_owned() });
    actions.push(InspectorIntent::RecaptureRegion { region_id: rule.region_id.clone() });
    actions.push(InspectorIntent::RecaptureTemplate { rule_id: rule.id.clone() });
    actions.push(InspectorIntent::CaptureImageNegative { block_id: id.to_owned() });
    let supports_observe_mode = lane_priority.is_none();
    let panel = ImageInspector {
        block_id: id.to_owned(),
        region_id: rule.region_id.clone(),
        template_id: rule.template.id.clone(),
        scales_percent: rule.scales_percent.clone(),
        threshold: rule.threshold,
        policy: policy_label(rule.match_policy).to_owned(),
        stable_frames: rule.stable_frames,
        runner_up_margin: rule.minimum_runner_up_margin,
        poll_interval_ms: rule.poll_interval_ms,
        timeout: shown_timeout(mode, &rule.timeout_ms),
        actions,
        problems,
        lane_priority,
        flow_fields,
        rule: rule.clone(),
        observe_mode: mode.clone(),
        repeat_until_max,
        available_templates: collect_templates(image_rules),
        supports_observe_mode,
    };
    proof {
        let expected = image_panel(
            id@,
            rule@,
            mode@,
            views(problems@),
            views(flow_fields@),
            repeat_until_max,
            views(image_rules@),
            priority_view(lane_priority),
        );
        assert(panel@.actions =~= expected.actions);
        assert(panel@.scales_percent =~= expected.scales_percent);
        assert(panel@ =~= expected);
    }
    InspectorProjection::Image(panel)
}

/// The fields that are shown beside a detector.
pub open spec fn detector_fields(head: HeadView) -> Seq<(Seq<char>, Seq<char>)> {
    match head {
        HeadView::RepeatUntil { max_iterations, .. } => seq![
            ("Max iterations"@, limit_text(max_iterations)),
        ],
        HeadView::If { .. } => seq![("Branches"@, "THEN / ELSE"@)],
        _ => Seq::empty(),
    }
}

fn flow_fields(kind: &BlockKind) -> (fields: Vec<(String, String)>)
    ensures
        views(fields@) == detector_fields(head_view(*kind)),
{
    let mut fields: Vec<(String, String)> = Vec::new();
    match kind {
        BlockKind::RepeatUntil { max_iterations, .. } => {
            fields.push(("Max iterations".to_owned(), format_limit(max_iterations)));
        },
        BlockKind::If { .. } => {
            fields.push(("Branches".to_owned(), "THEN / ELSE".to_owned()));
        },
        _ => {},
    }
    assert(views(fields@) =~= detector_fields(head_view(*kind)));
    fields
}

pub open spec fn max_of(head: HeadView) -> Option<Limit<u64>> {
    match head {
        HeadView::RepeatUntil { max_iterations, .. } => Some(max_iterations),
        _ => None,
    }
}

fn repeat_until_max(kind: &BlockKind) -> (max: Option<Limit<u64>>)
    ensures
        max == max_of(head_view(*kind)),
{
    match kind {
        BlockKind::RepeatUntil { max_iterations, .. } => Some(*max_iterations),
        _ => None,
    }
}

/// The name of a block without a detector.
pub open spec fn flow_kind(head: HeadView) -> Seq<char> {
    match head {
        HeadView::Wait { .. } => "WAIT"@,
        HeadView::RepeatN { .. } => "REPEAT N"@,
        HeadView::Continuous => "CONTINUOUS"@,
        HeadView::WatchGroup { .. } => "WATCH GROUP"@,
        _ => "BLOCK"@,
    }
}

/// The fields of a block without a detector.
pub open spec fn flow_rows(head: HeadView, lanes: nat) -> Seq<(Seq<char>, Seq<char>)> {
    match head {
        HeadView::Wait { duration_ms } => seq![("Duration"@, decimal(duration_ms as nat) + " ms"@)],
        HeadView::RepeatN { count } => seq![("Limit"@, decimal(count as nat))],
        HeadView::Continuous => seq![("Limit"@, "Unlimited"@)],
        HeadView::WatchGroup { timeout_ms, cooldown_ms, .. } => seq![
            ("Timeout"@, limit_text(timeout_ms)),
            ("Cooldown"@, decimal(cooldown_ms as nat) + " ms"@),
            ("Priority lanes"@, decimal(lanes)),
        ],
        _ => Seq::empty(),
    }
}

pub open spec fn flow_change(head: HeadView) -> Option<FlowEdit> {
    match head {
        HeadView::Wait { duration_ms } => Some(FlowEdit::Wait { duration_ms }),
        HeadView::RepeatN { count } => Some(FlowEdit::RepeatN { count }),
        HeadView::WatchGroup { timeout_ms, cooldown_ms, .. } => Some(
            FlowEdit::Watch { timeout_ms, cooldown_ms },
        ),
        _ => None,
    }
}

/// The panel of a block without a detector.
pub open spec fn flow_panel(
    id: Seq<char>,
    block: BlockView,
    problems: Seq<Seq<char>>,
) -> FlowInspectorView {
    FlowInspectorView {
        block_id: id,
        kind: flow_kind(block.head),
        fields: flow_rows(block.head, lanes_of(block).len()),
        problems,
        edit: flow_change(block.head),
    }
}

fn millis_text(value: u64) -> (text: String)
    ensures
        text@ == decimal(value as nat) + " ms"@,
{
    let mut text = decimal_text(value);
    text.append(" ms");
    text
}

fn flow_projection(id: &str, block: &Block, problems: Vec<String>) -> (panel: InspectorProjection)
    ensures
        panel@ == InspectorView::Flow(flow_panel(id@, block@, views(problems@))),
{
    let mut fields: Vec<(String, String)> = Vec::new();
    let mut edit: Option<FlowEdit> = None;
    let kind: &'static str;
    proof {
        lemma_lanes_of(*block);
    }
    match &block.kind {
        BlockKind::Wait { duration_ms } => {
            kind = "WAIT";
            fields.push(("Duration".to_owned(), millis_text(*duration_ms)));
            edit = Some(FlowEdit::Wait { duration_ms: *duration_ms });
        },
        BlockKind::RepeatN { count, .. } => {
            kind = "REPEAT N";
            fields.push(("Limit".to_owned(), decimal_text(*count as u64)));
            edit = Some(FlowEdit::RepeatN { count: *count });
        },
        BlockKind::Continuous { .. } => {
            kind = "CONTINUOUS";
            fields.push(("Limit".to_owned(), "Unlimited".to_owned()));
        },
        BlockKind::WatchGroup { group } => {
            kind = "WATCH GROUP";
            fields.push(("Timeout".to_owned(), format_limit(&group.timeout_ms)));
            fields.push(("Cooldown".to_owned(), millis_text(group.cooldown_ms)));
            fields.push(("Priority lanes".to_owned(), decimal_text(group.lanes.len() as u64)));
            edit = Some(
                FlowEdit::Watch { timeout_ms: group.timeout_ms, cooldown_ms: group.cooldown_ms },
            );
        },
        _ => {
            kind = "BLOCK";
        },
    }
    let panel = FlowInspector {
        block_id: id.to_owned(),
        kind: kind.to_owned(),
        fields,
        problems,
        edit,
    };
    proof {
        assert(panel@.fields =~= flow_rows(block@.head, lanes_of(block@).len()));
        assert(panel@ =~= flow_panel(id@, block@, views(problems@)));
    }
    InspectorProjection::Flow(panel)
}

/// The panel of a detector: that of its rule, if there is one.
pub open spec fn detector_panel(
    definition: MacroDefinitionView,
    id: Seq<char>,
    family: DetectorFamily,
    rule: Seq<char>,
    mode: ModeView,
    problems: Seq<Seq<char>>,
    fields: Seq<(Seq<char>, Seq<char>)>,
    max: Option<Limit<u64>>,
    priority: Option<int>,
) -> InspectorView {
    match family {
        DetectorFamily::Text => match first_index(definition.text_rules, text_rule_is(rule)) {
            Some(i) => InspectorView::Text(
                text_panel(
                    id,
                    definition.text_rules[i],
                    mode,
                    problems,
                    fields,
                    max,
                    priority,
                ),
            ),
            None => InspectorView::Empty,
        },
        DetectorFamily::Image => match first_index(definition.image_rules, image_rule_is(rule)) {
            Some(i) => InspectorView::Image(
                image_panel(
                    id,
                    definition.image_rules[i],
                    mode,
                    problems,
                    fields,
                    max,
                    definition.image_rules,
                    priority,
                ),
            ),
            None => InspectorView::Empty,
        },
    }
}

/// The timeout body of a block's condition, as zero or one bodies.
pub open spec fn condition_tail(block: BlockView) -> Seq<crate::macro_engine::BodyView> {
    match block.head {
        HeadView::Observe { .. } => block.bodies,
        HeadView::If { .. } => block.bodies.skip(2),
        HeadView::RepeatUntil { .. } => block.bodies.skip(1),
        _ => Seq::empty(),
    }
}

/// What the inspector shows of a block.
pub open spec fn block_panel(
    definition: MacroDefinitionView,
    id: Seq<char>,
    block: BlockView,
    problems: Seq<Seq<char>>,
) -> InspectorView {
    match head_condition(block.head) {
        Some(condition) => detector_panel(
            definition,
            id,
            condition.family,
            condition.rule,
            ModeView { wait: condition.wait, bodies: condition_tail(block) },
            problems,
            detector_fields(block.head),
            max_of(block.head),
            None,
        ),
        None => InspectorView::Flow(flow_panel(id, block, problems)),
    }
}

/// What the inspector shows of what is selected: a block, or else a lane of a watch group.
pub open spec fn inspected(
    definition: MacroDefinitionView,
    id: Seq<char>,
    problems: Seq<ValidationProblemView>,
) -> InspectorView {
    let messages = messages_for(problems, id);
    match found_block(definition.blocks, id) {
        Some(block) => block_panel(definition, id, block, messages),
        None => match first_where(flatten(definition.blocks), watches(id)) {
            Some(group) => {
                let i = first_index(lanes_of(group), is_lane(id))->0;
                let condition = lanes_of(group)[i].role->Lane_condition;
                detector_panel(
                    definition,
                    id,
                    condition.family,
                    condition.rule,
                    ModeView { wait: WaitView::CheckNow, bodies: Seq::empty() },
                    messages,
                    Seq::empty(),
                    None,
                    Some(i + 1),
                )
            },
            None => InspectorView::Empty,
        },
    }
}

fn detector_projection(
    definition: &MacroDefinition,
    id: &str,
    family: DetectorFamily,
    rule_id: &str,
    mode: &ObserveMode,
    problems: Vec<String>,
    fields: Vec<(String, String)>,
    max: Option<Limit<u64>>,
    priority: Option<usize>,
) -> (panel: InspectorProjection)
    ensures
        panel@ == detector_panel(
            definition@,
            id@,
            family,
            rule_id@,
            mode@,
            views(problems@),
            views(fields@),
            max,
            priority_view(priority),
        ),
{
    match family {
        DetectorFamily::Text => match text_rule_position(&definition.text_rules, rule_id) {
            Some(i) => text_projection(
                id,
                &definition.text_rules[i],
                mode,
                problems,
                fields,
                max,
                priority,
            ),
            None => InspectorProjection::Empty,
        },
        DetectorFamily::Image => match image_rule_position(&definition.image_rules, rule_id) {
            Some(i) => image_projection(
                id,
                &definition.image_rules[i],
                mode,
                problems,
                fields,
                max,
                &definition.image_rules,
                priority,
            ),
            None => InspectorProjection::Empty,
        },
    }
}

/// Finds a lane of a watch group, with its priority counted from one.
pub fn find_lane<'a>(blocks: &'a Vec<Block>, id: &str) -> (found: Option<(usize, &'a WatchLane)>)
    ensures
        match first_where(flatten(crate::macro_engine::blocks_view(blocks@)), watches(id@)) {
            Some(group) => {
                let i = first_index(lanes_of(group), is_lane(id@))->0;
                found matches Some((priority, lane)) && priority == i + 1 && lane_view(*lane)
                    == lanes_of(group)[i]
            },
            None => found is None,
        },
{
    let all = walk(blocks);
    let ghost flat = views(all@);
    let mut i: usize = 0;
    while i < all.len()
        invariant
            i <= all@.len(),
            flat == views(all@),
            flat == flatten(crate::macro_engine::blocks_view(blocks@)),
            first_where(flat.take(i as int), watches(id@)) is None,
        decreases all@.len() - i,
    {
        let block = all[i];
        proof {
            lemma_first_where_step(flat, i as int, watches(id@));
            lemma_lanes_of(*block);
        }
        if let BlockKind::WatchGroup { group } = &block.kind {
            let position = crate::container::lane_position(&group.lanes, id);
            proof {
                lemma_lane_of_group(*block, id@, position);
            }
            let count: usize = group.lanes.len();
            if let Some(index) = position {
                assert(index < count);
                return Some((index + 1, &group.lanes[index]));
            }
        }
        i += 1;
    }
    assert(flat.take(i as int) =~= flat);
    None
}

/// What the inspector shows of what is selected.
pub fn project_inspector(
    definition: &MacroDefinition,
    selected_id: &str,
    problems: &[ValidationProblem],
) -> (panel: InspectorProjection)
    ensures
        panel@ == inspected(definition@, selected_id@, views(problems@)),
{
    let messages = selected_problems(problems, selected_id);
    if let Some(block) = find_block(&definition.blocks, selected_id) {
        let condition = match &block.kind {
            BlockKind::Observe { condition } => condition,
            BlockKind::If { condition, .. } => condition,
            BlockKind::RepeatUntil { condition, .. } => condition,
            _ => return flow_projection(selected_id, block, messages),
        };
        let fields = flow_fields(&block.kind);
        let max = repeat_until_max(&block.kind);
        proof {
            assert(condition_tail(block@) =~= crate::macro_engine::condition_bodies(*condition));
        }
        return match condition {
            Condition::Text { rule_id, mode, .. } => detector_projection(
                definition,
                selected_id,
                DetectorFamily::Text,
                rule_id.as_str(),
                mode,
                messages,
                fields,
                max,
                None,
            ),
            Condition::Image { rule_id, mode, .. } => detector_projection(
                definition,
                selected_id,
                DetectorFamily::Image,
                rule_id.as_str(),
                mode,
                messages,
                fields,
                max,
                None,
            ),
        };
    }
    match find_lane(&definition.blocks, selected_id) {
        None => InspectorProjection::Empty,
        Some((priority, lane)) => {
            let fields: Vec<(String, String)> = Vec::new();
            let mode = ObserveMode::CheckNow;
            assert(views(fields@) =~= Seq::empty());
            match &lane.condition {
                PassiveCondition::Text { rule_id, .. } => detector_projection(
                    definition,
                    selected_id,
                    DetectorFamily::Text,
                    rule_id.as_str(),
                    &mode,
                    messages,
                    fields,
                    None,
                    Some(priority),
                ),
                PassiveCondition::Image { rule_id, .. } => detector_projection(
                    definition,
                    selected_id,
                    DetectorFamily::Image,
                    rule_id.as_str(),
                    &mode,
                    messages,
                    fields,
                    None,
                    Some(priority),
                ),
            }
        },
    }
}

pub open spec fn match_mode_after(mode: TextMatchMode) -> TextMatchMode {
    match mode {
        TextMatchMode::Exact => TextMatchMode::Contains,
        TextMatchMode::Contains => TextMatchMode::Fuzzy,
        TextMatchMode::Fuzzy => TextMatchMode::Absent,
        TextMatchMode::Absent => TextMatchMode::Exact,
    }
}

pub fn next_text_match_mode(mode: TextMatchMode) -> (next: TextMatchMode)
    ensures
        next == match_mode_after(mode),
{
    match mode {
        TextMatchMode::Exact => TextMatchMode::Contains,
        TextMatchMode::Contains => TextMatchMode::Fuzzy,
        TextMatchMode::Fuzzy => TextMatchMode::Absent,
        TextMatchMode::Absent => TextMatchMode::Exact,
    }
}

pub open spec fn preprocess_after(profile: PreprocessProfile) -> PreprocessProfile {
    match profile {
        PreprocessProfile::Original => PreprocessProfile::Grayscale,
        PreprocessProfile::Grayscale => PreprocessProfile::HighContrast,
        PreprocessProfile::HighContrast => PreprocessProfile::SmallText,
        PreprocessProfile::SmallText => PreprocessProfile::Original,
    }
}

pub fn next_preprocess(profile: PreprocessProfile) -> (next: PreprocessProfile)
    ensures
        next == preprocess_after(profile),
{
    match profile {
        PreprocessProfile::Original => PreprocessProfile::Grayscale,
        PreprocessProfile::Grayscale => PreprocessProfile::HighContrast,
        PreprocessProfile::HighContrast => PreprocessProfile::SmallText,
        PreprocessProfile::SmallText => PreprocessProfile::Original,
    }
}

pub open spec fn policy_after(policy: MatchSelectionPolicy) -> MatchSelectionPolicy {
    match policy {
        MatchSelectionPolicy::ExactlyOne => MatchSelectionPolicy::HighestScore,
        MatchSelectionPolicy::HighestScore => MatchSelectionPolicy::FirstReadingOrder,
        MatchSelectionPolicy::FirstReadingOrder => MatchSelectionPolicy::Topmost,
        MatchSelectionPolicy::Topmost => MatchSelectionPolicy::Bottommost,
        MatchSelectionPolicy::Bottommost => MatchSelectionPolicy::ExactlyOne,
    }
}

pub fn next_policy(policy: MatchSelectionPolicy) -> (next: MatchSelectionPolicy)
    ensures
        next == policy_after(policy),
{
    match policy {
        MatchSelectionPolicy::ExactlyOne => MatchSelectionPolicy::HighestScore,
        MatchSelectionPolicy::HighestScore => MatchSelectionPolicy::FirstReadingOrder,
        MatchSelectionPolicy::FirstReadingOrder => MatchSelectionPolicy::Topmost,
        MatchSelectionPolicy::Topmost => MatchSelectionPolicy::Bottommost,
        MatchSelectionPolicy::Bottommost => MatchSelectionPolicy::ExactlyOne,
    }
}

/// Clicking through the choices of a text detector reaches each of them and comes back.
pub proof fn choices_come_round(
    mode: TextMatchMode,
    profile: PreprocessProfile,
    policy: MatchSelectionPolicy,
)
    ensures
        match_mode_after(match_mode_after(match_mode_after(match_mode_after(mode)))) == mode,
        preprocess_after(preprocess_after(preprocess_after(preprocess_after(profile)))) == profile,
        policy_after(policy_after(policy_after(policy_after(policy_after(policy))))) == policy,
{
}

/// The number that a limit is edited by.
pub open spec fn limit_number(limit: Limit<u64>, default: u64) -> u64 {
    match limit {
        Limit::Finite(value) => value,
        Limit::Unlimited => default,
    }
}

pub fn shown_number(limit: &Limit<u64>, default: u64) -> (value: u64)
    ensures
        value == limit_number(*limit, default),
{
    match limit {
        Limit::Finite(value) => *value,
        Limit::Unlimited => default,
    }
}

/// Timeout that is offered when an unlimited one is made finite.
pub const DEFAULT_TIMEOUT_MS: u64 = 5000;

/// Number of iterations that is offered when an unlimited loop is made finite.
pub const DEFAULT_MAX_ITERATIONS: u64 = 100;

/// A limit after its number was set to a value, and after the limit was lifted or put back.
pub open spec fn limit_after(limit: Limit<u64>, value: u64, toggled: bool) -> Limit<u64> {
    let set = if value != limit_number(limit, DEFAULT_TIMEOUT_MS) {
        Limit::Finite(value)
    } else {
        limit
    };
    if !toggled {
        set
    } else if set is Unlimited {
        Limit::Finite(value)
    } else {
        Limit::Unlimited
    }
}

pub fn edited_limit(limit: Limit<u64>, value: u64, toggled: bool) -> (edited: Limit<u64>)
    ensures
        edited == limit_after(limit, value, toggled),
{
    let set = if value != shown_number(&limit, DEFAULT_TIMEOUT_MS) {
        Limit::Finite(value)
    } else {
        limit
    };
    if !toggled {
        return set;
    }
    match set {
        Limit::Unlimited => Limit::Finite(value),
        Limit::Finite(_) => Limit::Unlimited,
    }
}

/// The mode that follows when the mode of a detector is cycled.
pub open spec fn mode_after(mode: ModeView) -> ModeView {
    match mode.wait {
        WaitView::CheckNow => ModeView {
            wait: WaitView::WaitForTrue {
                timeout_ms: Limit::Unlimited,
                outcome: OutcomeView::Continue,
            },
            bodies: Seq::empty(),
        },
        WaitView::WaitForTrue { timeout_ms, outcome } => ModeView {
            wait: WaitView::WaitForFalse { timeout_ms, outcome },
            bodies: mode.bodies,
        },
        WaitView::WaitForFalse { .. } => ModeView {
            wait: WaitView::CheckNow,
            bodies: Seq::empty(),
        },
    }
}

/// Cycles the mode of a detector. Waiting for the opposite keeps the timeout and its outcome.
pub fn next_observe_mode(current: &ObserveMode) -> (next: ObserveMode)
    ensures
        next@ == mode_after(current@),
{
    match current {
        ObserveMode::CheckNow => ObserveMode::WaitForTrue {
            timeout_ms: Limit::Unlimited,
            timeout_outcome: TimeoutOutcome::Continue,
        },
        ObserveMode::WaitForTrue { timeout_ms, timeout_outcome } => ObserveMode::WaitForFalse {
            timeout_ms: *timeout_ms,
            timeout_outcome: timeout_outcome.clone(),
        },
        ObserveMode::WaitForFalse { .. } => ObserveMode::CheckNow,
    }
}

/// A wait with another timeout; a check without waiting has none.
pub open spec fn mode_with_timeout(mode: ModeView, timeout_ms: Limit<u64>) -> Option<ModeView> {
    match mode.wait {
        WaitView::CheckNow => None,
        WaitView::WaitForTrue { outcome, .. } => Some(
            ModeView { wait: WaitView::WaitForTrue { timeout_ms, outcome }, bodies: mode.bodies },
        ),
        WaitView::WaitForFalse { outcome, .. } => Some(
            ModeView { wait: WaitView::WaitForFalse { timeout_ms, outcome }, bodies: mode.bodies },
        ),
    }
}

/// Gives a wait another timeout and keeps what happens when it runs out.
pub fn observe_mode_with_timeout(current: &ObserveMode, timeout_ms: Limit<u64>) -> (edited: Option<
    ObserveMode,
>)
    ensures
        option_view(edited) == mode_with_timeout(current@, timeout_ms),
{
    match current {
        ObserveMode::WaitForTrue { timeout_outcome, .. } => Some(
            ObserveMode::WaitForTrue { timeout_ms, timeout_outcome: timeout_outcome.clone() },
        ),
        ObserveMode::WaitForFalse { timeout_outcome, .. } => Some(
            ObserveMode::WaitForFalse { timeout_ms, timeout_outcome: timeout_outcome.clone() },
        ),
        ObserveMode::CheckNow => None,
    }
}

pub open spec fn wait_timeout(wait: WaitView) -> Option<Limit<u64>> {
    match wait {
        WaitView::CheckNow => None,
        WaitView::WaitForTrue { timeout_ms, .. } => Some(timeout_ms),
        WaitView::WaitForFalse { timeout_ms, .. } => Some(timeout_ms),
    }
}

/// The timeout of a wait, which a check without waiting has not.
pub fn mode_timeout_limit(mode: &ObserveMode) -> (timeout: Option<Limit<u64>>)
    ensures
        timeout == wait_timeout(mode@.wait),
{
    match mode {
        ObserveMode::CheckNow => None,
        ObserveMode::WaitForTrue { timeout_ms, .. } => Some(*timeout_ms),
        ObserveMode::WaitForFalse { timeout_ms, .. } => Some(*timeout_ms),
    }
}

/// What editing the timeout of a wait asks for: nothing, unless it changed.
pub fn mode_timeout_edit(block_id: &str, current: &ObserveMode, timeout: Limit<u64>) -> (intent:
    Option<InspectorIntent>)
    ensures
        option_view(intent) == (match wait_timeout(current@.wait) {
            Some(before) if before != timeout => Some(
                InspectorIntentView::SetConditionMode {
                    block_id: block_id@,
                    mode: mode_with_timeout(current@, timeout)->0,
                },
            ),
            _ => None,
        }),
{
    match mode_timeout_limit(current) {
        None => None,
        Some(before) => if before == timeout {
            None
        } else {
            match observe_mode_with_timeout(current, timeout) {
                Some(mode) => Some(
                    InspectorIntent::SetConditionMode { block_id: block_id.to_owned(), mode },
                ),
                None => None,
            }
        },
    }
}

/// What editing the bound of a loop asks for. Lifting or putting back the bound outweighs an edit
/// of its number.
pub open spec fn max_change(
    block_id: Seq<char>,
    current: Limit<u64>,
    maximum: u64,
    toggled: bool,
) -> Option<InspectorIntentView> {
    if toggled {
        Some(
            InspectorIntentView::SetRepeatUntilMax {
                block_id,
                max: if current is Unlimited {
                    Limit::Finite(maximum)
                } else {
                    Limit::Unlimited
                },
            },
        )
    } else if maximum != limit_number(current, DEFAULT_MAX_ITERATIONS) {
        Some(InspectorIntentView::SetRepeatUntilMax { block_id, max: Limit::Finite(maximum) })
    } else {
        None
    }
}

pub fn repeat_until_edit(block_id: &str, current: Limit<u64>, maximum: u64, toggled: bool) -> (intent:
    Option<InspectorIntent>)
    ensures
        option_view(intent) == max_change(block_id@, current, maximum, toggled),
{
    if toggled {
        let max = match current {
            Limit::Unlimited => Limit::Finite(maximum),
            Limit::Finite(_) => Limit::Unlimited,
        };
        Some(InspectorIntent::SetRepeatUntilMax { block_id: block_id.to_owned(), max })
    } else if maximum != shown_number(&current, DEFAULT_MAX_ITERATIONS) {
        Some(
            InspectorIntent::SetRepeatUntilMax {
                block_id: block_id.to_owned(),
                max: Limit::Finite(maximum),
            },
        )
    } else {
        None
    }
}

/// What editing a wait asks for.
pub fn wait_edit(block_id: &str, duration_ms: u64, value: u64) -> (intent: Option<InspectorIntent>)
    ensures
        option_view(intent) == (if value != duration_ms {
            Some(
                InspectorIntentView::SetWaitDuration { block_id: block_id@, duration_ms: value },
            )
        } else {
            None
        }),
{
    if value != duration_ms {
        Some(InspectorIntent::SetWaitDuration { block_id: block_id.to_owned(), duration_ms: value })
    } else {
        None
    }
}

/// What editing the count of a loop asks for.
pub fn repeat_edit(block_id: &str, count: u32, value: u32) -> (intent: Option<InspectorIntent>)
    ensures
        option_view(intent) == (if value != count {
            Some(InspectorIntentView::SetRepeatCount { block_id: block_id@, count: value })
        } else {
            None
        }),
{
    if value != count {
        Some(InspectorIntent::SetRepeatCount { block_id: block_id.to_owned(), count: value })
    } else {
        None
    }
}

/// What editing a watch group asks for. Lifting or putting back the timeout outweighs an edit of
/// its number.
pub open spec fn watch_change(
    block_id: Seq<char>,
    timeout_ms: Limit<u64>,
    cooldown_ms: u64,
    timeout: u64,
    cooldown: u64,
    toggled: bool,
) -> Option<InspectorIntentView> {
    if toggled {
        Some(
            InspectorIntentView::SetWatchSettings {
                block_id,
                timeout_ms: if timeout_ms is Unlimited {
                    Limit::Finite(timeout)
                } else {
                    Limit::Unlimited
                },
                cooldown_ms: cooldown,
            },
        )
    } else if timeout != limit_number(timeout_ms, DEFAULT_TIMEOUT_MS) || cooldown != cooldown_ms {
        Some(
            InspectorIntentView::SetWatchSettings {
                block_id,
                timeout_ms: Limit::Finite(timeout),
                cooldown_ms: cooldown,
            },
        )
    } else {
        None
    }
}

pub fn watch_edit(
    block_id: &str,
    timeout_ms: Limit<u64>,
    cooldown_ms: u64,
    timeout: u64,
    cooldown: u64,
    toggled: bool,
) -> (intent: Option<InspectorIntent>)
    ensures
        option_view(intent) == watch_change(
            block_id@,
            timeout_ms,
            cooldown_ms,
            timeout,
            cooldown,
            toggled,
        ),
{
    if toggled {
        let limit = match timeout_ms {
            Limit::Unlimited => Limit::Finite(timeout),
            Limit::Finite(_) => Limit::Unlimited,
        };
        Some(
            InspectorIntent::SetWatchSettings {
                block_id: block_id.to_owned(),
                timeout_ms: limit,
                cooldown_ms: cooldown,
            },
        )
    } else if timeout != shown_number(&timeout_ms, DEFAULT_TIMEOUT_MS) || cooldown != cooldown_ms {
        Some(
            InspectorIntent::SetWatchSettings {
                block_id: block_id.to_owned(),
                timeout_ms: Limit::Finite(timeout),
                cooldown_ms: cooldown,
            },
        )
    } else {
        None
    }
}

/// What is wrong with the first scale that is zero or repeats an earlier one.
pub open spec fn scale_fault(scales: Seq<u16>) -> Option<Seq<char>>
    decreases scales.len(),
{
    if scales.len() == 0 {
        None
    } else {
        match scale_fault(scales.drop_last()) {
            Some(fault) => Some(fault),
            None => if scales.last() == 0 {
                Some("Image scales must be greater than zero percent."@)
            } else if scales.drop_last().contains(scales.last()) {
                Some("Image scale "@ + decimal(scales.last() as nat) + "% is duplicated."@)
            } else {
                None
            },
        }
    }
}

/// What is wrong with the scales of an image rule.
pub open spec fn scales_fault(scales: Seq<u16>) -> Option<Seq<char>> {
    if scales.len() == 0 {
        Some("Image matching requires at least one scale."@)
    } else if scales.len() > DEFAULT_MAX_SCALES {
        Some("Image matching supports at most "@ + decimal(DEFAULT_MAX_SCALES as nat) + " scales."@)
    } else {
        scale_fault(scales)
    }
}

proof fn lemma_scale_fault_stays(scales: Seq<u16>, n: int)
    requires
        0 <= n <= scales.len(),
        scale_fault(scales.take(n)) is Some,
    ensures
        scale_fault(scales) == scale_fault(scales.take(n)),
    decreases scales.len() - n,
{
    if n == scales.len() {
        assert(scales.take(n) =~= scales);
    } else {
        assert(scales.take(n + 1).drop_last() =~= scales.take(n));
        lemma_scale_fault_stays(scales, n + 1);
    }
}

/// Scales that pass are not empty, within the bound, positive and all different.
pub proof fn accepted_scales_are_sound(scales: Seq<u16>)
    requires
        scales_fault(scales) is None,
    ensures
        0 < scales.len() <= DEFAULT_MAX_SCALES,
        forall|i: int| 0 <= i < scales.len() ==> (#[trigger] scales[i]) > 0,
        scales.no_duplicates(),
    decreases scales.len(),
{
    lemma_scale_fault_none(scales);
}

proof fn lemma_scale_fault_none(scales: Seq<u16>)
    requires
        scale_fault(scales) is None,
    ensures
        forall|i: int| 0 <= i < scales.len() ==> (#[trigger] scales[i]) > 0,
        scales.no_duplicates(),
    decreases scales.len(),
{
    if scales.len() > 0 {
        let rest = scales.drop_last();
        lemma_scale_fault_none(rest);
        assert forall|i: int| 0 <= i < scales.len() implies (#[trigger] scales[i]) > 0 by {
            if i < rest.len() {
                assert(rest[i] > 0);
            }
        }
        assert forall|i: int, j: int| 0 <= i < j < scales.len() implies scales[i] != scales[j] by {
            if j < rest.len() {
                assert(rest[i] != rest[j]);
            } else {
                assert(rest[i] == scales[i]);
                assert(rest.contains(rest[i]));
            }
        }
    }
}

pub fn validate_image_scales(scales: &[u16]) -> (result: Result<(), String>)
    ensures
        match result {
            Ok(()) => scales_fault(scales@) is None,
            Err(message) => scales_fault(scales@) == Some(message@),
        },
{
    if scales.len() == 0 {
        return Err("Image matching requires at least one scale.".to_owned());
    }
    if scales.len() > DEFAULT_MAX_SCALES {
        let mut message = "Image matching supports at most ".to_owned();
        append_decimal(&mut message, DEFAULT_MAX_SCALES as u64);
        message.append(" scales.");
        return Err(message);
    }
    let mut i: usize = 0;
    while i < scales.len()
        invariant
            i <= scales@.len(),
            0 < scales@.len() <= DEFAULT_MAX_SCALES,
            scale_fault(scales@.take(i as int)) is None,
        decreases scales@.len() - i,
    {
        let scale: u16 = scales[i];
        proof {
            assert(scales@.take(i + 1).drop_last() =~= scales@.take(i as int));
            assert(scales@.take(i + 1).last() == scale);
        }
        if scale == 0 {
            proof {
                lemma_scale_fault_stays(scales@, i + 1);
            }
            return Err("Image scales must be greater than zero percent.".to_owned());
        }
        let mut j: usize = 0;
        while j < i
            invariant
                j <= i,
                i < scales@.len(),
                0 < scales@.len() <= DEFAULT_MAX_SCALES,
                scale == scales@[i as int],
                scale != 0,
                scale_fault(scales@.take(i as int)) is None,
                scales@.take(i + 1).drop_last() == scales@.take(i as int),
                scales@.take(i + 1).last() == scale,
                forall|k: int| 0 <= k < j ==> (#[trigger] scales@[k]) != scale,
            decreases i - j,
        {
            if scales[j] == scale {
                let mut message = "Image scale ".to_owned();
                append_decimal(&mut message, scale as u64);
                message.append("% is duplicated.");
                proof {
                    assert(scales@.take(i as int)[j as int] == scale);
                    assert(scales@.take(i as int).contains(scale));
                    lemma_scale_fault_stays(scales@, i + 1);
                }
                return Err(message);
            }
            j += 1;
        }
        i += 1;
    }
    assert(scales@.take(i as int) =~= scales@);
    Ok(())
}

/// The scale that is offered after the others.
pub open spec fn scale_after(scales: Seq<u16>) -> int {
    let last: int = if scales.len() == 0 {
        95
    } else {
        scales.last() as int
    };
    if last + 5 > u16::MAX {
        u16::MAX as int
    } else {
        last + 5
    }
}

pub fn next_scale(scales: &Vec<u16>) -> (scale: u16)
    ensures
        scale == scale_after(scales@),
{
    let last: u16 = if scales.len() == 0 {
        95
    } else {
        scales[scales.len() - 1]
    };
    if last > u16::MAX - 5 {
        u16::MAX
    } else {
        last + 5
    }
}

/// What editing a text rule asks for: nothing, unless it changed.
pub fn text_rule_edit(before: &TextRule, rule: TextRule) -> (intent: Option<InspectorIntent>)
    ensures
        option_view(intent) == (if !TextRule::alike(rule@, before@) {
            Some(InspectorIntentView::ReplaceTextRule { rule: rule@ })
        } else {
            None
        }),
{
    if rule.equals(before) {
        None
    } else {
        Some(InspectorIntent::ReplaceTextRule { rule })
    }
}

/// What editing an image rule asks for: nothing, unless it changed. Scales that were touched have
/// to pass.
pub open spec fn image_rule_change(
    before: ImageRuleView,
    rule: ImageRuleView,
    scales_changed: bool,
) -> Option<InspectorIntentView> {
    if ImageRule::alike(rule, before) {
        None
    } else if scales_changed && scales_fault(rule.scales_percent) is Some {
        Some(InspectorIntentView::InvalidEdit { message: scales_fault(rule.scales_percent)->0 })
    } else {
        Some(InspectorIntentView::ReplaceImageRule { rule })
    }
}

pub fn image_rule_edit(before: &ImageRule, rule: ImageRule, scales_changed: bool) -> (intent: Option<
    InspectorIntent,
>)
    ensures
        option_view(intent) == image_rule_change(before@, rule@, scales_changed),
{
    if rule.equals(before) {
        return None;
    }
    if scales_changed {
        if let Err(message) = validate_image_scales(rule.scales_percent.as_slice()) {
            return Some(InspectorIntent::InvalidEdit { message });
        }
    }
    Some(InspectorIntent::ReplaceImageRule { rule })
}

pub open spec fn action_word(intent: InspectorIntentView) -> Option<Seq<char>> {
    match intent {
        InspectorIntentView::TestOcr { .. } => Some("Test OCR"@),
        InspectorIntentView::TestImage { .. } => Some("Test Image"@),
        InspectorIntentView::RecaptureRegion { .. } => Some("Recapture"@),
        InspectorIntentView::RecaptureTemplate { .. } => Some("Recapture template"@),
        InspectorIntentView::CaptureImageNegative { .. } => Some("Add negative frame"@),
        _ => None,
    }
}

/// The word on the button of an action, if it has a button.
pub fn action_label(intent: &InspectorIntent) -> (label: Option<&'static str>)
    ensures
        option_view(label) == action_word(intent@),
{
    match intent {
        InspectorIntent::TestOcr { .. } => Some("Test OCR"),
        InspectorIntent::TestImage { .. } => Some("Test Image"),
        InspectorIntent::RecaptureRegion { .. } => Some("Recapture"),
        InspectorIntent::RecaptureTemplate { .. } => Some("Recapture template"),
        InspectorIntent::CaptureImageNegative { .. } => Some("Add negative frame"),
        _ => None,
    }
}

} // verus!
