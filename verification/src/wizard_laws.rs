//! What holds of the wizard: its macro rests on proofs of the settings that it has.
use crate::macro_engine::{
    ActionView, BlockView, ConditionView, F32Bits, F64Bits, HeadView, MacroDefinitionView,
    OutcomeView, PointDefinitionView, RectRatio, RegionDefinition, TargetProfileView, WaitView,
};
use crate::parts::{printed_list, printed_point};
use crate::text::blank;
use crate::wizard::{
    action_captured, detector_print, detector_print_tells_settings_apart, missing, reconciled,
    region_captured, review_print, review_print_tells_settings_apart, reviewed, same_behaviour,
    same_detection, step_place, target_captured, tested, unproved, unreviewed, wizard_definition,
    WizardDetectorView, WizardFailureView, WizardRepetition, WizardStep, WizardTargetView,
    WizardView,
};
use vstd::prelude::*;

verus! {

/// A wizard that can be finished was tested on the detector it has, with success, and reviewed
/// with all the settings it has.
pub proof fn finish_rests_on_current_proofs(wizard: WizardView)
    requires
        missing(wizard) is None,
    ensures
        wizard.step == WizardStep::Finish,
        wizard.target_bound,
        wizard.detector_test matches Some(test) && test.passed && test.fingerprint
            == detector_print(wizard),
        wizard.dry_run_reviewed,
        wizard.dry_run_fingerprint == Some(review_print(wizard)),
{
}

/// A wizard whose detector changed since its test cannot be finished.
pub proof fn changed_detector_needs_a_new_test(
    before: WizardView,
    after: WizardView,
    passed: bool,
    evidence: Seq<char>,
    elapsed_ms: u64,
)
    requires
        !same_detection(before, after),
        after.detector_test == tested(before, passed, evidence, elapsed_ms).detector_test,
    ensures
        missing(after) is Some,
{
    detector_print_tells_settings_apart(before, after);
}

/// A wizard whose settings changed since its review cannot be finished.
pub proof fn changed_settings_need_a_new_review(before: WizardView, after: WizardView)
    requires
        !(same_detection(before, after) && same_behaviour(before, after)),
        after.dry_run_fingerprint == reviewed(before).dry_run_fingerprint,
    ensures
        missing(after) is Some,
{
    review_print_tells_settings_apart(before, after);
}

/// After an edit the wizard keeps exactly the proofs that still hold: the test where it detects as
/// before, the review where it also does as before.
pub proof fn edits_drop_only_stale_proofs(before: WizardView, after: WizardView)
    ensures
        ({
            let kept = reconciled(after, detector_print(before), review_print(before));
            &&& same_detection(before, after) ==> kept.detector_test == after.detector_test
                && kept.image_verification == after.image_verification
                && kept.image_negative_samples == after.image_negative_samples
            &&& !same_detection(before, after) ==> kept == unproved(after)
            &&& same_detection(before, after) && same_behaviour(before, after) ==> kept == after
            &&& !(same_detection(before, after) && same_behaviour(before, after))
                ==> !kept.dry_run_reviewed
        }),
{
    detector_print_tells_settings_apart(before, after);
    review_print_tells_settings_apart(before, after);
}

/// A new test or a dropped proof takes the review away; a review takes nothing away.
pub proof fn a_test_needs_a_new_review(
    wizard: WizardView,
    passed: bool,
    evidence: Seq<char>,
    elapsed_ms: u64,
)
    ensures
        !tested(wizard, passed, evidence, elapsed_ms).dry_run_reviewed,
        !unproved(wizard).dry_run_reviewed,
        reviewed(wizard) == (WizardView {
            dry_run_reviewed: true,
            dry_run_fingerprint: Some(review_print(wizard)),
            ..wizard
        }),
        missing(unreviewed(wizard)) is Some,
        missing(unproved(wizard)) is Some,
{
}

/// Two points of a macro are the same as they are printed.
pub open spec fn same_printed_point(a: PointDefinitionView, b: PointDefinitionView) -> bool {
    printed_point(a.point) == printed_point(b.point) && a == (PointDefinitionView {
        point: a.point,
        ..b
    })
}

/// Two wizards with the same name and settings make the same macro: the same to the bit where their
/// rectangles and points are, and otherwise the same but for which NaN stands in these.
pub proof fn the_macro_follows_the_settings(a: WizardView, b: WizardView)
    requires
        a.name == b.name,
        same_detection(a, b),
        same_behaviour(a, b),
        a.image_verification == b.image_verification,
    ensures
        ({
            let x = wizard_definition(a);
            let y = wizard_definition(b);
            &&& a.region == b.region && a.action_target == b.action_target ==> x == y
            &&& printed_list::<RegionDefinition>(x.regions) == printed_list::<RegionDefinition>(
                y.regions,
            )
            &&& x.points.len() == y.points.len()
            &&& forall|i: int|
                0 <= i < x.points.len() ==> same_printed_point(#[trigger] x.points[i], y.points[i])
            &&& x == (MacroDefinitionView { regions: x.regions, points: x.points, ..y })
        }),
{
    let x = wizard_definition(a);
    let y = wizard_definition(b);
    assert(printed_list::<RegionDefinition>(x.regions) =~= printed_list::<RegionDefinition>(
        y.regions,
    ));
}

/// A condition looks for what the wizard was set to detect: the macro has one rule for it, of the
/// family of the condition and under the name that the condition gives, and none of another family.
/// The rule looks in the region of the wizard, for its text or its template.
pub open spec fn detects(
    wizard: WizardView,
    definition: MacroDefinitionView,
    condition: ConditionView,
) -> bool {
    &&& definition.regions.len() > 0 && definition.regions[0].rect == wizard.region
    &&& match wizard.detector {
        WizardDetectorView::Text => {
            &&& condition.family is Text
            &&& definition.text_rules.len() == 1 && definition.image_rules.len() == 0
            &&& definition.text_rules[0].id == condition.rule
            &&& definition.text_rules[0].region_id == definition.regions[0].id
            &&& definition.text_rules[0].expected == wizard.text_expected
            &&& definition.text_rules[0].match_mode == wizard.text_match_mode
        },
        WizardDetectorView::Image { template } => {
            &&& condition.family is Image
            &&& definition.image_rules.len() == 1 && definition.text_rules.len() == 0
            &&& definition.image_rules[0].id == condition.rule
            &&& definition.image_rules[0].region_id == definition.regions[0].id
            &&& definition.image_rules[0].template == template
            &&& definition.image_rules[0].verification == wizard.image_verification
        },
    }
}

/// A block clicks where the wizard was set to, with its button: on the match of the block `source`,
/// or on the point or in the region that the macro holds under the name and at the place that the
/// wizard gave it.
pub open spec fn clicks(
    wizard: WizardView,
    definition: MacroDefinitionView,
    block: BlockView,
    source: Seq<char>,
) -> bool {
    &&& block.head is Action && block.bodies.len() == 0 && block.enabled
    &&& match (wizard.action_target, block.head->action) {
        (
            WizardTargetView::MatchedResult,
            ActionView::ClickTextMatch { source: from, button },
        ) => wizard.detector is Text && from == source && button == wizard.mouse_button,
        (
            WizardTargetView::MatchedResult,
            ActionView::ClickImageMatch { source: from, button },
        ) => wizard.detector is Image && from == source && button == wizard.mouse_button,
        (
            WizardTargetView::SavedPoint { id, point },
            ActionView::ClickPoint { point_id, button },
        ) => point_id == id && button == wizard.mouse_button && definition.points.len() == 1
            && definition.points[0].id == id && definition.points[0].point == point,
        (
            WizardTargetView::SavedRegion { id, rect },
            ActionView::ClickRegion { region_id, button },
        ) => region_id == id && button == wizard.mouse_button && definition.regions.len() == 2
            && definition.regions[1].id == id && definition.regions[1].rect == rect,
        _ => false,
    }
}

/// A condition waits as the wizard was set to: not at all, or for as long as was chosen for a match
/// or for its end, and a wait that runs out stops the run with the message of the wizard or goes on.
pub open spec fn waits(wizard: WizardView, wait: WaitView) -> bool {
    let fails = |outcome: OutcomeView|
        match wizard.failure {
            WizardFailureView::Stop { message } => outcome is StopError && outcome->message
                == message,
            WizardFailureView::Continue => outcome is Continue,
        };
    match (wizard.wait, wait) {
        (WaitView::CheckNow, WaitView::CheckNow) => true,
        (
            WaitView::WaitForTrue { timeout_ms: chosen, .. },
            WaitView::WaitForTrue { timeout_ms, outcome },
        ) => timeout_ms == chosen && fails(outcome),
        (
            WaitView::WaitForFalse { timeout_ms: chosen, .. },
            WaitView::WaitForFalse { timeout_ms, outcome },
        ) => timeout_ms == chosen && fails(outcome),
        _ => false,
    }
}

/// Two blocks observe what the wizard was set to detect, and then click on what was observed.
pub open spec fn observes_and_clicks(
    wizard: WizardView,
    definition: MacroDefinitionView,
    blocks: Seq<BlockView>,
) -> bool {
    &&& blocks.len() == 2
    &&& blocks[0].head is Observe && blocks[0].bodies.len() == 0 && blocks[0].enabled
    &&& blocks[0].head->Observe_condition.source == blocks[0].id
    &&& detects(wizard, definition, blocks[0].head->Observe_condition)
    &&& waits(wizard, blocks[0].head->Observe_condition.wait)
    &&& clicks(wizard, definition, blocks[1], blocks[0].id)
    &&& blocks[0].id != blocks[1].id
}

/// A block holds one list of blocks, and it is a loop's.
pub open spec fn holds_a_loop(block: BlockView) -> bool {
    block.bodies.len() == 1 && block.bodies[0].role is Loop && block.enabled
}

/// The macro of a wizard does its work as often as was chosen: once, where it observes and clicks at
/// the top; a number of times, where one loop with that count is all there is; until a match, where a
/// loop with the chosen limit looks for the match and the click on it follows; or without an end,
/// where one endless loop is all there is.
pub proof fn the_macro_repeats_as_chosen(wizard: WizardView)
    ensures
        ({
            let definition = wizard_definition(wizard);
            let blocks = definition.blocks;
            match wizard.repetition {
                WizardRepetition::RunOnce => observes_and_clicks(wizard, definition, blocks),
                WizardRepetition::Repeat(count) => {
                    &&& blocks.len() == 1 && holds_a_loop(blocks[0])
                    &&& blocks[0].head is RepeatN && blocks[0].head->count == count
                    &&& observes_and_clicks(wizard, definition, blocks[0].bodies[0].blocks)
                },
                WizardRepetition::Until { max_iterations } => {
                    &&& blocks.len() == 2 && holds_a_loop(blocks[0])
                    &&& blocks[0].head is RepeatUntil && blocks[0].head->max_iterations
                        == max_iterations
                    &&& blocks[0].head->RepeatUntil_condition.source == blocks[0].id
                    &&& blocks[0].head->RepeatUntil_condition.wait is CheckNow
                    &&& detects(wizard, definition, blocks[0].head->RepeatUntil_condition)
                    &&& blocks[0].bodies[0].blocks.len() == 1
                    &&& blocks[0].bodies[0].blocks[0].head == (HeadView::Wait { duration_ms: 100 })
                    &&& clicks(wizard, definition, blocks[1], blocks[0].id)
                    &&& blocks[0].id != blocks[1].id
                },
                WizardRepetition::Continuous => {
                    &&& blocks.len() == 1 && holds_a_loop(blocks[0])
                    &&& blocks[0].head is Continuous
                    &&& observes_and_clicks(wizard, definition, blocks[0].bodies[0].blocks)
                },
            }
        }),
{
    reveal_strlit("check-text");
    reveal_strlit("wait-text");
    reveal_strlit("wait-image");
    reveal_strlit("click-text");
    reveal_strlit("click-image");
    reveal_strlit("repeat-until");
    let definition = wizard_definition(wizard);
    assert("check-text"@[1] != "click-text"@[1]);
    assert("wait-text"@.len() != "click-text"@.len());
    assert("wait-image"@.len() != "click-image"@.len());
    assert("repeat-until"@.len() != "click-image"@.len());
    assert("repeat-until"@.len() != "click-text"@.len());
    match wizard.repetition {
        WizardRepetition::RunOnce => {
            assert(observes_and_clicks(wizard, definition, definition.blocks));
        },
        WizardRepetition::Until { .. } => {},
        _ => {
            assert(observes_and_clicks(
                wizard,
                definition,
                definition.blocks[0].bodies[0].blocks,
            ));
        },
    }
}

/// Different settings make different macros: from its macro one reads back the name of a wizard, its
/// target, its region, what it detects, where and with which button it clicks, how often it runs and,
/// where it waits, for how long and with which failure. Wizards that differ only in how often they
/// repeat make loops that differ in their count.
pub proof fn the_macro_tells_settings_apart(a: WizardView, b: WizardView)
    requires
        wizard_definition(a) == wizard_definition(b),
    ensures
        a.name == b.name,
        a.target == b.target,
        a.region == b.region,
        a.detector == b.detector,
        a.detector is Text ==> a.text_expected == b.text_expected && a.text_match_mode
            == b.text_match_mode,
        a.detector is Image ==> a.image_verification == b.image_verification,
        a.mouse_button == b.mouse_button,
        a.action_target == b.action_target,
        a.repetition == b.repetition,
        a.repetition !is Until ==> (a.wait is CheckNow <==> b.wait is CheckNow) && (
        a.wait is WaitForTrue <==> b.wait is WaitForTrue),
        a.repetition !is Until && a.wait is WaitForTrue ==> a.wait->WaitForTrue_timeout_ms
            == b.wait->WaitForTrue_timeout_ms && a.failure == b.failure,
        a.repetition !is Until && a.wait is WaitForFalse ==> a.wait->WaitForFalse_timeout_ms
            == b.wait->WaitForFalse_timeout_ms && a.failure == b.failure,
{
    let x = wizard_definition(a);
    let y = wizard_definition(b);
    the_macro_repeats_as_chosen(a);
    the_macro_repeats_as_chosen(b);
    assert(x.regions[0] == y.regions[0]);
    match a.detector {
        WizardDetectorView::Text => {
            assert(x.text_rules[0] == y.text_rules[0]);
        },
        WizardDetectorView::Image { .. } => {
            assert(x.image_rules[0] == y.image_rules[0]);
        },
    }
    assert(x.blocks[0] == y.blocks[0]);
}

/// A macro of the wizard is complete and within bounds: its rules take exactly one match that stays
/// for two frames, never time out on their own, and its only safety limits are the pace of its
/// observations and clicks and that it stops where the target loses its focus.
pub proof fn the_macro_is_cautious(wizard: WizardView)
    ensures
        ({
            let definition = wizard_definition(wizard);
            &&& definition.name == wizard.name && definition.target == wizard.target
            &&& definition.revision == 1
            &&& forall|i: int|
                0 <= i < definition.text_rules.len() ==> {
                    let rule = #[trigger] definition.text_rules[i];
                    &&& rule.match_policy is ExactlyOne && rule.stable_frames == 2
                    &&& rule.timeout_ms is Unlimited && rule.poll_interval_ms == 250
                    &&& !rule.case_sensitive && !rule.allow_cross_line
                    &&& rule.language == "en-US"@ && rule.preprocess is Grayscale
                    &&& rule.threshold == F64Bits(0x3FEC_CCCC_CCCC_CCCD)
                }
            &&& forall|i: int|
                0 <= i < definition.image_rules.len() ==> {
                    let rule = #[trigger] definition.image_rules[i];
                    &&& rule.match_policy is ExactlyOne && rule.stable_frames == 2
                    &&& rule.timeout_ms is Unlimited && rule.poll_interval_ms == 100
                    &&& rule.maximum_center_drift_px == 5 && rule.transparent_mask is None
                    &&& rule.scales_percent == seq![95u16, 100u16, 105u16]
                    &&& rule.threshold == F32Bits(0x3F73_3333)
                    &&& rule.minimum_runner_up_margin == F32Bits(0x3D4C_CCCD)
                }
            &&& definition.safety.focus_loss is Stop
            &&& definition.safety.minimum_click_interval_ms == 100
            &&& definition.safety.max_observations_per_second == 20
            &&& definition.safety.max_runtime_ms is Unlimited
                && definition.safety.max_clicks is Unlimited
                && definition.safety.max_observation_retries is Unlimited
        }),
{
}

/// A wizard can be finished exactly where it stands at its end with a name, a bound target, something
/// to look for, a passed test of the detector it has, and a review of the settings it has.
pub proof fn complete_wizard_can_be_finished(wizard: WizardView)
    ensures
        missing(wizard) is None <==> {
            &&& wizard.step is Finish && !blank(wizard.name) && wizard.target_bound
            &&& match wizard.detector {
                WizardDetectorView::Text => !blank(wizard.text_expected),
                WizardDetectorView::Image { template } => template.revision != 0
                    && template.content_hash.len() > 0,
            }
            &&& wizard.detector_test is Some && wizard.detector_test->0.passed
            &&& wizard.detector_test->0.fingerprint == detector_print(wizard)
            &&& wizard.dry_run_reviewed
            &&& wizard.dry_run_fingerprint == Some(review_print(wizard))
        },
{
}

/// The steps of the wizard are numbered from one to nine. The target comes first, then the region,
/// the rule and its test, then the action, how often and what on a failure, then the review, and the
/// end is last.
pub proof fn steps_come_in_order()
    ensures
        step_place(WizardStep::Target) == 1,
        step_place(WizardStep::Target) < step_place(WizardStep::Region),
        step_place(WizardStep::Region) < step_place(WizardStep::Rule),
        step_place(WizardStep::Rule) < step_place(WizardStep::DetectorTest),
        step_place(WizardStep::DetectorTest) < step_place(WizardStep::Action),
        step_place(WizardStep::Action) < step_place(WizardStep::Repetition),
        step_place(WizardStep::Repetition) < step_place(WizardStep::Failure),
        step_place(WizardStep::Failure) < step_place(WizardStep::DryRun),
        step_place(WizardStep::DryRun) < step_place(WizardStep::Finish),
        step_place(WizardStep::Finish) == 9,
{
}

/// A capture of the target binds the wizard to it and counts it, so that a region or a click's
/// target of an earlier one is no longer current; a capture of a region, or of a click's target, is
/// current for the target that the wizard has. None touches anything else but the proofs.
pub proof fn captures_belong_to_their_target(
    wizard: WizardView,
    target: TargetProfileView,
    region: RectRatio,
)
    ensures
        ({
            let bound = target_captured(wizard, target);
            let placed = region_captured(wizard, region);
            let aimed = action_captured(wizard);
            &&& bound.target == target && bound.target_bound
            &&& wizard.target_generation < u64::MAX ==> bound.target_generation
                > wizard.target_generation
            &&& bound.region_capture_generation is None && bound.action_capture_generation is None
            &&& bound.detector_test is None && !bound.dry_run_reviewed
            &&& placed.region == region && placed.region_capture_generation == Some(
                placed.target_generation,
            )
            &&& placed.detector_test is None && !placed.dry_run_reviewed
            &&& placed.target == wizard.target && placed.target_generation
                == wizard.target_generation
            &&& aimed.action_capture_generation == Some(aimed.target_generation)
            &&& aimed.detector_test == wizard.detector_test && !aimed.dry_run_reviewed
            &&& aimed.target_generation == wizard.target_generation
        }),
{
}

} // verus!
