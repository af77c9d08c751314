//! What holds of the answers of the desktop: what was captured or tested is in the draft, or in the
//! wizard, as it was answered.
use crate::authoring::{AuthoringKindView, EditorAuthoringError, EditorAuthoringOutcome};
use crate::block_equality::equal_definitions;
use crate::command_view::CommandView;
use crate::commands::edited;
use crate::content::option_view;
use crate::draft::{
    applied, detector_fingerprint, other_failures, snapshot, DetectorFailureView, EditorDraftView,
};
use crate::inspector::InspectorIntentView;
use crate::macro_engine::{
    equal_rects, HeadView, MacroDefinitionView, RectRatio, TargetProfileView,
};
use crate::page::{mutations_allowed, PageView};
use crate::page_authoring::{answer_taken, image_rule_of, test_noted, tested_with};
use crate::page_edit::{dispatched, inspector_command, wish_kind};
use crate::page_laws::same_work;
use crate::page_wizard::{action_kind, outcome_taken, wizard_finished};
use crate::places::located;
use crate::rule_laws::{
    first_image_rule, first_region, recaptured_region_is_a_new_revision,
    recaptured_template_is_a_new_revision, replaced_target_is_the_target,
    verification_belongs_to_its_rule,
};
use crate::tree::found_block;
use crate::wizard::{
    detector_print, WizardAuthoringKind, WizardAuthoringOutcome, WizardDetectorKind,
    WizardDetectorView, WizardOutput, WizardUiAction, WizardView,
};
use vstd::prelude::*;

verus! {

/// What a command makes of the draft of a page, where it was accepted.
proof fn lemma_accepted(page: PageView, command: CommandView)
    requires
        mutations_allowed(page),
        !(command is Undo) && !(command is Redo) && !(command is MarkValidated),
        dispatched(page, command).1 is Ok,
    ensures
        ({
            let after = dispatched(page, command).0;
            let made = edited(snapshot(page.draft->0), command);
            &&& made is Ok && after.draft is Some
            &&& after.draft->0.failures == page.draft->0.failures
            &&& after.draft->0.definition == (MacroDefinitionView {
                revision: after.draft->0.definition.revision,
                ..made->Ok_0.definition
            }) || (after.draft == page.draft && equal_definitions(
                made->Ok_0.definition,
                page.draft->0.definition,
            ))
        }),
{
    assert(applied(page.draft->0, command).1 is Ok);
}

/// A captured target is the target of the draft, field by field, where its capture was accepted.
pub proof fn captured_target_is_the_target(page: PageView, outcome: EditorAuthoringOutcome)
    requires
        mutations_allowed(page),
        outcome is TargetGeometry,
        answer_taken(page, AuthoringKindView::CaptureTarget, outcome).1 is Ok,
    ensures
        ({
            let after = answer_taken(page, AuthoringKindView::CaptureTarget, outcome).0;
            let target = after.draft->0.definition.target;
            &&& after.draft is Some
            &&& target.process_path == outcome->process_path@
            &&& target.window_class == outcome->window_class@
            &&& target.title_contains == outcome->title@
            &&& target.captured_client_width == outcome->width
            &&& target.captured_client_height == outcome->height
            &&& target.captured_dpi == outcome->dpi
            &&& after.draft->0.definition.blocks == page.draft->0.definition.blocks
        }),
{
    let target = TargetProfileView {
        process_path: outcome->process_path@,
        window_class: outcome->window_class@,
        title_contains: outcome->title@,
        captured_client_width: outcome->width,
        captured_client_height: outcome->height,
        captured_dpi: outcome->dpi,
    };
    replaced_target_is_the_target(snapshot(page.draft->0), target);
    lemma_accepted(page, CommandView::ReplaceTarget { target });
}

/// A region that was captured anew has the captured rectangle in the draft, where the capture was
/// accepted; one whose region is not there is rejected.
pub proof fn captured_region_is_the_region(
    page: PageView,
    region_id: Seq<char>,
    rect: RectRatio,
    i: int,
)
    requires
        mutations_allowed(page),
        first_region(page.draft->0.definition.regions, region_id, i),
        answer_taken(
            page,
            AuthoringKindView::RecaptureRegion { region_id },
            EditorAuthoringOutcome::Region(rect),
        ).1 is Ok,
    ensures
        ({
            let after = answer_taken(
                page,
                AuthoringKindView::RecaptureRegion { region_id },
                EditorAuthoringOutcome::Region(rect),
            ).0;
            let regions = after.draft->0.definition.regions;
            &&& after.draft is Some && 0 <= i < regions.len() && regions[i].id == region_id
            &&& regions[i].rect == rect || equal_rects(regions[i].rect, rect)
        }),
{
    recaptured_region_is_a_new_revision(snapshot(page.draft->0), region_id, rect, i);
    lemma_accepted(page, CommandView::RecaptureRegion { region_id, rect });
    let made = edited(
        snapshot(page.draft->0),
        CommandView::RecaptureRegion { region_id, rect },
    )->Ok_0.definition;
    assert(made.regions[i].id == region_id);
}

/// A template that was captured anew is the template of its rule in the draft, where the capture was
/// accepted.
pub proof fn captured_template_is_the_template(
    page: PageView,
    rule_id: Seq<char>,
    outcome: EditorAuthoringOutcome,
    i: int,
)
    requires
        mutations_allowed(page),
        outcome is Template,
        first_image_rule(page.draft->0.definition.image_rules, rule_id, i),
        answer_taken(page, AuthoringKindView::RecaptureTemplate { rule_id }, outcome).1 is Ok,
    ensures
        ({
            let after = answer_taken(
                page,
                AuthoringKindView::RecaptureTemplate { rule_id },
                outcome,
            ).0;
            let rules = after.draft->0.definition.image_rules;
            &&& after.draft is Some && 0 <= i < rules.len() && rules[i].id == rule_id
            &&& rules[i].template == outcome->asset@
        }),
{
    let template = outcome->asset@;
    recaptured_template_is_a_new_revision(snapshot(page.draft->0), rule_id, template, i);
    lemma_accepted(page, CommandView::ApplyTemplateRecapture { rule_id, template });
    let made = edited(
        snapshot(page.draft->0),
        CommandView::ApplyTemplateRecapture { rule_id, template },
    )->Ok_0.definition;
    assert(made.image_rules[i].id == rule_id);
}

/// How a test of a block stands in a list of failures: one that failed is there, with what was seen
/// and for the detector that the block has now, and it is the only one of the block; one that passed
/// leaves none of the block. The failures of other blocks stay.
pub open spec fn test_is_noted(
    before: Seq<DetectorFailureView>,
    after: EditorDraftView,
    block_id: Seq<char>,
    passed: bool,
    evidence: Seq<char>,
) -> bool {
    let list = after.failures;
    &&& forall|i: int|
        0 <= i < before.len() && (#[trigger] before[i]).block_id != block_id ==> list.contains(
            before[i],
        )
    &&& forall|i: int|
        0 <= i < list.len() && (#[trigger] list[i]).block_id != block_id ==> before.contains(
            list[i],
        )
    &&& passed ==> forall|i: int| 0 <= i < list.len() ==> (#[trigger] list[i]).block_id != block_id
    &&& !passed ==> exists|k: int|
        0 <= k < list.len() && #[trigger] list[k] == (DetectorFailureView {
            block_id,
            fingerprint: detector_fingerprint(after.definition, block_id)->0,
            evidence,
        }) && detector_fingerprint(after.definition, block_id) is Some && forall|i: int|
            0 <= i < list.len() && i != k ==> (#[trigger] list[i]).block_id != block_id
}

proof fn lemma_other_failures(failures: Seq<DetectorFailureView>, block_id: Seq<char>)
    ensures
        forall|i: int|
            0 <= i < failures.len() && (#[trigger] failures[i]).block_id != block_id
                ==> other_failures(failures, block_id).contains(failures[i]),
        forall|i: int|
            0 <= i < other_failures(failures, block_id).len() ==> (#[trigger] other_failures(
                failures,
                block_id,
            )[i]).block_id != block_id && failures.contains(other_failures(failures, block_id)[i]),
    decreases failures.len(),
{
    if failures.len() > 0 {
        let rest = failures.drop_last();
        lemma_other_failures(rest, block_id);
        let before = other_failures(rest, block_id);
        let now = other_failures(failures, block_id);
        assert forall|i: int|
            0 <= i < failures.len() && (#[trigger] failures[i]).block_id
                != block_id implies now.contains(failures[i]) by {
            if i < rest.len() {
                assert(rest[i] == failures[i]);
                let k = before.index_of(rest[i]);
                assert(now[k] == failures[i]);
            } else {
                assert(now[before.len() as int] == failures[i]);
            }
        }
        assert forall|i: int| 0 <= i < now.len() implies (#[trigger] now[i]).block_id != block_id
            && failures.contains(now[i]) by {
            if i < before.len() {
                assert(now[i] == before[i]);
                let k = rest.index_of(before[i]);
                assert(failures[k] == now[i]);
            } else {
                assert(failures[failures.len() - 1] == now[i]);
            }
        }
    }
}

proof fn lemma_noted(
    page: PageView,
    block_id: Seq<char>,
    passed: bool,
    evidence: Seq<char>,
    elapsed_ms: u64,
)
    requires
        page.draft is Some,
        test_noted(page, block_id, passed, evidence, elapsed_ms).1 is Ok,
    ensures
        ({
            let after = test_noted(
                page,
                block_id,
                passed,
                evidence,
                elapsed_ms,
            ).0;
            &&& after.draft is Some && after.draft->0.definition == page.draft->0.definition
            &&& test_is_noted(page.draft->0.failures, after.draft->0, block_id, passed, evidence)
        }),
{
    let before = page.draft->0.failures;
    lemma_other_failures(before, block_id);
    let after = test_noted(
        page,
        block_id,
        passed,
        evidence,
        elapsed_ms,
    ).0.draft->0;
    let kept = other_failures(before, block_id);
    let list = after.failures;
    if !passed {
        let k = kept.len() as int;
        assert(list[k].block_id == block_id);
        assert forall|i: int|
            0 <= i < before.len() && (#[trigger] before[i]).block_id
                != block_id implies list.contains(before[i]) by {
            let j = kept.index_of(before[i]);
            assert(list[j] == before[i]);
        }
        assert forall|i: int|
            0 <= i < list.len() && (#[trigger] list[i]).block_id != block_id implies before.contains(
            list[i],
        ) by {
            assert(list[i] == kept[i]);
        }
        assert forall|i: int| 0 <= i < list.len() && i != k implies (#[trigger] list[i]).block_id
            != block_id by {
            assert(list[i] == kept[i]);
        }
    }
}

/// The result of a test of a text is noted for the tested block, and the macro stays as it is. An
/// answer that speaks of an image is none to it.
pub proof fn text_tests_are_noted(
    page: PageView,
    block_id: Seq<char>,
    outcome: EditorAuthoringOutcome,
)
    requires
        page.draft is Some,
        outcome is DetectorTest,
    ensures
        ({
            let (after, answer) = answer_taken(
                page,
                AuthoringKindView::TestOcr { block_id },
                outcome,
            );
            &&& outcome->rule_id is Some || outcome->image_verification is Some ==> answer == Err::<
                (),
                _,
            >(EditorAuthoringError::OutcomeMismatch) && after == page
            &&& answer is Ok ==> after.draft is Some && after.draft->0.definition
                == page.draft->0.definition && test_is_noted(
                page.draft->0.failures,
                after.draft->0,
                block_id,
                outcome->passed,
                outcome->evidence@,
            )
        }),
{
    if answer_taken(page, AuthoringKindView::TestOcr { block_id }, outcome).1 is Ok {
        lemma_noted(
            page,
            block_id,
            outcome->passed,
            outcome->evidence@,
            outcome->elapsed_ms,
        );
    }
}

/// A block observes by an image rule.
pub open spec fn observes_image(
    definition: MacroDefinitionView,
    block_id: Seq<char>,
    rule: Seq<char>,
) -> bool {
    found_block(definition.blocks, block_id) matches Some(block) && match block.head {
        HeadView::Observe { condition } => condition.family is Image && condition.rule == rule,
        HeadView::If { condition } => condition.family is Image && condition.rule == rule,
        HeadView::RepeatUntil { condition, .. } => condition.family is Image && condition.rule
            == rule,
        _ => false,
    }
}

/// A test of an image that passed and verified the rule of the tested block leaves the rule with that
/// verification and the block without a failure. One that did not pass, or verified nothing, leaves
/// the rule without any verification and is noted as a failure. An answer that verifies without having
/// passed, another rule than the block's, or a block without an image is none to the test.
pub proof fn image_tests_verify_their_rule(
    page: PageView,
    block_id: Seq<char>,
    rule: Seq<char>,
    outcome: EditorAuthoringOutcome,
    i: int,
)
    requires
        mutations_allowed(page),
        outcome is DetectorTest,
        observes_image(page.draft->0.definition, block_id, rule),
        first_image_rule(page.draft->0.definition.image_rules, rule, i),
    ensures
        ({
            let (after, answer) = answer_taken(
                page,
                AuthoringKindView::TestImage { block_id },
                outcome,
            );
            let rules = after.draft->0.definition.image_rules;
            let verified = outcome->passed && outcome->image_verification is Some;
            &&& outcome->image_verification is Some && !outcome->passed ==> answer == Err::<(), _>(
                EditorAuthoringError::OutcomeMismatch,
            ) && after == page
            &&& verified && option_view(outcome->rule_id) != Some(rule) ==> answer == Err::<(), _>(
                EditorAuthoringError::OutcomeMismatch,
            ) && after == page
            &&& answer is Ok ==> {
                &&& after.draft is Some && 0 <= i < rules.len() && rules[i].id == rule
                &&& rules[i].verification == (if verified {
                    option_view(outcome->image_verification)
                } else {
                    None
                })
                &&& test_is_noted(
                    page.draft->0.failures,
                    after.draft->0,
                    block_id,
                    verified,
                    outcome->evidence@,
                )
            }
        }),
{
    let (after, answer) = answer_taken(page, AuthoringKindView::TestImage { block_id }, outcome);
    let verified = outcome->passed && outcome->image_verification is Some;
    assert(image_rule_of(page.draft->0.definition, block_id) == Some(rule));
    if answer is Ok {
        let command = if verified {
            CommandView::ApplyImageVerification {
                rule_id: rule,
                verification: outcome->image_verification->0@,
            }
        } else {
            CommandView::ClearImageVerification { rule_id: rule }
        };
        verification_belongs_to_its_rule(
            snapshot(page.draft->0),
            rule,
            outcome->image_verification->0@,
        );
        assert(answer_taken(page, AuthoringKindView::TestImage { block_id }, outcome)
            == tested_with(
            page,
            command,
            block_id,
            verified,
            outcome->evidence@,
            outcome->elapsed_ms,
        ));
        lemma_accepted(page, command);
        let made = edited(snapshot(page.draft->0), command)->Ok_0.definition;
        assert(made.image_rules[i].id == rule);
        lemma_noted(
            dispatched(page, command).0,
            block_id,
            verified,
            outcome->evidence@,
            outcome->elapsed_ms,
        );
    }
}

/// A negative sample is kept for the block that it was captured for, behind those it has, and for no
/// other; one that was captured for another block is none to it.
pub proof fn samples_belong_to_their_block(
    page: PageView,
    block_id: Seq<char>,
    outcome: EditorAuthoringOutcome,
    other: Seq<char>,
)
    requires
        outcome is ImageNegativeSample,
    ensures
        ({
            let (after, answer) = answer_taken(
                page,
                AuthoringKindView::CaptureImageNegative { block_id },
                outcome,
            );
            &&& outcome->block_id@ != block_id ==> answer == Err::<(), _>(
                EditorAuthoringError::OutcomeMismatch,
            ) && after == page
            &&& outcome->block_id@ == block_id ==> {
                &&& answer is Ok && after.draft == page.draft
                &&& (after.samples)(block_id) == (page.samples)(block_id).push(outcome->sample@)
                &&& other != block_id ==> (after.samples)(other) == (page.samples)(other)
            }
        }),
{
}

/// A cancelled request leaves the work as it is, and an answer of another kind than was asked for is
/// refused and leaves the page as it is.
pub proof fn other_answers_change_nothing(
    page: PageView,
    kind: AuthoringKindView,
    outcome: EditorAuthoringOutcome,
)
    ensures
        outcome is Cancelled ==> answer_taken(page, kind, outcome).1 is Ok && same_work(
            answer_taken(page, kind, outcome).0,
            page,
        ),
        ({
            let fits = match outcome {
                EditorAuthoringOutcome::TargetGeometry { .. } => kind is CaptureTarget,
                EditorAuthoringOutcome::Region(_) => kind is RecaptureRegion,
                EditorAuthoringOutcome::Template { .. } => kind is RecaptureTemplate,
                EditorAuthoringOutcome::DetectorTest { .. } => kind is TestOcr || kind is TestImage,
                EditorAuthoringOutcome::ImageNegativeSample { .. } => kind is CaptureImageNegative,
                EditorAuthoringOutcome::Failed(_) => true,
                EditorAuthoringOutcome::Cancelled => true,
            };
            !fits ==> answer_taken(page, kind, outcome) == (
                page,
                Err::<(), _>(EditorAuthoringError::OutcomeMismatch),
            )
        }),
{
}

/// What the inspector asks the desktop for is what its button says, for the same block, region or
/// rule; and what it edits goes to the block that it shows, with the value that was entered.
pub proof fn inspector_wishes_keep_their_values(
    draft: EditorDraftView,
    id: Seq<char>,
    intent: InspectorIntentView,
)
    requires
        located(draft.definition.blocks, id) is Some,
    ensures
        ({
            let path = located(draft.definition.blocks, id)->0;
            let wished = inspector_command(Some(draft), intent);
            match intent {
                InspectorIntentView::TestOcr { block_id } => wish_kind(intent) == Some(
                    AuthoringKindView::TestOcr { block_id },
                ),
                InspectorIntentView::TestImage { block_id } => wish_kind(intent) == Some(
                    AuthoringKindView::TestImage { block_id },
                ),
                InspectorIntentView::RecaptureRegion { region_id } => wish_kind(intent) == Some(
                    AuthoringKindView::RecaptureRegion { region_id },
                ),
                InspectorIntentView::RecaptureTemplate { rule_id } => wish_kind(intent) == Some(
                    AuthoringKindView::RecaptureTemplate { rule_id },
                ),
                InspectorIntentView::CaptureImageNegative { block_id } => wish_kind(intent) == Some(
                    AuthoringKindView::CaptureImageNegative { block_id },
                ),
                InspectorIntentView::ReplaceTextRule { rule } => wished == Ok::<_, Seq<char>>(
                    Some(CommandView::ReplaceTextRule { rule }),
                ),
                InspectorIntentView::ReplaceImageRule { rule } => wished == Ok::<_, Seq<char>>(
                    Some(CommandView::ReplaceImageRule { rule }),
                ),
                InspectorIntentView::SetConditionMode { block_id, mode } => block_id == id
                    ==> wished == Ok::<_, Seq<char>>(
                    Some(CommandView::SetConditionMode { path, mode }),
                ),
                InspectorIntentView::SetRepeatUntilMax { block_id, max } => block_id == id
                    ==> wished == Ok::<_, Seq<char>>(
                    Some(CommandView::SetRepeatUntilMax { path, max_iterations: max }),
                ),
                InspectorIntentView::SetWaitDuration { block_id, duration_ms } => block_id == id
                    ==> wished == Ok::<_, Seq<char>>(
                    Some(CommandView::SetWaitDuration { path, duration_ms }),
                ),
                InspectorIntentView::SetRepeatCount { block_id, count } => block_id == id ==> wished
                    == Ok::<_, Seq<char>>(Some(CommandView::SetRepeatCount { path, count })),
                InspectorIntentView::SetWatchSettings { block_id, timeout_ms, cooldown_ms } => {
                    block_id == id ==> wished == Ok::<_, Seq<char>>(
                        Some(CommandView::SetWatchSettings { path, timeout_ms, cooldown_ms }),
                    )
                },
                InspectorIntentView::InvalidEdit { message } => wished == Err::<
                    Option<CommandView>,
                    _,
                >(message),
            }
        }),
{
}

/// Each button of the wizard asks the desktop for what it says; to finish asks for nothing.
pub proof fn wizard_buttons_ask_for_what_they_say(action: WizardUiAction)
    ensures
        action is CaptureTarget <==> action_kind(action) == Some(WizardAuthoringKind::CaptureTarget),
        action == WizardUiAction::CaptureRegion(WizardDetectorKind::Text) <==> action_kind(action)
            == Some(WizardAuthoringKind::CaptureTextRegion),
        action == WizardUiAction::CaptureRegion(WizardDetectorKind::Image) <==> action_kind(action)
            == Some(WizardAuthoringKind::CaptureImageRegion),
        action is CaptureTemplate <==> action_kind(action) == Some(
            WizardAuthoringKind::CaptureTemplate,
        ),
        action is CaptureClickPoint <==> action_kind(action) == Some(
            WizardAuthoringKind::CaptureClickPoint,
        ),
        action is CaptureClickRegion <==> action_kind(action) == Some(
            WizardAuthoringKind::CaptureClickRegion,
        ),
        action is TestDetector <==> action_kind(action) == Some(WizardAuthoringKind::TestDetector),
        action is CaptureImageNegative <==> action_kind(action) == Some(
            WizardAuthoringKind::CaptureImageNegative,
        ),
        action is Finish <==> action_kind(action) is None,
{
}

/// What the desktop answers the wizard is what the wizard has afterwards: the target field by field,
/// the region, the point or the region of the click, the template, one more sample, or the result of
/// a test of the detector that it has. A failure or a cancelled request leaves it as it is, and
/// an answer of another kind than was asked for is none.
pub proof fn wizard_takes_what_was_answered(
    wizard: WizardView,
    kind: WizardAuthoringKind,
    outcome: WizardAuthoringOutcome,
)
    ensures
        ({
            let taken = outcome_taken(wizard, kind, outcome);
            let (after, _) = taken->0;
            match outcome {
                WizardAuthoringOutcome::TargetGeometry {
                    process_path,
                    window_class,
                    title,
                    width,
                    height,
                    dpi,
                } => {
                    &&& taken is Some <==> kind is CaptureTarget
                    &&& taken is Some ==> after.target_bound && after.target.process_path
                        == process_path@ && after.target.window_class == window_class@
                        && after.target.title_contains == title@
                        && after.target.captured_client_width == width
                        && after.target.captured_client_height == height
                        && after.target.captured_dpi == dpi && after.region == wizard.region
                },
                WizardAuthoringOutcome::Region(rect) => {
                    &&& taken is Some <==> kind is CaptureTextRegion || kind is CaptureImageRegion
                        || kind is CaptureClickRegion
                    &&& kind is CaptureTextRegion || kind is CaptureImageRegion ==> after.region
                        == rect && after.action_target == wizard.action_target
                    &&& kind is CaptureClickRegion ==> after.region == wizard.region
                        && after.action_target is SavedRegion && after.action_target->rect == rect
                },
                WizardAuthoringOutcome::Point(point) => {
                    &&& taken is Some <==> kind is CaptureClickPoint
                    &&& taken is Some ==> after.action_target is SavedPoint
                        && after.action_target->point == point && after.region == wizard.region
                },
                WizardAuthoringOutcome::Template { asset } => {
                    &&& taken is Some <==> kind is CaptureTemplate
                    &&& taken is Some ==> after.detector == (WizardDetectorView::Image {
                        template: asset@,
                    }) && after.detector_test is None
                },
                WizardAuthoringOutcome::DetectorTest {
                    passed,
                    evidence,
                    elapsed_ms,
                    image_verification,
                } => {
                    &&& taken is Some <==> kind is TestDetector
                    &&& taken is Some ==> after.detector_test is Some && {
                        let test = after.detector_test->0;
                        &&& test.passed == passed && test.evidence == evidence@
                        &&& test.elapsed_ms == elapsed_ms && test.fingerprint == detector_print(
                            after,
                        )
                        &&& wizard.detector is Image ==> after.image_verification == option_view(
                            image_verification,
                        )
                        &&& wizard.detector is Text ==> after.image_verification is None
                        &&& !after.dry_run_reviewed && after.detector == wizard.detector
                    }
                },
                WizardAuthoringOutcome::ImageNegativeSample(sample) => {
                    &&& taken is Some <==> kind is CaptureImageNegative
                    &&& taken is Some ==> after.image_negative_samples
                        == wizard.image_negative_samples.push(sample@) && after.detector_test is None
                        && after.image_verification is None
                },
                WizardAuthoringOutcome::Failed(_) => taken is Some && after == wizard,
                WizardAuthoringOutcome::Cancelled => taken is Some && after == wizard,
            }
        }),
{
}

/// A finished wizard opens its macro as a new draft: unsaved, ready, with nothing to undo, and with
/// its first block selected; the wizard is closed.
pub proof fn finished_wizard_opens_its_macro(page: PageView, output: WizardOutput)
    ensures
        ({
            let after = wizard_finished(page, output);
            let blocks = output.definition@.blocks;
            &&& after.draft is Some && after.draft->0.definition == output.definition@
            &&& after.draft->0.undo.len() == 0 && after.draft->0.redo.len() == 0
            &&& after.draft->0.editability is Editable && after.draft->0.status is Ready
            &&& after.wizard is None && after.active_wizard_request is None
            &&& after.selected_saved is None && after.saved_revision is None
            &&& blocks.len() > 0 ==> after.selected_block_id == Some(blocks[0].id)
            &&& blocks.len() == 0 ==> after.selected_block_id is None
            &&& page.wizard_session is Some ==> after.draft_session == page.wizard_session
        }),
{
}

} // verus!
