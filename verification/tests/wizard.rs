//! The wizard.
use macro_ui::macro_engine::{
    Action, AssetRef, BlockKind, Condition, F32Bits, F64Bits, ImageRule,
    ImageRuleVerificationArtifact, Limit, MacroDefinition, MatchSelectionPolicy, MouseButton,
    NegativeCorpusSample, ObserveMode, PointRatio, RectRatio, TextMatchMode, ValidationProblem,
};
use macro_ui::tree::find_block;
use macro_ui::wizard::{
    WIZARD_IMAGE_THRESHOLD, WizardActionTarget, WizardDetector, WizardRepetition, WizardState,
    WizardStep,
};

fn double(value: f64) -> F64Bits {
    F64Bits(value.to_bits())
}

fn single(value: f32) -> F32Bits {
    F32Bits(value.to_bits())
}

fn no_problems(_: &MacroDefinition) -> Vec<ValidationProblem> {
    vec![]
}

fn completed_text_fixture() -> WizardState {
    let mut wizard = WizardState::default();
    wizard.step = WizardStep::Finish;
    wizard.name = "Text Click".into();
    wizard.text_expected = "Ancestral".into();
    wizard.repetition = WizardRepetition::Continuous;
    wizard.target_bound = true;
    wizard.record_detector_test(true, "fixture", 12);
    wizard.mark_dry_run_reviewed();
    wizard
}

fn absent_match_problems(definition: &MacroDefinition) -> Vec<ValidationProblem> {
    definition
        .text_rules
        .iter()
        .filter(|rule| rule.match_mode == TextMatchMode::Absent)
        .map(|rule| ValidationProblem {
            code: "text_match.absent".into(),
            message: format!("{} has no match to click", rule.id),
            block_id: None,
        })
        .collect()
}

#[test]
fn wizard_emits_canonical_editable_blocks() {
    let wizard = completed_text_fixture();
    let authoring_rule = wizard.text_rule_for_authoring().unwrap();
    let output = wizard.finish(no_problems).expect("completed wizard");

    assert!(matches!(
        output.definition.blocks[0].kind,
        BlockKind::Continuous { .. }
    ));
    assert!(find_block(&output.definition.blocks, "wait-text").is_some());
    assert!(find_block(&output.definition.blocks, "click-text").is_some());
    assert_eq!(output.definition.text_rules, vec![authoring_rule]);
    assert!(output.validation_problems.is_empty());
}

#[test]
fn form_edits_clear_only_the_proofs_they_make_stale() {
    let mut detector_edit = completed_text_fixture();
    let negative_rule = ImageRule {
        id: "image-rule".into(),
        revision: 1,
        region_id: "detect-region".into(),
        template: AssetRef {
            id: "template".into(),
            revision: 1,
            content_hash: "hash".into(),
        },
        transparent_mask: None,
        threshold: F32Bits(WIZARD_IMAGE_THRESHOLD),
        scales_percent: vec![100],
        stable_frames: 2,
        maximum_center_drift_px: 5,
        minimum_runner_up_margin: single(0.05),
        verification: None,
        match_policy: MatchSelectionPolicy::ExactlyOne,
        poll_interval_ms: 100,
        timeout_ms: Limit::Unlimited,
    };
    detector_edit
        .image_negative_samples
        .push(NegativeCorpusSample {
            stable_id: "stale-negative".into(),
            content_sha256: "11".repeat(32),
            measured_score: double(0.1),
            evaluation: "inputs".into(),
        });
    let detector_before = detector_edit.detector_fingerprint();
    let review_before = detector_edit.review_fingerprint();
    detector_edit.text_expected = "Greater Affix".into();
    detector_edit.reconcile_form_edits(&detector_before, &review_before);
    assert!(detector_edit.detector_test.is_none());
    assert!(detector_edit.image_negative_samples.is_empty());
    assert!(!detector_edit.dry_run_reviewed);

    let mut action_edit = completed_text_fixture();
    let detector_before = action_edit.detector_fingerprint();
    let review_before = action_edit.review_fingerprint();
    action_edit.mouse_button = MouseButton::Right;
    action_edit.reconcile_form_edits(&detector_before, &review_before);
    assert!(action_edit.detector_test.is_some());
    assert!(!action_edit.dry_run_reviewed);
}

#[test]
fn wizard_back_preserves_edits_and_wait_can_change_to_check() {
    let mut wizard = completed_text_fixture();
    wizard.step = WizardStep::Action;
    wizard.back();
    assert_eq!(wizard.step, WizardStep::DetectorTest);
    assert_eq!(wizard.text_expected, "Ancestral");

    wizard.observe_mode = ObserveMode::CheckNow;
    wizard.step = WizardStep::Finish;
    wizard.mark_dry_run_reviewed();
    let output = wizard.finish(no_problems).expect("editable canonical output");
    let observe = find_block(&output.definition.blocks, "wait-text").unwrap();
    assert!(matches!(
        observe.kind,
        BlockKind::Observe {
            condition: Condition::Text {
                mode: ObserveMode::CheckNow,
                ..
            }
        }
    ));
}

#[test]
fn wizard_preserves_right_click_and_unlimited_repetition() {
    let mut wizard = completed_text_fixture();
    wizard.mouse_button = MouseButton::Right;
    wizard.repetition = WizardRepetition::Continuous;
    wizard.mark_dry_run_reviewed();
    let output = wizard.finish(no_problems).unwrap();
    let click = find_block(&output.definition.blocks, "click-text").unwrap();
    assert!(matches!(
        click.kind,
        BlockKind::Action {
            action: Action::ClickTextMatch {
                button: MouseButton::Right,
                ..
            }
        }
    ));
}

#[test]
fn finish_requires_successful_detector_test_and_dry_run_review() {
    let mut wizard = WizardState::default();
    wizard.step = WizardStep::Finish;
    wizard.target_bound = true;
    wizard.text_expected = "Ancestral".into();
    assert!(wizard.finish(no_problems).unwrap_err().contains("Detector test"));

    wizard.record_detector_test(true, "Ancestral", 10);
    assert!(wizard.finish(no_problems).unwrap_err().contains("Dry Run"));

    wizard.mark_dry_run_reviewed();
    assert!(wizard.finish(no_problems).is_ok());
}

#[test]
fn image_wizard_emits_canonical_image_rule_and_click() {
    let mut wizard = completed_text_fixture();
    wizard.detector = WizardDetector::Image {
        template: AssetRef {
            id: "template".into(),
            revision: 3,
            content_hash: "abc".into(),
        },
    };
    let verification = ImageRuleVerificationArtifact { digest: "verified".into() };
    wizard.record_image_detector_test(true, "image matched", 8, Some(verification));
    wizard.mark_dry_run_reviewed();

    let output = wizard.finish(no_problems).unwrap();

    assert!(output.definition.text_rules.is_empty());
    assert_eq!(output.definition.image_rules[0].template.revision, 3);
    assert!(find_block(&output.definition.blocks, "wait-image").is_some());
    assert!(find_block(&output.definition.blocks, "click-image").is_some());
}

#[test]
fn wizard_emits_saved_point_and_region_click_targets() {
    let mut point = completed_text_fixture();
    point.action_target = WizardActionTarget::SavedPoint {
        id: "click-point".into(),
        point: PointRatio { x: double(0.4), y: double(0.6) },
    };
    point.mark_dry_run_reviewed();
    let output = point.finish(no_problems).unwrap();
    assert_eq!(output.definition.points[0].id, "click-point");
    assert!(matches!(
        find_block(&output.definition.blocks, "click-text")
            .unwrap()
            .kind,
        BlockKind::Action {
            action: Action::ClickPoint { .. }
        }
    ));

    let mut region = completed_text_fixture();
    region.action_target = WizardActionTarget::SavedRegion {
        id: "click-region".into(),
        rect: RectRatio {
            x: double(0.2),
            y: double(0.3),
            width: double(0.1),
            height: double(0.1),
        },
    };
    region.mark_dry_run_reviewed();
    let output = region.finish(no_problems).unwrap();
    assert!(
        output
            .definition
            .regions
            .iter()
            .any(|item| item.id == "click-region")
    );
    assert!(matches!(
        find_block(&output.definition.blocks, "click-text")
            .unwrap()
            .kind,
        BlockKind::Action {
            action: Action::ClickRegion { .. }
        }
    ));
}

#[test]
fn repeat_until_uses_real_detector_condition_and_explicit_unlimited_max() {
    let mut wizard = completed_text_fixture();
    wizard.repetition = WizardRepetition::Until {
        max_iterations: Limit::Unlimited,
    };
    wizard.mark_dry_run_reviewed();

    let output = wizard.finish(no_problems).unwrap();

    assert!(matches!(
        output.definition.blocks[0].kind,
        BlockKind::RepeatUntil {
            condition: Condition::Text { .. },
            max_iterations: Limit::Unlimited,
            ..
        }
    ));
}

#[test]
fn finish_rejects_unbound_target_and_any_canonical_validation_problem() {
    let mut wizard = completed_text_fixture();
    wizard.target_bound = false;
    assert!(wizard.finish(no_problems).unwrap_err().contains("target"));

    wizard.target_bound = true;
    wizard.text_match_mode = TextMatchMode::Absent;
    wizard.record_detector_test(true, "absent", 5);
    wizard.mark_dry_run_reviewed();
    assert!(wizard.finish(absent_match_problems).unwrap_err().contains("validation"));
}

#[test]
fn target_region_or_template_change_clears_revision_bound_negative_samples() {
    let mut wizard = completed_text_fixture();
    let template = AssetRef {
        id: "template".into(),
        revision: 1,
        content_hash: "abc".into(),
    };
    wizard.detector = WizardDetector::Image {
        template: template.clone(),
    };
    let rule = ImageRule {
        id: "image-rule".into(),
        revision: 1,
        region_id: "detect-region".into(),
        template,
        transparent_mask: None,
        threshold: F32Bits(WIZARD_IMAGE_THRESHOLD),
        scales_percent: vec![95, 100, 105],
        stable_frames: 2,
        maximum_center_drift_px: 5,
        minimum_runner_up_margin: single(0.05),
        verification: None,
        match_policy: MatchSelectionPolicy::ExactlyOne,
        poll_interval_ms: 100,
        timeout_ms: Limit::Unlimited,
    };
    wizard.image_negative_samples.push(NegativeCorpusSample {
        stable_id: "negative/a".into(),
        content_sha256: "11".repeat(32),
        measured_score: double(0.1),
        evaluation: "inputs".into(),
    });

    wizard.invalidate_detector_proof();

    assert!(wizard.image_negative_samples.is_empty());
    assert!(wizard.detector_test.is_none());
    assert!(wizard.image_verification.is_none());
}
