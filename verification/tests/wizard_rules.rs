//! What the wizard promises of every form, on chosen forms.
use macro_ui::macro_engine::{
    AssetRef, F64Bits, MacroDefinition, MouseButton, ObserveMode, PointRatio, ValidationProblem,
};
use macro_ui::wizard::{
    WizardActionKind, WizardActionTarget, WizardDetector, WizardDetectorKind, WizardFailure,
    WizardRepetition, WizardState, WizardStep, step_number,
};

fn clean(_: &MacroDefinition) -> Vec<ValidationProblem> {
    vec![]
}

fn broken(_: &MacroDefinition) -> Vec<ValidationProblem> {
    let problem = |code: &str| ValidationProblem {
        code: code.into(),
        message: "Broken".into(),
        block_id: None,
    };
    vec![problem("target.missing"), problem("limit.zero")]
}

fn finished() -> WizardState {
    let mut wizard = WizardState::default();
    wizard.step = WizardStep::Finish;
    wizard.target_bound = true;
    wizard.text_expected = "Ancestral".into();
    wizard.record_detector_test(true, "seen", 5);
    wizard.mark_dry_run_reviewed();
    wizard
}

fn refusal(wizard: &WizardState) -> String {
    wizard.finish(clean).unwrap_err()
}

#[test]
fn a_finish_is_refused_until_everything_holds() {
    let mut wizard = WizardState::default();
    assert_eq!(refusal(&wizard), "Complete every wizard step before Finish");
    wizard.step = WizardStep::Finish;
    wizard.name = "  ".into();
    assert_eq!(refusal(&wizard), "Macro name is required");
    wizard.name = "Macro".into();
    assert_eq!(refusal(&wizard), "Capture and bind a concrete target before Finish");
    wizard.target_bound = true;
    assert_eq!(refusal(&wizard), "Expected OCR text is required");
    wizard.text_expected = "Ancestral".into();
    assert_eq!(refusal(&wizard), "Detector test is required before Finish");
    wizard.record_detector_test(false, "nothing", 5);
    assert_eq!(refusal(&wizard), "Detector test failed; edit the rule or test again");
    wizard.record_detector_test(true, "seen", 5);
    assert_eq!(refusal(&wizard), "Dry Run review is required before Finish");
    wizard.mark_dry_run_reviewed();
    let output = wizard.finish(clean).unwrap();
    assert_eq!(output.definition.name, "Macro");
    assert_eq!(
        wizard.finish(broken).unwrap_err(),
        "Canonical validation failed: target.missing, limit.zero"
    );
    wizard.set_detector_kind(WizardDetectorKind::Image);
    assert_eq!(refusal(&wizard), "Capture an image template before Finish");
}

#[test]
fn a_changed_detector_needs_a_new_test() {
    let mut wizard = finished();
    wizard.text_expected = "Greater Affix".into();
    assert_eq!(refusal(&wizard), "Detector settings changed; run Detector Test again");
}

#[test]
fn changed_settings_need_a_new_review() {
    let mut wizard = finished();
    wizard.mouse_button = MouseButton::Right;
    assert_eq!(refusal(&wizard), "Dry Run review is required before Finish");
    wizard.mark_dry_run_reviewed();
    assert!(wizard.finish(clean).is_ok());
}

#[test]
fn an_edit_drops_only_stale_proofs() {
    let mut wizard = finished();
    let (detector, review) = (wizard.detector_fingerprint(), wizard.review_fingerprint());
    wizard.reconcile_form_edits(&detector, &review);
    assert!(wizard.detector_test.is_some() && wizard.dry_run_reviewed);
    wizard.mouse_button = MouseButton::Right;
    wizard.reconcile_form_edits(&detector, &review);
    assert!(wizard.detector_test.is_some() && !wizard.dry_run_reviewed);
    wizard.text_expected = "Other".into();
    wizard.reconcile_form_edits(&detector, &review);
    assert!(wizard.detector_test.is_none());
}

#[test]
fn prints_tell_forms_apart() {
    let wizard = finished();
    let mut other = finished();
    assert_eq!(wizard.detector_fingerprint(), other.detector_fingerprint());
    assert_eq!(wizard.review_fingerprint(), other.review_fingerprint());
    other.text_expected = "Ancestral ".into();
    assert_ne!(wizard.detector_fingerprint(), other.detector_fingerprint());
    let mut repeated = finished();
    repeated.repetition = WizardRepetition::Repeat(2);
    assert_eq!(wizard.detector_fingerprint(), repeated.detector_fingerprint());
    assert_ne!(wizard.review_fingerprint(), repeated.review_fingerprint());
}

#[test]
fn prints_tell_numbers_apart_but_not_what_is_none() {
    let quiet = F64Bits(f64::NAN.to_bits());
    let negative = F64Bits((-f64::NAN).to_bits());
    let other = F64Bits(f64::NAN.to_bits() + 1);
    let with_x = |x: F64Bits| {
        let mut wizard = finished();
        wizard.region.x = x;
        wizard
    };
    let with_point = |x: F64Bits| {
        let mut wizard = finished();
        wizard.action_target =
            WizardActionTarget::SavedPoint { id: "spot".into(), point: PointRatio { x, y: x } };
        wizard
    };
    for (a, b) in [(quiet, negative), (quiet, other)] {
        assert_ne!(a.0, b.0);
        assert_eq!(with_x(a).detector_fingerprint(), with_x(b).detector_fingerprint());
        assert_eq!(with_point(a).review_fingerprint(), with_point(b).review_fingerprint());
    }
    let (zero, minus) = (F64Bits(0.0f64.to_bits()), F64Bits((-0.0f64).to_bits()));
    for (a, b) in [(zero, minus), (zero, quiet), (quiet, F64Bits(f64::INFINITY.to_bits()))] {
        assert_ne!(with_x(a).detector_fingerprint(), with_x(b).detector_fingerprint());
        assert_ne!(with_point(a).review_fingerprint(), with_point(b).review_fingerprint());
    }
}

#[test]
fn the_macro_follows_the_settings() {
    let (first, second) = (finished(), finished());
    assert_eq!(first.compose().unwrap(), second.compose().unwrap());
}

#[test]
fn a_text_is_checked_once_and_all_else_waits() {
    let named = |repetition: WizardRepetition, image: bool| {
        let mut wizard = finished();
        wizard.repetition = repetition;
        if image {
            wizard.detector = WizardDetector::Image {
                template: AssetRef { id: "icon".into(), revision: 1, content_hash: "hash".into() },
            };
            wizard.record_image_detector_test(true, "seen", 5, None);
        }
        wizard.mark_dry_run_reviewed();
        let definition = wizard.finish(clean).unwrap().definition;
        macro_ui::tree::walk(&definition.blocks)
            .into_iter()
            .map(|block| block.id.clone())
            .collect::<Vec<_>>()
    };
    assert_eq!(named(WizardRepetition::RunOnce, false), ["check-text", "click-text"]);
    assert_eq!(named(WizardRepetition::RunOnce, true), ["wait-image", "click-image"]);
    assert_eq!(named(WizardRepetition::Repeat(2), false), ["repeat", "wait-text", "click-text"]);
    assert_eq!(
        named(WizardRepetition::Continuous, true),
        ["continuous", "wait-image", "click-image"]
    );
}

#[test]
fn the_form_keeps_what_it_already_holds() {
    let mut wizard = WizardState::default();
    wizard.set_action_kind(WizardActionKind::SavedPoint);
    assert!(matches!(
        &wizard.action_target,
        WizardActionTarget::SavedPoint { id, .. } if id == "click-point"
    ));
    wizard.set_wait(false);
    assert_eq!(wizard.observe_mode, ObserveMode::CheckNow);
    wizard.set_wait(true);
    assert!(matches!(wizard.observe_mode, ObserveMode::WaitForTrue { .. }));
    wizard.failure = WizardFailure::Stop { message: "mine".into() };
    wizard.set_stop_on_failure(true);
    assert_eq!(wizard.failure, WizardFailure::Stop { message: "mine".into() });
    wizard.set_stop_on_failure(false);
    assert_eq!(wizard.failure, WizardFailure::Continue);
    assert_eq!(step_number(WizardStep::Target), 1);
    assert_eq!(step_number(WizardStep::Finish), 9);
}
