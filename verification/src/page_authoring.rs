//! Answers of the desktop to the editor.
use crate::authoring::{
    authoring_print, editor_authoring_fingerprint, AuthoringKindView, EditorAuthoringError,
    EditorAuthoringKind, EditorAuthoringOutcome, EditorAuthoringResult, EditorRequestView,
};
use crate::block_edit::head_condition;
use crate::command_view::CommandView;
use crate::content::option_view;
use crate::draft::{
    condition_for_block, detector_fingerprint, detector_fingerprint_for_block, other_failures,
    DetectorFailureView, EditorDraft, EditorDraftView,
};
use crate::editor_types::EditorCommand;
use crate::macro_engine::{
    Condition, ImageRuleVerificationArtifact, ImageRuleVerificationArtifactView,
    MacroDefinitionView, TargetProfile, TargetProfileView,
};
use crate::page::{told, without_editor_request, MacroPageState, PageView};
use crate::page_edit::{dispatch_editor_command, dispatched};
use crate::sample_table::{no_samples, with_sample, SampleTable};
use crate::text::{append_decimal, decimal};
use crate::tree::found_block;
use vstd::prelude::*;
use vstd::string::StringExecFns;

verus! {

/// What a capture answers and leaves: the edit, and no sample that was taken before it.
pub open spec fn captured(page: PageView, command: CommandView) -> (
    PageView,
    Result<(), EditorAuthoringError>,
) {
    let (next, answer) = dispatched(page, command);
    match answer {
        Ok(_) => (PageView { samples: no_samples(), ..next }, Ok(())),
        Err(_) => (next, Err(EditorAuthoringError::EditRejected)),
    }
}

fn capture(state: &mut MacroPageState, command: EditorCommand) -> (answer: Result<
    (),
    EditorAuthoringError,
>)
    ensures
        (final(state)@, answer) == captured(old(state)@, command@),
{
    match dispatch_editor_command(state, command) {
        Ok(_) => {
            state.editor_image_negative_samples = SampleTable::new();
            Ok(())
        },
        Err(_) => Err(EditorAuthoringError::EditRejected),
    }
}

/// The image rule that a block observes with.
pub open spec fn image_rule_of(definition: MacroDefinitionView, block_id: Seq<char>) -> Option<
    Seq<char>,
> {
    match found_block(definition.blocks, block_id) {
        None => None,
        Some(block) => match head_condition(block.head) {
            Some(condition) if condition.family is Image => Some(condition.rule),
            _ => None,
        },
    }
}

fn image_rule_for(draft: &EditorDraft, block_id: &str) -> (rule: Option<String>)
    ensures
        option_view(rule) == image_rule_of(draft@.definition, block_id@),
{
    match condition_for_block(&draft.definition, block_id) {
        Some(Condition::Image { rule_id, .. }) => Some(rule_id.clone()),
        _ => None,
    }
}

/// A draft after a test of a block's detector failed.
pub open spec fn with_failure(
    draft: EditorDraftView,
    block_id: Seq<char>,
    fingerprint: Seq<char>,
    evidence: Seq<char>,
) -> EditorDraftView {
    EditorDraftView {
        failures: other_failures(draft.failures, block_id).push(
            DetectorFailureView { block_id, fingerprint, evidence },
        ),
        ..draft
    }
}

/// What is said of a test.
pub open spec fn test_text(passed: bool, elapsed_ms: u64, evidence: Seq<char>) -> Seq<char> {
    "Detector test "@ + (if passed {
        "passed"@
    } else {
        "failed"@
    }) + " in "@ + decimal(elapsed_ms as nat) + " ms: "@ + evidence
}

fn text_of_test(passed: bool, elapsed_ms: u64, evidence: &String) -> (text: String)
    ensures
        text@ == test_text(passed, elapsed_ms, evidence@),
{
    let mut text = "Detector test ".to_owned();
    if passed {
        text.append("passed");
    } else {
        text.append("failed");
    }
    text.append(" in ");
    append_decimal(&mut text, elapsed_ms);
    text.append(" ms: ");
    text.append(evidence.as_str());
    text
}

/// What a failed test answers and leaves, or a failure of another kind on a tested block: the
/// failure is remembered with the detector it was seen on.
pub open spec fn failure_noted(page: PageView, block_id: Seq<char>, evidence: Seq<char>) -> Option<
    PageView,
> {
    let draft = page.draft->0;
    match detector_fingerprint(draft.definition, block_id) {
        None => None,
        Some(fingerprint) => Some(
            PageView {
                draft: Some(with_failure(draft, block_id, fingerprint, evidence)),
                ..page
            },
        ),
    }
}

fn note_failure(state: &mut MacroPageState, block_id: &str, evidence: &String) -> (noted: bool)
    requires
        old(state).draft is Some,
    ensures
        match failure_noted(old(state)@, block_id@, evidence@) {
            Some(page) => noted && final(state)@ == page,
            None => !noted && final(state)@ == old(state)@,
        },
{
    match &mut state.draft {
        None => false,
        Some(draft) => match detector_fingerprint_for_block(&draft.definition, block_id) {
            None => false,
            Some(fingerprint) => {
                draft.record_detector_test_failure(block_id, fingerprint, evidence.clone());
                true
            },
        },
    }
}

/// What a test answers and leaves: a passed one drops the failure that was remembered.
pub open spec fn test_noted(
    page: PageView,
    block_id: Seq<char>,
    passed: bool,
    evidence: Seq<char>,
    elapsed_ms: u64,
) -> (PageView, Result<(), EditorAuthoringError>) {
    let draft = page.draft->0;
    let after = if passed {
        Some(
            PageView {
                draft: Some(
                    EditorDraftView {
                        failures: other_failures(draft.failures, block_id),
                        ..draft
                    },
                ),
                ..page
            },
        )
    } else {
        failure_noted(page, block_id, evidence)
    };
    match after {
        Some(next) => (told(next, test_text(passed, elapsed_ms, evidence)), Ok(())),
        None => (page, Err(EditorAuthoringError::OutcomeMismatch)),
    }
}

fn note_test(
    state: &mut MacroPageState,
    block_id: &str,
    passed: bool,
    evidence: &String,
    elapsed_ms: u64,
) -> (answer: Result<(), EditorAuthoringError>)
    requires
        old(state).draft is Some,
    ensures
        (final(state)@, answer) == test_noted(
            old(state)@,
            block_id@,
            passed,
            evidence@,
            elapsed_ms,
        ),
{
    if passed {
        if let Some(draft) = &mut state.draft {
            draft.clear_detector_test_failure(block_id);
        }
    } else if !note_failure(state, block_id, evidence) {
        return Err(EditorAuthoringError::OutcomeMismatch);
    }
    state.editor_feedback = Some(text_of_test(passed, elapsed_ms, evidence));
    Ok(())
}

/// What the test of a text detector answers and leaves. It carries neither a rule nor a
/// verification.
pub open spec fn text_tested(
    page: PageView,
    block_id: Seq<char>,
    passed: bool,
    evidence: Seq<char>,
    elapsed_ms: u64,
    rule_id: Option<Seq<char>>,
    verification: Option<ImageRuleVerificationArtifactView>,
) -> (PageView, Result<(), EditorAuthoringError>) {
    if rule_id is Some || verification is Some {
        (page, Err(EditorAuthoringError::OutcomeMismatch))
    } else {
        test_noted(page, block_id, passed, evidence, elapsed_ms)
    }
}

/// A test that goes with an edit of the image rule's verification.
pub open spec fn tested_with(
    page: PageView,
    command: CommandView,
    block_id: Seq<char>,
    passed: bool,
    evidence: Seq<char>,
    elapsed_ms: u64,
) -> (PageView, Result<(), EditorAuthoringError>) {
    let (next, answer) = dispatched(page, command);
    match answer {
        Ok(_) => test_noted(next, block_id, passed, evidence, elapsed_ms),
        Err(_) => (next, Err(EditorAuthoringError::EditRejected)),
    }
}

/// What the test of an image detector answers and leaves. A test passes only together with a
/// verification of the rule that the block observes with; any other test takes the verification of
/// that rule away.
pub open spec fn image_tested(
    page: PageView,
    block_id: Seq<char>,
    passed: bool,
    evidence: Seq<char>,
    elapsed_ms: u64,
    rule_id: Option<Seq<char>>,
    verification: Option<ImageRuleVerificationArtifactView>,
) -> (PageView, Result<(), EditorAuthoringError>) {
    match image_rule_of(page.draft->0.definition, block_id) {
        None => (page, Err(EditorAuthoringError::OutcomeMismatch)),
        Some(expected) => if verification is Some && !passed {
            (page, Err(EditorAuthoringError::OutcomeMismatch))
        } else if !passed {
            tested_with(
                page,
                CommandView::ClearImageVerification { rule_id: expected },
                block_id,
                false,
                evidence,
                elapsed_ms,
            )
        } else {
            match (rule_id, verification) {
                (Some(rule_id), Some(verification)) => if rule_id != expected {
                    (page, Err(EditorAuthoringError::OutcomeMismatch))
                } else {
                    tested_with(
                        page,
                        CommandView::ApplyImageVerification { rule_id, verification },
                        block_id,
                        true,
                        evidence,
                        elapsed_ms,
                    )
                },
                (None, None) => tested_with(
                    page,
                    CommandView::ClearImageVerification { rule_id: expected },
                    block_id,
                    false,
                    evidence,
                    elapsed_ms,
                ),
                _ => (page, Err(EditorAuthoringError::OutcomeMismatch)),
            }
        },
    }
}

proof fn lemma_draft_stays(page: PageView, command: CommandView)
    requires
        page.draft is Some,
    ensures
        dispatched(page, command).0.draft is Some,
{
}

fn test_with(
    state: &mut MacroPageState,
    command: EditorCommand,
    block_id: &str,
    passed: bool,
    evidence: &String,
    elapsed_ms: u64,
) -> (answer: Result<(), EditorAuthoringError>)
    requires
        old(state).draft is Some,
    ensures
        (final(state)@, answer) == tested_with(
            old(state)@,
            command@,
            block_id@,
            passed,
            evidence@,
            elapsed_ms,
        ),
{
    proof {
        lemma_draft_stays(state@, command@);
    }
    match dispatch_editor_command(state, command) {
        Ok(_) => note_test(state, block_id, passed, evidence, elapsed_ms),
        Err(_) => Err(EditorAuthoringError::EditRejected),
    }
}

#[verifier::rlimit(60)]
#[verifier::spinoff_prover]
fn take_image_test(
    state: &mut MacroPageState,
    block_id: &str,
    passed: bool,
    evidence: &String,
    elapsed_ms: u64,
    rule_id: Option<String>,
    verification: Option<ImageRuleVerificationArtifact>,
) -> (answer: Result<(), EditorAuthoringError>)
    requires
        old(state).draft is Some,
    ensures
        (final(state)@, answer) == image_tested(
            old(state)@,
            block_id@,
            passed,
            evidence@,
            elapsed_ms,
            option_view(rule_id),
            option_view(verification),
        ),
{
    let found = match &state.draft {
        None => None,
        Some(draft) => image_rule_for(draft, block_id),
    };
    let expected = match found {
        None => return Err(EditorAuthoringError::OutcomeMismatch),
        Some(expected) => expected,
    };
    if verification.is_some() && !passed {
        return Err(EditorAuthoringError::OutcomeMismatch);
    }
    if !passed {
        return test_with(
            state,
            EditorCommand::ClearImageVerification { rule_id: expected },
            block_id,
            false,
            evidence,
            elapsed_ms,
        );
    }
    match (rule_id, verification) {
        (Some(rule_id), Some(verification)) => {
            if rule_id != expected {
                return Err(EditorAuthoringError::OutcomeMismatch);
            }
            test_with(
                state,
                EditorCommand::ApplyImageVerification { rule_id, verification },
                block_id,
                true,
                evidence,
                elapsed_ms,
            )
        },
        (None, None) => test_with(
            state,
            EditorCommand::ClearImageVerification { rule_id: expected },
            block_id,
            false,
            evidence,
            elapsed_ms,
        ),
        _ => Err(EditorAuthoringError::OutcomeMismatch),
    }
}

/// A page whose image rule lost its verification, where a block observes with one.
pub open spec fn verification_cleared(page: PageView, block_id: Seq<char>) -> PageView {
    match image_rule_of(page.draft->0.definition, block_id) {
        Some(rule_id) => dispatched(page, CommandView::ClearImageVerification { rule_id }).0,
        None => page,
    }
}

/// What a failed request answers and leaves: a failed test counts against its detector.
pub open spec fn request_failed(page: PageView, kind: AuthoringKindView, message: Seq<char>) -> (
    PageView,
    Result<(), EditorAuthoringError>,
) {
    let text = "Authoring request failed: "@ + message;
    match kind {
        AuthoringKindView::TestOcr { block_id } => match failure_noted(page, block_id, message) {
            Some(next) => (told(next, text), Ok(())),
            None => (page, Err(EditorAuthoringError::OutcomeMismatch)),
        },
        AuthoringKindView::TestImage { block_id } => {
            let cleared = verification_cleared(page, block_id);
            match failure_noted(cleared, block_id, message) {
                Some(next) => (told(next, text), Ok(())),
                None => (cleared, Err(EditorAuthoringError::OutcomeMismatch)),
            }
        },
        _ => (told(page, text), Ok(())),
    }
}

#[verifier::rlimit(60)]
#[verifier::spinoff_prover]
fn fail_request(state: &mut MacroPageState, kind: EditorAuthoringKind, message: String) -> (answer:
    Result<(), EditorAuthoringError>)
    requires
        old(state).draft is Some,
    ensures
        (final(state)@, answer) == request_failed(old(state)@, kind@, message@),
{
    match &kind {
        EditorAuthoringKind::TestOcr { block_id } => {
            if !note_failure(state, block_id.as_str(), &message) {
                return Err(EditorAuthoringError::OutcomeMismatch);
            }
        },
        EditorAuthoringKind::TestImage { block_id } => {
            let rule = match &state.draft {
                None => None,
                Some(draft) => image_rule_for(draft, block_id.as_str()),
            };
            if let Some(rule_id) = rule {
                let command = EditorCommand::ClearImageVerification { rule_id };
                proof {
                    lemma_draft_stays(state@, command@);
                }
                let _ = dispatch_editor_command(state, command);
            }
            if !note_failure(state, block_id.as_str(), &message) {
                return Err(EditorAuthoringError::OutcomeMismatch);
            }
        },
        _ => {},
    }
    let mut text = "Authoring request failed: ".to_owned();
    text.append(message.as_str());
    state.editor_feedback = Some(text);
    Ok(())
}

/// What an answer to a request of a kind leaves of the page, and how it is answered.
pub open spec fn answer_taken(
    page: PageView,
    kind: AuthoringKindView,
    outcome: EditorAuthoringOutcome,
) -> (PageView, Result<(), EditorAuthoringError>) {
    match (kind, outcome) {
        (
            AuthoringKindView::CaptureTarget,
            EditorAuthoringOutcome::TargetGeometry {
                process_path,
                window_class,
                title,
                width,
                height,
                dpi,
            },
        ) => captured(
            page,
            CommandView::ReplaceTarget {
                target: TargetProfileView {
                    process_path: process_path@,
                    window_class: window_class@,
                    title_contains: title@,
                    captured_client_width: width,
                    captured_client_height: height,
                    captured_dpi: dpi,
                },
            },
        ),
        (
            AuthoringKindView::RecaptureRegion { region_id },
            EditorAuthoringOutcome::Region(rect),
        ) => captured(page, CommandView::RecaptureRegion { region_id, rect }),
        (
            AuthoringKindView::RecaptureTemplate { rule_id },
            EditorAuthoringOutcome::Template { asset },
        ) => captured(
            page,
            CommandView::ApplyTemplateRecapture { rule_id, template: asset@ },
        ),
        (
            AuthoringKindView::TestOcr { block_id },
            EditorAuthoringOutcome::DetectorTest {
                passed,
                evidence,
                elapsed_ms,
                rule_id,
                image_verification,
            },
        ) => text_tested(
            page,
            block_id,
            passed,
            evidence@,
            elapsed_ms,
            option_view(rule_id),
            option_view(image_verification),
        ),
        (
            AuthoringKindView::TestImage { block_id },
            EditorAuthoringOutcome::DetectorTest {
                passed,
                evidence,
                elapsed_ms,
                rule_id,
                image_verification,
            },
        ) => image_tested(
            page,
            block_id,
            passed,
            evidence@,
            elapsed_ms,
            option_view(rule_id),
            option_view(image_verification),
        ),
        (
            AuthoringKindView::CaptureImageNegative { block_id },
            EditorAuthoringOutcome::ImageNegativeSample { block_id: sampled, sample },
        ) => if block_id == sampled@ {
            (
                told(
                    PageView { samples: with_sample(page.samples, block_id, sample@), ..page },
                    "Captured an image negative sample."@,
                ),
                Ok(()),
            )
        } else {
            (page, Err(EditorAuthoringError::OutcomeMismatch))
        },
        (kind, EditorAuthoringOutcome::Failed(message)) => request_failed(page, kind, message@),
        (_, EditorAuthoringOutcome::Cancelled) => (
            told(page, "Authoring capture cancelled."@),
            Ok(()),
        ),
        _ => (page, Err(EditorAuthoringError::OutcomeMismatch)),
    }
}

#[verifier::rlimit(60)]
#[verifier::spinoff_prover]
fn take_answer(
    state: &mut MacroPageState,
    kind: EditorAuthoringKind,
    outcome: EditorAuthoringOutcome,
) -> (answer: Result<(), EditorAuthoringError>)
    requires
        old(state).draft is Some,
    ensures
        (final(state)@, answer) == answer_taken(old(state)@, kind@, outcome),
{
    match (kind, outcome) {
        (
            EditorAuthoringKind::CaptureTarget,
            EditorAuthoringOutcome::TargetGeometry {
                process_path,
                window_class,
                title,
                width,
                height,
                dpi,
            },
        ) => {
            let target = TargetProfile {
                process_path,
                window_class,
                title_contains: title,
                captured_client_width: width,
                captured_client_height: height,
                captured_dpi: dpi,
            };
            capture(state, EditorCommand::ReplaceTarget { target })
        },
        (
            EditorAuthoringKind::RecaptureRegion { region_id },
            EditorAuthoringOutcome::Region(rect),
        ) => capture(state, EditorCommand::RecaptureRegion { region_id, rect }),
        (
            EditorAuthoringKind::RecaptureTemplate { rule_id },
            EditorAuthoringOutcome::Template { asset },
        ) => capture(state, EditorCommand::ApplyTemplateRecapture { rule_id, template: asset }),
        (
            EditorAuthoringKind::TestOcr { block_id },
            EditorAuthoringOutcome::DetectorTest {
                passed,
                evidence,
                elapsed_ms,
                rule_id,
                image_verification,
            },
        ) => {
            if rule_id.is_some() || image_verification.is_some() {
                return Err(EditorAuthoringError::OutcomeMismatch);
            }
            note_test(state, block_id.as_str(), passed, &evidence, elapsed_ms)
        },
        (
            EditorAuthoringKind::TestImage { block_id },
            EditorAuthoringOutcome::DetectorTest {
                passed,
                evidence,
                elapsed_ms,
                rule_id,
                image_verification,
            },
        ) => take_image_test(
            state,
            block_id.as_str(),
            passed,
            &evidence,
            elapsed_ms,
            rule_id,
            image_verification,
        ),
        (
            EditorAuthoringKind::CaptureImageNegative { block_id },
            EditorAuthoringOutcome::ImageNegativeSample { block_id: sampled, sample },
        ) => {
            if block_id != sampled {
                return Err(EditorAuthoringError::OutcomeMismatch);
            }
            state.editor_image_negative_samples.push(block_id, sample);
            state.editor_feedback = Some("Captured an image negative sample.".to_owned());
            Ok(())
        },
        (kind, EditorAuthoringOutcome::Failed(message)) => fail_request(state, kind, message),
        (_, EditorAuthoringOutcome::Cancelled) => {
            state.editor_feedback = Some("Authoring capture cancelled.".to_owned());
            Ok(())
        },
        _ => Err(EditorAuthoringError::OutcomeMismatch),
    }
}

/// An answer belongs to a request.
pub open spec fn answers_editor(
    page: PageView,
    request: EditorRequestView,
    result: EditorAuthoringResult,
) -> bool {
    page.draft_session == Some(request.session) && result.session == request.session && request.id
        == result.id && request.fingerprint == result.fingerprint@
}

/// What an answer of the desktop to the editor leaves of the page, and how it is answered. What does
/// not belong to the request that is waited for leaves the page as it was.
pub open spec fn editor_answered(page: PageView, result: EditorAuthoringResult) -> (
    PageView,
    Result<(), EditorAuthoringError>,
) {
    match page.active_editor_request {
        None => (page, Err(EditorAuthoringError::UnexpectedResult)),
        Some(request) => if !answers_editor(page, request, result) {
            (page, Err(EditorAuthoringError::UnexpectedResult))
        } else {
            match page.draft {
                None => (page, Err(EditorAuthoringError::StaleDraft)),
                Some(draft) => if authoring_print(draft.definition) != request.fingerprint {
                    (without_editor_request(page), Err(EditorAuthoringError::StaleDraft))
                } else {
                    answer_taken(
                        PageView { pending_inspector_intent: None, ..without_editor_request(page) },
                        request.kind,
                        result.outcome,
                    )
                },
            }
        },
    }
}

impl MacroPageState {
    /// The editor waits for an answer, and a result is that answer.
    fn editor_result_expected(&self, result: &EditorAuthoringResult) -> (expected: bool)
        ensures
            expected == (self@.active_editor_request matches Some(request) && answers_editor(
                self@,
                request,
                *result,
            )),
    {
        match &self.active_editor_authoring_request {
            None => false,
            Some(request) => {
                let stay = match self.draft_session {
                    Some(session) => session == request.session,
                    None => false,
                };
                stay && result.session == request.session && request.id == result.id
                    && request.fingerprint == result.fingerprint
            },
        }
    }

    /// Takes an answer of the desktop to the editor.
    pub fn apply_editor_authoring_result(&mut self, result: EditorAuthoringResult) -> (answer: Result<
        (),
        EditorAuthoringError,
    >)
        ensures
            (final(self)@, answer) == editor_answered(old(self)@, result),
    {
        if !self.editor_result_expected(&result) {
            return Err(EditorAuthoringError::UnexpectedResult);
        }
        let kind = match &self.active_editor_authoring_request {
            None => return Err(EditorAuthoringError::UnexpectedResult),
            Some(request) => request.kind.clone(),
        };
        let current = match (&self.draft, &self.active_editor_authoring_request) {
            (Some(draft), Some(request)) => editor_authoring_fingerprint(draft)
                == request.fingerprint,
            _ => return Err(EditorAuthoringError::StaleDraft),
        };
        self.active_editor_authoring_request = None;
        self.editor_authoring_dispatched = false;
        if !current {
            return Err(EditorAuthoringError::StaleDraft);
        }
        self.pending_inspector_intent = None;
        take_answer(self, kind, result.outcome)
    }
}

} // verus!
