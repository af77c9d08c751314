//! The guided wizard on the page.
use crate::canvas_model::{CanvasSelection, SelectionView};
use crate::content::option_view;
use crate::draft::{opened, EditorDraft};
use crate::macro_engine::{
    BlockView, ImageRuleVerificationArtifact, TargetProfile, TargetProfileView,
};
use crate::page::{
    told, wizard_begun, with_session, without_wizard_request, MacroPageState, PageView,
};
use crate::rule_edits::{bump, bumped};
use crate::wizard::{
    action_captured, fresh_wizard, region_captured, review_print, target_captured, tested, unproved,
    unreviewed, AuthoringSessionId,
    WizardActionTarget, WizardAuthoringKind, WizardAuthoringOutcome, WizardAuthoringRequest,
    WizardAuthoringResult, WizardDetector, WizardDetectorKind, WizardDetectorView, WizardOutput,
    WizardRequestId, WizardRequestView, WizardResultError, WizardState, WizardTargetView,
    WizardUiAction, WizardView,
};
use vstd::prelude::*;
use vstd::string::StringExecFns;

verus! {

broadcast use crate::macro_engine::group_block_views;

/// The wizard may be opened: it is not open, and nothing is waited for.
pub open spec fn wizard_may_open(page: PageView) -> bool {
    page.wizard is None && page.active_wizard_request is None && page.active_editor_request is None
}

pub fn can_open_wizard(state: &MacroPageState) -> (result: bool)
    ensures
        result == wizard_may_open(state@),
{
    state.wizard.is_none() && state.active_wizard_request.is_none()
        && state.active_editor_authoring_request.is_none()
}

/// Opens the wizard.
pub fn open_wizard(state: &mut MacroPageState)
    ensures
        final(state)@ == (if wizard_may_open(old(state)@) {
            PageView { wizard: Some(fresh_wizard()), ..wizard_begun(old(state)@) }
        } else {
            old(state)@
        }),
{
    if !can_open_wizard(state) {
        return;
    }
    state.begin_wizard_session();
    state.wizard = Some(WizardState::default());
}

/// The wizard may be closed: it is open, and does not wait for an answer.
pub open spec fn wizard_may_close(page: PageView) -> bool {
    page.wizard is Some && page.active_wizard_request is None
}

pub fn can_close_wizard(state: &MacroPageState) -> (result: bool)
    ensures
        result == wizard_may_close(state@),
{
    state.wizard.is_some() && state.active_wizard_request.is_none()
}

/// Closes the wizard, unless it waits for an answer.
pub fn close_wizard(state: &mut MacroPageState)
    ensures
        final(state)@ == (if wizard_may_close(old(state)@) {
            without_wizard_request(
                PageView { wizard: None, wizard_session: None, ..old(state)@ },
            )
        } else {
            old(state)@
        }),
{
    if !can_close_wizard(state) {
        return;
    }
    state.wizard = None;
    state.wizard_session = None;
    state.cancel_wizard_authoring();
}

/// What the desktop is asked for by an action of the wizard.
pub open spec fn action_kind(action: WizardUiAction) -> Option<WizardAuthoringKind> {
    match action {
        WizardUiAction::CaptureTarget => Some(WizardAuthoringKind::CaptureTarget),
        WizardUiAction::CaptureRegion(WizardDetectorKind::Text) => Some(
            WizardAuthoringKind::CaptureTextRegion,
        ),
        WizardUiAction::CaptureRegion(WizardDetectorKind::Image) => Some(
            WizardAuthoringKind::CaptureImageRegion,
        ),
        WizardUiAction::CaptureTemplate => Some(WizardAuthoringKind::CaptureTemplate),
        WizardUiAction::CaptureClickPoint => Some(WizardAuthoringKind::CaptureClickPoint),
        WizardUiAction::CaptureClickRegion => Some(WizardAuthoringKind::CaptureClickRegion),
        WizardUiAction::TestDetector => Some(WizardAuthoringKind::TestDetector),
        WizardUiAction::CaptureImageNegative => Some(WizardAuthoringKind::CaptureImageNegative),
        WizardUiAction::Finish(_) => None,
    }
}

fn kind_of_action(action: &WizardUiAction) -> (kind: Option<WizardAuthoringKind>)
    ensures
        kind == action_kind(*action),
{
    match action {
        WizardUiAction::CaptureTarget => Some(WizardAuthoringKind::CaptureTarget),
        WizardUiAction::CaptureRegion(detector) => match detector {
            WizardDetectorKind::Text => Some(WizardAuthoringKind::CaptureTextRegion),
            WizardDetectorKind::Image => Some(WizardAuthoringKind::CaptureImageRegion),
        },
        WizardUiAction::CaptureTemplate => Some(WizardAuthoringKind::CaptureTemplate),
        WizardUiAction::CaptureClickPoint => Some(WizardAuthoringKind::CaptureClickPoint),
        WizardUiAction::CaptureClickRegion => Some(WizardAuthoringKind::CaptureClickRegion),
        WizardUiAction::TestDetector => Some(WizardAuthoringKind::TestDetector),
        WizardUiAction::CaptureImageNegative => Some(WizardAuthoringKind::CaptureImageNegative),
        WizardUiAction::Finish(_) => None,
    }
}

/// The identity of the first of some blocks.
pub open spec fn first_id(blocks: Seq<BlockView>) -> Option<Seq<char>> {
    if blocks.len() == 0 {
        None
    } else {
        Some(blocks[0].id)
    }
}

/// A page that hands the stay in the wizard over, and the stay: a new one where there is none.
pub open spec fn session_handed_over(page: PageView) -> (PageView, AuthoringSessionId) {
    match page.wizard_session {
        Some(session) => (PageView { wizard_session: None, ..page }, session),
        None => with_session(page),
    }
}

/// A page after the wizard was finished: its macro is the draft, unsaved, and its first block is
/// selected.
pub open spec fn wizard_finished(page: PageView, output: WizardOutput) -> PageView {
    let (next, session) = session_handed_over(page);
    let selected = first_id(output.definition@.blocks);
    told(
        without_wizard_request(
            PageView {
                draft: Some(opened(output.definition@)),
                draft_session: Some(session),
                selected_saved: None,
                saved_revision: None,
                selected_block_id: selected,
                selected_canvas: match selected {
                    Some(id) => Some(SelectionView::Block(id)),
                    None => None,
                },
                wizard: None,
                ..next
            },
        ),
        "Wizard created an unsaved canonical draft. Every step remains editable."@,
    )
}

/// A page whose wizard is stayed in.
pub open spec fn with_wizard_session(page: PageView) -> PageView {
    if page.wizard_session is None && page.wizard is Some {
        wizard_begun(page)
    } else {
        page
    }
}

/// A page after the wizard asked the desktop for something.
pub open spec fn wizard_requested(
    page: PageView,
    kind: WizardAuthoringKind,
    action: WizardUiAction,
) -> PageView {
    PageView {
        next_wizard_request_id: bumped(page.next_wizard_request_id),
        active_wizard_request: Some(
            WizardRequestView {
                session: page.wizard_session->0,
                id: WizardRequestId(page.next_wizard_request_id),
                fingerprint: review_print(page.wizard->0),
                kind,
            },
        ),
        wizard_request_dispatched: false,
        pending_wizard_action: Some(action),
        ..page
    }
}

/// A page after an action of the wizard. It waits for one answer at a time.
pub open spec fn wizard_acted(page: PageView, action: WizardUiAction) -> PageView {
    match action {
        WizardUiAction::Finish(output) => wizard_finished(page, output),
        _ => if page.active_wizard_request is Some {
            told(page, "Wait for the current wizard request to finish."@)
        } else {
            let next = with_wizard_session(page);
            if next.wizard is None {
                next
            } else {
                wizard_requested(next, action_kind(action)->0, action)
            }
        },
    }
}

fn hand_session_over(state: &mut MacroPageState) -> (session: AuthoringSessionId)
    ensures
        (final(state)@, session) == session_handed_over(old(state)@),
{
    match state.wizard_session {
        Some(session) => {
            state.wizard_session = None;
            session
        },
        None => state.allocate_authoring_session(),
    }
}

fn finish_wizard(state: &mut MacroPageState, output: WizardOutput)
    ensures
        final(state)@ == wizard_finished(old(state)@, output),
{
    let session = hand_session_over(state);
    let selected: Option<String> = if output.definition.blocks.len() == 0 {
        None
    } else {
        Some(output.definition.blocks[0].id.clone())
    };
    state.selected_canvas =
    match &selected {
        Some(id) => Some(CanvasSelection::Block(id.clone())),
        None => None,
    };
    state.selected_block_id = selected;
    state.draft = Some(EditorDraft::new(output.definition));
    state.draft_session = Some(session);
    state.clear_selected_saved();
    state.wizard = None;
    state.cancel_wizard_authoring();
    state.editor_feedback =
    Some("Wizard created an unsaved canonical draft. Every step remains editable.".to_owned());
}

fn request_of_wizard(state: &mut MacroPageState, kind: WizardAuthoringKind, action: WizardUiAction)
    requires
        old(state).wizard is Some,
        old(state).wizard_session is Some,
    ensures
        final(state)@ == wizard_requested(old(state)@, kind, action),
{
    let fingerprint = match &state.wizard {
        None => return,
        Some(wizard) => wizard.review_fingerprint(),
    };
    let session = match state.wizard_session {
        None => return,
        Some(session) => session,
    };
    let id = WizardRequestId(state.next_wizard_request_id);
    state.next_wizard_request_id = bump(state.next_wizard_request_id);
    state.active_wizard_request = Some(WizardAuthoringRequest { session, id, fingerprint, kind });
    state.wizard_request_dispatched = false;
    state.pending_wizard_action = Some(action);
}

/// Does what the wizard asks for.
pub fn apply_wizard_ui_action(state: &mut MacroPageState, action: WizardUiAction)
    ensures
        final(state)@ == wizard_acted(old(state)@, action),
{
    let kind = match kind_of_action(&action) {
        Some(kind) => kind,
        None => {
            if let WizardUiAction::Finish(output) = action {
                finish_wizard(state, output);
            }
            return;
        },
    };
    if state.active_wizard_request.is_some() {
        state.editor_feedback = Some("Wait for the current wizard request to finish.".to_owned());
        return;
    }
    if state.wizard_session.is_none() && state.wizard.is_some() {
        state.begin_wizard_session();
    }
    if state.wizard.is_none() {
        return;
    }
    request_of_wizard(state, kind, action);
}

/// What the wizard makes of an answer of the desktop, and what is said of it; nothing where the
/// answer is not one to what was asked.
pub open spec fn outcome_taken(
    wizard: WizardView,
    kind: WizardAuthoringKind,
    outcome: WizardAuthoringOutcome,
) -> Option<(WizardView, Option<Seq<char>>)> {
    match (kind, outcome) {
        (
            WizardAuthoringKind::CaptureTarget,
            WizardAuthoringOutcome::TargetGeometry {
                process_path,
                window_class,
                title,
                width,
                height,
                dpi,
            },
        ) => Some(
            (
                target_captured(
                    wizard,
                    TargetProfileView {
                        process_path: process_path@,
                        window_class: window_class@,
                        title_contains: title@,
                        captured_client_width: width,
                        captured_client_height: height,
                        captured_dpi: dpi,
                    },
                ),
                None,
            ),
        ),
        (WizardAuthoringKind::CaptureTextRegion, WizardAuthoringOutcome::Region(region)) => Some(
            (region_captured(wizard, region), None),
        ),
        (WizardAuthoringKind::CaptureImageRegion, WizardAuthoringOutcome::Region(region)) => Some(
            (region_captured(wizard, region), None),
        ),
        (WizardAuthoringKind::CaptureClickPoint, WizardAuthoringOutcome::Point(point)) => Some(
            (
                action_captured(
                    WizardView {
                        action_target: WizardTargetView::SavedPoint { id: "click-point"@, point },
                        ..wizard
                    },
                ),
                None,
            ),
        ),
        (WizardAuthoringKind::CaptureClickRegion, WizardAuthoringOutcome::Region(rect)) => Some(
            (
                action_captured(
                    WizardView {
                        action_target: WizardTargetView::SavedRegion { id: "click-region"@, rect },
                        ..wizard
                    },
                ),
                None,
            ),
        ),
        (WizardAuthoringKind::CaptureTemplate, WizardAuthoringOutcome::Template { asset }) => Some(
            (
                unproved(
                    WizardView {
                        detector: WizardDetectorView::Image { template: asset@ },
                        ..wizard
                    },
                ),
                None,
            ),
        ),
        (
            WizardAuthoringKind::TestDetector,
            WizardAuthoringOutcome::DetectorTest {
                passed,
                evidence,
                elapsed_ms,
                image_verification,
            },
        ) => Some(
            (
                tested(
                    if wizard.detector is Image {
                        WizardView { image_verification: option_view(image_verification), ..wizard }
                    } else {
                        wizard
                    },
                    passed,
                    evidence@,
                    elapsed_ms,
                ),
                None,
            ),
        ),
        (
            WizardAuthoringKind::CaptureImageNegative,
            WizardAuthoringOutcome::ImageNegativeSample(sample),
        ) => Some(
            (
                unreviewed(
                    WizardView {
                        image_negative_samples: wizard.image_negative_samples.push(sample@),
                        detector_test: None,
                        image_verification: None,
                        ..wizard
                    },
                ),
                Some("Captured a revision-bound image negative sample."@),
            ),
        ),
        (_, WizardAuthoringOutcome::Failed(message)) => Some(
            (wizard, Some("Wizard request failed: "@ + message@)),
        ),
        (_, WizardAuthoringOutcome::Cancelled) => Some(
            (wizard, Some("Wizard capture cancelled."@)),
        ),
        _ => None,
    }
}

fn take_detector_test(
    wizard: &mut WizardState,
    passed: bool,
    evidence: &String,
    elapsed_ms: u64,
    image_verification: Option<ImageRuleVerificationArtifact>,
)
    ensures
        final(wizard)@ == tested(
            if old(wizard)@.detector is Image {
                WizardView { image_verification: option_view(image_verification), ..old(wizard)@ }
            } else {
                old(wizard)@
            },
            passed,
            evidence@,
            elapsed_ms,
        ),
{
    let image = match &wizard.detector {
        WizardDetector::Image { .. } => true,
        WizardDetector::Text => false,
    };
    if image {
        wizard.record_image_detector_test(
            passed,
            evidence.as_str(),
            elapsed_ms,
            image_verification,
        );
    } else {
        wizard.record_detector_test(passed, evidence.as_str(), elapsed_ms);
    }
}

fn take_outcome(
    wizard: &mut WizardState,
    kind: WizardAuthoringKind,
    outcome: WizardAuthoringOutcome,
) -> (said: Option<Option<String>>)
    ensures
        match outcome_taken(old(wizard)@, kind, outcome) {
            Some((after, message)) => said matches Some(text) && final(wizard)@ == after
                && option_view(text) == message,
            None => said is None && final(wizard)@ == old(wizard)@,
        },
{
    match (kind, outcome) {
        (
            WizardAuthoringKind::CaptureTarget,
            WizardAuthoringOutcome::TargetGeometry {
                process_path,
                window_class,
                title,
                width,
                height,
                dpi,
            },
        ) => {
            wizard.record_target_capture(
                TargetProfile {
                    process_path,
                    window_class,
                    title_contains: title,
                    captured_client_width: width,
                    captured_client_height: height,
                    captured_dpi: dpi,
                },
            );
            Some(None)
        },
        (WizardAuthoringKind::CaptureTextRegion, WizardAuthoringOutcome::Region(region)) => {
            wizard.record_region_capture(region);
            Some(None)
        },
        (WizardAuthoringKind::CaptureImageRegion, WizardAuthoringOutcome::Region(region)) => {
            wizard.record_region_capture(region);
            Some(None)
        },
        (WizardAuthoringKind::CaptureClickPoint, WizardAuthoringOutcome::Point(point)) => {
            wizard.action_target =
            WizardActionTarget::SavedPoint { id: "click-point".to_owned(), point };
            wizard.record_action_capture();
            Some(None)
        },
        (WizardAuthoringKind::CaptureClickRegion, WizardAuthoringOutcome::Region(rect)) => {
            wizard.action_target =
            WizardActionTarget::SavedRegion { id: "click-region".to_owned(), rect };
            wizard.record_action_capture();
            Some(None)
        },
        (WizardAuthoringKind::CaptureTemplate, WizardAuthoringOutcome::Template { asset }) => {
            wizard.detector = WizardDetector::Image { template: asset };
            wizard.invalidate_detector_proof();
            Some(None)
        },
        (
            WizardAuthoringKind::TestDetector,
            WizardAuthoringOutcome::DetectorTest {
                passed,
                evidence,
                elapsed_ms,
                image_verification,
            },
        ) => {
            take_detector_test(wizard, passed, &evidence, elapsed_ms, image_verification);
            Some(None)
        },
        (
            WizardAuthoringKind::CaptureImageNegative,
            WizardAuthoringOutcome::ImageNegativeSample(sample),
        ) => {
            let ghost before = wizard@.image_negative_samples;
            wizard.image_negative_samples.push(sample);
            assert(wizard@.image_negative_samples =~= before.push(sample@));
            wizard.detector_test = None;
            wizard.image_verification = None;
            wizard.invalidate_dry_run_review();
            Some(Some("Captured a revision-bound image negative sample.".to_owned()))
        },
        (_, WizardAuthoringOutcome::Failed(message)) => {
            let mut text = "Wizard request failed: ".to_owned();
            text.append(message.as_str());
            Some(Some(text))
        },
        (_, WizardAuthoringOutcome::Cancelled) => {
            Some(Some("Wizard capture cancelled.".to_owned()))
        },
        _ => None,
    }
}

/// An answer belongs to a request.
pub open spec fn answers_wizard(
    page: PageView,
    request: WizardRequestView,
    result: WizardAuthoringResult,
) -> bool {
    page.wizard_session == Some(request.session) && result.session == request.session && request.id
        == result.id && request.fingerprint == result.fingerprint@
}

/// What an answer of the desktop to the wizard leaves of the page, and how it is answered. What does
/// not belong to the request that is waited for leaves the page as it was.
pub open spec fn wizard_answered(page: PageView, result: WizardAuthoringResult) -> (
    PageView,
    Result<(), WizardResultError>,
) {
    match page.active_wizard_request {
        None => (page, Err(WizardResultError::UnexpectedResult)),
        Some(request) => if !answers_wizard(page, request, result) {
            (page, Err(WizardResultError::UnexpectedResult))
        } else {
            match page.wizard {
                None => (page, Err(WizardResultError::StaleWizard)),
                Some(wizard) => if review_print(wizard) != request.fingerprint {
                    (
                        told(
                            PageView {
                                active_wizard_request: None,
                                wizard_request_dispatched: false,
                                ..page
                            },
                            "Discarded stale wizard capture/test result."@,
                        ),
                        Err(WizardResultError::StaleWizard),
                    )
                } else {
                    match outcome_taken(wizard, request.kind, result.outcome) {
                        None => (page, Err(WizardResultError::OutcomeMismatch)),
                        Some((after, message)) => (
                            without_wizard_request(
                                PageView {
                                    wizard: Some(after),
                                    editor_feedback: if message is Some {
                                        message
                                    } else {
                                        page.editor_feedback
                                    },
                                    ..page
                                },
                            ),
                            Ok(()),
                        ),
                    }
                },
            }
        },
    }
}

impl MacroPageState {
    /// The wizard waits for an answer, and a result is that answer.
    fn wizard_result_expected(&self, result: &WizardAuthoringResult) -> (expected: bool)
        ensures
            expected == (self@.active_wizard_request matches Some(request) && answers_wizard(
                self@,
                request,
                *result,
            )),
    {
        match &self.active_wizard_request {
            None => false,
            Some(request) => {
                let stay = match self.wizard_session {
                    Some(session) => session == request.session,
                    None => false,
                };
                stay && result.session == request.session && request.id == result.id
                    && request.fingerprint == result.fingerprint
            },
        }
    }

    /// Takes an answer of the desktop to the wizard.
    pub fn apply_wizard_result(&mut self, result: WizardAuthoringResult) -> (answer: Result<
        (),
        WizardResultError,
    >)
        ensures
            (final(self)@, answer) == wizard_answered(old(self)@, result),
    {
        if !self.wizard_result_expected(&result) {
            return Err(WizardResultError::UnexpectedResult);
        }
        let kind = match &self.active_wizard_request {
            None => return Err(WizardResultError::UnexpectedResult),
            Some(request) => request.kind,
        };
        let current = match (&self.wizard, &self.active_wizard_request) {
            (Some(wizard), Some(request)) => wizard.review_fingerprint() == request.fingerprint,
            _ => return Err(WizardResultError::StaleWizard),
        };
        if !current {
            self.active_wizard_request = None;
            self.wizard_request_dispatched = false;
            self.editor_feedback = Some("Discarded stale wizard capture/test result.".to_owned());
            return Err(WizardResultError::StaleWizard);
        }
        let said = match &mut self.wizard {
            None => return Err(WizardResultError::StaleWizard),
            Some(wizard) => take_outcome(wizard, kind, result.outcome),
        };
        match said {
            None => Err(WizardResultError::OutcomeMismatch),
            Some(message) => {
                if let Some(text) = message {
                    self.editor_feedback = Some(text);
                }
                self.cancel_wizard_authoring();
                Ok(())
            },
        }
    }
}

} // verus!
