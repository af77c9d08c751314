//! The guided wizard: from a detector, an action and a repetition to a complete macro.
use crate::block_parts::{
    add_mode_bodies, add_wait, bodies_parts, lemma_bodies_read_back, lemma_wait_read_back,
    wait_parts,
};
use crate::block_equality::lemma_parts_agree;
use crate::builders::{
    action_block, continuous_block, leaf, looped, observe_block, repeat_block, repeat_until_block,
    wait_block,
};
use crate::content::{clone_list, clone_option, option_view, views};
use crate::double::{print_double, printed_double};
use crate::fingerprint::{lemma_render_injective, render, Fingerprint, Token};
use crate::macro_engine::{
    blocks_view, condition_bodies, condition_view, mode_bodies, outcome_view, wait_view, Action,
    ActionView, AssetRef, AssetRefView, Block, BlockView, BodyView, Condition, ConditionView,
    DetectorFamily, F32Bits, F64Bits, FocusLossPolicy, HeadView, ImageRule,
    ImageRuleVerificationArtifact, ImageRuleVerificationArtifactView, ImageRuleView, Limit,
    MacroDefinition, MacroDefinitionView, MatchSelectionPolicy, MouseButton, NegativeCorpusSample,
    NegativeCorpusSampleView, ObserveMode, OutcomeView, PointDefinition, PointDefinitionView,
    PointRatio, PreprocessProfile, RectRatio, RegionDefinition, RegionDefinitionView, RoleView,
    SafetyPolicy, TargetProfile, TargetProfileView, TextMatchMode, TextRule, TextRuleView,
    TimeoutOutcome, ValidationProblem, ValidationProblemView, WaitView, MACRO_SCHEMA_VERSION,
};
use crate::parts::{
    add_limit, add_list, button_number, button_tag, lemma_list_read_back, lemma_printed_list,
    limit_parts, list_parts, match_mode_number, match_mode_tag, printed_list, printed_point,
    printed_rect, Parts,
};
use crate::rule_edits::{bump, bumped};
use crate::text::{blank, is_blank};
use vstd::prelude::*;
use vstd::string::{StrSliceExecFns, StringExecFns};

verus! {

broadcast use crate::macro_engine::group_block_views;

/// Match threshold of the image rules that the wizard writes: the bits of 0.95.
pub const WIZARD_IMAGE_THRESHOLD: u32 = 0x3F73_3333;

/// Runner-up margin of the image rules that the wizard writes: the bits of 0.05.
pub const WIZARD_RUNNER_UP_MARGIN: u32 = 0x3D4C_CCCD;

/// Match threshold of the text rules that the wizard writes: the bits of 0.9.
pub const WIZARD_TEXT_THRESHOLD: u64 = 0x3FEC_CCCC_CCCC_CCCD;

#[derive(Debug, Clone, Copy, PartialEq, Eq, Structural)]
pub enum WizardStep {
    Target,
    Region,
    Rule,
    DetectorTest,
    Action,
    Repetition,
    Failure,
    DryRun,
    Finish,
}

/// The place of a step in the order of the wizard, from one.
pub open spec fn step_place(step: WizardStep) -> int {
    match step {
        WizardStep::Target => 1,
        WizardStep::Region => 2,
        WizardStep::Rule => 3,
        WizardStep::DetectorTest => 4,
        WizardStep::Action => 5,
        WizardStep::Repetition => 6,
        WizardStep::Failure => 7,
        WizardStep::DryRun => 8,
        WizardStep::Finish => 9,
    }
}

pub fn step_number(step: WizardStep) -> (number: usize)
    ensures
        number == step_place(step),
        1 <= number <= 9,
{
    match step {
        WizardStep::Target => 1,
        WizardStep::Region => 2,
        WizardStep::Rule => 3,
        WizardStep::DetectorTest => 4,
        WizardStep::Action => 5,
        WizardStep::Repetition => 6,
        WizardStep::Failure => 7,
        WizardStep::DryRun => 8,
        WizardStep::Finish => 9,
    }
}

fn step_at(place: usize) -> (step: WizardStep)
    requires
        1 <= place <= 9,
    ensures
        step_place(step) == place,
{
    match place {
        1 => WizardStep::Target,
        2 => WizardStep::Region,
        3 => WizardStep::Rule,
        4 => WizardStep::DetectorTest,
        5 => WizardStep::Action,
        6 => WizardStep::Repetition,
        7 => WizardStep::Failure,
        8 => WizardStep::DryRun,
        _ => WizardStep::Finish,
    }
}

#[derive(Debug, PartialEq, Eq)]
pub enum WizardDetector {
    Text,
    Image { template: AssetRef },
}

/// The contents of a [`WizardDetector`].
#[verifier::ext_equal]
pub ghost enum WizardDetectorView {
    Text,
    Image { template: AssetRefView },
}

impl View for WizardDetector {
    type V = WizardDetectorView;

    open spec fn view(&self) -> WizardDetectorView {
        match *self {
            WizardDetector::Text => WizardDetectorView::Text,
            WizardDetector::Image { template } => WizardDetectorView::Image {
                template: template@,
            },
        }
    }
}

impl Clone for WizardDetector {
    fn clone(&self) -> (copy: Self)
        ensures
            copy@ == self@,
    {
        match self {
            WizardDetector::Text => WizardDetector::Text,
            WizardDetector::Image { template } => WizardDetector::Image {
                template: template.clone(),
            },
        }
    }
}

#[derive(Debug, Clone, Copy, PartialEq, Eq, Structural)]
pub enum WizardDetectorKind {
    Text,
    Image,
}

pub open spec fn kind_of(detector: WizardDetectorView) -> WizardDetectorKind {
    match detector {
        WizardDetectorView::Text => WizardDetectorKind::Text,
        WizardDetectorView::Image { .. } => WizardDetectorKind::Image,
    }
}

/// Names a stay in the wizard or in a draft, so that what was asked for in another is told apart.
#[derive(Debug, Clone, Copy, PartialEq, Eq, Structural)]
pub struct AuthoringSessionId(pub u64);

#[derive(Debug, Clone, Copy, PartialEq, Eq, Structural)]
pub struct WizardRequestId(pub u64);

#[derive(Debug, Clone, Copy, PartialEq, Eq, Structural)]
pub enum WizardAuthoringKind {
    CaptureTarget,
    CaptureTextRegion,
    CaptureImageRegion,
    CaptureTemplate,
    CaptureClickPoint,
    CaptureClickRegion,
    TestDetector,
    CaptureImageNegative,
}

/// What the wizard asks the desktop for.
#[derive(Debug, PartialEq, Eq)]
pub struct WizardAuthoringRequest {
    pub session: AuthoringSessionId,
    pub id: WizardRequestId,
    pub fingerprint: String,
    pub kind: WizardAuthoringKind,
}

/// The contents of a [`WizardAuthoringRequest`].
#[verifier::ext_equal]
pub ghost struct WizardRequestView {
    pub session: AuthoringSessionId,
    pub id: WizardRequestId,
    pub fingerprint: Seq<char>,
    pub kind: WizardAuthoringKind,
}

impl View for WizardAuthoringRequest {
    type V = WizardRequestView;

    open spec fn view(&self) -> WizardRequestView {
        WizardRequestView {
            session: self.session,
            id: self.id,
            fingerprint: self.fingerprint@,
            kind: self.kind,
        }
    }
}

impl Clone for WizardAuthoringRequest {
    fn clone(&self) -> (copy: Self)
        ensures
            copy@ == self@,
    {
        WizardAuthoringRequest {
            session: self.session,
            id: self.id,
            fingerprint: self.fingerprint.clone(),
            kind: self.kind,
        }
    }
}

/// What the desktop answers the wizard.
#[derive(Debug, Clone, PartialEq)]
pub enum WizardAuthoringOutcome {
    TargetGeometry {
        process_path: String,
        window_class: String,
        title: String,
        width: u32,
        height: u32,
        dpi: u32,
    },
    Region(RectRatio),
    Point(PointRatio),
    Template { asset: AssetRef },
    DetectorTest {
        passed: bool,
        evidence: String,
        elapsed_ms: u64,
        image_verification: Option<ImageRuleVerificationArtifact>,
    },
    ImageNegativeSample(NegativeCorpusSample),
    Failed(String),
    Cancelled,
}

#[derive(Debug, Clone, PartialEq)]
pub struct WizardAuthoringResult {
    pub session: AuthoringSessionId,
    pub id: WizardRequestId,
    pub fingerprint: String,
    pub outcome: WizardAuthoringOutcome,
}

#[derive(Debug, Clone, Copy, PartialEq, Eq, Structural)]
pub enum WizardResultError {
    UnexpectedResult,
    StaleWizard,
    OutcomeMismatch,
}

#[derive(Debug, Clone, Copy, PartialEq, Eq, Structural)]
pub enum WizardRepetition {
    RunOnce,
    Repeat(u32),
    Until { max_iterations: Limit<u64> },
    Continuous,
}

#[derive(Debug, PartialEq)]
pub enum WizardActionTarget {
    MatchedResult,
    SavedPoint { id: String, point: PointRatio },
    SavedRegion { id: String, rect: RectRatio },
}

/// The contents of a [`WizardActionTarget`].
#[verifier::ext_equal]
pub ghost enum WizardTargetView {
    MatchedResult,
    SavedPoint { id: Seq<char>, point: PointRatio },
    SavedRegion { id: Seq<char>, rect: RectRatio },
}

impl View for WizardActionTarget {
    type V = WizardTargetView;

    open spec fn view(&self) -> WizardTargetView {
        match *self {
            WizardActionTarget::MatchedResult => WizardTargetView::MatchedResult,
            WizardActionTarget::SavedPoint { id, point } => WizardTargetView::SavedPoint {
                id: id@,
                point,
            },
            WizardActionTarget::SavedRegion { id, rect } => WizardTargetView::SavedRegion {
                id: id@,
                rect,
            },
        }
    }
}

impl Clone for WizardActionTarget {
    fn clone(&self) -> (copy: Self)
        ensures
            copy == *self,
    {
        match self {
            WizardActionTarget::MatchedResult => WizardActionTarget::MatchedResult,
            WizardActionTarget::SavedPoint { id, point } => WizardActionTarget::SavedPoint {
                id: id.clone(),
                point: *point,
            },
            WizardActionTarget::SavedRegion { id, rect } => WizardActionTarget::SavedRegion {
                id: id.clone(),
                rect: *rect,
            },
        }
    }
}

#[derive(Debug, PartialEq, Eq)]
pub enum WizardFailure {
    Stop { message: String },
    Continue,
}

/// The contents of a [`WizardFailure`].
#[verifier::ext_equal]
pub ghost enum WizardFailureView {
    Stop { message: Seq<char> },
    Continue,
}

impl View for WizardFailure {
    type V = WizardFailureView;

    open spec fn view(&self) -> WizardFailureView {
        match *self {
            WizardFailure::Stop { message } => WizardFailureView::Stop { message: message@ },
            WizardFailure::Continue => WizardFailureView::Continue,
        }
    }
}

impl Clone for WizardFailure {
    fn clone(&self) -> (copy: Self)
        ensures
            copy == *self,
    {
        match self {
            WizardFailure::Stop { message } => WizardFailure::Stop { message: message.clone() },
            WizardFailure::Continue => WizardFailure::Continue,
        }
    }
}

#[derive(Debug, PartialEq, Eq)]
pub struct DetectorTestResult {
    pub passed: bool,
    pub evidence: String,
    pub elapsed_ms: u64,
    pub fingerprint: String,
}

/// The contents of a [`DetectorTestResult`].
#[verifier::ext_equal]
pub ghost struct DetectorTestView {
    pub passed: bool,
    pub evidence: Seq<char>,
    pub elapsed_ms: u64,
    pub fingerprint: Seq<char>,
}

impl View for DetectorTestResult {
    type V = DetectorTestView;

    open spec fn view(&self) -> DetectorTestView {
        DetectorTestView {
            passed: self.passed,
            evidence: self.evidence@,
            elapsed_ms: self.elapsed_ms,
            fingerprint: self.fingerprint@,
        }
    }
}

impl Clone for DetectorTestResult {
    fn clone(&self) -> (copy: Self)
        ensures
            copy == *self,
    {
        DetectorTestResult {
            passed: self.passed,
            evidence: self.evidence.clone(),
            elapsed_ms: self.elapsed_ms,
            fingerprint: self.fingerprint.clone(),
        }
    }
}

/// What a finished wizard hands over.
#[derive(Debug, Clone, PartialEq)]
pub struct WizardOutput {
    pub definition: MacroDefinition,
    pub validation_problems: Vec<ValidationProblem>,
}

#[derive(Debug, Clone, PartialEq)]
pub enum WizardUiAction {
    CaptureTarget,
    CaptureRegion(WizardDetectorKind),
    CaptureTemplate,
    CaptureClickPoint,
    CaptureClickRegion,
    TestDetector,
    CaptureImageNegative,
    Finish(WizardOutput),
}

/// Everything that was entered into the wizard so far.
#[derive(Debug, PartialEq)]
pub struct WizardState {
    pub step: WizardStep,
    pub name: String,
    pub target: TargetProfile,
    pub target_bound: bool,
    pub region: RectRatio,
    pub detector: WizardDetector,
    pub text_expected: String,
    pub text_match_mode: TextMatchMode,
    pub observe_mode: ObserveMode,
    pub mouse_button: MouseButton,
    pub action_target: WizardActionTarget,
    pub repetition: WizardRepetition,
    pub failure: WizardFailure,
    pub detector_test: Option<DetectorTestResult>,
    pub image_verification: Option<ImageRuleVerificationArtifact>,
    pub image_negative_samples: Vec<NegativeCorpusSample>,
    pub dry_run_reviewed: bool,
    pub dry_run_fingerprint: Option<String>,
    /// Counts the captures of the target.
    pub target_generation: u64,
    /// The generation of the target that the region was captured of.
    pub region_capture_generation: Option<u64>,
    /// The generation of the target that the click's target was captured of.
    pub action_capture_generation: Option<u64>,
}

/// The contents of a [`WizardState`].
#[verifier::ext_equal]
pub ghost struct WizardView {
    pub step: WizardStep,
    pub name: Seq<char>,
    pub target: TargetProfileView,
    pub target_bound: bool,
    pub region: RectRatio,
    pub detector: WizardDetectorView,
    pub text_expected: Seq<char>,
    pub text_match_mode: TextMatchMode,
    pub wait: WaitView,
    pub wait_bodies: Seq<BodyView>,
    pub mouse_button: MouseButton,
    pub action_target: WizardTargetView,
    pub repetition: WizardRepetition,
    pub failure: WizardFailureView,
    pub detector_test: Option<DetectorTestView>,
    pub image_verification: Option<ImageRuleVerificationArtifactView>,
    pub image_negative_samples: Seq<NegativeCorpusSampleView>,
    pub dry_run_reviewed: bool,
    pub dry_run_fingerprint: Option<Seq<char>>,
    pub target_generation: u64,
    pub region_capture_generation: Option<u64>,
    pub action_capture_generation: Option<u64>,
}

impl View for WizardState {
    type V = WizardView;

    open spec fn view(&self) -> WizardView {
        WizardView {
            step: self.step,
            name: self.name@,
            target: self.target@,
            target_bound: self.target_bound,
            region: self.region,
            detector: self.detector@,
            text_expected: self.text_expected@,
            text_match_mode: self.text_match_mode,
            wait: wait_view(self.observe_mode),
            wait_bodies: mode_bodies(self.observe_mode),
            mouse_button: self.mouse_button,
            action_target: self.action_target@,
            repetition: self.repetition,
            failure: self.failure@,
            detector_test: option_view(self.detector_test),
            image_verification: option_view(self.image_verification),
            image_negative_samples: views(self.image_negative_samples@),
            dry_run_reviewed: self.dry_run_reviewed,
            dry_run_fingerprint: option_view(self.dry_run_fingerprint),
            target_generation: self.target_generation,
            region_capture_generation: self.region_capture_generation,
            action_capture_generation: self.action_capture_generation,
        }
    }
}

impl Clone for WizardState {
    fn clone(&self) -> (copy: Self)
        ensures
            copy@ == self@,
    {
        let detector_test: Option<DetectorTestResult> = match &self.detector_test {
            Some(result) => Some(result.clone()),
            None => None,
        };
        let dry_run_fingerprint: Option<String> = match &self.dry_run_fingerprint {
            Some(fingerprint) => Some(fingerprint.clone()),
            None => None,
        };
        WizardState {
            step: self.step,
            name: self.name.clone(),
            target: self.target.clone(),
            target_bound: self.target_bound,
            region: self.region,
            detector: self.detector.clone(),
            text_expected: self.text_expected.clone(),
            text_match_mode: self.text_match_mode,
            observe_mode: self.observe_mode.clone(),
            mouse_button: self.mouse_button,
            action_target: self.action_target.clone(),
            repetition: self.repetition,
            failure: self.failure.clone(),
            detector_test,
            image_verification: clone_option(&self.image_verification),
            image_negative_samples: clone_list(&self.image_negative_samples),
            dry_run_reviewed: self.dry_run_reviewed,
            dry_run_fingerprint,
            target_generation: self.target_generation,
            region_capture_generation: self.region_capture_generation,
            action_capture_generation: self.action_capture_generation,
        }
    }
}

/// What is shown where a finite wait runs out, unless the author wrote something else.
pub open spec fn default_failure() -> Seq<char> {
    "Detector did not match"@
}

/// The wizard as it opens.
pub open spec fn fresh_wizard() -> WizardView {
    WizardView {
        step: WizardStep::Target,
        name: "New Macro"@,
        target: TargetProfileView {
            process_path: Seq::empty(),
            window_class: Seq::empty(),
            title_contains: "Diablo IV"@,
            captured_client_width: 1280,
            captured_client_height: 720,
            captured_dpi: 96,
        },
        target_bound: false,
        region: RectRatio {
            x: F64Bits(0x3FD0_0000_0000_0000),
            y: F64Bits(0x3FD0_0000_0000_0000),
            width: F64Bits(0x3FE0_0000_0000_0000),
            height: F64Bits(0x3FC9_9999_9999_999A),
        },
        detector: WizardDetectorView::Text,
        text_expected: Seq::empty(),
        text_match_mode: TextMatchMode::Contains,
        wait: WaitView::WaitForTrue {
            timeout_ms: Limit::Unlimited,
            outcome: OutcomeView::StopError { message: default_failure() },
        },
        wait_bodies: Seq::empty(),
        mouse_button: MouseButton::Left,
        action_target: WizardTargetView::MatchedResult,
        repetition: WizardRepetition::RunOnce,
        failure: WizardFailureView::Stop { message: default_failure() },
        detector_test: None,
        image_verification: None,
        image_negative_samples: Seq::empty(),
        dry_run_reviewed: false,
        dry_run_fingerprint: None,
        target_generation: 0,
        region_capture_generation: None,
        action_capture_generation: None,
    }
}

/// A wait for a match that never runs out.
fn open_wait() -> (mode: ObserveMode)
    ensures
        wait_view(mode) == (WaitView::WaitForTrue {
            timeout_ms: Limit::Unlimited,
            outcome: OutcomeView::StopError { message: default_failure() },
        }),
        mode_bodies(mode) == Seq::<BodyView>::empty(),
{
    let timeout_outcome = TimeoutOutcome::StopError {
        message: "Detector did not match".to_owned(),
    };
    assert(crate::macro_engine::outcome_bodies(timeout_outcome) == Seq::<BodyView>::empty());
    ObserveMode::WaitForTrue { timeout_ms: Limit::Unlimited, timeout_outcome }
}

impl Default for WizardState {
    fn default() -> (wizard: Self)
        ensures
            wizard@ == fresh_wizard(),
    {
        let wizard = WizardState {
            step: WizardStep::Target,
            name: "New Macro".to_owned(),
            target: TargetProfile {
                process_path: String::new(),
                window_class: String::new(),
                title_contains: "Diablo IV".to_owned(),
                captured_client_width: 1280,
                captured_client_height: 720,
                captured_dpi: 96,
            },
            target_bound: false,
            region: RectRatio {
                x: F64Bits(0x3FD0_0000_0000_0000),
                y: F64Bits(0x3FD0_0000_0000_0000),
                width: F64Bits(0x3FE0_0000_0000_0000),
                height: F64Bits(0x3FC9_9999_9999_999A),
            },
            detector: WizardDetector::Text,
            text_expected: String::new(),
            text_match_mode: TextMatchMode::Contains,
            observe_mode: open_wait(),
            mouse_button: MouseButton::Left,
            action_target: WizardActionTarget::MatchedResult,
            repetition: WizardRepetition::RunOnce,
            failure: WizardFailure::Stop { message: "Detector did not match".to_owned() },
            detector_test: None,
            image_verification: None,
            image_negative_samples: Vec::new(),
            dry_run_reviewed: false,
            dry_run_fingerprint: None,
            target_generation: 0,
            region_capture_generation: None,
            action_capture_generation: None,
        };
        proof {
            assert(wizard.target.process_path@ =~= Seq::empty());
            assert(wizard.target.window_class@ =~= Seq::empty());
            assert(wizard.text_expected@ =~= Seq::empty());
            assert(wizard@.image_negative_samples =~= Seq::empty());
        }
        wizard
    }
}

pub open spec fn rect_parts(rect: RectRatio) -> Seq<Token> {
    seq![
        Token::Number(printed_double(rect.x).0 as nat),
        Token::Number(printed_double(rect.y).0 as nat),
        Token::Number(printed_double(rect.width).0 as nat),
        Token::Number(printed_double(rect.height).0 as nat),
    ]
}

impl Parts for WizardDetector {
    open spec fn parts(value: WizardDetectorView) -> Seq<Token> {
        match value {
            WizardDetectorView::Text => seq![Token::Number(0)],
            WizardDetectorView::Image { template } => seq![Token::Number(1)] + AssetRef::parts(
                template,
            ),
        }
    }

    open spec fn printed(value: WizardDetectorView) -> WizardDetectorView {
        value
    }

    proof fn printed_parts(value: WizardDetectorView) {
    }

    proof fn read_back(
        a: WizardDetectorView,
        b: WizardDetectorView,
        left: Seq<Token>,
        right: Seq<Token>,
    ) {
        let x = Self::parts(a) + left;
        let y = Self::parts(b) + right;
        assert(x[0] == Self::parts(a)[0]);
        assert(y[0] == Self::parts(b)[0]);
        match (a, b) {
            (
                WizardDetectorView::Image { template: p },
                WizardDetectorView::Image { template: q },
            ) => {
                assert(x.skip(1) =~= AssetRef::parts(p) + left);
                assert(y.skip(1) =~= AssetRef::parts(q) + right);
                AssetRef::read_back(p, q, left, right);
            },
            (WizardDetectorView::Text, WizardDetectorView::Text) => {
                assert(x.skip(1) =~= left);
                assert(y.skip(1) =~= right);
            },
            _ => {},
        }
    }

    fn add_parts(&self, out: &mut Fingerprint) {
        let ghost before = out@;
        match self {
            WizardDetector::Text => out.number(0),
            WizardDetector::Image { template } => {
                out.number(1);
                template.add_parts(out);
            },
        }
        assert(out@ =~= before + Self::parts(self@));
    }
}

/// The settings that a detector test proves, as the parts of a fingerprint.
pub open spec fn detector_parts(wizard: WizardView) -> Seq<Token> {
    TargetProfile::parts(wizard.target) + (rect_parts(wizard.region) + (WizardDetector::parts(
        wizard.detector,
    ) + (seq![
        Token::Text(wizard.text_expected),
        Token::Number(match_mode_number(wizard.text_match_mode)),
    ] + list_parts::<NegativeCorpusSample>(wizard.image_negative_samples))))
}

/// The fingerprint of the settings that a detector test proves.
pub open spec fn detector_print(wizard: WizardView) -> Seq<char> {
    render(detector_parts(wizard))
}

pub open spec fn target_parts(target: WizardTargetView) -> Seq<Token> {
    match target {
        WizardTargetView::MatchedResult => seq![
            Token::Number(0),
            Token::Text(Seq::empty()),
            Token::Number(0),
            Token::Number(0),
            Token::Number(0),
            Token::Number(0),
        ],
        WizardTargetView::SavedPoint { id, point } => seq![
            Token::Number(1),
            Token::Text(id),
            Token::Number(printed_double(point.x).0 as nat),
            Token::Number(printed_double(point.y).0 as nat),
            Token::Number(0),
            Token::Number(0),
        ],
        WizardTargetView::SavedRegion { id, rect } => seq![
            Token::Number(2),
            Token::Text(id),
        ] + rect_parts(rect),
    }
}

pub open spec fn repetition_parts(repetition: WizardRepetition) -> Seq<Token> {
    match repetition {
        WizardRepetition::RunOnce => seq![Token::Number(0)] + limit_parts(Limit::Unlimited),
        WizardRepetition::Repeat(count) => seq![Token::Number(1)] + limit_parts(
            Limit::Finite(count as u64),
        ),
        WizardRepetition::Until { max_iterations } => seq![Token::Number(2)] + limit_parts(
            max_iterations,
        ),
        WizardRepetition::Continuous => seq![Token::Number(3)] + limit_parts(Limit::Unlimited),
    }
}

pub open spec fn failure_parts(failure: WizardFailureView) -> Seq<Token> {
    match failure {
        WizardFailureView::Stop { message } => seq![Token::Number(0), Token::Text(message)],
        WizardFailureView::Continue => seq![Token::Number(1), Token::Text(Seq::empty())],
    }
}

/// The settings that a review looks at beside the detector, as the parts of a fingerprint.
pub open spec fn behaviour_parts(wizard: WizardView) -> Seq<Token> {
    wait_parts(wizard.wait) + (seq![Token::Number(wizard.wait_bodies.len())] + (bodies_parts(
        wizard.wait_bodies,
    ) + (target_parts(wizard.action_target) + (seq![
        Token::Number(button_number(wizard.mouse_button)),
    ] + (repetition_parts(wizard.repetition) + failure_parts(wizard.failure))))))
}

/// The fingerprint of the settings that a review looks at.
pub open spec fn review_print(wizard: WizardView) -> Seq<char> {
    render(detector_parts(wizard) + behaviour_parts(wizard))
}

/// The target of an action as it is printed.
pub open spec fn printed_target(target: WizardTargetView) -> WizardTargetView {
    match target {
        WizardTargetView::MatchedResult => target,
        WizardTargetView::SavedPoint { id, point } => WizardTargetView::SavedPoint {
            id,
            point: printed_point(point),
        },
        WizardTargetView::SavedRegion { id, rect } => WizardTargetView::SavedRegion {
            id,
            rect: printed_rect(rect),
        },
    }
}

/// Two wizards detect the same, whichever NaN stands for a number that is none.
pub open spec fn same_detection(a: WizardView, b: WizardView) -> bool {
    &&& a.target == b.target
    &&& printed_rect(a.region) == printed_rect(b.region)
    &&& a.detector == b.detector
    &&& a.text_expected == b.text_expected
    &&& a.text_match_mode == b.text_match_mode
    &&& printed_list::<NegativeCorpusSample>(a.image_negative_samples) == printed_list::<
        NegativeCorpusSample,
    >(b.image_negative_samples)
}

/// Two wizards do the same with what they detect, whichever NaN stands for a number that is none.
pub open spec fn same_behaviour(a: WizardView, b: WizardView) -> bool {
    &&& a.wait == b.wait
    &&& a.wait_bodies == b.wait_bodies
    &&& printed_target(a.action_target) == printed_target(b.action_target)
    &&& a.mouse_button == b.mouse_button
    &&& a.repetition == b.repetition
    &&& a.failure == b.failure
}

proof fn lemma_printed_rects(a: RectRatio, b: RectRatio)
    ensures
        printed_rect(a) == printed_rect(b) ==> rect_parts(a) == rect_parts(b),
{
    if printed_rect(a) == printed_rect(b) {
        let x = printed_rect(a);
        let y = printed_rect(b);
        assert(x.x == y.x && x.y == y.y && x.width == y.width && x.height == y.height);
        assert(rect_parts(a) =~= rect_parts(b));
    }
}

proof fn lemma_printed_targets(a: WizardTargetView, b: WizardTargetView)
    ensures
        printed_target(a) == printed_target(b) ==> target_parts(a) == target_parts(b),
{
    if printed_target(a) == printed_target(b) {
        match (a, b) {
            (
                WizardTargetView::SavedRegion { rect: p, .. },
                WizardTargetView::SavedRegion { rect: q, .. },
            ) => lemma_printed_rects(p, q),
            _ => assert(target_parts(a) =~= target_parts(b)),
        }
    }
}

proof fn lemma_detector_read_back(
    a: WizardView,
    b: WizardView,
    left: Seq<Token>,
    right: Seq<Token>,
)
    requires
        detector_parts(a) + left == detector_parts(b) + right,
    ensures
        same_detection(a, b),
        left == right,
{
    let words_a = seq![
        Token::Text(a.text_expected),
        Token::Number(match_mode_number(a.text_match_mode)),
    ];
    let words_b = seq![
        Token::Text(b.text_expected),
        Token::Number(match_mode_number(b.text_match_mode)),
    ];
    let samples_a = list_parts::<NegativeCorpusSample>(a.image_negative_samples);
    let samples_b = list_parts::<NegativeCorpusSample>(b.image_negative_samples);
    let end_a = samples_a + left;
    let end_b = samples_b + right;
    let text_a = words_a + end_a;
    let text_b = words_b + end_b;
    let detector_a = WizardDetector::parts(a.detector) + text_a;
    let detector_b = WizardDetector::parts(b.detector) + text_b;
    let region_a = rect_parts(a.region) + detector_a;
    let region_b = rect_parts(b.region) + detector_b;
    assert(detector_parts(a) + left =~= TargetProfile::parts(a.target) + region_a);
    assert(detector_parts(b) + right =~= TargetProfile::parts(b.target) + region_b);
    TargetProfile::read_back(a.target, b.target, region_a, region_b);
    lemma_parts_agree(rect_parts(a.region), detector_a, rect_parts(b.region), detector_b);
    assert(rect_parts(a.region)[0] == rect_parts(b.region)[0]);
    assert(rect_parts(a.region)[1] == rect_parts(b.region)[1]);
    assert(rect_parts(a.region)[2] == rect_parts(b.region)[2]);
    assert(rect_parts(a.region)[3] == rect_parts(b.region)[3]);
    WizardDetector::read_back(a.detector, b.detector, text_a, text_b);
    lemma_parts_agree(words_a, end_a, words_b, end_b);
    assert(words_a[0] == words_b[0]);
    assert(words_a[1] == words_b[1]);
    lemma_list_read_back::<NegativeCorpusSample>(
        a.image_negative_samples,
        b.image_negative_samples,
        left,
        right,
    );
}

proof fn lemma_behaviour_read_back(a: WizardView, b: WizardView)
    requires
        behaviour_parts(a) == behaviour_parts(b),
    ensures
        same_behaviour(a, b),
{
    let failure_a = failure_parts(a.failure);
    let failure_b = failure_parts(b.failure);
    let repeat_a = repetition_parts(a.repetition) + failure_a;
    let repeat_b = repetition_parts(b.repetition) + failure_b;
    let button_a = seq![Token::Number(button_number(a.mouse_button))];
    let button_b = seq![Token::Number(button_number(b.mouse_button))];
    let target_a = target_parts(a.action_target) + (button_a + repeat_a);
    let target_b = target_parts(b.action_target) + (button_b + repeat_b);
    let count_a = seq![Token::Number(a.wait_bodies.len())];
    let count_b = seq![Token::Number(b.wait_bodies.len())];
    let bodies_a = bodies_parts(a.wait_bodies) + target_a;
    let bodies_b = bodies_parts(b.wait_bodies) + target_b;
    lemma_wait_read_back(a.wait, b.wait, count_a + bodies_a, count_b + bodies_b);
    lemma_parts_agree(count_a, bodies_a, count_b, bodies_b);
    assert(count_a[0] == count_b[0]);
    lemma_bodies_read_back(a.wait_bodies, b.wait_bodies, target_a, target_b);
    let fields_a = target_parts(a.action_target);
    let fields_b = target_parts(b.action_target);
    assert(fields_a.len() == 6 && fields_b.len() == 6);
    lemma_parts_agree(fields_a, button_a + repeat_a, fields_b, button_b + repeat_b);
    assert(fields_a[0] == fields_b[0]);
    assert(fields_a[1] == fields_b[1]);
    assert(fields_a[2] == fields_b[2]);
    assert(fields_a[3] == fields_b[3]);
    assert(fields_a[4] == fields_b[4]);
    assert(fields_a[5] == fields_b[5]);
    lemma_parts_agree(button_a, repeat_a, button_b, repeat_b);
    assert(button_a[0] == button_b[0]);
    let rep_a = repetition_parts(a.repetition);
    let rep_b = repetition_parts(b.repetition);
    lemma_parts_agree(rep_a, failure_a, rep_b, failure_b);
    assert(rep_a[0] == rep_b[0]);
    assert(rep_a[1] == rep_b[1]);
    assert(rep_a[2] == rep_b[2]);
    assert(failure_a[0] == failure_b[0]);
    assert(failure_a[1] == failure_b[1]);
}

/// Two wizards have the same detector fingerprint exactly where they detect the same.
pub proof fn detector_print_tells_settings_apart(a: WizardView, b: WizardView)
    ensures
        detector_print(a) == detector_print(b) <==> same_detection(a, b),
{
    lemma_printed_list::<NegativeCorpusSample>(a.image_negative_samples);
    lemma_printed_list::<NegativeCorpusSample>(b.image_negative_samples);
    lemma_printed_rects(a.region, b.region);
    if detector_print(a) == detector_print(b) {
        lemma_render_injective(detector_parts(a), detector_parts(b));
        let none = Seq::<Token>::empty();
        assert(detector_parts(a) + none =~= detector_parts(b) + none);
        lemma_detector_read_back(a, b, none, none);
    }
}

/// Two wizards have the same review fingerprint exactly where they detect the same and do the
/// same with it.
pub proof fn review_print_tells_settings_apart(a: WizardView, b: WizardView)
    ensures
        review_print(a) == review_print(b) <==> same_detection(a, b) && same_behaviour(a, b),
{
    lemma_printed_list::<NegativeCorpusSample>(a.image_negative_samples);
    lemma_printed_list::<NegativeCorpusSample>(b.image_negative_samples);
    lemma_printed_rects(a.region, b.region);
    lemma_printed_targets(a.action_target, b.action_target);
    if review_print(a) == review_print(b) {
        lemma_render_injective(
            detector_parts(a) + behaviour_parts(a),
            detector_parts(b) + behaviour_parts(b),
        );
        lemma_detector_read_back(a, b, behaviour_parts(a), behaviour_parts(b));
        lemma_behaviour_read_back(a, b);
    }
}

fn add_rect(rect: RectRatio, out: &mut Fingerprint)
    requires
        old(out).wf(),
    ensures
        final(out).wf(),
        final(out)@ == old(out)@ + rect_parts(rect),
{
    let ghost before = out@;
    out.number(print_double(rect.x).0);
    out.number(print_double(rect.y).0);
    out.number(print_double(rect.width).0);
    out.number(print_double(rect.height).0);
    assert(out@ =~= before + rect_parts(rect));
}

fn add_target(target: &WizardActionTarget, out: &mut Fingerprint)
    requires
        old(out).wf(),
    ensures
        final(out).wf(),
        final(out)@ == old(out)@ + target_parts(target@),
{
    let ghost before = out@;
    match target {
        WizardActionTarget::MatchedResult => {
            proof {
                reveal_strlit("");
            }
            out.number(0);
            out.text("");
            out.number(0);
            out.number(0);
            out.number(0);
            out.number(0);
            assert(""@ =~= Seq::<char>::empty());
        },
        WizardActionTarget::SavedPoint { id, point } => {
            out.number(1);
            out.text(id.as_str());
            out.number(print_double(point.x).0);
            out.number(print_double(point.y).0);
            out.number(0);
            out.number(0);
        },
        WizardActionTarget::SavedRegion { id, rect } => {
            out.number(2);
            out.text(id.as_str());
            add_rect(*rect, out);
        },
    }
    assert(out@ =~= before + target_parts(target@));
}

fn add_repetition(repetition: WizardRepetition, out: &mut Fingerprint)
    requires
        old(out).wf(),
    ensures
        final(out).wf(),
        final(out)@ == old(out)@ + repetition_parts(repetition),
{
    let ghost before = out@;
    match repetition {
        WizardRepetition::RunOnce => {
            out.number(0);
            add_limit(Limit::Unlimited, out);
        },
        WizardRepetition::Repeat(count) => {
            out.number(1);
            add_limit(Limit::Finite(count as u64), out);
        },
        WizardRepetition::Until { max_iterations } => {
            out.number(2);
            add_limit(max_iterations, out);
        },
        WizardRepetition::Continuous => {
            out.number(3);
            add_limit(Limit::Unlimited, out);
        },
    }
    assert(out@ =~= before + repetition_parts(repetition));
}

fn add_failure(failure: &WizardFailure, out: &mut Fingerprint)
    requires
        old(out).wf(),
    ensures
        final(out).wf(),
        final(out)@ == old(out)@ + failure_parts(failure@),
{
    let ghost before = out@;
    match failure {
        WizardFailure::Stop { message } => {
            out.number(0);
            out.text(message.as_str());
        },
        WizardFailure::Continue => {
            proof {
                reveal_strlit("");
            }
            out.number(1);
            out.text("");
            assert(""@ =~= Seq::<char>::empty());
        },
    }
    assert(out@ =~= before + failure_parts(failure@));
}

/// The names of the rule, of the observation and of the click that a detector's macro uses. A text
/// that is looked for once is checked; any other observation waits.
pub open spec fn rule_name(kind: WizardDetectorKind) -> Seq<char> {
    match kind {
        WizardDetectorKind::Text => "text-rule"@,
        WizardDetectorKind::Image => "image-rule"@,
    }
}

pub open spec fn source_name(kind: WizardDetectorKind, repetition: WizardRepetition) -> Seq<char> {
    match (kind, repetition) {
        (WizardDetectorKind::Text, WizardRepetition::RunOnce) => "check-text"@,
        (WizardDetectorKind::Text, _) => "wait-text"@,
        (WizardDetectorKind::Image, _) => "wait-image"@,
    }
}

pub open spec fn click_name(kind: WizardDetectorKind) -> Seq<char> {
    match kind {
        WizardDetectorKind::Text => "click-text"@,
        WizardDetectorKind::Image => "click-image"@,
    }
}

pub open spec fn family_of(kind: WizardDetectorKind) -> DetectorFamily {
    match kind {
        WizardDetectorKind::Text => DetectorFamily::Text,
        WizardDetectorKind::Image => DetectorFamily::Image,
    }
}

/// What happens where the wait of the macro runs out.
pub open spec fn failure_outcome(failure: WizardFailureView) -> OutcomeView {
    match failure {
        WizardFailureView::Stop { message } => OutcomeView::StopError { message },
        WizardFailureView::Continue => OutcomeView::Continue,
    }
}

/// How the macro waits: as long as chosen, and with the chosen failure.
pub open spec fn resolved_wait(wait: WaitView, failure: WizardFailureView) -> WaitView {
    match wait {
        WaitView::CheckNow => WaitView::CheckNow,
        WaitView::WaitForTrue { timeout_ms, .. } => WaitView::WaitForTrue {
            timeout_ms,
            outcome: failure_outcome(failure),
        },
        WaitView::WaitForFalse { timeout_ms, .. } => WaitView::WaitForFalse {
            timeout_ms,
            outcome: failure_outcome(failure),
        },
    }
}

/// The click of the macro; `source` is the observation whose match it may use.
pub open spec fn wizard_action(wizard: WizardView, source: Seq<char>) -> ActionView {
    match wizard.action_target {
        WizardTargetView::MatchedResult => match wizard.detector {
            WizardDetectorView::Text => ActionView::ClickTextMatch {
                source,
                button: wizard.mouse_button,
            },
            WizardDetectorView::Image { .. } => ActionView::ClickImageMatch {
                source,
                button: wizard.mouse_button,
            },
        },
        WizardTargetView::SavedPoint { id, .. } => ActionView::ClickPoint {
            point_id: id,
            button: wizard.mouse_button,
        },
        WizardTargetView::SavedRegion { id, .. } => ActionView::ClickRegion {
            region_id: id,
            button: wizard.mouse_button,
        },
    }
}

/// The observation and the click behind it.
pub open spec fn wizard_sequence(wizard: WizardView) -> Seq<BlockView> {
    let kind = kind_of(wizard.detector);
    let source = source_name(kind, wizard.repetition);
    seq![
        leaf(
            source,
            HeadView::Observe {
                condition: ConditionView {
                    family: family_of(kind),
                    source,
                    rule: rule_name(kind),
                    wait: resolved_wait(wizard.wait, wizard.failure),
                },
            },
        ),
        leaf(click_name(kind), HeadView::Action { action: wizard_action(wizard, source) }),
    ]
}

/// The blocks of the macro: the sequence as often as chosen. Until a match, the detector itself
/// is the condition of the loop, and the click comes behind the loop.
pub open spec fn wizard_blocks(wizard: WizardView) -> Seq<BlockView> {
    let kind = kind_of(wizard.detector);
    match wizard.repetition {
        WizardRepetition::RunOnce => wizard_sequence(wizard),
        WizardRepetition::Repeat(count) => seq![
            looped("repeat"@, HeadView::RepeatN { count }, wizard_sequence(wizard)),
        ],
        WizardRepetition::Until { max_iterations } => seq![
            looped(
                "repeat-until"@,
                HeadView::RepeatUntil {
                    condition: ConditionView {
                        family: family_of(kind),
                        source: "repeat-until"@,
                        rule: rule_name(kind),
                        wait: WaitView::CheckNow,
                    },
                    max_iterations,
                },
                seq![leaf("repeat-pacing"@, HeadView::Wait { duration_ms: 100 })],
            ),
            leaf(
                click_name(kind),
                HeadView::Action { action: wizard_action(wizard, "repeat-until"@) },
            ),
        ],
        WizardRepetition::Continuous => seq![
            looped("continuous"@, HeadView::Continuous, wizard_sequence(wizard)),
        ],
    }
}

/// The text rule of the macro.
pub open spec fn wizard_text_rule(wizard: WizardView) -> Option<TextRuleView> {
    match wizard.detector {
        WizardDetectorView::Image { .. } => None,
        WizardDetectorView::Text => Some(
            TextRuleView {
                id: "text-rule"@,
                revision: 1,
                region_id: "detect-region"@,
                language: "en-US"@,
                preprocess: PreprocessProfile::Grayscale,
                expected: wizard.text_expected,
                match_mode: wizard.text_match_mode,
                threshold: F64Bits(WIZARD_TEXT_THRESHOLD),
                case_sensitive: false,
                allow_cross_line: false,
                match_policy: MatchSelectionPolicy::ExactlyOne,
                poll_interval_ms: 250,
                timeout_ms: Limit::Unlimited,
                stable_frames: 2,
            },
        ),
    }
}

/// The image rule of the macro.
pub open spec fn wizard_image_rule(wizard: WizardView) -> Option<ImageRuleView> {
    match wizard.detector {
        WizardDetectorView::Text => None,
        WizardDetectorView::Image { template } => Some(
            ImageRuleView {
                id: "image-rule"@,
                revision: 1,
                region_id: "detect-region"@,
                template,
                transparent_mask: None,
                threshold: F32Bits(WIZARD_IMAGE_THRESHOLD),
                scales_percent: seq![95u16, 100u16, 105u16],
                stable_frames: 2,
                maximum_center_drift_px: 5,
                minimum_runner_up_margin: F32Bits(WIZARD_RUNNER_UP_MARGIN),
                verification: wizard.image_verification,
                match_policy: MatchSelectionPolicy::ExactlyOne,
                poll_interval_ms: 100,
                timeout_ms: Limit::Unlimited,
            },
        ),
    }
}

pub open spec fn listed<T>(value: Option<T>) -> Seq<T> {
    match value {
        Some(inner) => seq![inner],
        None => Seq::empty(),
    }
}

/// Limits of a macro that the wizard writes: none but the pace of its observations and clicks.
pub open spec fn wizard_safety() -> SafetyPolicy {
    SafetyPolicy {
        max_runtime_ms: Limit::Unlimited,
        max_clicks: Limit::Unlimited,
        max_observation_retries: Limit::Unlimited,
        max_observations_per_second: 20,
        minimum_click_interval_ms: 100,
        focus_loss: FocusLossPolicy::Stop,
    }
}

/// The macro that a wizard describes.
pub open spec fn wizard_definition(wizard: WizardView) -> MacroDefinitionView {
    MacroDefinitionView {
        schema_version: MACRO_SCHEMA_VERSION,
        id: "wizard-macro"@,
        name: wizard.name,
        revision: 1,
        target: wizard.target,
        regions: seq![
            RegionDefinitionView { id: "detect-region"@, revision: 1, rect: wizard.region },
        ] + (match wizard.action_target {
            WizardTargetView::SavedRegion { id, rect } => seq![
                RegionDefinitionView { id, revision: 1, rect },
            ],
            _ => Seq::empty(),
        }),
        points: match wizard.action_target {
            WizardTargetView::SavedPoint { id, point } => seq![
                PointDefinitionView { id, revision: 1, point },
            ],
            _ => Seq::empty(),
        },
        text_rules: listed(wizard_text_rule(wizard)),
        image_rules: listed(wizard_image_rule(wizard)),
        blocks: wizard_blocks(wizard),
        safety: wizard_safety(),
    }
}

/// What still stands between a wizard and its macro, the first thing first.
pub open spec fn missing(wizard: WizardView) -> Option<Seq<char>> {
    if wizard.step != WizardStep::Finish {
        Some("Complete every wizard step before Finish"@)
    } else if blank(wizard.name) {
        Some("Macro name is required"@)
    } else if !wizard.target_bound {
        Some("Capture and bind a concrete target before Finish"@)
    } else if wizard.detector is Text && blank(wizard.text_expected) {
        Some("Expected OCR text is required"@)
    } else if wizard.detector matches WizardDetectorView::Image { template } && (template.revision
        == 0 || template.content_hash.len() == 0) {
        Some("Capture an image template before Finish"@)
    } else if wizard.detector_test is None {
        Some("Detector test is required before Finish"@)
    } else if !wizard.detector_test->0.passed {
        Some("Detector test failed; edit the rule or test again"@)
    } else if wizard.detector_test->0.fingerprint != detector_print(wizard) {
        Some("Detector settings changed; run Detector Test again"@)
    } else if !wizard.dry_run_reviewed || wizard.dry_run_fingerprint != Some(review_print(wizard)) {
        Some("Dry Run review is required before Finish"@)
    } else {
        None
    }
}

/// The codes of problems, with commas between them.
pub open spec fn code_list(problems: Seq<ValidationProblemView>) -> Seq<char>
    decreases problems.len(),
{
    if problems.len() == 0 {
        Seq::empty()
    } else if problems.len() == 1 {
        problems[0].code
    } else {
        code_list(problems.drop_last()) + ", "@ + problems.last().code
    }
}

/// What a wizard answers whose macro has problems.
pub open spec fn validation_failure(problems: Seq<ValidationProblemView>) -> Seq<char> {
    "Canonical validation failed: "@ + code_list(problems)
}

fn problem_codes(problems: &Vec<ValidationProblem>) -> (text: String)
    ensures
        text@ == code_list(views(problems@)),
{
    let mut text = String::new();
    let ghost all = views(problems@);
    if problems.len() == 0 {
        assert(text@ =~= code_list(all));
        return text;
    }
    text.append(problems[0].code.as_str());
    let mut i: usize = 1;
    assert(text@ =~= code_list(all.take(1)));
    while i < problems.len()
        invariant
            all == views(problems@),
            1 <= i <= problems@.len(),
            text@ == code_list(all.take(i as int)),
        decreases problems@.len() - i,
    {
        text.append(", ");
        text.append(problems[i].code.as_str());
        proof {
            assert(all.take(i + 1).drop_last() =~= all.take(i as int));
            assert(all.take(i + 1).last() == problems@[i as int]@);
        }
        i += 1;
    }
    assert(all.take(i as int) =~= all);
    text
}

/// Hands a macro over, unless it has problems.
pub fn conclude(definition: MacroDefinition, problems: Vec<ValidationProblem>) -> (result: Result<
    WizardOutput,
    String,
>)
    ensures
        match result {
            Ok(output) => problems@.len() == 0 && output.definition == definition
                && output.validation_problems == problems,
            Err(message) => problems@.len() > 0 && message@ == validation_failure(
                views(problems@),
            ),
        },
{
    if problems.len() > 0 {
        let mut message = "Canonical validation failed: ".to_owned();
        let codes = problem_codes(&problems);
        message.append(codes.as_str());
        return Err(message);
    }
    Ok(WizardOutput { definition, validation_problems: problems })
}

/// Where the click of the macro goes.
#[derive(Debug, Clone, Copy, PartialEq, Eq, Structural)]
pub enum WizardActionKind {
    MatchedResult,
    SavedPoint,
    SavedRegion,
}

/// The wizard without the proofs that rest on its detector.
pub open spec fn unproved(wizard: WizardView) -> WizardView {
    WizardView {
        detector_test: None,
        image_verification: None,
        image_negative_samples: Seq::empty(),
        ..unreviewed(wizard)
    }
}

/// The wizard without its review.
pub open spec fn unreviewed(wizard: WizardView) -> WizardView {
    WizardView { dry_run_reviewed: false, dry_run_fingerprint: None, ..wizard }
}

/// The wizard with the result of a detector test, and without its review.
pub open spec fn tested(
    wizard: WizardView,
    passed: bool,
    evidence: Seq<char>,
    elapsed_ms: u64,
) -> WizardView {
    WizardView {
        detector_test: Some(
            DetectorTestView { passed, evidence, elapsed_ms, fingerprint: detector_print(wizard) },
        ),
        image_verification: if wizard.detector is Text {
            None
        } else {
            wizard.image_verification
        },
        ..unreviewed(wizard)
    }
}

/// The wizard, reviewed as it is.
pub open spec fn reviewed(wizard: WizardView) -> WizardView {
    WizardView {
        dry_run_reviewed: true,
        dry_run_fingerprint: Some(review_print(wizard)),
        ..wizard
    }
}

/// What is kept of a wizard's proofs after an edit, by the fingerprints from before it.
pub open spec fn reconciled(
    wizard: WizardView,
    detector_before: Seq<char>,
    review_before: Seq<char>,
) -> WizardView {
    if detector_print(wizard) != detector_before {
        unproved(wizard)
    } else if review_print(wizard) != review_before {
        unreviewed(wizard)
    } else {
        wizard
    }
}

/// What a repetition becomes when another kind is chosen: what was chosen before is kept where it
/// is of that kind.
pub open spec fn limit_choice(current: WizardRepetition, unlimited: bool) -> Limit<u64> {
    if unlimited {
        Limit::Unlimited
    } else {
        match current {
            WizardRepetition::Until { max_iterations: Limit::Finite(count) } => Limit::Finite(
                count,
            ),
            _ => Limit::Finite(100),
        }
    }
}

/// The limit of a loop that runs until a match, by whether it is unlimited.
pub fn until_limit(current: WizardRepetition, unlimited: bool) -> (limit: Limit<u64>)
    ensures
        limit == limit_choice(current, unlimited),
{
    if unlimited {
        Limit::Unlimited
    } else {
        match current {
            WizardRepetition::Until { max_iterations: Limit::Finite(count) } => Limit::Finite(
                count,
            ),
            _ => Limit::Finite(100),
        }
    }
}

/// The number of iterations that a repeat starts from.
pub fn repeat_count(current: WizardRepetition) -> (count: u32)
    ensures
        count == (match current {
            WizardRepetition::Repeat(count) => count,
            _ => 2u32,
        }),
{
    match current {
        WizardRepetition::Repeat(count) => count,
        _ => 2,
    }
}

/// The wizard bound to a captured target: what was captured of an earlier one is no longer current.
pub open spec fn target_captured(wizard: WizardView, target: TargetProfileView) -> WizardView {
    unproved(
        WizardView {
            target,
            target_bound: true,
            target_generation: bumped(wizard.target_generation),
            region_capture_generation: None,
            action_capture_generation: None,
            ..wizard
        },
    )
}

/// The wizard with a captured region.
pub open spec fn region_captured(wizard: WizardView, region: RectRatio) -> WizardView {
    unproved(
        WizardView {
            region,
            region_capture_generation: Some(wizard.target_generation),
            ..wizard
        },
    )
}

/// The wizard after the target of its click was captured.
pub open spec fn action_captured(wizard: WizardView) -> WizardView {
    unreviewed(
        WizardView { action_capture_generation: Some(wizard.target_generation), ..wizard },
    )
}

impl WizardState {
    pub fn detector_kind(&self) -> (kind: WizardDetectorKind)
        ensures
            kind == kind_of(self@.detector),
    {
        match self.detector {
            WizardDetector::Text => WizardDetectorKind::Text,
            WizardDetector::Image { .. } => WizardDetectorKind::Image,
        }
    }

    /// Goes to the next step; the last stays.
    pub fn next(&mut self)
        ensures
            final(self)@ == (WizardView { step: final(self)@.step, ..old(self)@ }),
            step_place(final(self)@.step) == (if old(self)@.step is Finish {
                9
            } else {
                step_place(old(self)@.step) + 1
            }),
    {
        let place = step_number(self.step);
        self.step = step_at(if place < 9 { place + 1 } else { 9 });
    }

    /// Goes to the step before; the first stays.
    pub fn back(&mut self)
        ensures
            final(self)@ == (WizardView { step: final(self)@.step, ..old(self)@ }),
            step_place(final(self)@.step) == (if old(self)@.step is Target {
                1
            } else {
                step_place(old(self)@.step) - 1
            }),
    {
        let place = step_number(self.step);
        self.step = step_at(if place > 1 { place - 1 } else { 1 });
    }

    fn add_detector(&self, out: &mut Fingerprint)
        requires
            old(out).wf(),
        ensures
            final(out).wf(),
            final(out)@ == old(out)@ + detector_parts(self@),
    {
        let ghost before = out@;
        self.target.add_parts(out);
        add_rect(self.region, out);
        self.detector.add_parts(out);
        out.text(self.text_expected.as_str());
        out.number(match_mode_tag(self.text_match_mode));
        add_list(&self.image_negative_samples, out);
        assert(out@ =~= before + detector_parts(self@));
    }

    /// The fingerprint of the settings that a detector test proves.
    pub fn detector_fingerprint(&self) -> (fingerprint: String)
        ensures
            fingerprint@ == detector_print(self@),
    {
        let mut out = Fingerprint::new();
        self.add_detector(&mut out);
        assert(out@ =~= detector_parts(self@));
        out.finish()
    }

    /// The fingerprint of the settings that a review looks at.
    pub fn review_fingerprint(&self) -> (fingerprint: String)
        ensures
            fingerprint@ == review_print(self@),
    {
        let mut out = Fingerprint::new();
        self.add_detector(&mut out);
        self.add_behaviour(&mut out);
        assert(out@ =~= detector_parts(self@) + behaviour_parts(self@));
        out.finish()
    }

    fn add_behaviour(&self, out: &mut Fingerprint)
        requires
            old(out).wf(),
        ensures
            final(out).wf(),
            final(out)@ == old(out)@ + behaviour_parts(self@),
    {
        let ghost before = out@;
        let ghost a = wait_parts(self@.wait);
        let ghost b = seq![Token::Number(self@.wait_bodies.len())];
        let ghost c = bodies_parts(self@.wait_bodies);
        let ghost d = target_parts(self@.action_target);
        let ghost e = seq![Token::Number(button_number(self@.mouse_button))];
        let ghost f = repetition_parts(self@.repetition);
        let ghost g = failure_parts(self@.failure);
        add_wait(&self.observe_mode, out);
        assert(out@ == before + a);
        out.number(self.wait_body_count());
        assert(out@ =~= before + a + b);
        add_mode_bodies(&self.observe_mode, out);
        assert(out@ =~= before + a + b + c);
        add_target(&self.action_target, out);
        assert(out@ =~= before + a + b + c + d);
        out.number(button_tag(self.mouse_button));
        assert(out@ =~= before + a + b + c + d + e);
        add_repetition(self.repetition, out);
        assert(out@ =~= before + a + b + c + d + e + f);
        add_failure(&self.failure, out);
        assert(before + a + b + c + d + e + f + g =~= before + (a + (b + (c + (d + (e + (f
            + g)))))));
    }

    fn wait_body_count(&self) -> (count: u64)
        ensures
            count == self@.wait_bodies.len(),
    {
        match crate::tree::mode_timeout_body(&self.observe_mode) {
            Some(_) => 1,
            None => 0,
        }
    }

    /// The text rule of the macro, where the detector is a text.
    pub fn text_rule_for_authoring(&self) -> (rule: Option<TextRule>)
        ensures
            option_view(rule) == wizard_text_rule(self@),
    {
        match self.detector {
            WizardDetector::Image { .. } => None,
            WizardDetector::Text => Some(
                TextRule {
                    id: "text-rule".to_owned(),
                    revision: 1,
                    region_id: "detect-region".to_owned(),
                    language: "en-US".to_owned(),
                    preprocess: PreprocessProfile::Grayscale,
                    expected: self.text_expected.clone(),
                    match_mode: self.text_match_mode,
                    threshold: F64Bits(WIZARD_TEXT_THRESHOLD),
                    case_sensitive: false,
                    allow_cross_line: false,
                    match_policy: MatchSelectionPolicy::ExactlyOne,
                    poll_interval_ms: 250,
                    timeout_ms: Limit::Unlimited,
                    stable_frames: 2,
                },
            ),
        }
    }

    fn image_rule(&self) -> (rule: Option<ImageRule>)
        ensures
            option_view(rule) == wizard_image_rule(self@),
    {
        match &self.detector {
            WizardDetector::Text => None,
            WizardDetector::Image { template } => {
                let mut scales_percent: Vec<u16> = Vec::new();
                scales_percent.push(95);
                scales_percent.push(100);
                scales_percent.push(105);
                assert(scales_percent@ =~= seq![95u16, 100u16, 105u16]);
                Some(
                    ImageRule {
                        id: "image-rule".to_owned(),
                        revision: 1,
                        region_id: "detect-region".to_owned(),
                        template: template.clone(),
                        transparent_mask: None,
                        threshold: F32Bits(WIZARD_IMAGE_THRESHOLD),
                        scales_percent,
                        stable_frames: 2,
                        maximum_center_drift_px: 5,
                        minimum_runner_up_margin: F32Bits(WIZARD_RUNNER_UP_MARGIN),
                        verification: clone_option(&self.image_verification),
                        match_policy: MatchSelectionPolicy::ExactlyOne,
                        poll_interval_ms: 100,
                        timeout_ms: Limit::Unlimited,
                    },
                )
            },
        }
    }

    fn resolved_observe_mode(&self) -> (mode: ObserveMode)
        ensures
            wait_view(mode) == resolved_wait(self@.wait, self@.failure),
            mode_bodies(mode) == Seq::<BodyView>::empty(),
    {
        let timeout_outcome = match &self.failure {
            WizardFailure::Stop { message } => TimeoutOutcome::StopError {
                message: message.clone(),
            },
            WizardFailure::Continue => TimeoutOutcome::Continue,
        };
        assert(outcome_view(timeout_outcome) == failure_outcome(self@.failure));
        assert(crate::macro_engine::outcome_bodies(timeout_outcome) == Seq::<BodyView>::empty());
        match &self.observe_mode {
            ObserveMode::CheckNow => ObserveMode::CheckNow,
            ObserveMode::WaitForTrue { timeout_ms, .. } => ObserveMode::WaitForTrue {
                timeout_ms: *timeout_ms,
                timeout_outcome,
            },
            ObserveMode::WaitForFalse { timeout_ms, .. } => ObserveMode::WaitForFalse {
                timeout_ms: *timeout_ms,
                timeout_outcome,
            },
        }
    }

    fn condition(&self, source: &str, mode: ObserveMode) -> (condition: Condition)
        ensures
            condition_view(condition) == (ConditionView {
                family: family_of(kind_of(self@.detector)),
                source: source@,
                rule: rule_name(kind_of(self@.detector)),
                wait: wait_view(mode),
            }),
            condition_bodies(condition) == mode_bodies(mode),
    {
        match self.detector {
            WizardDetector::Text => Condition::Text {
                source_block_id: source.to_owned(),
                rule_id: "text-rule".to_owned(),
                mode,
            },
            WizardDetector::Image { .. } => Condition::Image {
                source_block_id: source.to_owned(),
                rule_id: "image-rule".to_owned(),
                mode,
            },
        }
    }

    fn action(&self, source: &str) -> (action: Action)
        ensures
            action@ == wizard_action(self@, source@),
    {
        match &self.action_target {
            WizardActionTarget::MatchedResult => match self.detector {
                WizardDetector::Text => Action::ClickTextMatch {
                    source_block_id: source.to_owned(),
                    button: self.mouse_button,
                },
                WizardDetector::Image { .. } => Action::ClickImageMatch {
                    source_block_id: source.to_owned(),
                    button: self.mouse_button,
                },
            },
            WizardActionTarget::SavedPoint { id, .. } => Action::ClickPoint {
                point_id: id.clone(),
                button: self.mouse_button,
            },
            WizardActionTarget::SavedRegion { id, .. } => Action::ClickRegion {
                region_id: id.clone(),
                button: self.mouse_button,
            },
        }
    }

    fn names(&self) -> (names: (&'static str, &'static str))
        ensures
            names.0@ == source_name(kind_of(self@.detector), self@.repetition),
            names.1@ == click_name(kind_of(self@.detector)),
    {
        let once = match self.repetition {
            WizardRepetition::RunOnce => true,
            _ => false,
        };
        match (&self.detector, once) {
            (WizardDetector::Text, true) => ("check-text", "click-text"),
            (WizardDetector::Text, false) => ("wait-text", "click-text"),
            (WizardDetector::Image { .. }, _) => ("wait-image", "click-image"),
        }
    }

    fn sequence(&self) -> (blocks: Vec<Block>)
        ensures
            blocks_view(blocks@) == wizard_sequence(self@),
    {
        let (source, click) = self.names();
        let mut blocks: Vec<Block> = Vec::new();
        let condition = self.condition(source, self.resolved_observe_mode());
        blocks.push(observe_block(source, condition));
        blocks.push(action_block(click, self.action(source)));
        assert(blocks_view(blocks@) =~= wizard_sequence(self@));
        blocks
    }

    fn blocks(&self) -> (blocks: Vec<Block>)
        ensures
            blocks_view(blocks@) == wizard_blocks(self@),
    {
        let mut blocks: Vec<Block> = Vec::new();
        match self.repetition {
            WizardRepetition::RunOnce => {
                blocks = self.sequence();
            },
            WizardRepetition::Repeat(count) => {
                blocks.push(repeat_block("repeat", count, self.sequence()));
            },
            WizardRepetition::Until { max_iterations } => {
                let (_, click) = self.names();
                let condition = self.condition("repeat-until", ObserveMode::CheckNow);
                let mut pacing: Vec<Block> = Vec::new();
                pacing.push(wait_block("repeat-pacing", 100));
                assert(blocks_view(pacing@) =~= seq![
                    leaf("repeat-pacing"@, HeadView::Wait { duration_ms: 100 }),
                ]);
                let until = repeat_until_block("repeat-until", condition, max_iterations, pacing);
                assert(until@.bodies =~= seq![
                    BodyView {
                        role: RoleView::Loop,
                        blocks: seq![leaf("repeat-pacing"@, HeadView::Wait { duration_ms: 100 })],
                    },
                ]);
                blocks.push(until);
                blocks.push(action_block(click, self.action("repeat-until")));
            },
            WizardRepetition::Continuous => {
                blocks.push(continuous_block("continuous", self.sequence()));
            },
        }
        assert(blocks_view(blocks@) =~= wizard_blocks(self@));
        blocks
    }

    /// The macro that the wizard describes.
    fn definition(&self) -> (definition: MacroDefinition)
        ensures
            definition@ == wizard_definition(self@),
    {
        let mut regions: Vec<RegionDefinition> = Vec::new();
        regions.push(
            RegionDefinition { id: "detect-region".to_owned(), revision: 1, rect: self.region },
        );
        let mut points: Vec<PointDefinition> = Vec::new();
        match &self.action_target {
            WizardActionTarget::MatchedResult => {},
            WizardActionTarget::SavedPoint { id, point } => {
                points.push(PointDefinition { id: id.clone(), revision: 1, point: *point });
            },
            WizardActionTarget::SavedRegion { id, rect } => {
                regions.push(RegionDefinition { id: id.clone(), revision: 1, rect: *rect });
            },
        }
        let mut text_rules: Vec<TextRule> = Vec::new();
        if let Some(rule) = self.text_rule_for_authoring() {
            text_rules.push(rule);
        }
        let mut image_rules: Vec<ImageRule> = Vec::new();
        if let Some(rule) = self.image_rule() {
            image_rules.push(rule);
        }
        let definition = MacroDefinition {
            schema_version: MACRO_SCHEMA_VERSION,
            id: "wizard-macro".to_owned(),
            name: self.name.clone(),
            revision: 1,
            target: self.target.clone(),
            regions,
            points,
            text_rules,
            image_rules,
            blocks: self.blocks(),
            safety: SafetyPolicy {
                max_runtime_ms: Limit::Unlimited,
                max_clicks: Limit::Unlimited,
                max_observation_retries: Limit::Unlimited,
                max_observations_per_second: 20,
                minimum_click_interval_ms: 100,
                focus_loss: FocusLossPolicy::Stop,
            },
        };
        assert(definition@ =~= wizard_definition(self@)) by {
            let expected = wizard_definition(self@);
            assert(definition@.regions =~= expected.regions);
            assert(definition@.points =~= expected.points);
            assert(definition@.text_rules =~= expected.text_rules);
            assert(definition@.image_rules =~= expected.image_rules);
        }
        definition
    }

    /// The macro that the wizard describes, once nothing stands between them.
    pub fn compose(&self) -> (result: Result<MacroDefinition, String>)
        ensures
            match result {
                Ok(definition) => missing(self@) is None && definition@ == wizard_definition(
                    self@,
                ),
                Err(message) => missing(self@) == Some(message@),
            },
    {
        if self.step != WizardStep::Finish {
            return Err("Complete every wizard step before Finish".to_owned());
        }
        if is_blank(self.name.as_str()) {
            return Err("Macro name is required".to_owned());
        }
        if !self.target_bound {
            return Err("Capture and bind a concrete target before Finish".to_owned());
        }
        match &self.detector {
            WizardDetector::Text => {
                if is_blank(self.text_expected.as_str()) {
                    return Err("Expected OCR text is required".to_owned());
                }
            },
            WizardDetector::Image { template } => {
                if template.revision == 0 || template.content_hash.as_str().unicode_len() == 0 {
                    return Err("Capture an image template before Finish".to_owned());
                }
            },
        }
        match &self.detector_test {
            None => {
                return Err("Detector test is required before Finish".to_owned());
            },
            Some(result) => {
                if !result.passed {
                    return Err("Detector test failed; edit the rule or test again".to_owned());
                }
                if result.fingerprint != self.detector_fingerprint() {
                    return Err("Detector settings changed; run Detector Test again".to_owned());
                }
            },
        }
        let current = match &self.dry_run_fingerprint {
            Some(fingerprint) => *fingerprint == self.review_fingerprint(),
            None => false,
        };
        if !self.dry_run_reviewed || !current {
            return Err("Dry Run review is required before Finish".to_owned());
        }
        Ok(self.definition())
    }

    /// Finishes the wizard: its macro is composed, and handed over unless `validate` finds
    /// problems in it.
    pub fn finish<V: Fn(&MacroDefinition) -> Vec<ValidationProblem>>(&self, validate: V) -> (result:
        Result<WizardOutput, String>)
        requires
            forall|definition: &MacroDefinition| #[trigger] call_requires(validate, (definition,)),
        ensures
            match result {
                Ok(output) => missing(self@) is None && output.definition@ == wizard_definition(
                    self@,
                ) && output.validation_problems@.len() == 0 && call_ensures(
                    validate,
                    (&output.definition,),
                    output.validation_problems,
                ),
                Err(message) => missing(self@) == Some(message@) || (missing(self@) is None
                    && exists|definition: MacroDefinition, problems: Vec<ValidationProblem>|
                    {
                        &&& definition@ == wizard_definition(self@)
                        &&& #[trigger] call_ensures(validate, (&definition,), problems)
                        &&& problems@.len() > 0
                        &&& message@ == validation_failure(views(problems@))
                    }),
            },
    {
        let definition = match self.compose() {
            Err(message) => return Err(message),
            Ok(definition) => definition,
        };
        let problems = validate(&definition);
        assert(call_ensures(validate, (&definition,), problems));
        conclude(definition, problems)
    }

    /// Records the result of a detector test.
    pub fn record_detector_test(&mut self, passed: bool, evidence: &str, elapsed_ms: u64)
        ensures
            final(self)@ == tested(old(self)@, passed, evidence@, elapsed_ms),
    {
        let fingerprint = self.detector_fingerprint();
        self.detector_test = Some(
            DetectorTestResult { passed, evidence: evidence.to_owned(), elapsed_ms, fingerprint },
        );
        if let WizardDetector::Text = self.detector {
            self.image_verification = None;
        }
        self.dry_run_reviewed = false;
        self.dry_run_fingerprint = None;
    }

    /// Records the result of a detector test together with the verification of its image rule.
    pub fn record_image_detector_test(
        &mut self,
        passed: bool,
        evidence: &str,
        elapsed_ms: u64,
        verification: Option<ImageRuleVerificationArtifact>,
    )
        ensures
            final(self)@ == tested(
                (WizardView { image_verification: option_view(verification), ..old(self)@ }),
                passed,
                evidence@,
                elapsed_ms,
            ),
    {
        self.image_verification = verification;
        self.record_detector_test(passed, evidence, elapsed_ms);
    }

    /// Records that the wizard was reviewed as it is.
    pub fn mark_dry_run_reviewed(&mut self)
        ensures
            final(self)@ == reviewed(old(self)@),
    {
        self.dry_run_fingerprint = Some(self.review_fingerprint());
        self.dry_run_reviewed = true;
    }

    /// Takes back the review, or gives it.
    pub fn set_dry_run_reviewed(&mut self, reviewed: bool)
        ensures
            final(self)@ == (if reviewed {
                self::reviewed(old(self)@)
            } else {
                unreviewed(old(self)@)
            }),
    {
        if reviewed {
            self.mark_dry_run_reviewed();
        } else {
            self.invalidate_dry_run_review();
        }
    }

    pub fn invalidate_detector_proof(&mut self)
        ensures
            final(self)@ == unproved(old(self)@),
    {
        self.detector_test = None;
        self.image_verification = None;
        self.image_negative_samples = Vec::new();
        assert(views(self.image_negative_samples@) =~= Seq::empty());
        self.invalidate_dry_run_review();
    }

    pub fn invalidate_dry_run_review(&mut self)
        ensures
            final(self)@ == unreviewed(old(self)@),
    {
        self.dry_run_reviewed = false;
        self.dry_run_fingerprint = None;
    }

    /// Drops the proofs that an edit made stale, by the fingerprints from before the edit.
    pub fn reconcile_form_edits(&mut self, detector_before: &str, review_before: &str)
        ensures
            final(self)@ == reconciled(old(self)@, detector_before@, review_before@),
    {
        let detector = self.detector_fingerprint();
        if !crate::text::same_text(detector.as_str(), detector_before) {
            self.invalidate_detector_proof();
        } else {
            let review = self.review_fingerprint();
            if !crate::text::same_text(review.as_str(), review_before) {
                self.invalidate_dry_run_review();
            }
        }
    }

    /// Binds the wizard to a captured target, which makes the proofs of its detector stale.
    pub fn record_target_capture(&mut self, target: TargetProfile)
        ensures
            final(self)@ == target_captured(old(self)@, target@),
    {
        self.target = target;
        self.target_bound = true;
        self.target_generation = bump(self.target_generation);
        self.region_capture_generation = None;
        self.action_capture_generation = None;
        self.invalidate_detector_proof();
    }

    /// Takes a captured region, which makes the proofs of the detector stale.
    pub fn record_region_capture(&mut self, region: RectRatio)
        ensures
            final(self)@ == region_captured(old(self)@, region),
    {
        self.region = region;
        self.region_capture_generation = Some(self.target_generation);
        self.invalidate_detector_proof();
    }

    /// Notes that the target of the click was captured, which makes the review stale.
    pub fn record_action_capture(&mut self)
        ensures
            final(self)@ == action_captured(old(self)@),
    {
        self.action_capture_generation = Some(self.target_generation);
        self.invalidate_dry_run_review();
    }

    /// Chooses the kind of the detector. A new image detector still lacks its template.
    pub fn set_detector_kind(&mut self, kind: WizardDetectorKind)
        ensures
            final(self)@ == (if kind == kind_of(old(self)@.detector) {
                old(self)@
            } else {
                WizardView {
                    detector_test: None,
                    detector: match kind {
                        WizardDetectorKind::Text => WizardDetectorView::Text,
                        WizardDetectorKind::Image => WizardDetectorView::Image {
                            template: AssetRefView {
                                id: "wizard-template"@,
                                revision: 0,
                                content_hash: Seq::empty(),
                            },
                        },
                    },
                    ..old(self)@
                }
            }),
    {
        if kind == self.detector_kind() {
            return;
        }
        self.detector_test = None;
        match kind {
            WizardDetectorKind::Text => {
                self.detector = WizardDetector::Text;
            },
            WizardDetectorKind::Image => {
                let content_hash = String::new();
                assert(content_hash@ =~= Seq::empty());
                self.detector = WizardDetector::Image {
                    template: AssetRef {
                        id: "wizard-template".to_owned(),
                        revision: 0,
                        content_hash,
                    },
                };
            },
        }
    }

    /// Chooses where the click goes. What was captured for that kind is kept.
    pub fn set_action_kind(&mut self, kind: WizardActionKind)
        ensures
            final(self)@ == (WizardView {
                action_target: match kind {
                    WizardActionKind::MatchedResult => WizardTargetView::MatchedResult,
                    WizardActionKind::SavedPoint => if old(self)@.action_target is SavedPoint {
                        old(self)@.action_target
                    } else {
                        WizardTargetView::SavedPoint {
                            id: "click-point"@,
                            point: PointRatio {
                                x: F64Bits(0x3FE0_0000_0000_0000),
                                y: F64Bits(0x3FE0_0000_0000_0000),
                            },
                        }
                    },
                    WizardActionKind::SavedRegion => if old(self)@.action_target is SavedRegion {
                        old(self)@.action_target
                    } else {
                        WizardTargetView::SavedRegion {
                            id: "click-region"@,
                            rect: RectRatio {
                                x: F64Bits(0x3FDC_CCCC_CCCC_CCCD),
                                y: F64Bits(0x3FDC_CCCC_CCCC_CCCD),
                                width: F64Bits(0x3FB9_9999_9999_999A),
                                height: F64Bits(0x3FB9_9999_9999_999A),
                            },
                        }
                    },
                },
                ..old(self)@
            }),
    {
        match kind {
            WizardActionKind::MatchedResult => {
                self.action_target = WizardActionTarget::MatchedResult;
            },
            WizardActionKind::SavedPoint => {
                if let WizardActionTarget::SavedPoint { .. } = self.action_target {
                    return;
                }
                self.action_target = WizardActionTarget::SavedPoint {
                    id: "click-point".to_owned(),
                    point: PointRatio {
                        x: F64Bits(0x3FE0_0000_0000_0000),
                        y: F64Bits(0x3FE0_0000_0000_0000),
                    },
                };
            },
            WizardActionKind::SavedRegion => {
                if let WizardActionTarget::SavedRegion { .. } = self.action_target {
                    return;
                }
                self.action_target = WizardActionTarget::SavedRegion {
                    id: "click-region".to_owned(),
                    rect: RectRatio {
                        x: F64Bits(0x3FDC_CCCC_CCCC_CCCD),
                        y: F64Bits(0x3FDC_CCCC_CCCC_CCCD),
                        width: F64Bits(0x3FB9_9999_9999_999A),
                        height: F64Bits(0x3FB9_9999_9999_999A),
                    },
                };
            },
        }
    }

    /// Chooses whether the macro waits for a match or checks once.
    pub fn set_wait(&mut self, wait: bool)
        ensures
            final(self)@ == (if !wait {
                WizardView { wait: WaitView::CheckNow, wait_bodies: Seq::empty(), ..old(self)@ }
            } else if old(self)@.wait is CheckNow {
                WizardView {
                    wait: fresh_wizard().wait,
                    wait_bodies: Seq::empty(),
                    ..old(self)@
                }
            } else {
                old(self)@
            }),
    {
        if !wait {
            self.observe_mode = ObserveMode::CheckNow;
        } else if let ObserveMode::CheckNow = self.observe_mode {
            self.observe_mode = open_wait();
        }
    }

    /// Chooses whether a finite wait that runs out stops the run.
    pub fn set_stop_on_failure(&mut self, stop: bool)
        ensures
            final(self)@ == (WizardView {
                failure: if !stop {
                    WizardFailureView::Continue
                } else if old(self)@.failure is Stop {
                    old(self)@.failure
                } else {
                    WizardFailureView::Stop { message: default_failure() }
                },
                ..old(self)@
            }),
    {
        if !stop {
            self.failure = WizardFailure::Continue;
        } else if let WizardFailure::Continue = self.failure {
            self.failure = WizardFailure::Stop { message: "Detector did not match".to_owned() };
        }
    }
}

} // verus!
