//! The canonical macro definition: what a macro observes, decides, repeats and does.
use crate::content::{
    clone_option, option_view, same_option, same_u16_list, views, Alike, Content, Exact,
};
use crate::double::{doubles_equal, equal_doubles};
use crate::single::{equal_singles, singles_equal};
use vstd::prelude::*;

verus! {

/// Version of the definition format that this library reads and writes.
pub const MACRO_SCHEMA_VERSION: u32 = 1;

/// Largest number of scales that one image rule may try.
pub const DEFAULT_MAX_SCALES: usize = 16;

/// A double-precision number, kept as its IEEE 754 bits and compared as a number.
#[derive(Debug, Clone, Copy)]
pub struct F64Bits(pub u64);

/// A single-precision number, kept as its IEEE 754 bits and compared as a number.
#[derive(Debug, Clone, Copy)]
pub struct F32Bits(pub u32);

/// Rectangle in fractions of the client area.
#[derive(Debug, Clone, Copy)]
pub struct RectRatio {
    pub x: F64Bits,
    pub y: F64Bits,
    pub width: F64Bits,
    pub height: F64Bits,
}

/// Two rectangles compare as equal.
pub open spec fn equal_rects(a: RectRatio, b: RectRatio) -> bool {
    equal_doubles(a.x, b.x) && equal_doubles(a.y, b.y) && equal_doubles(a.width, b.width)
        && equal_doubles(a.height, b.height)
}

pub fn rects_equal(a: RectRatio, b: RectRatio) -> (equal: bool)
    ensures
        equal == equal_rects(a, b),
{
    doubles_equal(a.x, b.x) && doubles_equal(a.y, b.y) && doubles_equal(a.width, b.width)
        && doubles_equal(a.height, b.height)
}

impl PartialEq for RectRatio {
    fn eq(&self, other: &Self) -> (equal: bool) {
        rects_equal(*self, *other)
    }
}

impl vstd::std_specs::cmp::PartialEqSpecImpl for RectRatio {
    open spec fn obeys_eq_spec() -> bool {
        true
    }

    open spec fn eq_spec(&self, other: &Self) -> bool {
        equal_rects(*self, *other)
    }
}

/// Point in fractions of the client area.
#[derive(Debug, Clone, Copy)]
pub struct PointRatio {
    pub x: F64Bits,
    pub y: F64Bits,
}

/// Two points compare as equal.
pub open spec fn equal_points(a: PointRatio, b: PointRatio) -> bool {
    equal_doubles(a.x, b.x) && equal_doubles(a.y, b.y)
}

pub fn points_equal(a: PointRatio, b: PointRatio) -> (equal: bool)
    ensures
        equal == equal_points(a, b),
{
    doubles_equal(a.x, b.x) && doubles_equal(a.y, b.y)
}

impl PartialEq for PointRatio {
    fn eq(&self, other: &Self) -> (equal: bool) {
        points_equal(*self, *other)
    }
}

impl vstd::std_specs::cmp::PartialEqSpecImpl for PointRatio {
    open spec fn obeys_eq_spec() -> bool {
        true
    }

    open spec fn eq_spec(&self, other: &Self) -> bool {
        equal_points(*self, *other)
    }
}

/// A limit that the author may lift.
#[derive(Debug, PartialEq, Eq, Structural)]
pub enum Limit<T> {
    Finite(T),
    Unlimited,
}

impl<T: Copy> Clone for Limit<T> {
    fn clone(&self) -> (copy: Self)
        ensures
            copy == *self,
    {
        *self
    }
}

impl<T: Copy> Copy for Limit<T> {

}

/// Mouse button a click presses.
#[derive(Debug, Clone, Copy, PartialEq, Eq, Structural)]
pub enum MouseButton {
    Left,
    Right,
}

/// Image preparation applied before text recognition.
#[derive(Debug, Clone, Copy, PartialEq, Eq, Structural)]
pub enum PreprocessProfile {
    Original,
    Grayscale,
    HighContrast,
    SmallText,
}

/// How recognised text is compared with the expected text.
#[derive(Debug, Clone, Copy, PartialEq, Eq, Structural)]
pub enum TextMatchMode {
    Exact,
    Contains,
    Fuzzy,
    Absent,
}

/// Which of several matches an action uses.
#[derive(Debug, Clone, Copy, PartialEq, Eq, Structural)]
pub enum MatchSelectionPolicy {
    ExactlyOne,
    HighestScore,
    FirstReadingOrder,
    Topmost,
    Bottommost,
}

/// What a run does when the target window loses focus.
#[derive(Debug, Clone, Copy, PartialEq, Eq, Structural)]
pub enum FocusLossPolicy {
    Stop,
}

/// Window that a macro is allowed to observe.
#[derive(Debug, PartialEq, Eq)]
pub struct TargetProfile {
    pub process_path: String,
    pub window_class: String,
    pub title_contains: String,
    pub captured_client_width: u32,
    pub captured_client_height: u32,
    pub captured_dpi: u32,
}

/// The contents of a [`TargetProfile`].
#[verifier::ext_equal]
pub ghost struct TargetProfileView {
    pub process_path: Seq<char>,
    pub window_class: Seq<char>,
    pub title_contains: Seq<char>,
    pub captured_client_width: u32,
    pub captured_client_height: u32,
    pub captured_dpi: u32,
}

impl View for TargetProfile {
    type V = TargetProfileView;

    open spec fn view(&self) -> TargetProfileView {
        TargetProfileView {
            process_path: self.process_path@,
            window_class: self.window_class@,
            title_contains: self.title_contains@,
            captured_client_width: self.captured_client_width,
            captured_client_height: self.captured_client_height,
            captured_dpi: self.captured_dpi,
        }
    }
}

impl Clone for TargetProfile {
    fn clone(&self) -> (copy: Self)
        ensures
            copy@ == self@,
    {
        let copy = TargetProfile {
            process_path: self.process_path.clone(),
            window_class: self.window_class.clone(),
            title_contains: self.title_contains.clone(),
            captured_client_width: self.captured_client_width,
            captured_client_height: self.captured_client_height,
            captured_dpi: self.captured_dpi,
        };
        copy
    }
}

impl Exact for TargetProfile {
    fn same(&self, other: &Self) -> (equal: bool) {
        self.process_path == other.process_path
            && self.window_class == other.window_class
            && self.title_contains == other.title_contains
            && self.captured_client_width == other.captured_client_width
            && self.captured_client_height == other.captured_client_height
            && self.captured_dpi == other.captured_dpi
    }
}

impl Content for TargetProfile {
    fn duplicate(&self) -> (copy: Self) {
        self.clone()
    }
}

/// Named screen region.
#[derive(Debug, PartialEq)]
pub struct RegionDefinition {
    pub id: String,
    pub revision: u64,
    pub rect: RectRatio,
}

/// The contents of a [`RegionDefinition`].
#[verifier::ext_equal]
pub ghost struct RegionDefinitionView {
    pub id: Seq<char>,
    pub revision: u64,
    pub rect: RectRatio,
}

impl View for RegionDefinition {
    type V = RegionDefinitionView;

    open spec fn view(&self) -> RegionDefinitionView {
        RegionDefinitionView {
            id: self.id@,
            revision: self.revision,
            rect: self.rect,
        }
    }
}

impl Clone for RegionDefinition {
    fn clone(&self) -> (copy: Self)
        ensures
            copy@ == self@,
    {
        let copy = RegionDefinition {
            id: self.id.clone(),
            revision: self.revision,
            rect: self.rect,
        };
        copy
    }
}

impl Alike for RegionDefinition {
    open spec fn alike(one: RegionDefinitionView, other: RegionDefinitionView) -> bool {
        equal_rects(one.rect, other.rect) && one == (RegionDefinitionView {
                rect: one.rect,
                ..other
            })
    }

    fn equals(&self, other: &Self) -> (equal: bool) {
        self.id == other.id
            && self.revision == other.revision
            && rects_equal(self.rect, other.rect)
    }
}

impl Content for RegionDefinition {
    fn duplicate(&self) -> (copy: Self) {
        self.clone()
    }
}

/// Named screen point.
#[derive(Debug, PartialEq)]
pub struct PointDefinition {
    pub id: String,
    pub revision: u64,
    pub point: PointRatio,
}

/// The contents of a [`PointDefinition`].
#[verifier::ext_equal]
pub ghost struct PointDefinitionView {
    pub id: Seq<char>,
    pub revision: u64,
    pub point: PointRatio,
}

impl View for PointDefinition {
    type V = PointDefinitionView;

    open spec fn view(&self) -> PointDefinitionView {
        PointDefinitionView {
            id: self.id@,
            revision: self.revision,
            point: self.point,
        }
    }
}

impl Clone for PointDefinition {
    fn clone(&self) -> (copy: Self)
        ensures
            copy@ == self@,
    {
        let copy = PointDefinition {
            id: self.id.clone(),
            revision: self.revision,
            point: self.point,
        };
        copy
    }
}

impl Alike for PointDefinition {
    open spec fn alike(one: PointDefinitionView, other: PointDefinitionView) -> bool {
        equal_points(one.point, other.point) && one == (PointDefinitionView {
                point: one.point,
                ..other
            })
    }

    fn equals(&self, other: &Self) -> (equal: bool) {
        self.id == other.id
            && self.revision == other.revision
            && points_equal(self.point, other.point)
    }
}

impl Content for PointDefinition {
    fn duplicate(&self) -> (copy: Self) {
        self.clone()
    }
}

/// Revision of a stored image asset.
#[derive(Debug, PartialEq, Eq)]
pub struct AssetRef {
    pub id: String,
    pub revision: u64,
    pub content_hash: String,
}

/// The contents of a [`AssetRef`].
#[verifier::ext_equal]
pub ghost struct AssetRefView {
    pub id: Seq<char>,
    pub revision: u64,
    pub content_hash: Seq<char>,
}

impl View for AssetRef {
    type V = AssetRefView;

    open spec fn view(&self) -> AssetRefView {
        AssetRefView {
            id: self.id@,
            revision: self.revision,
            content_hash: self.content_hash@,
        }
    }
}

impl Clone for AssetRef {
    fn clone(&self) -> (copy: Self)
        ensures
            copy@ == self@,
    {
        let copy = AssetRef {
            id: self.id.clone(),
            revision: self.revision,
            content_hash: self.content_hash.clone(),
        };
        copy
    }
}

impl Exact for AssetRef {
    fn same(&self, other: &Self) -> (equal: bool) {
        self.id == other.id
            && self.revision == other.revision
            && self.content_hash == other.content_hash
    }
}

impl Content for AssetRef {
    fn duplicate(&self) -> (copy: Self) {
        self.clone()
    }
}

/// Text detector.
#[derive(Debug, PartialEq)]
pub struct TextRule {
    pub id: String,
    pub revision: u64,
    pub region_id: String,
    pub language: String,
    pub preprocess: PreprocessProfile,
    pub expected: String,
    pub match_mode: TextMatchMode,
    pub threshold: F64Bits,
    pub case_sensitive: bool,
    pub allow_cross_line: bool,
    pub match_policy: MatchSelectionPolicy,
    pub poll_interval_ms: u64,
    pub timeout_ms: Limit<u64>,
    pub stable_frames: u8,
}

/// The contents of a [`TextRule`].
#[verifier::ext_equal]
pub ghost struct TextRuleView {
    pub id: Seq<char>,
    pub revision: u64,
    pub region_id: Seq<char>,
    pub language: Seq<char>,
    pub preprocess: PreprocessProfile,
    pub expected: Seq<char>,
    pub match_mode: TextMatchMode,
    pub threshold: F64Bits,
    pub case_sensitive: bool,
    pub allow_cross_line: bool,
    pub match_policy: MatchSelectionPolicy,
    pub poll_interval_ms: u64,
    pub timeout_ms: Limit<u64>,
    pub stable_frames: u8,
}

impl View for TextRule {
    type V = TextRuleView;

    open spec fn view(&self) -> TextRuleView {
        TextRuleView {
            id: self.id@,
            revision: self.revision,
            region_id: self.region_id@,
            language: self.language@,
            preprocess: self.preprocess,
            expected: self.expected@,
            match_mode: self.match_mode,
            threshold: self.threshold,
            case_sensitive: self.case_sensitive,
            allow_cross_line: self.allow_cross_line,
            match_policy: self.match_policy,
            poll_interval_ms: self.poll_interval_ms,
            timeout_ms: self.timeout_ms,
            stable_frames: self.stable_frames,
        }
    }
}

impl Clone for TextRule {
    fn clone(&self) -> (copy: Self)
        ensures
            copy@ == self@,
    {
        let copy = TextRule {
            id: self.id.clone(),
            revision: self.revision,
            region_id: self.region_id.clone(),
            language: self.language.clone(),
            preprocess: self.preprocess,
            expected: self.expected.clone(),
            match_mode: self.match_mode,
            threshold: self.threshold,
            case_sensitive: self.case_sensitive,
            allow_cross_line: self.allow_cross_line,
            match_policy: self.match_policy,
            poll_interval_ms: self.poll_interval_ms,
            timeout_ms: self.timeout_ms,
            stable_frames: self.stable_frames,
        };
        copy
    }
}

impl Alike for TextRule {
    open spec fn alike(one: TextRuleView, other: TextRuleView) -> bool {
        equal_doubles(one.threshold, other.threshold) && one == (TextRuleView {
                threshold: one.threshold,
                ..other
            })
    }

    fn equals(&self, other: &Self) -> (equal: bool) {
        self.id == other.id
            && self.revision == other.revision
            && self.region_id == other.region_id
            && self.language == other.language
            && self.preprocess == other.preprocess
            && self.expected == other.expected
            && self.match_mode == other.match_mode
            && doubles_equal(self.threshold, other.threshold)
            && self.case_sensitive == other.case_sensitive
            && self.allow_cross_line == other.allow_cross_line
            && self.match_policy == other.match_policy
            && self.poll_interval_ms == other.poll_interval_ms
            && self.timeout_ms == other.timeout_ms
            && self.stable_frames == other.stable_frames
    }
}

impl Content for TextRule {
    fn duplicate(&self) -> (copy: Self) {
        self.clone()
    }
}

/// Proof, made by the image engine, that an image rule was verified on this machine. Its contents
/// belong to the engine; here it is only kept, replaced and cleared.
#[derive(Debug, PartialEq, Eq)]
pub struct ImageRuleVerificationArtifact {
    pub digest: String,
}

/// The contents of a [`ImageRuleVerificationArtifact`].
#[verifier::ext_equal]
pub ghost struct ImageRuleVerificationArtifactView {
    pub digest: Seq<char>,
}

impl View for ImageRuleVerificationArtifact {
    type V = ImageRuleVerificationArtifactView;

    open spec fn view(&self) -> ImageRuleVerificationArtifactView {
        ImageRuleVerificationArtifactView {
            digest: self.digest@,
        }
    }
}

impl Clone for ImageRuleVerificationArtifact {
    fn clone(&self) -> (copy: Self)
        ensures
            copy@ == self@,
    {
        let copy = ImageRuleVerificationArtifact {
            digest: self.digest.clone(),
        };
        copy
    }
}

impl Exact for ImageRuleVerificationArtifact {
    fn same(&self, other: &Self) -> (equal: bool) {
        self.digest == other.digest
    }
}

impl Content for ImageRuleVerificationArtifact {
    fn duplicate(&self) -> (copy: Self) {
        self.clone()
    }
}

/// Frame that an image rule must not match, with the inputs its score was measured under.
#[derive(Debug, PartialEq)]
pub struct NegativeCorpusSample {
    pub stable_id: String,
    pub content_sha256: String,
    pub measured_score: F64Bits,
    pub evaluation: String,
}

/// The contents of a [`NegativeCorpusSample`].
#[verifier::ext_equal]
pub ghost struct NegativeCorpusSampleView {
    pub stable_id: Seq<char>,
    pub content_sha256: Seq<char>,
    pub measured_score: F64Bits,
    pub evaluation: Seq<char>,
}

impl View for NegativeCorpusSample {
    type V = NegativeCorpusSampleView;

    open spec fn view(&self) -> NegativeCorpusSampleView {
        NegativeCorpusSampleView {
            stable_id: self.stable_id@,
            content_sha256: self.content_sha256@,
            measured_score: self.measured_score,
            evaluation: self.evaluation@,
        }
    }
}

impl Clone for NegativeCorpusSample {
    fn clone(&self) -> (copy: Self)
        ensures
            copy@ == self@,
    {
        let copy = NegativeCorpusSample {
            stable_id: self.stable_id.clone(),
            content_sha256: self.content_sha256.clone(),
            measured_score: self.measured_score,
            evaluation: self.evaluation.clone(),
        };
        copy
    }
}

impl Alike for NegativeCorpusSample {
    open spec fn alike(one: NegativeCorpusSampleView, other: NegativeCorpusSampleView) -> bool {
        equal_doubles(one.measured_score, other.measured_score) && one == (NegativeCorpusSampleView {
                measured_score: one.measured_score,
                ..other
            })
    }

    fn equals(&self, other: &Self) -> (equal: bool) {
        self.stable_id == other.stable_id
            && self.content_sha256 == other.content_sha256
            && doubles_equal(self.measured_score, other.measured_score)
            && self.evaluation == other.evaluation
    }
}

impl Content for NegativeCorpusSample {
    fn duplicate(&self) -> (copy: Self) {
        self.clone()
    }
}

/// Image detector.
#[derive(Debug, PartialEq)]
pub struct ImageRule {
    pub id: String,
    pub revision: u64,
    pub region_id: String,
    pub template: AssetRef,
    pub transparent_mask: Option<AssetRef>,
    pub threshold: F32Bits,
    pub scales_percent: Vec<u16>,
    pub stable_frames: u8,
    pub maximum_center_drift_px: u32,
    pub minimum_runner_up_margin: F32Bits,
    pub verification: Option<ImageRuleVerificationArtifact>,
    pub match_policy: MatchSelectionPolicy,
    pub poll_interval_ms: u64,
    pub timeout_ms: Limit<u64>,
}

/// The contents of a [`ImageRule`].
#[verifier::ext_equal]
pub ghost struct ImageRuleView {
    pub id: Seq<char>,
    pub revision: u64,
    pub region_id: Seq<char>,
    pub template: AssetRefView,
    pub transparent_mask: Option<AssetRefView>,
    pub threshold: F32Bits,
    pub scales_percent: Seq<u16>,
    pub stable_frames: u8,
    pub maximum_center_drift_px: u32,
    pub minimum_runner_up_margin: F32Bits,
    pub verification: Option<ImageRuleVerificationArtifactView>,
    pub match_policy: MatchSelectionPolicy,
    pub poll_interval_ms: u64,
    pub timeout_ms: Limit<u64>,
}

impl View for ImageRule {
    type V = ImageRuleView;

    open spec fn view(&self) -> ImageRuleView {
        ImageRuleView {
            id: self.id@,
            revision: self.revision,
            region_id: self.region_id@,
            template: self.template@,
            transparent_mask: option_view(self.transparent_mask),
            threshold: self.threshold,
            scales_percent: self.scales_percent@,
            stable_frames: self.stable_frames,
            maximum_center_drift_px: self.maximum_center_drift_px,
            minimum_runner_up_margin: self.minimum_runner_up_margin,
            verification: option_view(self.verification),
            match_policy: self.match_policy,
            poll_interval_ms: self.poll_interval_ms,
            timeout_ms: self.timeout_ms,
        }
    }
}

impl Clone for ImageRule {
    fn clone(&self) -> (copy: Self)
        ensures
            copy@ == self@,
    {
        let copy = ImageRule {
            id: self.id.clone(),
            revision: self.revision,
            region_id: self.region_id.clone(),
            template: self.template.clone(),
            transparent_mask: clone_option(&self.transparent_mask),
            threshold: self.threshold,
            scales_percent: self.scales_percent.clone(),
            stable_frames: self.stable_frames,
            maximum_center_drift_px: self.maximum_center_drift_px,
            minimum_runner_up_margin: self.minimum_runner_up_margin,
            verification: clone_option(&self.verification),
            match_policy: self.match_policy,
            poll_interval_ms: self.poll_interval_ms,
            timeout_ms: self.timeout_ms,
        };
        copy
    }
}

impl Alike for ImageRule {
    open spec fn alike(one: ImageRuleView, other: ImageRuleView) -> bool {
        equal_singles(one.threshold, other.threshold) && equal_singles(
            one.minimum_runner_up_margin,
            other.minimum_runner_up_margin,
        ) && one == (ImageRuleView {
            threshold: one.threshold,
            minimum_runner_up_margin: one.minimum_runner_up_margin,
            ..other
        })
    }

    fn equals(&self, other: &Self) -> (equal: bool) {
        self.id == other.id
            && self.revision == other.revision
            && self.region_id == other.region_id
            && self.template.same(&other.template)
            && same_option(&self.transparent_mask, &other.transparent_mask)
            && singles_equal(self.threshold, other.threshold)
            && same_u16_list(&self.scales_percent, &other.scales_percent)
            && self.stable_frames == other.stable_frames
            && self.maximum_center_drift_px == other.maximum_center_drift_px
            && singles_equal(
            self.minimum_runner_up_margin,
            other.minimum_runner_up_margin,
        )
            && same_option(&self.verification, &other.verification)
            && self.match_policy == other.match_policy
            && self.poll_interval_ms == other.poll_interval_ms
            && self.timeout_ms == other.timeout_ms
    }
}

impl Content for ImageRule {
    fn duplicate(&self) -> (copy: Self) {
        self.clone()
    }
}

/// Limits that every run of a macro keeps.
#[derive(Debug, Clone, Copy, PartialEq, Eq, Structural)]
pub struct SafetyPolicy {
    pub max_runtime_ms: Limit<u64>,
    pub max_clicks: Limit<u64>,
    pub max_observation_retries: Limit<u64>,
    pub max_observations_per_second: u32,
    pub minimum_click_interval_ms: u64,
    pub focus_loss: FocusLossPolicy,
}

/// Reason why a definition may not run.
#[derive(Debug, PartialEq, Eq)]
pub struct ValidationProblem {
    pub code: String,
    pub message: String,
    pub block_id: Option<String>,
}

/// The contents of a [`ValidationProblem`].
#[verifier::ext_equal]
pub ghost struct ValidationProblemView {
    pub code: Seq<char>,
    pub message: Seq<char>,
    pub block_id: Option<Seq<char>>,
}

impl View for ValidationProblem {
    type V = ValidationProblemView;

    open spec fn view(&self) -> ValidationProblemView {
        ValidationProblemView {
            code: self.code@,
            message: self.message@,
            block_id: option_view(self.block_id),
        }
    }
}

impl Clone for ValidationProblem {
    fn clone(&self) -> (copy: Self)
        ensures
            copy@ == self@,
    {
        let copy = ValidationProblem {
            code: self.code.clone(),
            message: self.message.clone(),
            block_id: clone_option(&self.block_id),
        };
        copy
    }
}

impl Content for ValidationProblem {
    fn duplicate(&self) -> (copy: Self) {
        self.clone()
    }
}
/// Where an action moves the pointer.
#[derive(Debug, PartialEq, Eq)]
pub enum ActionTarget {
    TextMatch { source_block_id: String },
    ImageMatch { source_block_id: String },
    Point { point_id: String },
    Region { region_id: String },
}

/// What an action does.
#[derive(Debug, PartialEq, Eq)]
pub enum Action {
    ClickTextMatch { source_block_id: String, button: MouseButton },
    ClickImageMatch { source_block_id: String, button: MouseButton },
    ClickPoint { point_id: String, button: MouseButton },
    ClickRegion { region_id: String, button: MouseButton },
    MoveOnly { target: ActionTarget },
}

/// What happens when a finite wait runs out.
#[derive(Debug, PartialEq)]
pub enum TimeoutOutcome {
    RunBody { body: Vec<Block> },
    StopError { message: String },
    Continue,
}

/// How an observation waits for its detector.
#[derive(Debug, PartialEq)]
pub enum ObserveMode {
    CheckNow,
    WaitForTrue { timeout_ms: Limit<u64>, timeout_outcome: TimeoutOutcome },
    WaitForFalse { timeout_ms: Limit<u64>, timeout_outcome: TimeoutOutcome },
}

/// An observation that a block makes itself.
#[derive(Debug, PartialEq)]
pub enum Condition {
    Text { source_block_id: String, rule_id: String, mode: ObserveMode },
    Image { source_block_id: String, rule_id: String, mode: ObserveMode },
}

/// An observation that a watch group makes for one of its lanes.
#[derive(Debug, PartialEq, Eq)]
pub enum PassiveCondition {
    Text { source_block_id: String, rule_id: String },
    Image { source_block_id: String, rule_id: String },
}

/// One lane of a watch group; earlier lanes have priority.
#[derive(Debug, PartialEq)]
pub struct WatchLane {
    pub id: String,
    pub enabled: bool,
    pub condition: PassiveCondition,
    pub then_body: Vec<Block>,
}

/// Lanes that are watched together until one matches.
#[derive(Debug, PartialEq)]
pub struct WatchGroup {
    pub lanes: Vec<WatchLane>,
    pub timeout_ms: Limit<u64>,
    pub timeout_outcome: TimeoutOutcome,
    pub cooldown_ms: u64,
}

/// What a block is, with the bodies it owns.
#[derive(Debug, PartialEq)]
pub enum BlockKind {
    Observe { condition: Condition },
    Action { action: Action },
    If { condition: Condition, then_body: Vec<Block>, else_body: Vec<Block> },
    Wait { duration_ms: u64 },
    RepeatN { count: u32, body: Vec<Block> },
    RepeatUntil { condition: Condition, max_iterations: Limit<u64>, body: Vec<Block> },
    Continuous { body: Vec<Block> },
    WatchGroup { group: WatchGroup },
    StopSuccess,
    StopError { message: String },
    Comment { text: String },
}

/// One step of a macro.
#[derive(Debug, PartialEq)]
pub struct Block {
    pub id: String,
    pub enabled: bool,
    pub kind: BlockKind,
}

/// The contents of an [`ActionTarget`].
#[verifier::ext_equal]
pub ghost enum ActionTargetView {
    TextMatch { source: Seq<char> },
    ImageMatch { source: Seq<char> },
    Point { point_id: Seq<char> },
    Region { region_id: Seq<char> },
}

/// The contents of an [`Action`].
#[verifier::ext_equal]
pub ghost enum ActionView {
    ClickTextMatch { source: Seq<char>, button: MouseButton },
    ClickImageMatch { source: Seq<char>, button: MouseButton },
    ClickPoint { point_id: Seq<char>, button: MouseButton },
    ClickRegion { region_id: Seq<char>, button: MouseButton },
    MoveOnly { target: ActionTargetView },
}

/// A timeout outcome without the body that it may run.
#[verifier::ext_equal]
pub ghost enum OutcomeView {
    RunBody,
    StopError { message: Seq<char> },
    Continue,
}

/// An observe mode without the body that its timeout may run.
#[verifier::ext_equal]
pub ghost enum WaitView {
    CheckNow,
    WaitForTrue { timeout_ms: Limit<u64>, outcome: OutcomeView },
    WaitForFalse { timeout_ms: Limit<u64>, outcome: OutcomeView },
}

/// The two families of detectors.
#[derive(Debug, Clone, Copy, PartialEq, Eq, Structural)]
pub enum DetectorFamily {
    Text,
    Image,
}

/// A condition without the body that its timeout may run.
#[verifier::ext_equal]
pub ghost struct ConditionView {
    pub family: DetectorFamily,
    pub source: Seq<char>,
    pub rule: Seq<char>,
    pub wait: WaitView,
}

/// The contents of a [`PassiveCondition`].
#[verifier::ext_equal]
pub ghost struct PassiveView {
    pub family: DetectorFamily,
    pub source: Seq<char>,
    pub rule: Seq<char>,
}

/// What a block is, without the bodies it owns.
#[verifier::ext_equal]
pub ghost enum HeadView {
    Observe { condition: ConditionView },
    Action { action: ActionView },
    If { condition: ConditionView },
    Wait { duration_ms: u64 },
    RepeatN { count: u32 },
    RepeatUntil { condition: ConditionView, max_iterations: Limit<u64> },
    Continuous,
    WatchGroup { timeout_ms: Limit<u64>, outcome: OutcomeView, cooldown_ms: u64 },
    StopSuccess,
    StopError { message: Seq<char> },
    Comment { text: Seq<char> },
}

/// The part that a body plays for the block that owns it.
#[verifier::ext_equal]
pub ghost enum RoleView {
    Then,
    Else,
    Loop,
    Lane { id: Seq<char>, enabled: bool, condition: PassiveView },
    Timeout,
}

/// A body that a block owns.
#[verifier::ext_equal]
pub ghost struct BodyView {
    pub role: RoleView,
    pub blocks: Seq<BlockView>,
}

/// The contents of a [`Block`]: a node of an ordered tree. The bodies come in the order in which
/// every walk visits them: THEN before ELSE, lanes by priority, and a timeout body last.
#[verifier::ext_equal]
pub ghost struct BlockView {
    pub id: Seq<char>,
    pub enabled: bool,
    pub head: HeadView,
    pub bodies: Seq<BodyView>,
}

impl View for ActionTarget {
    type V = ActionTargetView;

    open spec fn view(&self) -> ActionTargetView {
        match *self {
            ActionTarget::TextMatch { source_block_id } => ActionTargetView::TextMatch {
                source: source_block_id@,
            },
            ActionTarget::ImageMatch { source_block_id } => ActionTargetView::ImageMatch {
                source: source_block_id@,
            },
            ActionTarget::Point { point_id } => ActionTargetView::Point { point_id: point_id@ },
            ActionTarget::Region { region_id } => ActionTargetView::Region {
                region_id: region_id@,
            },
        }
    }
}

impl View for Action {
    type V = ActionView;

    open spec fn view(&self) -> ActionView {
        match *self {
            Action::ClickTextMatch { source_block_id, button } => ActionView::ClickTextMatch {
                source: source_block_id@,
                button,
            },
            Action::ClickImageMatch { source_block_id, button } => ActionView::ClickImageMatch {
                source: source_block_id@,
                button,
            },
            Action::ClickPoint { point_id, button } => ActionView::ClickPoint {
                point_id: point_id@,
                button,
            },
            Action::ClickRegion { region_id, button } => ActionView::ClickRegion {
                region_id: region_id@,
                button,
            },
            Action::MoveOnly { target } => ActionView::MoveOnly { target: target@ },
        }
    }
}

impl View for PassiveCondition {
    type V = PassiveView;

    open spec fn view(&self) -> PassiveView {
        match *self {
            PassiveCondition::Text { source_block_id, rule_id } => PassiveView {
                family: DetectorFamily::Text,
                source: source_block_id@,
                rule: rule_id@,
            },
            PassiveCondition::Image { source_block_id, rule_id } => PassiveView {
                family: DetectorFamily::Image,
                source: source_block_id@,
                rule: rule_id@,
            },
        }
    }
}

pub open spec fn outcome_view(outcome: TimeoutOutcome) -> OutcomeView {
    match outcome {
        TimeoutOutcome::RunBody { .. } => OutcomeView::RunBody,
        TimeoutOutcome::StopError { message } => OutcomeView::StopError { message: message@ },
        TimeoutOutcome::Continue => OutcomeView::Continue,
    }
}

/// The body that an outcome runs, as zero or one timeout bodies.
pub open spec fn outcome_bodies(outcome: TimeoutOutcome) -> Seq<BodyView>
    decreases outcome,
{
    match outcome {
        TimeoutOutcome::RunBody { body } => seq![
            BodyView { role: RoleView::Timeout, blocks: blocks_view(body@) },
        ],
        _ => Seq::empty(),
    }
}

pub open spec fn wait_view(mode: ObserveMode) -> WaitView {
    match mode {
        ObserveMode::CheckNow => WaitView::CheckNow,
        ObserveMode::WaitForTrue { timeout_ms, timeout_outcome } => WaitView::WaitForTrue {
            timeout_ms,
            outcome: outcome_view(timeout_outcome),
        },
        ObserveMode::WaitForFalse { timeout_ms, timeout_outcome } => WaitView::WaitForFalse {
            timeout_ms,
            outcome: outcome_view(timeout_outcome),
        },
    }
}

pub open spec fn mode_bodies(mode: ObserveMode) -> Seq<BodyView>
    decreases mode,
{
    match mode {
        ObserveMode::CheckNow => Seq::empty(),
        ObserveMode::WaitForTrue { timeout_outcome, .. } => outcome_bodies(timeout_outcome),
        ObserveMode::WaitForFalse { timeout_outcome, .. } => outcome_bodies(timeout_outcome),
    }
}

pub open spec fn condition_view(condition: Condition) -> ConditionView {
    match condition {
        Condition::Text { source_block_id, rule_id, mode } => ConditionView {
            family: DetectorFamily::Text,
            source: source_block_id@,
            rule: rule_id@,
            wait: wait_view(mode),
        },
        Condition::Image { source_block_id, rule_id, mode } => ConditionView {
            family: DetectorFamily::Image,
            source: source_block_id@,
            rule: rule_id@,
            wait: wait_view(mode),
        },
    }
}

pub open spec fn condition_bodies(condition: Condition) -> Seq<BodyView>
    decreases condition,
{
    match condition {
        Condition::Text { mode, .. } => mode_bodies(mode),
        Condition::Image { mode, .. } => mode_bodies(mode),
    }
}

pub open spec fn lane_view(lane: WatchLane) -> BodyView
    decreases lane,
{
    BodyView {
        role: RoleView::Lane { id: lane.id@, enabled: lane.enabled, condition: lane.condition@ },
        blocks: blocks_view(lane.then_body@),
    }
}

pub open spec fn lanes_view(lanes: Seq<WatchLane>) -> Seq<BodyView>
    decreases lanes,
{
    Seq::new(
        lanes.len(),
        |i: int|
            if 0 <= i < lanes.len() {
                lane_view(lanes[i])
            } else {
                arbitrary()
            },
    )
}

pub open spec fn head_view(kind: BlockKind) -> HeadView {
    match kind {
        BlockKind::Observe { condition } => HeadView::Observe {
            condition: condition_view(condition),
        },
        BlockKind::Action { action } => HeadView::Action { action: action@ },
        BlockKind::If { condition, .. } => HeadView::If { condition: condition_view(condition) },
        BlockKind::Wait { duration_ms } => HeadView::Wait { duration_ms },
        BlockKind::RepeatN { count, .. } => HeadView::RepeatN { count },
        BlockKind::RepeatUntil { condition, max_iterations, .. } => HeadView::RepeatUntil {
            condition: condition_view(condition),
            max_iterations,
        },
        BlockKind::Continuous { .. } => HeadView::Continuous,
        BlockKind::WatchGroup { group } => HeadView::WatchGroup {
            timeout_ms: group.timeout_ms,
            outcome: outcome_view(group.timeout_outcome),
            cooldown_ms: group.cooldown_ms,
        },
        BlockKind::StopSuccess => HeadView::StopSuccess,
        BlockKind::StopError { message } => HeadView::StopError { message: message@ },
        BlockKind::Comment { text } => HeadView::Comment { text: text@ },
    }
}

pub open spec fn kind_bodies(kind: BlockKind) -> Seq<BodyView>
    decreases kind,
{
    match kind {
        BlockKind::Observe { condition } => condition_bodies(condition),
        BlockKind::If { condition, then_body, else_body } => seq![
            BodyView { role: RoleView::Then, blocks: blocks_view(then_body@) },
            BodyView { role: RoleView::Else, blocks: blocks_view(else_body@) },
        ] + condition_bodies(condition),
        BlockKind::RepeatN { body, .. } => seq![
            BodyView { role: RoleView::Loop, blocks: blocks_view(body@) },
        ],
        BlockKind::RepeatUntil { condition, body, .. } => seq![
            BodyView { role: RoleView::Loop, blocks: blocks_view(body@) },
        ] + condition_bodies(condition),
        BlockKind::Continuous { body } => seq![
            BodyView { role: RoleView::Loop, blocks: blocks_view(body@) },
        ],
        BlockKind::WatchGroup { group } => lanes_view(group.lanes@) + outcome_bodies(
            group.timeout_outcome,
        ),
        _ => Seq::empty(),
    }
}

pub open spec fn block_view(block: Block) -> BlockView
    decreases block,
{
    BlockView {
        id: block.id@,
        enabled: block.enabled,
        head: head_view(block.kind),
        bodies: kind_bodies(block.kind),
    }
}

/// The contents of a list of blocks.
pub open spec fn blocks_view(blocks: Seq<Block>) -> Seq<BlockView>
    decreases blocks,
{
    Seq::new(
        blocks.len(),
        |i: int|
            if 0 <= i < blocks.len() {
                block_view(blocks[i])
            } else {
                arbitrary()
            },
    )
}

impl View for Block {
    type V = BlockView;

    open spec fn view(&self) -> BlockView {
        block_view(*self)
    }
}

pub broadcast proof fn blocks_view_len(blocks: Seq<Block>)
    ensures
        #[trigger] blocks_view(blocks).len() == blocks.len(),
{
}

pub broadcast proof fn blocks_view_index(blocks: Seq<Block>, i: int)
    requires
        0 <= i < blocks.len(),
    ensures
        #[trigger] blocks_view(blocks)[i] == block_view(blocks[i]),
{
}

pub broadcast proof fn lanes_view_len(lanes: Seq<WatchLane>)
    ensures
        #[trigger] lanes_view(lanes).len() == lanes.len(),
{
}

pub broadcast proof fn lanes_view_index(lanes: Seq<WatchLane>, i: int)
    requires
        0 <= i < lanes.len(),
    ensures
        #[trigger] lanes_view(lanes)[i] == lane_view(lanes[i]),
{
}

pub broadcast group group_block_views {
    blocks_view_len,
    blocks_view_index,
    lanes_view_len,
    lanes_view_index,
}

/// A complete macro, as it is saved and run.
#[derive(Debug, PartialEq)]
pub struct MacroDefinition {
    pub schema_version: u32,
    pub id: String,
    pub name: String,
    pub revision: u64,
    pub target: TargetProfile,
    pub regions: Vec<RegionDefinition>,
    pub points: Vec<PointDefinition>,
    pub text_rules: Vec<TextRule>,
    pub image_rules: Vec<ImageRule>,
    pub blocks: Vec<Block>,
    pub safety: SafetyPolicy,
}

/// The contents of a [`MacroDefinition`].
#[verifier::ext_equal]
pub ghost struct MacroDefinitionView {
    pub schema_version: u32,
    pub id: Seq<char>,
    pub name: Seq<char>,
    pub revision: u64,
    pub target: TargetProfileView,
    pub regions: Seq<RegionDefinitionView>,
    pub points: Seq<PointDefinitionView>,
    pub text_rules: Seq<TextRuleView>,
    pub image_rules: Seq<ImageRuleView>,
    pub blocks: Seq<BlockView>,
    pub safety: SafetyPolicy,
}

impl View for MacroDefinition {
    type V = MacroDefinitionView;

    open spec fn view(&self) -> MacroDefinitionView {
        MacroDefinitionView {
            schema_version: self.schema_version,
            id: self.id@,
            name: self.name@,
            revision: self.revision,
            target: self.target@,
            regions: views(self.regions@),
            points: views(self.points@),
            text_rules: views(self.text_rules@),
            image_rules: views(self.image_rules@),
            blocks: blocks_view(self.blocks@),
            safety: self.safety,
        }
    }
}

} // verus!
