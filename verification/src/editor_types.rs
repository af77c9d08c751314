//! The vocabulary of the editor: what it is asked to do and how it answers.
use crate::container::{ContainerPath, ContainerView};
use crate::content::{views, Content};
use crate::macro_engine::{
    AssetRef, Block, Condition, ImageRule, ImageRuleVerificationArtifact, Limit, MouseButton,
    ObserveMode, RectRatio, TargetProfile, TextRule, ValidationProblem,
};
use vstd::prelude::*;

verus! {

/// Whether a draft was validated since its last change.
#[derive(Debug, Clone, Copy, PartialEq, Eq, Structural)]
pub enum DraftStatus {
    Ready,
    NeedsValidation,
}

/// Whether a draft may be edited.
#[derive(Debug, Clone, Copy, PartialEq, Eq, Structural)]
pub enum DraftEditability {
    Editable,
    Running { revision: u64 },
}

/// A block by the container it stands in and its identity.
#[derive(Debug, PartialEq, Eq, Hash)]
pub struct BlockPath {
    pub container: ContainerPath,
    pub block_id: String,
}

/// The contents of a [`BlockPath`].
#[verifier::ext_equal]
pub ghost struct BlockPathView {
    pub container: ContainerView,
    pub block_id: Seq<char>,
}

impl View for BlockPath {
    type V = BlockPathView;

    open spec fn view(&self) -> BlockPathView {
        BlockPathView { container: self.container@, block_id: self.block_id@ }
    }
}

impl Clone for BlockPath {
    fn clone(&self) -> (copy: Self)
        ensures
            copy == *self,
    {
        BlockPath { container: self.container.clone(), block_id: self.block_id.clone() }
    }
}

impl Content for BlockPath {
    fn duplicate(&self) -> (copy: Self) {
        self.clone()
    }
}

/// Where a block is put.
#[derive(Debug, PartialEq, Eq, Hash)]
pub struct InsertionTarget {
    pub container: ContainerPath,
    /// Index in the destination after removal for a move operation.
    pub index: usize,
}

/// The contents of an [`InsertionTarget`].
#[verifier::ext_equal]
pub ghost struct InsertionTargetView {
    pub container: ContainerView,
    pub index: int,
}

impl View for InsertionTarget {
    type V = InsertionTargetView;

    open spec fn view(&self) -> InsertionTargetView {
        InsertionTargetView { container: self.container@, index: self.index as int }
    }
}

impl Clone for InsertionTarget {
    fn clone(&self) -> (copy: Self)
        ensures
            copy == *self,
    {
        InsertionTarget { container: self.container.clone(), index: self.index }
    }
}

impl Content for InsertionTarget {
    fn duplicate(&self) -> (copy: Self) {
        self.clone()
    }
}

#[derive(Debug, Clone, Copy, PartialEq, Eq, Structural)]
pub enum IfBranch {
    Then,
    Else,
}

/// What happens to the body of a loop that is removed.
#[derive(Debug, Clone, Copy, PartialEq, Eq, Structural)]
pub enum LoopDeletionChoice {
    DeleteWithContents,
    KeepContents,
}

/// What happens to the bodies of a block that is replaced.
#[derive(Debug, Clone, Copy, PartialEq, Eq, Structural)]
pub enum ChildDisposition {
    DeleteOwnedContents,
    KeepOwnedContents,
}

/// Families of blocks within which settings carry over.
#[derive(Debug, Clone, Copy, PartialEq, Eq, Structural)]
pub enum BlockFamily {
    TextObservation,
    ImageObservation,
    TextMatchedClick,
    ImageMatchedClick,
    SavedLocationClick,
    Loop,
    Other,
}

/// What a conversion would keep, need and drop.
#[derive(Debug, Clone, PartialEq, Eq)]
pub enum ConversionPreview {
    Compatible {
        preserved_fields: Vec<&'static str>,
        required_fields: Vec<&'static str>,
        removed_fields: Vec<&'static str>,
    },
    ReplaceRequired { from: BlockFamily, to: BlockFamily, reason: &'static str },
}

/// The contents of a [`ConversionPreview`].
#[verifier::ext_equal]
pub ghost enum ConversionPreviewView {
    Compatible {
        preserved_fields: Seq<Seq<char>>,
        required_fields: Seq<Seq<char>>,
        removed_fields: Seq<Seq<char>>,
    },
    ReplaceRequired { from: BlockFamily, to: BlockFamily, reason: Seq<char> },
}

impl View for ConversionPreview {
    type V = ConversionPreviewView;

    open spec fn view(&self) -> ConversionPreviewView {
        match *self {
            ConversionPreview::Compatible { preserved_fields, required_fields, removed_fields } => {
                ConversionPreviewView::Compatible {
                    preserved_fields: views(preserved_fields@),
                    required_fields: views(required_fields@),
                    removed_fields: views(removed_fields@),
                }
            },
            ConversionPreview::ReplaceRequired { from, to, reason } => {
                ConversionPreviewView::ReplaceRequired { from, to, reason: reason@ }
            },
        }
    }
}

/// What a block is converted to.
#[derive(Debug, PartialEq)]
pub enum ConversionTarget {
    TextObservation { mode: ObserveMode },
    ImageObservation { mode: ObserveMode },
    ClickTextMatch { button: MouseButton },
    ClickImageMatch { button: MouseButton },
    ClickPoint { point_id: String, button: MouseButton },
    ClickRegion { region_id: String, button: MouseButton },
    RepeatN { count: u32 },
    RepeatUntil { condition: Condition, max_iterations: Limit<u64> },
}

/// One edit of a draft.
#[allow(inconsistent_fields)]
#[derive(Debug, PartialEq)]
pub enum EditorCommand {
    InsertBlock { target: InsertionTarget, block: Block },
    RemoveBlock { path: BlockPath, loop_choice: Option<LoopDeletionChoice> },
    DuplicateBlock { source: BlockPath, target: InsertionTarget },
    SetBlockEnabled { path: BlockPath, enabled: bool },
    SetLaneEnabled { group_id: String, lane_id: String, enabled: bool },
    ReorderSibling { path: BlockPath, to_index: usize },
    MoveBlock { source: BlockPath, target: InsertionTarget },
    TransferIfBranch { if_id: String, branch: IfBranch, block_id: String, to_index: usize },
    MoveLane { group_id: String, lane_id: String, to_index: usize },
    ConvertBlock { path: BlockPath, target: ConversionTarget },
    SetConditionMode { path: BlockPath, mode: ObserveMode },
    SetWaitDuration { path: BlockPath, duration_ms: u64 },
    SetRepeatCount { path: BlockPath, count: u32 },
    SetRepeatUntilMax { path: BlockPath, max_iterations: Limit<u64> },
    SetWatchSettings { path: BlockPath, timeout_ms: Limit<u64>, cooldown_ms: u64 },
    ReplaceBlock { path: BlockPath, replacement: Block, children: ChildDisposition },
    ReplaceTextRule { rule: TextRule },
    ReplaceImageRule { rule: ImageRule },
    RecaptureRegion { region_id: String, rect: RectRatio },
    ReplaceTarget { target: TargetProfile },
    ApplyTemplateRecapture { rule_id: String, template: AssetRef },
    ApplyImageVerification { rule_id: String, verification: ImageRuleVerificationArtifact },
    ClearImageVerification { rule_id: String },
    /// Accepts the draft as valid. It carries what the runtime's validation found in the draft's
    /// definition, and is refused unless that is nothing.
    MarkValidated { runtime_problems: Vec<ValidationProblem> },
    Undo,
    Redo,
}

/// What an accepted edit did.
#[derive(Debug, Clone, Copy, PartialEq, Eq, Structural)]
pub enum EditOutcome {
    Changed,
    NoChange,
    Validated,
}

/// Why an edit was refused.
#[derive(Debug, PartialEq, Eq)]
pub enum EditorError {
    RunInProgress,
    DuplicateIdentity(String),
    MissingContainer,
    MissingBlock(String),
    MissingLane(String),
    MissingRule(String),
    MissingRegion(String),
    InvalidIndex,
    IllegalDescendantMove,
    NestedWatchGroup,
    LoopDeletionChoiceRequired,
    InvalidLoopDeletionChoice,
    IncompatibleConversion,
    ReplacementIdMismatch,
    ValidationFailed,
    NothingToUndo,
    NothingToRedo,
}

/// The contents of an [`EditorError`].
#[verifier::ext_equal]
pub ghost enum EditorErrorView {
    RunInProgress,
    DuplicateIdentity(Seq<char>),
    MissingContainer,
    MissingBlock(Seq<char>),
    MissingLane(Seq<char>),
    MissingRule(Seq<char>),
    MissingRegion(Seq<char>),
    InvalidIndex,
    IllegalDescendantMove,
    NestedWatchGroup,
    LoopDeletionChoiceRequired,
    InvalidLoopDeletionChoice,
    IncompatibleConversion,
    ReplacementIdMismatch,
    ValidationFailed,
    NothingToUndo,
    NothingToRedo,
}

impl View for EditorError {
    type V = EditorErrorView;

    open spec fn view(&self) -> EditorErrorView {
        match *self {
            EditorError::RunInProgress => EditorErrorView::RunInProgress,
            EditorError::DuplicateIdentity(id) => EditorErrorView::DuplicateIdentity(id@),
            EditorError::MissingContainer => EditorErrorView::MissingContainer,
            EditorError::MissingBlock(id) => EditorErrorView::MissingBlock(id@),
            EditorError::MissingLane(id) => EditorErrorView::MissingLane(id@),
            EditorError::MissingRule(id) => EditorErrorView::MissingRule(id@),
            EditorError::MissingRegion(id) => EditorErrorView::MissingRegion(id@),
            EditorError::InvalidIndex => EditorErrorView::InvalidIndex,
            EditorError::IllegalDescendantMove => EditorErrorView::IllegalDescendantMove,
            EditorError::NestedWatchGroup => EditorErrorView::NestedWatchGroup,
            EditorError::LoopDeletionChoiceRequired => EditorErrorView::LoopDeletionChoiceRequired,
            EditorError::InvalidLoopDeletionChoice => EditorErrorView::InvalidLoopDeletionChoice,
            EditorError::IncompatibleConversion => EditorErrorView::IncompatibleConversion,
            EditorError::ReplacementIdMismatch => EditorErrorView::ReplacementIdMismatch,
            EditorError::ValidationFailed => EditorErrorView::ValidationFailed,
            EditorError::NothingToUndo => EditorErrorView::NothingToUndo,
            EditorError::NothingToRedo => EditorErrorView::NothingToRedo,
        }
    }
}

impl Clone for EditorError {
    fn clone(&self) -> (copy: Self)
        ensures
            copy == *self,
    {
        match self {
            EditorError::RunInProgress => EditorError::RunInProgress,
            EditorError::DuplicateIdentity(id) => EditorError::DuplicateIdentity(id.clone()),
            EditorError::MissingContainer => EditorError::MissingContainer,
            EditorError::MissingBlock(id) => EditorError::MissingBlock(id.clone()),
            EditorError::MissingLane(id) => EditorError::MissingLane(id.clone()),
            EditorError::MissingRule(id) => EditorError::MissingRule(id.clone()),
            EditorError::MissingRegion(id) => EditorError::MissingRegion(id.clone()),
            EditorError::InvalidIndex => EditorError::InvalidIndex,
            EditorError::IllegalDescendantMove => EditorError::IllegalDescendantMove,
            EditorError::NestedWatchGroup => EditorError::NestedWatchGroup,
            EditorError::LoopDeletionChoiceRequired => EditorError::LoopDeletionChoiceRequired,
            EditorError::InvalidLoopDeletionChoice => EditorError::InvalidLoopDeletionChoice,
            EditorError::IncompatibleConversion => EditorError::IncompatibleConversion,
            EditorError::ReplacementIdMismatch => EditorError::ReplacementIdMismatch,
            EditorError::ValidationFailed => EditorError::ValidationFailed,
            EditorError::NothingToUndo => EditorError::NothingToUndo,
            EditorError::NothingToRedo => EditorError::NothingToRedo,
        }
    }
}

} // verus!
