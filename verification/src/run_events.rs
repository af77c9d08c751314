//! What a run reports while it goes on, and what is kept of it.
use crate::content::{option_view, Content, Exact};
use crate::double::{doubles_equal, equal_doubles};
use crate::macro_engine::{
    equal_rects, rects_equal, Action, ActionView, AssetRef, F64Bits, MacroDefinition, RectRatio,
};
use crate::text::{append_decimal, decimal};
use vstd::prelude::*;
use vstd::string::StringExecFns;

verus! {

/// A JSON value of serde_json, whose inside is not looked at but through the functions below.
#[verifier::external_type_specification]
#[verifier::external_body]
pub struct ExJsonValue(serde_json::Value);

/// The entries of a JSON value that is an object; any other value has none.
pub uninterp spec fn json_entries(value: serde_json::Value) -> Map<Seq<char>, serde_json::Value>;

/// The number that a JSON value is, where it is an integer from 0 to 2^64 - 1.
pub uninterp spec fn json_unsigned(value: serde_json::Value) -> Option<u64>;

/// The bits of the double that a JSON value is, where it is a number.
pub uninterp spec fn json_double(value: serde_json::Value) -> Option<u64>;

/// Whether two JSON values are equal.
pub uninterp spec fn json_equal(left: serde_json::Value, right: serde_json::Value) -> bool;

/// Looks up an entry with `serde_json::Value::get`: it gives the value of the key where the value
/// is an object that has the key, and nothing otherwise.
#[verifier::external_body]
pub(crate) fn json_get<'a>(value: &'a serde_json::Value, key: &str) -> (entry: Option<
    &'a serde_json::Value,
>)
    ensures
        match entry {
            Some(found) => json_entries(*value).dom().contains(key@) && json_entries(*value)[key@]
                == *found,
            None => !json_entries(*value).dom().contains(key@),
        },
{
    value.get(key)
}

/// Reads a number with `serde_json::Value::as_u64`, which gives the number where the value is an
/// integer from 0 to 2^64 - 1, and nothing otherwise.
#[verifier::external_body]
pub(crate) fn json_as_unsigned(value: &serde_json::Value) -> (number: Option<u64>)
    ensures
        number == json_unsigned(*value),
{
    value.as_u64()
}

/// Reads a number with `serde_json::Value::as_f64`, which gives a double where the value is a
/// number, and nothing otherwise; the double is kept as its bits.
#[verifier::external_body]
pub(crate) fn json_as_double(value: &serde_json::Value) -> (bits: Option<u64>)
    ensures
        bits == json_double(*value),
{
    value.as_f64().map(|number| number.to_bits())
}

/// Compares two values with the `==` of `serde_json::Value`.
#[verifier::external_body]
pub(crate) fn json_same(left: &serde_json::Value, right: &serde_json::Value) -> (equal: bool)
    ensures
        equal == json_equal(*left, *right),
{
    left == right
}

/// Copies a value with the `clone` of `serde_json::Value`.
#[verifier::external_body]
pub(crate) fn json_copy(value: &serde_json::Value) -> (copy: serde_json::Value)
    ensures
        copy == *value,
{
    value.clone()
}

#[derive(Debug, Clone, Copy, PartialEq, Eq, Structural)]
pub enum RunMode {
    DryRun,
    ObservationOnly,
    Live,
}

#[derive(Debug, Clone, Copy, PartialEq, Eq, Structural)]
pub enum RunStatus {
    Idle,
    Validating,
    Running,
    Paused,
    Stopping,
    Stopped,
}

#[derive(Debug, Clone, Copy, PartialEq, Eq, Structural)]
pub enum ActionState {
    Planned,
    Prepared,
    Blocked,
}

/// Why a run stopped.
#[derive(Debug, PartialEq, Eq)]
pub enum StopReason {
    Completed,
    StopSuccess,
    StopError { message: String },
    UserStopped,
    EmergencyStopped,
    TechnicalFailure { message: String },
    SafetyLimit { message: String },
    UnsupportedBlock { block_id: String },
}

/// The contents of a [`StopReason`].
#[verifier::ext_equal]
pub ghost enum StopReasonView {
    Completed,
    StopSuccess,
    StopError { message: Seq<char> },
    UserStopped,
    EmergencyStopped,
    TechnicalFailure { message: Seq<char> },
    SafetyLimit { message: Seq<char> },
    UnsupportedBlock { block_id: Seq<char> },
}

impl View for StopReason {
    type V = StopReasonView;

    open spec fn view(&self) -> StopReasonView {
        match *self {
            StopReason::Completed => StopReasonView::Completed,
            StopReason::StopSuccess => StopReasonView::StopSuccess,
            StopReason::StopError { message } => StopReasonView::StopError { message: message@ },
            StopReason::UserStopped => StopReasonView::UserStopped,
            StopReason::EmergencyStopped => StopReasonView::EmergencyStopped,
            StopReason::TechnicalFailure { message } => StopReasonView::TechnicalFailure {
                message: message@,
            },
            StopReason::SafetyLimit { message } => StopReasonView::SafetyLimit {
                message: message@,
            },
            StopReason::UnsupportedBlock { block_id } => StopReasonView::UnsupportedBlock {
                block_id: block_id@,
            },
        }
    }
}

impl Clone for StopReason {
    fn clone(&self) -> (copy: Self)
        ensures
            copy == *self,
    {
        match self {
            StopReason::Completed => StopReason::Completed,
            StopReason::StopSuccess => StopReason::StopSuccess,
            StopReason::StopError { message } => StopReason::StopError {
                message: message.clone(),
            },
            StopReason::UserStopped => StopReason::UserStopped,
            StopReason::EmergencyStopped => StopReason::EmergencyStopped,
            StopReason::TechnicalFailure { message } => StopReason::TechnicalFailure {
                message: message.clone(),
            },
            StopReason::SafetyLimit { message } => StopReason::SafetyLimit {
                message: message.clone(),
            },
            StopReason::UnsupportedBlock { block_id } => StopReason::UnsupportedBlock {
                block_id: block_id.clone(),
            },
        }
    }
}

impl Exact for StopReason {
    fn same(&self, other: &Self) -> (equal: bool) {
        match (self, other) {
            (StopReason::Completed, StopReason::Completed) => true,
            (StopReason::StopSuccess, StopReason::StopSuccess) => true,
            (StopReason::StopError { message: a }, StopReason::StopError { message: b }) => *a
                == *b,
            (StopReason::UserStopped, StopReason::UserStopped) => true,
            (StopReason::EmergencyStopped, StopReason::EmergencyStopped) => true,
            (
                StopReason::TechnicalFailure { message: a },
                StopReason::TechnicalFailure { message: b },
            ) => *a == *b,
            (StopReason::SafetyLimit { message: a }, StopReason::SafetyLimit { message: b }) => *a
                == *b,
            (
                StopReason::UnsupportedBlock { block_id: a },
                StopReason::UnsupportedBlock { block_id: b },
            ) => *a == *b,
            _ => false,
        }
    }
}

impl Content for StopReason {
    fn duplicate(&self) -> (copy: Self) {
        self.clone()
    }
}

/// Names one attempt of a run at an action.
#[derive(Debug, PartialEq, Eq)]
pub struct ActionAttemptId {
    pub run_id: String,
    pub ordinal: u64,
}

/// The contents of an [`ActionAttemptId`].
#[verifier::ext_equal]
pub ghost struct AttemptView {
    pub run_id: Seq<char>,
    pub ordinal: u64,
}

impl View for ActionAttemptId {
    type V = AttemptView;

    open spec fn view(&self) -> AttemptView {
        AttemptView { run_id: self.run_id@, ordinal: self.ordinal }
    }
}

impl Clone for ActionAttemptId {
    fn clone(&self) -> (copy: Self)
        ensures
            copy == *self,
    {
        ActionAttemptId { run_id: self.run_id.clone(), ordinal: self.ordinal }
    }
}

impl Exact for ActionAttemptId {
    fn same(&self, other: &Self) -> (equal: bool) {
        self.run_id == other.run_id && self.ordinal == other.ordinal
    }
}

impl Content for ActionAttemptId {
    fn duplicate(&self) -> (copy: Self) {
        self.clone()
    }
}

/// How an attempt is shown.
pub open spec fn attempt_text(attempt: AttemptView) -> Seq<char> {
    "ActionAttemptId("@ + attempt.run_id + "#"@ + decimal(attempt.ordinal as nat) + ")"@
}

impl ActionAttemptId {
    pub fn label(&self) -> (text: String)
        ensures
            text@ == attempt_text(self@),
    {
        let mut text = "ActionAttemptId(".to_owned();
        text.append(self.run_id.as_str());
        text.append("#");
        append_decimal(&mut text, self.ordinal);
        text.append(")");
        text
    }
}

/// What a detector saw.
#[derive(Debug, PartialEq)]
pub struct DetectorEvidence {
    pub matched: bool,
    pub frame: u64,
    pub elapsed_ms: u64,
    pub bounds: Option<RectRatio>,
    pub score: Option<F64Bits>,
    pub match_count: u32,
    pub stable_frames: u8,
    pub details: serde_json::Value,
}

/// Two reports of a detector are equal.
pub open spec fn equal_evidence(a: DetectorEvidence, b: DetectorEvidence) -> bool {
    &&& a.matched == b.matched
    &&& a.frame == b.frame
    &&& a.elapsed_ms == b.elapsed_ms
    &&& match (a.bounds, b.bounds) {
        (Some(x), Some(y)) => equal_rects(x, y),
        (None, None) => true,
        _ => false,
    }
    &&& match (a.score, b.score) {
        (Some(x), Some(y)) => equal_doubles(x, y),
        (None, None) => true,
        _ => false,
    }
    &&& a.match_count == b.match_count
    &&& a.stable_frames == b.stable_frames
    &&& json_equal(a.details, b.details)
}

fn evidence_equal(a: &DetectorEvidence, b: &DetectorEvidence) -> (equal: bool)
    ensures
        equal == equal_evidence(*a, *b),
{
    let bounds = match (&a.bounds, &b.bounds) {
        (Some(x), Some(y)) => rects_equal(*x, *y),
        (None, None) => true,
        _ => false,
    };
    let score = match (&a.score, &b.score) {
        (Some(x), Some(y)) => doubles_equal(*x, *y),
        (None, None) => true,
        _ => false,
    };
    a.matched == b.matched && a.frame == b.frame && a.elapsed_ms == b.elapsed_ms && bounds && score
        && a.match_count == b.match_count && a.stable_frames == b.stable_frames && json_same(
        &a.details,
        &b.details,
    )
}

impl Clone for DetectorEvidence {
    fn clone(&self) -> (copy: Self)
        ensures
            copy == *self,
    {
        DetectorEvidence {
            matched: self.matched,
            frame: self.frame,
            elapsed_ms: self.elapsed_ms,
            bounds: self.bounds,
            score: self.score,
            match_count: self.match_count,
            stable_frames: self.stable_frames,
            details: json_copy(&self.details),
        }
    }
}

impl DetectorEvidence {
    pub fn new(
        matched: bool,
        frame: u64,
        elapsed_ms: u64,
        bounds: Option<RectRatio>,
        score: Option<F64Bits>,
        match_count: u32,
        stable_frames: u8,
        details: serde_json::Value,
    ) -> (evidence: Self)
        ensures
            evidence == (DetectorEvidence {
                matched,
                frame,
                elapsed_ms,
                bounds,
                score,
                match_count,
                stable_frames,
                details,
            }),
    {
        DetectorEvidence {
            matched,
            frame,
            elapsed_ms,
            bounds,
            score,
            match_count,
            stable_frames,
            details,
        }
    }
}

/// One report of a run.
#[derive(Debug, PartialEq)]
pub enum RunEvent {
    RunStarted {
        sequence: u64,
        elapsed_ms: u64,
        run_id: String,
        macro_id: String,
        revision: u64,
        definition_hash: String,
        mode: RunMode,
    },
    StatusChanged { sequence: u64, elapsed_ms: u64, run_id: String, status: RunStatus },
    BlockEntered { sequence: u64, elapsed_ms: u64, run_id: String, block_id: String },
    ActionPlanned {
        sequence: u64,
        elapsed_ms: u64,
        run_id: String,
        block_id: String,
        action: Action,
        state: ActionState,
    },
    ActionBlocked {
        sequence: u64,
        elapsed_ms: u64,
        run_id: String,
        block_id: String,
        action: Action,
        attempt_id: Option<ActionAttemptId>,
        state: ActionState,
    },
    ActionStateChanged {
        sequence: u64,
        elapsed_ms: u64,
        run_id: String,
        block_id: String,
        action: Action,
        attempt_id: ActionAttemptId,
        state: ActionState,
    },
    ObservationCompleted {
        sequence: u64,
        elapsed_ms: u64,
        run_id: String,
        block_id: String,
        evidence: DetectorEvidence,
        token: Option<String>,
    },
    ConditionEvaluated {
        sequence: u64,
        elapsed_ms: u64,
        run_id: String,
        block_id: String,
        matched: bool,
    },
    ObservationProgress { sequence: u64, elapsed_ms: u64, run_id: String, block_id: String },
    LoopYielded {
        sequence: u64,
        elapsed_ms: u64,
        run_id: String,
        block_id: String,
        completed_iterations: u64,
    },
    ArbitrationCompleted { sequence: u64, elapsed_ms: u64, run_id: String, block_id: String },
    PollingDelayed { sequence: u64, elapsed_ms: u64, run_id: String, delay_ms: u64 },
    Error { sequence: u64, elapsed_ms: u64, run_id: String, message: String },
    RunStopped {
        sequence: u64,
        elapsed_ms: u64,
        run_id: String,
        status: RunStatus,
        reason: StopReason,
    },
}

/// What a report says, beside when and in which run it came.
#[verifier::ext_equal]
pub ghost enum FactView {
    RunStarted {
        macro_id: Seq<char>,
        revision: u64,
        definition_hash: Seq<char>,
        mode: RunMode,
    },
    StatusChanged { status: RunStatus },
    BlockEntered { block_id: Seq<char> },
    ActionPlanned { block_id: Seq<char>, action: ActionView, state: ActionState },
    ActionBlocked {
        block_id: Seq<char>,
        action: ActionView,
        attempt: Option<AttemptView>,
        state: ActionState,
    },
    ActionStateChanged {
        block_id: Seq<char>,
        action: ActionView,
        attempt: AttemptView,
        state: ActionState,
    },
    ObservationCompleted {
        block_id: Seq<char>,
        evidence: DetectorEvidence,
        token: Option<Seq<char>>,
    },
    ConditionEvaluated { block_id: Seq<char>, matched: bool },
    ObservationProgress { block_id: Seq<char> },
    LoopYielded { block_id: Seq<char>, completed_iterations: u64 },
    ArbitrationCompleted { block_id: Seq<char> },
    PollingDelayed { delay_ms: u64 },
    Error { message: Seq<char> },
    RunStopped { status: RunStatus, reason: StopReasonView },
}

/// The contents of a [`RunEvent`].
#[verifier::ext_equal]
pub ghost struct EventView {
    pub sequence: u64,
    pub elapsed_ms: u64,
    pub run_id: Seq<char>,
    pub fact: FactView,
}

impl View for RunEvent {
    type V = EventView;

    open spec fn view(&self) -> EventView {
        match *self {
            RunEvent::RunStarted {
                sequence,
                elapsed_ms,
                run_id,
                macro_id,
                revision,
                definition_hash,
                mode,
            } => EventView {
                sequence,
                elapsed_ms,
                run_id: run_id@,
                fact: FactView::RunStarted {
                    macro_id: macro_id@,
                    revision,
                    definition_hash: definition_hash@,
                    mode,
                },
            },
            RunEvent::StatusChanged { sequence, elapsed_ms, run_id, status } => EventView {
                sequence,
                elapsed_ms,
                run_id: run_id@,
                fact: FactView::StatusChanged { status },
            },
            RunEvent::BlockEntered { sequence, elapsed_ms, run_id, block_id } => EventView {
                sequence,
                elapsed_ms,
                run_id: run_id@,
                fact: FactView::BlockEntered { block_id: block_id@ },
            },
            RunEvent::ActionPlanned { sequence, elapsed_ms, run_id, block_id, action, state } => {
                EventView {
                    sequence,
                    elapsed_ms,
                    run_id: run_id@,
                    fact: FactView::ActionPlanned { block_id: block_id@, action: action@, state },
                }
            },
            RunEvent::ActionBlocked {
                sequence,
                elapsed_ms,
                run_id,
                block_id,
                action,
                attempt_id,
                state,
            } => EventView {
                sequence,
                elapsed_ms,
                run_id: run_id@,
                fact: FactView::ActionBlocked {
                    block_id: block_id@,
                    action: action@,
                    attempt: option_view(attempt_id),
                    state,
                },
            },
            RunEvent::ActionStateChanged {
                sequence,
                elapsed_ms,
                run_id,
                block_id,
                action,
                attempt_id,
                state,
            } => EventView {
                sequence,
                elapsed_ms,
                run_id: run_id@,
                fact: FactView::ActionStateChanged {
                    block_id: block_id@,
                    action: action@,
                    attempt: attempt_id@,
                    state,
                },
            },
            RunEvent::ObservationCompleted {
                sequence,
                elapsed_ms,
                run_id,
                block_id,
                evidence,
                token,
            } => EventView {
                sequence,
                elapsed_ms,
                run_id: run_id@,
                fact: FactView::ObservationCompleted {
                    block_id: block_id@,
                    evidence,
                    token: option_view(token),
                },
            },
            RunEvent::ConditionEvaluated { sequence, elapsed_ms, run_id, block_id, matched } => {
                EventView {
                    sequence,
                    elapsed_ms,
                    run_id: run_id@,
                    fact: FactView::ConditionEvaluated { block_id: block_id@, matched },
                }
            },
            RunEvent::ObservationProgress { sequence, elapsed_ms, run_id, block_id } => EventView {
                sequence,
                elapsed_ms,
                run_id: run_id@,
                fact: FactView::ObservationProgress { block_id: block_id@ },
            },
            RunEvent::LoopYielded {
                sequence,
                elapsed_ms,
                run_id,
                block_id,
                completed_iterations,
            } => EventView {
                sequence,
                elapsed_ms,
                run_id: run_id@,
                fact: FactView::LoopYielded { block_id: block_id@, completed_iterations },
            },
            RunEvent::ArbitrationCompleted { sequence, elapsed_ms, run_id, block_id } => EventView {
                sequence,
                elapsed_ms,
                run_id: run_id@,
                fact: FactView::ArbitrationCompleted { block_id: block_id@ },
            },
            RunEvent::PollingDelayed { sequence, elapsed_ms, run_id, delay_ms } => EventView {
                sequence,
                elapsed_ms,
                run_id: run_id@,
                fact: FactView::PollingDelayed { delay_ms },
            },
            RunEvent::Error { sequence, elapsed_ms, run_id, message } => EventView {
                sequence,
                elapsed_ms,
                run_id: run_id@,
                fact: FactView::Error { message: message@ },
            },
            RunEvent::RunStopped { sequence, elapsed_ms, run_id, status, reason } => EventView {
                sequence,
                elapsed_ms,
                run_id: run_id@,
                fact: FactView::RunStopped { status, reason: reason@ },
            },
        }
    }
}

impl RunEvent {
    pub fn sequence(&self) -> (value: u64)
        ensures
            value == self@.sequence,
    {
        match self {
            RunEvent::RunStarted { sequence, .. } => *sequence,
            RunEvent::StatusChanged { sequence, .. } => *sequence,
            RunEvent::BlockEntered { sequence, .. } => *sequence,
            RunEvent::ActionPlanned { sequence, .. } => *sequence,
            RunEvent::ActionBlocked { sequence, .. } => *sequence,
            RunEvent::ActionStateChanged { sequence, .. } => *sequence,
            RunEvent::ObservationCompleted { sequence, .. } => *sequence,
            RunEvent::ConditionEvaluated { sequence, .. } => *sequence,
            RunEvent::ObservationProgress { sequence, .. } => *sequence,
            RunEvent::LoopYielded { sequence, .. } => *sequence,
            RunEvent::ArbitrationCompleted { sequence, .. } => *sequence,
            RunEvent::PollingDelayed { sequence, .. } => *sequence,
            RunEvent::Error { sequence, .. } => *sequence,
            RunEvent::RunStopped { sequence, .. } => *sequence,
        }
    }

    pub fn elapsed_ms(&self) -> (value: u64)
        ensures
            value == self@.elapsed_ms,
    {
        match self {
            RunEvent::RunStarted { elapsed_ms, .. } => *elapsed_ms,
            RunEvent::StatusChanged { elapsed_ms, .. } => *elapsed_ms,
            RunEvent::BlockEntered { elapsed_ms, .. } => *elapsed_ms,
            RunEvent::ActionPlanned { elapsed_ms, .. } => *elapsed_ms,
            RunEvent::ActionBlocked { elapsed_ms, .. } => *elapsed_ms,
            RunEvent::ActionStateChanged { elapsed_ms, .. } => *elapsed_ms,
            RunEvent::ObservationCompleted { elapsed_ms, .. } => *elapsed_ms,
            RunEvent::ConditionEvaluated { elapsed_ms, .. } => *elapsed_ms,
            RunEvent::ObservationProgress { elapsed_ms, .. } => *elapsed_ms,
            RunEvent::LoopYielded { elapsed_ms, .. } => *elapsed_ms,
            RunEvent::ArbitrationCompleted { elapsed_ms, .. } => *elapsed_ms,
            RunEvent::PollingDelayed { elapsed_ms, .. } => *elapsed_ms,
            RunEvent::Error { elapsed_ms, .. } => *elapsed_ms,
            RunEvent::RunStopped { elapsed_ms, .. } => *elapsed_ms,
        }
    }

    pub fn run_id(&self) -> (id: &String)
        ensures
            id@ == self@.run_id,
    {
        match self {
            RunEvent::RunStarted { run_id, .. } => run_id,
            RunEvent::StatusChanged { run_id, .. } => run_id,
            RunEvent::BlockEntered { run_id, .. } => run_id,
            RunEvent::ActionPlanned { run_id, .. } => run_id,
            RunEvent::ActionBlocked { run_id, .. } => run_id,
            RunEvent::ActionStateChanged { run_id, .. } => run_id,
            RunEvent::ObservationCompleted { run_id, .. } => run_id,
            RunEvent::ConditionEvaluated { run_id, .. } => run_id,
            RunEvent::ObservationProgress { run_id, .. } => run_id,
            RunEvent::LoopYielded { run_id, .. } => run_id,
            RunEvent::ArbitrationCompleted { run_id, .. } => run_id,
            RunEvent::PollingDelayed { run_id, .. } => run_id,
            RunEvent::Error { run_id, .. } => run_id,
            RunEvent::RunStopped { run_id, .. } => run_id,
        }
    }
}

fn copy_attempt(attempt: &Option<ActionAttemptId>) -> (copy: Option<ActionAttemptId>)
    ensures
        copy == *attempt,
{
    match attempt {
        Some(attempt) => Some(attempt.clone()),
        None => None,
    }
}

fn copy_text(text: &Option<String>) -> (copy: Option<String>)
    ensures
        copy == *text,
{
    match text {
        Some(text) => Some(text.clone()),
        None => None,
    }
}

impl Clone for RunEvent {
    fn clone(&self) -> (copy: Self)
        ensures
            copy@ == self@,
    {
        match self {
            RunEvent::RunStarted {
                sequence,
                elapsed_ms,
                run_id,
                macro_id,
                revision,
                definition_hash,
                mode,
            } => RunEvent::RunStarted {
                sequence: *sequence,
                elapsed_ms: *elapsed_ms,
                run_id: run_id.clone(),
                macro_id: macro_id.clone(),
                revision: *revision,
                definition_hash: definition_hash.clone(),
                mode: *mode,
            },
            RunEvent::StatusChanged { sequence, elapsed_ms, run_id, status } => {
                RunEvent::StatusChanged {
                    sequence: *sequence,
                    elapsed_ms: *elapsed_ms,
                    run_id: run_id.clone(),
                    status: *status,
                }
            },
            RunEvent::BlockEntered { sequence, elapsed_ms, run_id, block_id } => {
                RunEvent::BlockEntered {
                    sequence: *sequence,
                    elapsed_ms: *elapsed_ms,
                    run_id: run_id.clone(),
                    block_id: block_id.clone(),
                }
            },
            RunEvent::ActionPlanned { sequence, elapsed_ms, run_id, block_id, action, state } => {
                RunEvent::ActionPlanned {
                    sequence: *sequence,
                    elapsed_ms: *elapsed_ms,
                    run_id: run_id.clone(),
                    block_id: block_id.clone(),
                    action: action.duplicate(),
                    state: *state,
                }
            },
            RunEvent::ActionBlocked {
                sequence,
                elapsed_ms,
                run_id,
                block_id,
                action,
                attempt_id,
                state,
            } => RunEvent::ActionBlocked {
                sequence: *sequence,
                elapsed_ms: *elapsed_ms,
                run_id: run_id.clone(),
                block_id: block_id.clone(),
                action: action.duplicate(),
                attempt_id: copy_attempt(attempt_id),
                state: *state,
            },
            RunEvent::ActionStateChanged {
                sequence,
                elapsed_ms,
                run_id,
                block_id,
                action,
                attempt_id,
                state,
            } => RunEvent::ActionStateChanged {
                sequence: *sequence,
                elapsed_ms: *elapsed_ms,
                run_id: run_id.clone(),
                block_id: block_id.clone(),
                action: action.duplicate(),
                attempt_id: attempt_id.clone(),
                state: *state,
            },
            RunEvent::ObservationCompleted {
                sequence,
                elapsed_ms,
                run_id,
                block_id,
                evidence,
                token,
            } => RunEvent::ObservationCompleted {
                sequence: *sequence,
                elapsed_ms: *elapsed_ms,
                run_id: run_id.clone(),
                block_id: block_id.clone(),
                evidence: evidence.clone(),
                token: copy_text(token),
            },
            RunEvent::ConditionEvaluated { sequence, elapsed_ms, run_id, block_id, matched } => {
                RunEvent::ConditionEvaluated {
                    sequence: *sequence,
                    elapsed_ms: *elapsed_ms,
                    run_id: run_id.clone(),
                    block_id: block_id.clone(),
                    matched: *matched,
                }
            },
            RunEvent::ObservationProgress { sequence, elapsed_ms, run_id, block_id } => {
                RunEvent::ObservationProgress {
                    sequence: *sequence,
                    elapsed_ms: *elapsed_ms,
                    run_id: run_id.clone(),
                    block_id: block_id.clone(),
                }
            },
            RunEvent::LoopYielded {
                sequence,
                elapsed_ms,
                run_id,
                block_id,
                completed_iterations,
            } => RunEvent::LoopYielded {
                sequence: *sequence,
                elapsed_ms: *elapsed_ms,
                run_id: run_id.clone(),
                block_id: block_id.clone(),
                completed_iterations: *completed_iterations,
            },
            RunEvent::ArbitrationCompleted { sequence, elapsed_ms, run_id, block_id } => {
                RunEvent::ArbitrationCompleted {
                    sequence: *sequence,
                    elapsed_ms: *elapsed_ms,
                    run_id: run_id.clone(),
                    block_id: block_id.clone(),
                }
            },
            RunEvent::PollingDelayed { sequence, elapsed_ms, run_id, delay_ms } => {
                RunEvent::PollingDelayed {
                    sequence: *sequence,
                    elapsed_ms: *elapsed_ms,
                    run_id: run_id.clone(),
                    delay_ms: *delay_ms,
                }
            },
            RunEvent::Error { sequence, elapsed_ms, run_id, message } => RunEvent::Error {
                sequence: *sequence,
                elapsed_ms: *elapsed_ms,
                run_id: run_id.clone(),
                message: message.clone(),
            },
            RunEvent::RunStopped { sequence, elapsed_ms, run_id, status, reason } => {
                RunEvent::RunStopped {
                    sequence: *sequence,
                    elapsed_ms: *elapsed_ms,
                    run_id: run_id.clone(),
                    status: *status,
                    reason: reason.clone(),
                }
            },
        }
    }
}

/// Two reports are equal.
pub open spec fn alike(a: EventView, b: EventView) -> bool {
    &&& a.sequence == b.sequence
    &&& a.elapsed_ms == b.elapsed_ms
    &&& a.run_id == b.run_id
    &&& match (a.fact, b.fact) {
        (
            FactView::ObservationCompleted { block_id: p, evidence: x, token: s },
            FactView::ObservationCompleted { block_id: q, evidence: y, token: t },
        ) => p == q && equal_evidence(x, y) && s == t,
        _ => a.fact == b.fact,
    }
}

/// Whether two reports are equal.
pub fn same_event(a: &RunEvent, b: &RunEvent) -> (equal: bool)
    ensures
        equal == alike(a@, b@),
{
    if a.sequence() != b.sequence() || a.elapsed_ms() != b.elapsed_ms() || *a.run_id()
        != *b.run_id() {
        return false;
    }
    match (a, b) {
        (
            RunEvent::RunStarted { macro_id: m, revision: r, definition_hash: h, mode: d, .. },
            RunEvent::RunStarted { macro_id: n, revision: s, definition_hash: i, mode: e, .. },
        ) => *m == *n && *r == *s && *h == *i && *d == *e,
        (
            RunEvent::StatusChanged { status: s, .. },
            RunEvent::StatusChanged { status: t, .. },
        ) => *s == *t,
        (
            RunEvent::BlockEntered { block_id: p, .. },
            RunEvent::BlockEntered { block_id: q, .. },
        ) => *p == *q,
        (
            RunEvent::ActionPlanned { block_id: p, action: x, state: s, .. },
            RunEvent::ActionPlanned { block_id: q, action: y, state: t, .. },
        ) => *p == *q && x.same(y) && *s == *t,
        (
            RunEvent::ActionBlocked { block_id: p, action: x, attempt_id: i, state: s, .. },
            RunEvent::ActionBlocked { block_id: q, action: y, attempt_id: j, state: t, .. },
        ) => *p == *q && x.same(y) && crate::content::same_option(i, j) && *s == *t,
        (
            RunEvent::ActionStateChanged { block_id: p, action: x, attempt_id: i, state: s, .. },
            RunEvent::ActionStateChanged { block_id: q, action: y, attempt_id: j, state: t, .. },
        ) => *p == *q && x.same(y) && i.same(j) && *s == *t,
        (
            RunEvent::ObservationCompleted { block_id: p, evidence: x, token: s, .. },
            RunEvent::ObservationCompleted { block_id: q, evidence: y, token: t, .. },
        ) => *p == *q && evidence_equal(x, y) && crate::content::same_option(s, t),
        (
            RunEvent::ConditionEvaluated { block_id: p, matched: x, .. },
            RunEvent::ConditionEvaluated { block_id: q, matched: y, .. },
        ) => *p == *q && *x == *y,
        (
            RunEvent::ObservationProgress { block_id: p, .. },
            RunEvent::ObservationProgress { block_id: q, .. },
        ) => *p == *q,
        (
            RunEvent::LoopYielded { block_id: p, completed_iterations: x, .. },
            RunEvent::LoopYielded { block_id: q, completed_iterations: y, .. },
        ) => *p == *q && *x == *y,
        (
            RunEvent::ArbitrationCompleted { block_id: p, .. },
            RunEvent::ArbitrationCompleted { block_id: q, .. },
        ) => *p == *q,
        (
            RunEvent::PollingDelayed { delay_ms: x, .. },
            RunEvent::PollingDelayed { delay_ms: y, .. },
        ) => *x == *y,
        (RunEvent::Error { message: x, .. }, RunEvent::Error { message: y, .. }) => *x == *y,
        (
            RunEvent::RunStopped { status: s, reason: x, .. },
            RunEvent::RunStopped { status: t, reason: y, .. },
        ) => *s == *t && x.same(y),
        _ => false,
    }
}

/// The start and the end of the latest run, kept beyond the replay of its reports.
#[derive(Debug, Clone, PartialEq)]
pub struct ControllerLifecycleProjection {
    pub run_started: Option<RunEvent>,
    pub run_stopped: Option<RunEvent>,
}

/// The latest report of each sort, kept beyond the replay of the reports.
#[derive(Debug, Clone, PartialEq)]
pub struct ControllerSemanticProjection {
    pub run_started: Option<RunEvent>,
    pub status: Option<RunEvent>,
    pub active_block: Option<RunEvent>,
    pub latest_observation: Option<RunEvent>,
    pub latest_condition: Option<RunEvent>,
    pub latest_progress: Option<RunEvent>,
    pub latest_action: Option<RunEvent>,
    pub latest_loop: Option<RunEvent>,
    pub latest_arbitration: Option<RunEvent>,
    pub latest_polling_delay: Option<RunEvent>,
    pub latest_error: Option<RunEvent>,
    pub run_stopped: Option<RunEvent>,
}

impl Default for ControllerSemanticProjection {
    fn default() -> (projection: Self)
        ensures
            projection == (ControllerSemanticProjection {
                run_started: None,
                status: None,
                active_block: None,
                latest_observation: None,
                latest_condition: None,
                latest_progress: None,
                latest_action: None,
                latest_loop: None,
                latest_arbitration: None,
                latest_polling_delay: None,
                latest_error: None,
                run_stopped: None,
            }),
    {
        ControllerSemanticProjection {
            run_started: None,
            status: None,
            active_block: None,
            latest_observation: None,
            latest_condition: None,
            latest_progress: None,
            latest_action: None,
            latest_loop: None,
            latest_arbitration: None,
            latest_polling_delay: None,
            latest_error: None,
            run_stopped: None,
        }
    }
}

/// A definition as it was saved, with the assets that it was saved with.
#[derive(Debug, Clone, PartialEq)]
pub struct SavedRevision {
    pub definition: MacroDefinition,
    pub definition_hash: String,
    pub pinned_assets: Vec<AssetRef>,
}

} // verus!
