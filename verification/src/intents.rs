//! What the page asks its host for, and the queue that the requests wait in.
use crate::content::{option_view, views, Content, Exact};
use crate::text::{append_wide_decimal, decimal};
use crate::tree::{first_index, lemma_first_index, lemma_is_first_index};
use vstd::prelude::*;
use vstd::string::StringExecFns;

verus! {

/// Immutable identity of the saved definition that is selected. This is deliberately separate from
/// the editable draft: a run is only ever asked for by this identity.
#[derive(Debug, PartialEq, Eq)]
pub struct SavedMacroIdentity {
    pub macro_id: String,
    pub revision: u64,
    pub definition_hash: String,
}

/// The contents of a [`SavedMacroIdentity`].
#[verifier::ext_equal]
pub ghost struct SavedView {
    pub macro_id: Seq<char>,
    pub revision: u64,
    pub definition_hash: Seq<char>,
}

impl View for SavedMacroIdentity {
    type V = SavedView;

    open spec fn view(&self) -> SavedView {
        SavedView {
            macro_id: self.macro_id@,
            revision: self.revision,
            definition_hash: self.definition_hash@,
        }
    }
}

impl Clone for SavedMacroIdentity {
    fn clone(&self) -> (copy: Self)
        ensures
            copy == *self,
    {
        SavedMacroIdentity {
            macro_id: self.macro_id.clone(),
            revision: self.revision,
            definition_hash: self.definition_hash.clone(),
        }
    }
}

impl Exact for SavedMacroIdentity {
    fn same(&self, other: &Self) -> (equal: bool) {
        self.macro_id == other.macro_id && self.revision == other.revision
            && self.definition_hash == other.definition_hash
    }
}

impl Content for SavedMacroIdentity {
    fn duplicate(&self) -> (copy: Self) {
        self.clone()
    }
}

/// What the page asks its host for.
#[allow(inconsistent_fields)]
#[derive(Debug, Clone, PartialEq, Eq)]
pub enum MacroIntent {
    Select { macro_id: String },
    Validate,
    Save,
    DryRun { saved: SavedMacroIdentity },
    RunOnce { saved: SavedMacroIdentity },
    Run { saved: SavedMacroIdentity },
    RunLive { saved: SavedMacroIdentity },
    Pause,
    Resume,
    Stop,
    Rename { saved: SavedMacroIdentity, name: String },
    Duplicate { source: SavedMacroIdentity, macro_id: String, name: String },
    SetEnabled { saved: SavedMacroIdentity, enabled: bool },
    Delete { saved: SavedMacroIdentity },
    ShowHistory,
    DeleteHistory { run_id: String },
    Export { package_root: String },
    ImportPackage { package_root: String },
    ContinueImagePackageReverification,
    CancelImagePackageReverification,
    CleanupOrphans,
}

/// The vocabulary that the host translates into calls of its own.
pub type MacroUiIntent = MacroIntent;

/// The contents of a [`MacroIntent`].
#[allow(inconsistent_fields)]
#[verifier::ext_equal]
pub ghost enum IntentView {
    Select { macro_id: Seq<char> },
    Validate,
    Save,
    DryRun { saved: SavedView },
    RunOnce { saved: SavedView },
    Run { saved: SavedView },
    RunLive { saved: SavedView },
    Pause,
    Resume,
    Stop,
    Rename { saved: SavedView, name: Seq<char> },
    Duplicate { source: SavedView, macro_id: Seq<char>, name: Seq<char> },
    SetEnabled { saved: SavedView, enabled: bool },
    Delete { saved: SavedView },
    ShowHistory,
    DeleteHistory { run_id: Seq<char> },
    Export { package_root: Seq<char> },
    ImportPackage { package_root: Seq<char> },
    ContinueImagePackageReverification,
    CancelImagePackageReverification,
    CleanupOrphans,
}

impl View for MacroIntent {
    type V = IntentView;

    open spec fn view(&self) -> IntentView {
        match *self {
            MacroIntent::Select { macro_id } => IntentView::Select { macro_id: macro_id@ },
            MacroIntent::Validate => IntentView::Validate,
            MacroIntent::Save => IntentView::Save,
            MacroIntent::DryRun { saved } => IntentView::DryRun { saved: saved@ },
            MacroIntent::RunOnce { saved } => IntentView::RunOnce { saved: saved@ },
            MacroIntent::Run { saved } => IntentView::Run { saved: saved@ },
            MacroIntent::RunLive { saved } => IntentView::RunLive { saved: saved@ },
            MacroIntent::Pause => IntentView::Pause,
            MacroIntent::Resume => IntentView::Resume,
            MacroIntent::Stop => IntentView::Stop,
            MacroIntent::Rename { saved, name } => IntentView::Rename {
                saved: saved@,
                name: name@,
            },
            MacroIntent::Duplicate { source, macro_id, name } => IntentView::Duplicate {
                source: source@,
                macro_id: macro_id@,
                name: name@,
            },
            MacroIntent::SetEnabled { saved, enabled } => IntentView::SetEnabled {
                saved: saved@,
                enabled,
            },
            MacroIntent::Delete { saved } => IntentView::Delete { saved: saved@ },
            MacroIntent::ShowHistory => IntentView::ShowHistory,
            MacroIntent::DeleteHistory { run_id } => IntentView::DeleteHistory { run_id: run_id@ },
            MacroIntent::Export { package_root } => IntentView::Export {
                package_root: package_root@,
            },
            MacroIntent::ImportPackage { package_root } => IntentView::ImportPackage {
                package_root: package_root@,
            },
            MacroIntent::ContinueImagePackageReverification => {
                IntentView::ContinueImagePackageReverification
            },
            MacroIntent::CancelImagePackageReverification => {
                IntentView::CancelImagePackageReverification
            },
            MacroIntent::CleanupOrphans => IntentView::CleanupOrphans,
        }
    }
}

impl MacroIntent {
    pub fn is_stop(&self) -> (stop: bool)
        ensures
            stop == (self@ is Stop),
    {
        match self {
            MacroIntent::Stop => true,
            _ => false,
        }
    }
}

/// The four ways to run a saved macro.
#[derive(Debug, Clone, Copy, PartialEq, Eq, Structural)]
pub enum MacroRunIntent {
    DryRun,
    RunOnce,
    ContinuousObservation,
    ContinuousLive,
}

/// The request that a way to run stands for.
pub open spec fn run_intent(run: MacroRunIntent, saved: SavedView) -> IntentView {
    match run {
        MacroRunIntent::DryRun => IntentView::DryRun { saved },
        MacroRunIntent::RunOnce => IntentView::RunOnce { saved },
        MacroRunIntent::ContinuousObservation => IntentView::Run { saved },
        MacroRunIntent::ContinuousLive => IntentView::RunLive { saved },
    }
}

/// How far the re-verification of one rule of an imported package has come. It carries no target,
/// region, asset or verification of the package: its host advances it by local capture alone.
#[derive(Debug, Clone, Copy, PartialEq, Eq, Structural)]
pub enum ImagePackageReverificationStage {
    CaptureTarget,
    CaptureRegion,
    CaptureTemplate,
    CaptureNegative,
}

pub open spec fn stage_sentence(stage: ImagePackageReverificationStage) -> Seq<char> {
    match stage {
        ImagePackageReverificationStage::CaptureTarget => "Capture the local target window."@,
        ImagePackageReverificationStage::CaptureRegion => {
            "Recapture this rule's local image search region."@
        },
        ImagePackageReverificationStage::CaptureTemplate => {
            "Crop a fresh local template for this rule."@
        },
        ImagePackageReverificationStage::CaptureNegative => {
            "Show a known-negative local frame, then capture its image evidence."@
        },
    }
}

pub open spec fn stage_word(stage: ImagePackageReverificationStage) -> Seq<char> {
    match stage {
        ImagePackageReverificationStage::CaptureTarget => "Capture local target"@,
        ImagePackageReverificationStage::CaptureRegion => "Recapture local region"@,
        ImagePackageReverificationStage::CaptureTemplate => "Capture local template"@,
        ImagePackageReverificationStage::CaptureNegative => "Capture negative evidence"@,
    }
}

impl ImagePackageReverificationStage {
    pub fn instruction(self) -> (sentence: &'static str)
        ensures
            sentence@ == stage_sentence(self),
    {
        match self {
            ImagePackageReverificationStage::CaptureTarget => "Capture the local target window.",
            ImagePackageReverificationStage::CaptureRegion => {
                "Recapture this rule's local image search region."
            },
            ImagePackageReverificationStage::CaptureTemplate => {
                "Crop a fresh local template for this rule."
            },
            ImagePackageReverificationStage::CaptureNegative => {
                "Show a known-negative local frame, then capture its image evidence."
            },
        }
    }

    pub fn action_label(self) -> (word: &'static str)
        ensures
            word@ == stage_word(self),
    {
        match self {
            ImagePackageReverificationStage::CaptureTarget => "Capture local target",
            ImagePackageReverificationStage::CaptureRegion => "Recapture local region",
            ImagePackageReverificationStage::CaptureTemplate => "Capture local template",
            ImagePackageReverificationStage::CaptureNegative => "Capture negative evidence",
        }
    }
}

/// How far the re-verification of an imported package has come.
#[derive(Debug, Clone, PartialEq, Eq)]
pub struct ImagePackageReverificationProgress {
    pub rule_ids: Vec<String>,
    pub active_rule_index: usize,
    pub stage: ImagePackageReverificationStage,
}

/// The contents of an [`ImagePackageReverificationProgress`].
#[verifier::ext_equal]
pub ghost struct ProgressView {
    pub rule_ids: Seq<Seq<char>>,
    pub active_rule_index: int,
    pub stage: ImagePackageReverificationStage,
}

impl View for ImagePackageReverificationProgress {
    type V = ProgressView;

    open spec fn view(&self) -> ProgressView {
        ProgressView {
            rule_ids: views(self.rule_ids@),
            active_rule_index: self.active_rule_index as int,
            stage: self.stage,
        }
    }
}

/// The rule that is being re-verified.
pub open spec fn active_rule(progress: ProgressView) -> Option<Seq<char>> {
    if progress.active_rule_index < progress.rule_ids.len() {
        Some(progress.rule_ids[progress.active_rule_index])
    } else {
        None
    }
}

/// The line that says which rule is being re-verified.
pub open spec fn progress_line(progress: ProgressView) -> Seq<char> {
    "Rule "@ + decimal((progress.active_rule_index + 1) as nat) + "/"@ + decimal(
        progress.rule_ids.len(),
    ) + ": "@ + (match active_rule(progress) {
        Some(id) => id,
        None => "local image rule"@,
    })
}

/// The start of the re-verification of some rules.
pub open spec fn progress_start(rule_ids: Seq<Seq<char>>) -> ProgressView {
    ProgressView {
        rule_ids,
        active_rule_index: 0,
        stage: ImagePackageReverificationStage::CaptureTarget,
    }
}

impl ImagePackageReverificationProgress {
    pub fn new(rule_ids: Vec<String>) -> (progress: Self)
        requires
            rule_ids@.len() > 0,
        ensures
            progress@ == progress_start(views(rule_ids@)),
    {
        ImagePackageReverificationProgress {
            rule_ids,
            active_rule_index: 0,
            stage: ImagePackageReverificationStage::CaptureTarget,
        }
    }

    pub fn active_rule_id(&self) -> (id: Option<&str>)
        ensures
            option_view(id) == active_rule(self@),
    {
        if self.active_rule_index < self.rule_ids.len() {
            Some(self.rule_ids[self.active_rule_index].as_str())
        } else {
            None
        }
    }

    /// The line that says which rule is being re-verified.
    pub fn line(&self) -> (text: String)
        ensures
            text@ == progress_line(self@),
    {
        let mut text = "Rule ".to_owned();
        append_wide_decimal(&mut text, self.active_rule_index as u128 + 1);
        text.append("/");
        append_wide_decimal(&mut text, self.rule_ids.len() as u128);
        text.append(": ");
        match self.active_rule_id() {
            Some(id) => text.append(id),
            None => text.append("local image rule"),
        }
        text
    }
}

/// Small queue of requests. Stop is kept under pressure, so that a busy page can never make the
/// normal way to stop unreachable.
#[derive(Debug)]
pub struct MacroIntentQueue {
    capacity: usize,
    values: Vec<MacroIntent>,
}

/// The contents of a [`MacroIntentQueue`].
#[verifier::ext_equal]
pub ghost struct QueueView {
    pub capacity: int,
    pub values: Seq<IntentView>,
}

impl View for MacroIntentQueue {
    type V = QueueView;

    closed spec fn view(&self) -> QueueView {
        QueueView { capacity: self.capacity as int, values: views(self.values@) }
    }
}

/// The predicate that picks the requests that may be given up for a Stop.
pub open spec fn not_stop() -> spec_fn(IntentView) -> bool {
    |intent: IntentView| !(intent is Stop)
}

/// A queue with one more request. A full queue takes a Stop in place of its first other request,
/// and nothing else.
pub open spec fn enqueued(queue: QueueView, intent: IntentView) -> QueueView {
    if queue.values.len() < queue.capacity {
        QueueView { values: queue.values.push(intent), ..queue }
    } else if intent is Stop {
        match first_index(queue.values, not_stop()) {
            Some(i) => QueueView { values: queue.values.remove(i).push(intent), ..queue },
            None => queue,
        }
    } else {
        queue
    }
}

/// A queue with room for at least one request holds a Stop after it was asked for one.
pub proof fn stop_is_kept(queue: QueueView)
    requires
        queue.capacity > 0,
    ensures
        enqueued(queue, IntentView::Stop).values.contains(IntentView::Stop),
{
    let after = enqueued(queue, IntentView::Stop);
    lemma_first_index(queue.values, not_stop());
    if queue.values.len() < queue.capacity {
        assert(after.values.last() == IntentView::Stop);
    } else {
        match first_index(queue.values, not_stop()) {
            Some(i) => {
                assert(after.values.last() == IntentView::Stop);
            },
            None => {
                assert(!not_stop()(queue.values[0]));
                assert(queue.values[0] == IntentView::Stop);
            },
        }
    }
}

/// A Stop that waits in a queue still waits there after any other request.
pub proof fn waiting_stop_is_kept(queue: QueueView, intent: IntentView)
    requires
        queue.values.contains(IntentView::Stop),
    ensures
        enqueued(queue, intent).values.contains(IntentView::Stop),
{
    let after = enqueued(queue, intent);
    let at = choose|i: int| 0 <= i < queue.values.len() && queue.values[i] == IntentView::Stop;
    lemma_first_index(queue.values, not_stop());
    if queue.values.len() < queue.capacity {
        assert(after.values[at] == IntentView::Stop);
    } else if intent is Stop {
        if let Some(i) = first_index(queue.values, not_stop()) {
            assert(after.values.last() == intent);
            assert(intent == IntentView::Stop);
        }
    }
}

/// A queue never holds more than its capacity.
pub proof fn queue_stays_bounded(queue: QueueView, intent: IntentView)
    requires
        queue.values.len() <= queue.capacity,
    ensures
        enqueued(queue, intent).values.len() <= queue.capacity,
{
    lemma_first_index(queue.values, not_stop());
}

impl MacroIntentQueue {
    pub const DEFAULT_CAPACITY: usize = 64;

    pub fn with_capacity(capacity: usize) -> (queue: Self)
        requires
            capacity > 0,
        ensures
            queue@ == (QueueView { capacity: capacity as int, values: Seq::empty() }),
    {
        let queue = MacroIntentQueue { capacity, values: Vec::new() };
        assert(queue@.values =~= Seq::empty());
        queue
    }

    pub fn push(&mut self, intent: MacroIntent)
        ensures
            final(self)@ == enqueued(old(self)@, intent@),
    {
        let ghost before = views(self.values@);
        if self.values.len() < self.capacity {
            self.values.push(intent);
            assert(views(self.values@) =~= before.push(intent@));
            return;
        }
        if !intent.is_stop() {
            return;
        }
        let mut i: usize = 0;
        while i < self.values.len()
            invariant
                i <= self.values@.len(),
                before == views(self.values@),
                *self == *old(self),
                self@.values.len() >= self@.capacity,
                intent@ is Stop,
                before == old(self)@.values,
                forall|j: int| 0 <= j < i ==> (#[trigger] before[j]) is Stop,
            decreases self.values@.len() - i,
        {
            assert(before[i as int] == self.values@[i as int]@);
            if !self.values[i].is_stop() {
                proof {
                    lemma_is_first_index(before, not_stop(), i as int);
                }
                let _ = self.values.remove(i);
                self.values.push(intent);
                assert(views(self.values@) =~= before.remove(i as int).push(intent@));
                return;
            }
            i += 1;
        }
        proof {
            lemma_first_index(before, not_stop());
        }
    }

    pub fn pop(&mut self) -> (intent: Option<MacroIntent>)
        ensures
            match intent {
                Some(intent) => old(self)@.values.len() > 0 && intent@ == old(self)@.values[0]
                    && final(self)@ == (QueueView {
                    values: old(self)@.values.drop_first(),
                    ..old(self)@
                }),
                None => old(self)@.values.len() == 0 && final(self)@ == old(self)@,
            },
    {
        let ghost before = views(self.values@);
        if self.values.len() == 0 {
            return None;
        }
        let intent = self.values.remove(0);
        assert(views(self.values@) =~= before.drop_first());
        Some(intent)
    }

    /// Takes every request out of the queue, in their order.
    pub fn drain(&mut self) -> (intents: Vec<MacroIntent>)
        ensures
            views(intents@) == old(self)@.values,
            final(self)@ == (QueueView { values: Seq::empty(), ..old(self)@ }),
    {
        let mut intents: Vec<MacroIntent> = Vec::new();
        std::mem::swap(&mut intents, &mut self.values);
        assert(views(self.values@) =~= Seq::empty());
        intents
    }

    pub fn pending(&self) -> (count: usize)
        ensures
            count == self@.values.len(),
    {
        self.values.len()
    }

    pub fn len(&self) -> (count: usize)
        ensures
            count == self@.values.len(),
    {
        self.pending()
    }
}

} // verus!
