//! The monitor: what the reports of a run say about where it stands.
use crate::bodies::{owned_bodies, role_view, Role};
use crate::content::{option_view, views};
use crate::text_table::TextTable;
use crate::edits::is_loop;
use crate::id_set::{IdMap, IdSet};
use crate::macro_engine::{
    blocks_view, Block, BlockKind, BlockView, BodyView, F64Bits, HeadView, MacroDefinition,
    MacroDefinitionView, RoleView,
};
use crate::run_events::{
    alike, attempt_text, json_as_double, json_as_unsigned, json_double, json_entries, json_get,
    json_unsigned, same_event, ActionAttemptId, ActionState, AttemptView,
    ControllerLifecycleProjection, ControllerSemanticProjection, DetectorEvidence, EventView,
    FactView, RunEvent, RunMode, RunStatus, SavedRevision, StopReason, StopReasonView,
};
use crate::text::{append_decimal, decimal, decimal_text, same_text};
use crate::tree::{
    first_index, first_where, lemma_child_smaller, lemma_first_index, lemma_first_where_step, size,
};
use vstd::prelude::*;
use vstd::string::StringExecFns;

verus! {

broadcast use crate::macro_engine::group_block_views;

#[derive(Debug, Clone, Copy, PartialEq, Eq, Structural)]
pub enum StopClassification {
    Success,
    UserStopped,
    SafetyStopped,
    Error,
}

pub open spec fn classified(reason: StopReasonView) -> StopClassification {
    match reason {
        StopReasonView::Completed => StopClassification::Success,
        StopReasonView::StopSuccess => StopClassification::Success,
        StopReasonView::UserStopped => StopClassification::UserStopped,
        StopReasonView::EmergencyStopped => StopClassification::SafetyStopped,
        StopReasonView::SafetyLimit { .. } => StopClassification::SafetyStopped,
        StopReasonView::StopError { .. } => StopClassification::Error,
        StopReasonView::TechnicalFailure { .. } => StopClassification::Error,
        StopReasonView::UnsupportedBlock { .. } => StopClassification::Error,
    }
}

pub fn classify_stop(reason: &StopReason) -> (classification: StopClassification)
    ensures
        classification == classified(reason@),
{
    match reason {
        StopReason::Completed => StopClassification::Success,
        StopReason::StopSuccess => StopClassification::Success,
        StopReason::UserStopped => StopClassification::UserStopped,
        StopReason::EmergencyStopped => StopClassification::SafetyStopped,
        StopReason::SafetyLimit { .. } => StopClassification::SafetyStopped,
        StopReason::StopError { .. } => StopClassification::Error,
        StopReason::TechnicalFailure { .. } => StopClassification::Error,
        StopReason::UnsupportedBlock { .. } => StopClassification::Error,
    }
}

/// How a run ended.
#[derive(Debug, PartialEq, Eq)]
pub struct StopOutcome {
    pub reason: StopReason,
    pub classification: StopClassification,
}

/// The contents of a [`StopOutcome`].
#[verifier::ext_equal]
pub ghost struct StopOutcomeView {
    pub reason: StopReasonView,
    pub classification: StopClassification,
}

impl View for StopOutcome {
    type V = StopOutcomeView;

    open spec fn view(&self) -> StopOutcomeView {
        StopOutcomeView { reason: self.reason@, classification: self.classification }
    }
}

impl Clone for StopOutcome {
    fn clone(&self) -> (copy: Self)
        ensures
            copy == *self,
    {
        StopOutcome { reason: self.reason.clone(), classification: self.classification }
    }
}

/// The outcome that a reason stands for.
pub open spec fn outcome_of(reason: StopReasonView) -> StopOutcomeView {
    StopOutcomeView { reason, classification: classified(reason) }
}

pub open spec fn stop_text(reason: StopReasonView) -> Seq<char> {
    match reason {
        StopReasonView::Completed => "Macro completed"@,
        StopReasonView::StopSuccess => "Stopped successfully"@,
        StopReasonView::StopError { message } => "Stopped with error: "@ + message,
        StopReasonView::UserStopped => "User stopped"@,
        StopReasonView::EmergencyStopped => "Emergency stop"@,
        StopReasonView::TechnicalFailure { message } => "Technical failure: "@ + message,
        StopReasonView::SafetyLimit { message } => "Safety limit: "@ + message,
        StopReasonView::UnsupportedBlock { block_id } => "Unsupported block: "@ + block_id,
    }
}

fn format_stop_reason(reason: &StopReason) -> (text: String)
    ensures
        text@ == stop_text(reason@),
{
    match reason {
        StopReason::Completed => "Macro completed".to_owned(),
        StopReason::StopSuccess => "Stopped successfully".to_owned(),
        StopReason::StopError { message } => {
            let mut text = "Stopped with error: ".to_owned();
            text.append(message.as_str());
            text
        },
        StopReason::UserStopped => "User stopped".to_owned(),
        StopReason::EmergencyStopped => "Emergency stop".to_owned(),
        StopReason::TechnicalFailure { message } => {
            let mut text = "Technical failure: ".to_owned();
            text.append(message.as_str());
            text
        },
        StopReason::SafetyLimit { message } => {
            let mut text = "Safety limit: ".to_owned();
            text.append(message.as_str());
            text
        },
        StopReason::UnsupportedBlock { block_id } => {
            let mut text = "Unsupported block: ".to_owned();
            text.append(block_id.as_str());
            text
        },
    }
}

impl StopOutcome {
    pub fn new(reason: &StopReason) -> (outcome: Self)
        ensures
            outcome@ == outcome_of(reason@),
    {
        StopOutcome { reason: reason.clone(), classification: classify_stop(reason) }
    }

    pub fn label(&self) -> (text: String)
        ensures
            text@ == stop_text(self@.reason),
    {
        format_stop_reason(&self.reason)
    }

    pub fn is_error(&self) -> (error: bool)
        ensures
            error == (self@.classification is Error || self@.classification is SafetyStopped),
    {
        match self.classification {
            StopClassification::Error => true,
            StopClassification::SafetyStopped => true,
            _ => false,
        }
    }
}

/// A definition as a run started with it.
#[derive(Debug, Clone)]
pub struct RunDefinitionSnapshot {
    pub run_id: String,
    pub definition_hash: String,
    pub definition: MacroDefinition,
}

/// The contents of a [`RunDefinitionSnapshot`].
#[verifier::ext_equal]
pub ghost struct SnapshotView {
    pub run_id: Seq<char>,
    pub definition_hash: Seq<char>,
    pub definition: MacroDefinitionView,
}

impl View for RunDefinitionSnapshot {
    type V = SnapshotView;

    open spec fn view(&self) -> SnapshotView {
        SnapshotView {
            run_id: self.run_id@,
            definition_hash: self.definition_hash@,
            definition: self.definition@,
        }
    }
}

impl RunDefinitionSnapshot {
    pub fn from_saved(run_id: &str, saved: SavedRevision) -> (snapshot: Self)
        ensures
            snapshot@ == (SnapshotView {
                run_id: run_id@,
                definition_hash: saved.definition_hash@,
                definition: saved.definition@,
            }),
    {
        RunDefinitionSnapshot {
            run_id: run_id.to_owned(),
            definition_hash: saved.definition_hash,
            definition: saved.definition,
        }
    }
}

/// What the monitor shows.
#[derive(Debug, Clone, PartialEq)]
pub struct MonitorProjection {
    pub run_id: Option<String>,
    pub definition_hash: Option<String>,
    pub running_revision: Option<u64>,
    pub mode: Option<RunMode>,
    pub status: RunStatus,
    pub elapsed_ms: u64,
    pub active_block: Option<String>,
    pub active_branch: Option<String>,
    pub active_loop: Option<String>,
    pub loop_iterations: Option<u64>,
    pub candidate_count: Option<u32>,
    pub candidate_score: Option<F64Bits>,
    pub runner_up_score: Option<F64Bits>,
    pub scale_percent: Option<u64>,
    pub stable_frames: Option<u8>,
    pub observation_matched: Option<bool>,
    pub action_state: Option<ActionState>,
    pub action_block_id: Option<String>,
    pub action_attempt_id: Option<ActionAttemptId>,
    pub stop_outcome: Option<StopOutcome>,
    pub error: Option<String>,
    pub loop_iterations_by_id: TextTable<u64>,
}

/// The contents of a [`MonitorProjection`].
#[verifier::ext_equal]
pub ghost struct MonitorView {
    pub run_id: Option<Seq<char>>,
    pub definition_hash: Option<Seq<char>>,
    pub running_revision: Option<u64>,
    pub mode: Option<RunMode>,
    pub status: RunStatus,
    pub elapsed_ms: u64,
    pub active_block: Option<Seq<char>>,
    pub active_branch: Option<Seq<char>>,
    pub active_loop: Option<Seq<char>>,
    pub loop_iterations: Option<u64>,
    pub candidate_count: Option<u32>,
    pub candidate_score: Option<F64Bits>,
    pub runner_up_score: Option<F64Bits>,
    pub scale_percent: Option<u64>,
    pub stable_frames: Option<u8>,
    pub observation_matched: Option<bool>,
    pub action_state: Option<ActionState>,
    pub action_block_id: Option<Seq<char>>,
    pub action_attempt_id: Option<AttemptView>,
    pub stop_outcome: Option<StopOutcomeView>,
    pub error: Option<Seq<char>>,
    pub iterations: Map<Seq<char>, u64>,
}

impl View for MonitorProjection {
    type V = MonitorView;

    open spec fn view(&self) -> MonitorView {
        MonitorView {
            run_id: option_view(self.run_id),
            definition_hash: option_view(self.definition_hash),
            running_revision: self.running_revision,
            mode: self.mode,
            status: self.status,
            elapsed_ms: self.elapsed_ms,
            active_block: option_view(self.active_block),
            active_branch: option_view(self.active_branch),
            active_loop: option_view(self.active_loop),
            loop_iterations: self.loop_iterations,
            candidate_count: self.candidate_count,
            candidate_score: self.candidate_score,
            runner_up_score: self.runner_up_score,
            scale_percent: self.scale_percent,
            stable_frames: self.stable_frames,
            observation_matched: self.observation_matched,
            action_state: self.action_state,
            action_block_id: option_view(self.action_block_id),
            action_attempt_id: option_view(self.action_attempt_id),
            stop_outcome: option_view(self.stop_outcome),
            error: option_view(self.error),
            iterations: self.loop_iterations_by_id@,
        }
    }
}

/// The monitor without a run.
pub open spec fn idle_monitor() -> MonitorView {
    MonitorView {
        run_id: None,
        definition_hash: None,
        running_revision: None,
        mode: None,
        status: RunStatus::Idle,
        elapsed_ms: 0,
        active_block: None,
        active_branch: None,
        active_loop: None,
        loop_iterations: None,
        candidate_count: None,
        candidate_score: None,
        runner_up_score: None,
        scale_percent: None,
        stable_frames: None,
        observation_matched: None,
        action_state: None,
        action_block_id: None,
        action_attempt_id: None,
        stop_outcome: None,
        error: None,
        iterations: Map::empty(),
    }
}

impl Default for MonitorProjection {
    fn default() -> (monitor: Self)
        ensures
            monitor@ == idle_monitor(),
    {
        MonitorProjection {
            run_id: None,
            definition_hash: None,
            running_revision: None,
            mode: None,
            status: RunStatus::Idle,
            elapsed_ms: 0,
            active_block: None,
            active_branch: None,
            active_loop: None,
            loop_iterations: None,
            candidate_count: None,
            candidate_score: None,
            runner_up_score: None,
            scale_percent: None,
            stable_frames: None,
            observation_matched: None,
            action_state: None,
            action_block_id: None,
            action_attempt_id: None,
            stop_outcome: None,
            error: None,
            loop_iterations_by_id: TextTable::new(),
        }
    }
}

/// The branch and the loop that a block stands in.
#[derive(Debug, PartialEq, Eq)]
pub struct ContextPath {
    pub branch: Option<String>,
    pub loop_id: Option<String>,
}

/// The contents of a [`ContextPath`].
#[verifier::ext_equal]
pub ghost struct ContextView {
    pub branch: Option<Seq<char>>,
    pub loop_id: Option<Seq<char>>,
}

impl View for ContextPath {
    type V = ContextView;

    open spec fn view(&self) -> ContextView {
        ContextView { branch: option_view(self.branch), loop_id: option_view(self.loop_id) }
    }
}

fn copied_id(id: &Option<String>) -> (copy: Option<String>)
    ensures
        copy == *id,
{
    match id {
        Some(id) => Some(id.clone()),
        None => None,
    }
}

impl Clone for ContextPath {
    fn clone(&self) -> (copy: Self)
        ensures
            copy == *self,
    {
        ContextPath { branch: copied_id(&self.branch), loop_id: copied_id(&self.loop_id) }
    }
}

impl Default for ContextPath {
    fn default() -> (context: Self)
        ensures
            context@ == (ContextView { branch: None, loop_id: None }),
    {
        ContextPath { branch: None, loop_id: None }
    }
}

/// A block with the branch and the loop it stands in.
pub struct Stop<'a> {
    pub context: ContextPath,
    pub block: &'a Block,
}

/// The contents of a [`Stop`].
#[verifier::ext_equal]
pub ghost struct StopView {
    pub context: ContextView,
    pub block: BlockView,
}

impl<'a> View for Stop<'a> {
    type V = StopView;

    open spec fn view(&self) -> StopView {
        StopView { context: self.context@, block: self.block@ }
    }
}

/// A body that a run is followed into. What an observation does on timeout is not.
pub open spec fn followed(head: HeadView, role: RoleView) -> bool {
    !(role is Timeout) || head is WatchGroup
}

/// The context of the blocks of a body.
pub open spec fn context_inside(
    owner: Seq<char>,
    index: int,
    role: RoleView,
    inherited: ContextView,
) -> ContextView {
    match role {
        RoleView::Then => ContextView { branch: Some(owner + " · THEN"@), ..inherited },
        RoleView::Else => ContextView { branch: Some(owner + " · ELSE"@), ..inherited },
        RoleView::Loop => ContextView { loop_id: Some(owner), ..inherited },
        RoleView::Lane { .. } => ContextView {
            branch: Some(owner + " · Priority "@ + decimal((index + 1) as nat) + " THEN"@),
            ..inherited
        },
        RoleView::Timeout => ContextView { branch: Some(owner + " · ON TIMEOUT"@), ..inherited },
    }
}

/// Every block that a run is followed into, with its context.
pub open spec fn stops(blocks: Seq<BlockView>, context: ContextView) -> Seq<StopView>
    decreases blocks,
{
    if blocks.len() == 0 {
        Seq::empty()
    } else {
        stops(blocks.drop_last(), context) + block_stops(blocks.last(), context)
    }
}

pub open spec fn block_stops(block: BlockView, context: ContextView) -> Seq<StopView>
    decreases block,
{
    seq![StopView { context, block }] + body_stops(block.id, block.head, block.bodies, context)
}

pub open spec fn body_stops(
    owner: Seq<char>,
    head: HeadView,
    bodies: Seq<BodyView>,
    context: ContextView,
) -> Seq<StopView>
    decreases bodies,
{
    if bodies.len() == 0 {
        Seq::empty()
    } else {
        let rest = body_stops(owner, head, bodies.drop_last(), context);
        if followed(head, bodies.last().role) {
            rest + stops(
                bodies.last().blocks,
                context_inside(owner, bodies.len() - 1, bodies.last().role, context),
            )
        } else {
            rest
        }
    }
}

fn inner_context(owner: &String, index: usize, role: &Role, inherited: &ContextPath) -> (context:
    ContextPath)
    requires
        index < usize::MAX,
    ensures
        context@ == context_inside(owner@, index as int, role_view(*role), inherited@),
{
    match role {
        Role::Then => {
            let mut branch = owner.clone();
            branch.append(" · THEN");
            ContextPath { branch: Some(branch), loop_id: copied_id(&inherited.loop_id) }
        },
        Role::Else => {
            let mut branch = owner.clone();
            branch.append(" · ELSE");
            ContextPath { branch: Some(branch), loop_id: copied_id(&inherited.loop_id) }
        },
        Role::Loop => ContextPath {
            branch: copied_id(&inherited.branch),
            loop_id: Some(owner.clone()),
        },
        Role::Lane(_) => {
            let mut branch = owner.clone();
            branch.append(" · Priority ");
            append_decimal(&mut branch, (index + 1) as u64);
            branch.append(" THEN");
            ContextPath { branch: Some(branch), loop_id: copied_id(&inherited.loop_id) }
        },
        Role::Timeout => {
            let mut branch = owner.clone();
            branch.append(" · ON TIMEOUT");
            ContextPath { branch: Some(branch), loop_id: copied_id(&inherited.loop_id) }
        },
    }
}

fn collect_stops<'a>(blocks: &'a Vec<Block>, context: &ContextPath, out: &mut Vec<Stop<'a>>)
    ensures
        views(final(out)@) == views(old(out)@) + stops(blocks_view(blocks@), context@),
    decreases size(blocks_view(blocks@)),
{
    let ghost all = blocks_view(blocks@);
    let ghost before = views(out@);
    let mut i: usize = 0;
    assert(views(out@) =~= before + stops(all.take(0), context@));
    while i < blocks.len()
        invariant
            all == blocks_view(blocks@),
            i <= blocks@.len(),
            views(out@) == before + stops(all.take(i as int), context@),
        decreases blocks@.len() - i,
    {
        let block = &blocks[i];
        let ghost start = views(out@);
        let here = Stop { context: context.clone(), block };
        let ghost first = here@;
        out.push(here);
        let grouped = matches!(block.kind, BlockKind::WatchGroup { .. });
        let bodies = owned_bodies(block);
        let mut k: usize = 0;
        assert(views(out@) =~= start + seq![first] + body_stops(
            block@.id,
            block@.head,
            block@.bodies.take(0),
            context@,
        ));
        while k < bodies.len()
            invariant
                all == blocks_view(blocks@),
                i < blocks@.len(),
                block == blocks@[i as int],
                grouped == (block@.head is WatchGroup),
                k <= bodies@.len(),
                views(bodies@) == block@.bodies,
                views(out@) == start + seq![first] + body_stops(
                    block@.id,
                    block@.head,
                    block@.bodies.take(k as int),
                    context@,
                ),
            decreases bodies@.len() - k,
        {
            let body = &bodies[k];
            proof {
                assert(block@.bodies[k as int] == body@);
                lemma_child_smaller(all, i as int, k as int);
                assert(block@.bodies.take(k + 1).drop_last() =~= block@.bodies.take(k as int));
                assert(block@.bodies.take(k + 1).last() == body@);
            }
            let follow = match &body.role {
                Role::Timeout => grouped,
                _ => true,
            };
            if follow {
                let inner = inner_context(&block.id, k, &body.role, context);
                collect_stops(body.blocks, &inner, out);
            }
            k += 1;
            assert(views(out@) =~= start + seq![first] + body_stops(
                block@.id,
                block@.head,
                block@.bodies.take(k as int),
                context@,
            ));
        }
        proof {
            assert(block@.bodies.take(k as int) =~= block@.bodies);
            assert(all.take(i + 1).drop_last() =~= all.take(i as int));
            assert(all.take(i + 1).last() == block@);
            assert(block_stops(block@, context@) == seq![first] + body_stops(
                block@.id,
                block@.head,
                block@.bodies,
                context@,
            ));
        }
        i += 1;
        assert(views(out@) =~= before + stops(all.take(i as int), context@));
    }
    assert(all.take(i as int) =~= all);
}

/// The predicate that picks the stops at blocks of one identity.
pub open spec fn stop_at(id: Seq<char>) -> spec_fn(StopView) -> bool {
    |stop: StopView| stop.block.id == id
}

/// The context of the first block of an identity that a run is followed into.
pub open spec fn found_context(
    blocks: Seq<BlockView>,
    target: Seq<char>,
    inherited: ContextView,
) -> Option<ContextView> {
    match first_where(stops(blocks, inherited), stop_at(target)) {
        Some(stop) => Some(stop.context),
        None => None,
    }
}

/// Finds the branch and the loop that a block stands in.
pub fn find_block_context(blocks: &Vec<Block>, target: &str, inherited: &ContextPath) -> (context:
    Option<ContextPath>)
    ensures
        option_view(context) == found_context(blocks_view(blocks@), target@, inherited@),
{
    let mut all: Vec<Stop> = Vec::new();
    collect_stops(blocks, inherited, &mut all);
    let ghost flat = stops(blocks_view(blocks@), inherited@);
    assert(views(all@) =~= flat);
    let mut i: usize = 0;
    while i < all.len()
        invariant
            i <= all@.len(),
            views(all@) == flat,
            flat == stops(blocks_view(blocks@), inherited@),
            first_where(flat.take(i as int), stop_at(target@)) is None,
        decreases all@.len() - i,
    {
        proof {
            lemma_first_where_step(flat, i as int, stop_at(target@));
            assert(flat[i as int] == all@[i as int]@);
        }
        if same_text(all[i].block.id.as_str(), target) {
            return Some(all[i].context.clone());
        }
        i += 1;
    }
    assert(flat.take(i as int) =~= flat);
    None
}

/// The loops among stops.
pub open spec fn loops_of(list: Seq<StopView>) -> Set<Seq<char>>
    decreases list.len(),
{
    if list.len() == 0 {
        Set::empty()
    } else if is_loop(list.last().block.head) {
        loops_of(list.drop_last()).insert(list.last().block.id)
    } else {
        loops_of(list.drop_last())
    }
}

/// The loops that a run is followed into.
pub open spec fn loops_in(blocks: Seq<BlockView>) -> Set<Seq<char>> {
    loops_of(stops(blocks, ContextView { branch: None, loop_id: None }))
}

fn collect_loop_container_ids(blocks: &Vec<Block>) -> (ids: IdSet)
    ensures
        ids@ == loops_in(blocks_view(blocks@)),
{
    let mut all: Vec<Stop> = Vec::new();
    let context = ContextPath::default();
    collect_stops(blocks, &context, &mut all);
    let ghost flat = stops(blocks_view(blocks@), context@);
    assert(views(all@) =~= flat);
    let mut ids = IdSet::new();
    let mut i: usize = 0;
    assert(ids@ =~= loops_of(flat.take(0)));
    while i < all.len()
        invariant
            i <= all@.len(),
            views(all@) == flat,
            ids@ == loops_of(flat.take(i as int)),
        decreases all@.len() - i,
    {
        let block = all[i].block;
        proof {
            assert(flat.take(i + 1).drop_last() =~= flat.take(i as int));
            assert(flat.take(i + 1).last() == all@[i as int]@);
        }
        let repeats = match &block.kind {
            BlockKind::RepeatN { .. } => true,
            BlockKind::RepeatUntil { .. } => true,
            BlockKind::Continuous { .. } => true,
            _ => false,
        };
        if repeats {
            let _ = ids.insert(block.id.clone());
        }
        i += 1;
    }
    assert(flat.take(i as int) =~= flat);
    ids
}

/// An entry of the details of an observation, as a double.
pub open spec fn detail_double(evidence: DetectorEvidence, key: Seq<char>) -> Option<F64Bits> {
    let entries = json_entries(evidence.details);
    if entries.dom().contains(key) {
        match json_double(entries[key]) {
            Some(bits) => Some(F64Bits(bits)),
            None => None,
        }
    } else {
        None
    }
}

/// An entry of the details of an observation, as a number.
pub open spec fn detail_unsigned(evidence: DetectorEvidence, key: Seq<char>) -> Option<u64> {
    let entries = json_entries(evidence.details);
    if entries.dom().contains(key) {
        json_unsigned(entries[key])
    } else {
        None
    }
}

fn read_double(evidence: &DetectorEvidence, key: &str) -> (value: Option<F64Bits>)
    ensures
        value == detail_double(*evidence, key@),
{
    match json_get(&evidence.details, key) {
        None => None,
        Some(entry) => match json_as_double(entry) {
            None => None,
            Some(bits) => Some(F64Bits(bits)),
        },
    }
}

fn read_unsigned(evidence: &DetectorEvidence, key: &str) -> (value: Option<u64>)
    ensures
        value == detail_unsigned(*evidence, key@),
{
    match json_get(&evidence.details, key) {
        None => None,
        Some(entry) => json_as_unsigned(entry),
    }
}

/// What an observation shows on the monitor, by what was read from its details.
pub open spec fn observed(
    monitor: MonitorView,
    evidence: DetectorEvidence,
    runner_up_score: Option<F64Bits>,
    scale_percent: Option<u64>,
) -> MonitorView {
    MonitorView {
        observation_matched: Some(evidence.matched),
        candidate_count: Some(evidence.match_count),
        candidate_score: evidence.score,
        runner_up_score,
        scale_percent,
        stable_frames: Some(evidence.stable_frames),
        ..monitor
    }
}

/// The monitor after one more report; `loops` are the loops of the run's definition.
pub open spec fn after(monitor: MonitorView, event: EventView, loops: Set<Seq<char>>) -> MonitorView {
    let now = MonitorView { elapsed_ms: event.elapsed_ms, ..monitor };
    match event.fact {
        FactView::StatusChanged { status } => MonitorView { status, ..now },
        FactView::BlockEntered { block_id } => MonitorView {
            iterations: if loops.contains(block_id) {
                now.iterations.remove(block_id)
            } else {
                now.iterations
            },
            active_block: Some(block_id),
            ..now
        },
        FactView::ActionPlanned { block_id, state, .. } => MonitorView {
            action_state: Some(state),
            action_block_id: Some(block_id),
            action_attempt_id: None,
            ..now
        },
        FactView::ActionBlocked { block_id, attempt, state, .. } => MonitorView {
            action_state: Some(state),
            action_block_id: Some(block_id),
            action_attempt_id: attempt,
            ..now
        },
        FactView::ActionStateChanged { block_id, attempt, state, .. } => MonitorView {
            action_state: Some(state),
            action_block_id: Some(block_id),
            action_attempt_id: Some(attempt),
            ..now
        },
        FactView::ObservationCompleted { evidence, .. } => observed(
            now,
            evidence,
            detail_double(evidence, "runner_up_score"@),
            detail_unsigned(evidence, "selected_scale_percent"@),
        ),
        FactView::LoopYielded { block_id, completed_iterations } => MonitorView {
            iterations: now.iterations.insert(block_id, completed_iterations),
            ..now
        },
        FactView::Error { message } => MonitorView { error: Some(message), ..now },
        FactView::RunStopped { status, reason } => MonitorView {
            status,
            stop_outcome: Some(outcome_of(reason)),
            ..now
        },
        _ => now,
    }
}

/// The monitor after a list of reports.
pub open spec fn after_all(
    monitor: MonitorView,
    events: Seq<EventView>,
    loops: Set<Seq<char>>,
) -> MonitorView
    decreases events.len(),
{
    if events.len() == 0 {
        monitor
    } else {
        after(after_all(monitor, events.drop_last(), loops), events.last(), loops)
    }
}

/// The start of a run of a macro.
pub open spec fn starts(macro_id: Seq<char>, event: EventView) -> bool {
    event.fact matches FactView::RunStarted { macro_id: started, .. } && started == macro_id
}

/// The index of the last start of a run of a macro.
pub open spec fn last_start(events: Seq<EventView>, macro_id: Seq<char>) -> Option<int>
    decreases events.len(),
{
    if events.len() == 0 {
        None
    } else if starts(macro_id, events.last()) {
        Some(events.len() - 1)
    } else {
        last_start(events.drop_last(), macro_id)
    }
}

/// A list of reports with one more, behind all that are not later in sequence.
pub open spec fn placed(events: Seq<EventView>, event: EventView) -> Seq<EventView>
    decreases events.len(),
{
    if events.len() > 0 && events.last().sequence > event.sequence {
        placed(events.drop_last(), event).push(events.last())
    } else {
        events.push(event)
    }
}

/// The reports of one run in the order of their sequence; where two have the same sequence, in the
/// order in which they came.
pub open spec fn run_reports(events: Seq<EventView>, run_id: Seq<char>) -> Seq<EventView>
    decreases events.len(),
{
    if events.len() == 0 {
        Seq::empty()
    } else {
        let rest = run_reports(events.drop_last(), run_id);
        if events.last().run_id == run_id {
            placed(rest, events.last())
        } else {
            rest
        }
    }
}

/// The definition of a snapshot, where it is that of the run.
pub open spec fn snapshot_for(snapshot: Option<SnapshotView>, start: EventView) -> Option<
    MacroDefinitionView,
> {
    match (snapshot, start.fact) {
        (
            Some(snapshot),
            FactView::RunStarted { macro_id, revision, definition_hash, .. },
        ) => if snapshot.run_id == start.run_id && snapshot.definition.id == macro_id
            && snapshot.definition.revision == revision && snapshot.definition_hash
            == definition_hash {
            Some(snapshot.definition)
        } else {
            None
        },
        _ => None,
    }
}

/// The monitor at the start of a run.
pub open spec fn started(start: EventView) -> MonitorView {
    match start.fact {
        FactView::RunStarted { revision, definition_hash, mode, .. } => MonitorView {
            run_id: Some(start.run_id),
            definition_hash: Some(definition_hash),
            running_revision: Some(revision),
            mode: Some(mode),
            status: RunStatus::Running,
            ..idle_monitor()
        },
        _ => idle_monitor(),
    }
}

/// The monitor with the branch and the loop of its active block.
pub open spec fn with_context(
    monitor: MonitorView,
    definition: Option<MacroDefinitionView>,
) -> MonitorView {
    match (definition, monitor.active_block) {
        (Some(definition), Some(active)) => match found_context(
            definition.blocks,
            active,
            ContextView { branch: None, loop_id: None },
        ) {
            None => monitor,
            Some(context) => MonitorView {
                active_branch: context.branch,
                active_loop: context.loop_id,
                loop_iterations: match context.loop_id {
                    Some(id) => if monitor.iterations.dom().contains(id) {
                        Some(monitor.iterations[id])
                    } else {
                        None
                    },
                    None => None,
                },
                ..monitor
            },
        },
        _ => monitor,
    }
}

/// The loops of a definition, if there is one.
pub open spec fn known_loops(definition: Option<MacroDefinitionView>) -> Set<Seq<char>> {
    match definition {
        Some(definition) => loops_in(definition.blocks),
        None => Set::empty(),
    }
}

/// What the monitor shows of the latest run of a macro.
pub open spec fn monitored(
    selected: Option<Seq<char>>,
    snapshot: Option<SnapshotView>,
    events: Seq<EventView>,
) -> MonitorView {
    match selected {
        None => idle_monitor(),
        Some(macro_id) => match last_start(events, macro_id) {
            None => idle_monitor(),
            Some(at) => {
                let start = events[at];
                let definition = snapshot_for(snapshot, start);
                with_context(
                    after_all(
                        started(start),
                        run_reports(events.skip(at), start.run_id),
                        known_loops(definition),
                    ),
                    definition,
                )
            },
        },
    }
}

impl MonitorProjection {
    /// Takes one more report in.
    fn absorb(&mut self, event: &RunEvent, loops: &IdSet)
        ensures
            final(self)@ == after(old(self)@, event@, loops@),
    {
        self.elapsed_ms = event.elapsed_ms();
        match event {
            RunEvent::StatusChanged { status, .. } => {
                self.status = *status;
            },
            RunEvent::BlockEntered { block_id, .. } => {
                if loops.contains(block_id.as_str()) {
                    self.loop_iterations_by_id.remove(block_id.as_str());
                }
                self.active_block = Some(block_id.clone());
            },
            RunEvent::ActionPlanned { block_id, state, .. } => {
                self.action_state = Some(*state);
                self.action_block_id = Some(block_id.clone());
                self.action_attempt_id = None;
            },
            RunEvent::ActionBlocked { block_id, attempt_id, state, .. } => {
                self.action_state = Some(*state);
                self.action_block_id = Some(block_id.clone());
                self.action_attempt_id = match attempt_id {
                    Some(attempt) => Some(attempt.clone()),
                    None => None,
                };
            },
            RunEvent::ActionStateChanged { block_id, attempt_id, state, .. } => {
                self.action_state = Some(*state);
                self.action_block_id = Some(block_id.clone());
                self.action_attempt_id = Some(attempt_id.clone());
            },
            RunEvent::ObservationCompleted { evidence, .. } => {
                let runner_up_score = read_double(evidence, "runner_up_score");
                let scale_percent = read_unsigned(evidence, "selected_scale_percent");
                self.show_observation(evidence, runner_up_score, scale_percent);
            },
            RunEvent::LoopYielded { block_id, completed_iterations, .. } => {
                self.loop_iterations_by_id.insert(block_id.clone(), *completed_iterations);
            },
            RunEvent::Error { message, .. } => {
                self.error = Some(message.clone());
            },
            RunEvent::RunStopped { status, reason, .. } => {
                self.status = *status;
                self.stop_outcome = Some(StopOutcome::new(reason));
            },
            _ => {},
        }
    }

    /// Shows an observation, given what was read from its details.
    pub fn show_observation(
        &mut self,
        evidence: &DetectorEvidence,
        runner_up_score: Option<F64Bits>,
        scale_percent: Option<u64>,
    )
        ensures
            final(self)@ == observed(old(self)@, *evidence, runner_up_score, scale_percent),
    {
        self.observation_matched = Some(evidence.matched);
        self.candidate_count = Some(evidence.match_count);
        self.candidate_score = evidence.score;
        self.runner_up_score = runner_up_score;
        self.scale_percent = scale_percent;
        self.stable_frames = Some(evidence.stable_frames);
    }
}

/// Puts a report behind all that are not later in sequence.
fn place_report<'a>(reports: &mut Vec<&'a RunEvent>, event: &'a RunEvent)
    ensures
        views(final(reports)@) == placed(views(old(reports)@), event@),
{
    let ghost all = views(reports@);
    let mut at: usize = reports.len();
    assert(all.take(at as int) =~= all);
    assert(all.skip(at as int) =~= Seq::empty());
    assert(placed(all.take(at as int), event@) + all.skip(at as int) =~= placed(all, event@));
    while at > 0 && reports[at - 1].sequence() > event.sequence()
        invariant
            all == views(reports@),
            at <= reports@.len(),
            placed(all.take(at as int), event@) + all.skip(at as int) == placed(all, event@),
        decreases at,
    {
        proof {
            let front = all.take(at as int);
            assert(front.drop_last() =~= all.take(at - 1));
            assert(front.last() == reports@[at - 1]@);
            assert(placed(front, event@) == placed(all.take(at - 1), event@).push(front.last()));
            assert(placed(all.take(at - 1), event@) + all.skip(at - 1) =~= placed(front, event@)
                + all.skip(at as int));
        }
        at -= 1;
    }
    proof {
        let front = all.take(at as int);
        if at > 0 {
            assert(front.last() == reports@[at - 1]@);
        }
        assert(placed(front, event@) == front.push(event@));
    }
    reports.insert(at, event);
    assert(views(reports@) =~= all.take(at as int).push(event@) + all.skip(at as int));
}

/// The reports of one run from an index on, in the order of their sequence.
fn reports_of<'a>(events: &'a [RunEvent], from: usize, run_id: &String) -> (reports: Vec<
    &'a RunEvent,
>)
    requires
        from <= events@.len(),
    ensures
        views(reports@) == run_reports(views(events@).skip(from as int), run_id@),
{
    let ghost all = views(events@).skip(from as int);
    let mut reports: Vec<&'a RunEvent> = Vec::new();
    let mut i: usize = from;
    assert(views(reports@) =~= run_reports(all.take(0), run_id@));
    while i < events.len()
        invariant
            from <= i <= events@.len(),
            all == views(events@).skip(from as int),
            views(reports@) == run_reports(all.take(i - from), run_id@),
        decreases events@.len() - i,
    {
        let event = &events[i];
        proof {
            let n = i - from;
            assert(all.take(n + 1).drop_last() =~= all.take(n));
            assert(all.take(n + 1).last() == event@);
        }
        if *event.run_id() == *run_id {
            place_report(&mut reports, event);
        }
        i += 1;
    }
    assert(all.take(i - from) =~= all);
    reports
}

fn find_last_start(events: &[RunEvent], macro_id: &str) -> (found: Option<usize>)
    ensures
        match found {
            Some(at) => last_start(views(events@), macro_id@) == Some(at as int) && at
                < events@.len() && starts(macro_id@, events@[at as int]@),
            None => last_start(views(events@), macro_id@) is None,
        },
{
    let ghost all = views(events@);
    let mut i: usize = events.len();
    assert(all.take(i as int) =~= all);
    while i > 0
        invariant
            all == views(events@),
            i <= events@.len(),
            last_start(all, macro_id@) == last_start(all.take(i as int), macro_id@),
        decreases i,
    {
        let event = &events[i - 1];
        proof {
            assert(all.take(i as int).drop_last() =~= all.take(i - 1));
            assert(all.take(i as int).last() == event@);
        }
        if let RunEvent::RunStarted { macro_id: started, .. } = event {
            if same_text(started.as_str(), macro_id) {
                return Some(i - 1);
            }
        }
        i -= 1;
    }
    assert(all.take(0) =~= Seq::empty());
    None
}

/// What the monitor shows of the latest run of the selected macro.
pub fn project_monitor(
    selected_macro_id: Option<&str>,
    run_snapshot: Option<&RunDefinitionSnapshot>,
    events: &[RunEvent],
) -> (projection: MonitorProjection)
    ensures
        projection@ == monitored(
            option_view(selected_macro_id),
            option_view(run_snapshot),
            views(events@),
        ),
{
    let macro_id = match selected_macro_id {
        None => return MonitorProjection::default(),
        Some(macro_id) => macro_id,
    };
    let at = match find_last_start(events, macro_id) {
        None => return MonitorProjection::default(),
        Some(at) => at,
    };
    let start = &events[at];
    let mut projection = MonitorProjection::default();
    let mut run_definition: Option<&MacroDefinition> = None;
    if let RunEvent::RunStarted { run_id, macro_id, revision, definition_hash, mode, .. } = start {
        projection.run_id = Some(run_id.clone());
        projection.definition_hash = Some(definition_hash.clone());
        projection.running_revision = Some(*revision);
        projection.mode = Some(*mode);
        projection.status = RunStatus::Running;
        if let Some(snapshot) = run_snapshot {
            if snapshot.run_id == *run_id && snapshot.definition.id == *macro_id
                && snapshot.definition.revision == *revision && snapshot.definition_hash
                == *definition_hash {
                run_definition = Some(&snapshot.definition);
            }
        }
    }
    let ghost definition = option_view(run_definition);
    proof {
        assert(views(events@)[at as int] == start@);
        assert(definition == snapshot_for(option_view(run_snapshot), start@));
        assert(projection@ == started(start@));
    }
    let loops = match run_definition {
        Some(definition) => collect_loop_container_ids(&definition.blocks),
        None => IdSet::new(),
    };
    let reports = reports_of(events, at, start.run_id());
    let ghost list = views(reports@);
    let mut i: usize = 0;
    while i < reports.len()
        invariant
            i <= reports@.len(),
            list == views(reports@),
            projection@ == after_all(started(start@), list.take(i as int), loops@),
        decreases reports@.len() - i,
    {
        proof {
            assert(list.take(i + 1).drop_last() =~= list.take(i as int));
            assert(list.take(i + 1).last() == reports@[i as int]@);
        }
        projection.absorb(reports[i], &loops);
        i += 1;
    }
    assert(list.take(i as int) =~= list);
    let context = match (run_definition, &projection.active_block) {
        (Some(definition), Some(active)) => {
            let top = ContextPath::default();
            find_block_context(&definition.blocks, active.as_str(), &top)
        },
        _ => None,
    };
    if let Some(context) = context {
        projection.loop_iterations = match &context.loop_id {
            Some(id) => match projection.loop_iterations_by_id.get(id.as_str()) {
                Some(count) => Some(*count),
                None => None,
            },
            None => None,
        };
        projection.active_branch = context.branch;
        projection.active_loop = context.loop_id;
    }
    projection
}

/// A report is among a list of reports.
pub open spec fn reported(events: Seq<EventView>, event: EventView) -> bool {
    exists|i: int| 0 <= i < events.len() && alike(#[trigger] events[i], event)
}

/// The reports with one more at the end, unless it is there already.
pub open spec fn with_report(events: Seq<EventView>, event: Option<EventView>) -> Seq<EventView> {
    match event {
        Some(event) => if reported(events, event) {
            events
        } else {
            events.push(event)
        },
        None => events,
    }
}

/// The predicate that picks the reports of one run.
pub open spec fn of_run(run_id: Seq<char>) -> spec_fn(EventView) -> bool {
    |event: EventView| event.run_id == run_id
}

/// The reports with the start of a run before the first report of the run, unless it is there
/// already.
pub open spec fn with_start(events: Seq<EventView>, start: Option<EventView>) -> Seq<EventView> {
    match start {
        Some(start) => if reported(events, start) {
            events
        } else {
            match first_index(events, of_run(start.run_id)) {
                Some(i) => events.insert(i, start),
                None => events.push(start),
            }
        },
        None => events,
    }
}

/// The replay of the reports together with those that the controller kept.
pub open spec fn controller_events(
    events: Seq<EventView>,
    lifecycle: ControllerLifecycleProjection,
    semantic: ControllerSemanticProjection,
) -> Seq<EventView> {
    let start = match lifecycle.run_started {
        Some(event) => Some(event@),
        None => option_view(semantic.run_started),
    };
    let a = with_start(events, start);
    let b = with_report(a, option_view(lifecycle.run_stopped));
    let c = with_report(b, option_view(semantic.status));
    let d = with_report(c, option_view(semantic.active_block));
    let e = with_report(d, option_view(semantic.latest_observation));
    let f = with_report(e, option_view(semantic.latest_condition));
    let g = with_report(f, option_view(semantic.latest_progress));
    let h = with_report(g, option_view(semantic.latest_action));
    let i = with_report(h, option_view(semantic.latest_loop));
    let j = with_report(i, option_view(semantic.latest_arbitration));
    let k = with_report(j, option_view(semantic.latest_polling_delay));
    let l = with_report(k, option_view(semantic.latest_error));
    with_report(l, option_view(semantic.run_stopped))
}

fn is_reported(events: &Vec<RunEvent>, event: &RunEvent) -> (found: bool)
    ensures
        found == reported(views(events@), event@),
{
    let mut i: usize = 0;
    while i < events.len()
        invariant
            i <= events@.len(),
            forall|j: int| 0 <= j < i ==> !alike(#[trigger] views(events@)[j], event@),
        decreases events@.len() - i,
    {
        if same_event(&events[i], event) {
            assert(alike(views(events@)[i as int], event@));
            return true;
        }
        i += 1;
    }
    false
}

fn add_report(events: &mut Vec<RunEvent>, event: &Option<RunEvent>)
    ensures
        views(final(events)@) == with_report(views(old(events)@), option_view(*event)),
{
    if let Some(event) = event {
        let ghost before = views(events@);
        if !is_reported(events, event) {
            let copy = event.clone();
            let ghost view = copy@;
            events.push(copy);
            assert(views(events@) =~= before.push(view));
        }
    }
}

fn add_start(events: &mut Vec<RunEvent>, start: &RunEvent)
    ensures
        views(final(events)@) == with_start(views(old(events)@), Some(start@)),
{
    if is_reported(events, start) {
        return;
    }
    let ghost all = views(events@);
    let mut i: usize = 0;
    let copy = start.clone();
    let ghost view = copy@;
    while i < events.len() && *events[i].run_id() != *start.run_id()
        invariant
            all == views(events@),
            i <= events@.len(),
            forall|j: int| 0 <= j < i ==> (#[trigger] all[j]).run_id != start@.run_id,
        decreases events@.len() - i,
    {
        assert(all[i as int].run_id == events@[i as int]@.run_id);
        i += 1;
    }
    proof {
        lemma_first_index(all, of_run(start@.run_id));
        if i < events@.len() {
            assert(of_run(start@.run_id)(all[i as int]));
            crate::tree::lemma_is_first_index(all, of_run(start@.run_id), i as int);
        }
    }
    events.insert(i, copy);
    assert(views(events@) =~= all.insert(i as int, view));
    assert(i == all.len() ==> all.insert(i as int, view) =~= all.push(view));
}

/// Joins the replay of the reports with those that the controller kept.
pub fn controller_projection_events(
    replay_events: &[RunEvent],
    lifecycle: &ControllerLifecycleProjection,
    semantic: &ControllerSemanticProjection,
) -> (events: Vec<RunEvent>)
    ensures
        views(events@) == controller_events(views(replay_events@), *lifecycle, *semantic),
{
    let mut events: Vec<RunEvent> = Vec::new();
    let mut i: usize = 0;
    while i < replay_events.len()
        invariant
            i <= replay_events@.len(),
            events@.len() == i,
            forall|j: int| 0 <= j < i ==> (#[trigger] events@[j])@ == replay_events@[j]@,
        decreases replay_events@.len() - i,
    {
        events.push(replay_events[i].clone());
        i += 1;
    }
    assert(views(events@) =~= views(replay_events@));
    match &lifecycle.run_started {
        Some(start) => add_start(&mut events, start),
        None => match &semantic.run_started {
            Some(start) => add_start(&mut events, start),
            None => {},
        },
    }
    add_report(&mut events, &lifecycle.run_stopped);
    add_report(&mut events, &semantic.status);
    add_report(&mut events, &semantic.active_block);
    add_report(&mut events, &semantic.latest_observation);
    add_report(&mut events, &semantic.latest_condition);
    add_report(&mut events, &semantic.latest_progress);
    add_report(&mut events, &semantic.latest_action);
    add_report(&mut events, &semantic.latest_loop);
    add_report(&mut events, &semantic.latest_arbitration);
    add_report(&mut events, &semantic.latest_polling_delay);
    add_report(&mut events, &semantic.latest_error);
    add_report(&mut events, &semantic.run_stopped);
    events
}

/// Builds a monitor from the bounded replay buffer plus the controller's durable lifecycle and
/// latest semantic projections. The projections retain run ownership and terminal state after the
/// raw replay buffer evicts a `RunStarted` event.
pub fn project_monitor_with_controller_projections(
    selected_macro_id: Option<&str>,
    run_snapshot: Option<&RunDefinitionSnapshot>,
    replay_events: &[RunEvent],
    lifecycle: &ControllerLifecycleProjection,
    semantic: &ControllerSemanticProjection,
) -> (projection: MonitorProjection)
    ensures
        projection@ == monitored(
            option_view(selected_macro_id),
            option_view(run_snapshot),
            controller_events(views(replay_events@), *lifecycle, *semantic),
        ),
{
    let events = controller_projection_events(replay_events, lifecycle, semantic);
    project_monitor(selected_macro_id, run_snapshot, events.as_slice())
}

/// The macros that the runs among a list of reports belong to, by the latest start of each run.
pub open spec fn owners(events: Seq<EventView>) -> Map<Seq<char>, Seq<char>>
    decreases events.len(),
{
    if events.len() == 0 {
        Map::empty()
    } else {
        let rest = owners(events.drop_last());
        match events.last().fact {
            FactView::RunStarted { macro_id, .. } => rest.insert(events.last().run_id, macro_id),
            _ => rest,
        }
    }
}

/// How the latest run of a macro ended that has ended. An end counts only behind the start of its
/// run.
pub open spec fn last_completion(events: Seq<EventView>, macro_id: Seq<char>) -> Option<
    StopOutcomeView,
>
    decreases events.len(),
{
    if events.len() == 0 {
        None
    } else {
        let before = events.drop_last();
        let event = events.last();
        match event.fact {
            FactView::RunStopped { reason, .. } => if owners(before).dom().contains(event.run_id)
                && owners(before)[event.run_id] == macro_id {
                Some(outcome_of(reason))
            } else {
                last_completion(before, macro_id)
            },
            _ => last_completion(before, macro_id),
        }
    }
}

/// How the latest run of a macro ended that has ended.
pub fn project_last_completion(events: &[RunEvent], macro_id: &str) -> (outcome: Option<StopOutcome>)
    ensures
        option_view(outcome) == last_completion(views(events@), macro_id@),
{
    let ghost all = views(events@);
    let mut run_owners = IdMap::new();
    let mut latest: Option<StopOutcome> = None;
    let mut i: usize = 0;
    assert(run_owners@ =~= owners(all.take(0)));
    while i < events.len()
        invariant
            all == views(events@),
            i <= events@.len(),
            run_owners@ == owners(all.take(i as int)),
            option_view(latest) == last_completion(all.take(i as int), macro_id@),
        decreases events@.len() - i,
    {
        proof {
            assert(all.take(i + 1).drop_last() =~= all.take(i as int));
            assert(all.take(i + 1).last() == events@[i as int]@);
        }
        match &events[i] {
            RunEvent::RunStarted { run_id, macro_id: started, .. } => {
                run_owners.insert(run_id.clone(), started.clone());
            },
            RunEvent::RunStopped { run_id, reason, .. } => {
                if let Some(owner) = run_owners.get(run_id.as_str()) {
                    if same_text(owner.as_str(), macro_id) {
                        latest = Some(StopOutcome::new(reason));
                    }
                }
            },
            _ => {},
        }
        i += 1;
    }
    assert(all.take(i as int) =~= all);
    latest
}

pub fn project_last_completion_with_controller_projections(
    replay_events: &[RunEvent],
    macro_id: &str,
    lifecycle: &ControllerLifecycleProjection,
    semantic: &ControllerSemanticProjection,
) -> (outcome: Option<StopOutcome>)
    ensures
        option_view(outcome) == last_completion(
            controller_events(views(replay_events@), *lifecycle, *semantic),
            macro_id@,
        ),
{
    let events = controller_projection_events(replay_events, lifecycle, semantic);
    project_last_completion(events.as_slice(), macro_id)
}

pub open spec fn state_word(state: ActionState) -> Seq<char> {
    match state {
        ActionState::Planned => "Planned"@,
        ActionState::Prepared => "Prepared"@,
        ActionState::Blocked => "Blocked"@,
    }
}

/// The state of the latest action, the block it belongs to and the attempt.
pub open spec fn action_text(monitor: MonitorView) -> Option<Seq<char>> {
    match monitor.action_state {
        None => None,
        Some(state) => {
            let block = match monitor.action_block_id {
                Some(id) => state_word(state) + " · "@ + id,
                None => state_word(state),
            };
            Some(
                match monitor.action_attempt_id {
                    Some(attempt) => block + " · "@ + attempt_text(attempt),
                    None => block,
                },
            )
        },
    }
}

pub fn action_state(monitor: &MonitorProjection) -> (text: Option<String>)
    ensures
        option_view(text) == action_text(monitor@),
{
    let state = match monitor.action_state {
        None => return None,
        Some(state) => state,
    };
    let mut text = match state {
        ActionState::Planned => "Planned".to_owned(),
        ActionState::Prepared => "Prepared".to_owned(),
        ActionState::Blocked => "Blocked".to_owned(),
    };
    if let Some(id) = &monitor.action_block_id {
        text.append(" · ");
        text.append(id.as_str());
    }
    if let Some(attempt) = &monitor.action_attempt_id {
        let label = attempt.label();
        text.append(" · ");
        text.append(label.as_str());
    }
    Some(text)
}

/// The scale of the best match and the number of frames it stood still.
pub open spec fn stability_text(scale: Option<u64>, frames: Option<u8>) -> Option<Seq<char>> {
    match (scale, frames) {
        (Some(scale), Some(frames)) => Some(
            decimal(scale as nat) + "% / "@ + decimal(frames as nat) + " frames"@,
        ),
        (None, Some(frames)) => Some("-- / "@ + decimal(frames as nat) + " frames"@),
        _ => None,
    }
}

pub fn scale_stability(monitor: &MonitorProjection) -> (text: Option<String>)
    ensures
        option_view(text) == stability_text(monitor@.scale_percent, monitor@.stable_frames),
{
    match (monitor.scale_percent, monitor.stable_frames) {
        (Some(scale), Some(frames)) => {
            let mut text = decimal_text(scale);
            text.append("% / ");
            append_decimal(&mut text, frames as u64);
            text.append(" frames");
            Some(text)
        },
        (None, Some(frames)) => {
            let mut text = "-- / ".to_owned();
            append_decimal(&mut text, frames as u64);
            text.append(" frames");
            Some(text)
        },
        _ => None,
    }
}

/// A number with zeros before it up to two digits.
pub open spec fn two_digits(value: nat) -> Seq<char> {
    if value < 10 {
        "0"@ + decimal(value)
    } else {
        decimal(value)
    }
}

/// A number with zeros before it up to three digits.
pub open spec fn three_digits(value: nat) -> Seq<char> {
    if value < 100 {
        "0"@ + two_digits(value)
    } else {
        decimal(value)
    }
}

/// Minutes, seconds and milliseconds.
pub open spec fn elapsed_text(elapsed_ms: u64) -> Seq<char> {
    two_digits((elapsed_ms / 1000 / 60) as nat) + ":"@ + two_digits(
        (elapsed_ms / 1000 % 60) as nat,
    ) + "."@ + three_digits((elapsed_ms % 1000) as nat)
}

fn append_two_digits(text: &mut String, value: u64)
    ensures
        final(text)@ == old(text)@ + two_digits(value as nat),
{
    let ghost before = text@;
    if value < 10 {
        text.append("0");
    }
    append_decimal(text, value);
    assert(text@ =~= before + two_digits(value as nat));
}

pub fn format_elapsed(elapsed_ms: u64) -> (text: String)
    ensures
        text@ == elapsed_text(elapsed_ms),
{
    let seconds: u64 = elapsed_ms / 1_000;
    let millis: u64 = elapsed_ms % 1_000;
    let mut text = String::new();
    append_two_digits(&mut text, seconds / 60);
    text.append(":");
    append_two_digits(&mut text, seconds % 60);
    text.append(".");
    if millis < 100 {
        text.append("0");
        append_two_digits(&mut text, millis);
    } else {
        append_decimal(&mut text, millis);
    }
    assert(text@ =~= elapsed_text(elapsed_ms));
    text
}

} // verus!
