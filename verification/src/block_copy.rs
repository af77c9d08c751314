//! Copies of blocks by their contents.
use crate::content::clone_list;
use crate::macro_engine::{
    block_view, blocks_view, condition_bodies, condition_view, head_view, kind_bodies, lane_view,
    lanes_view, mode_bodies, outcome_bodies, outcome_view, wait_view, Block, BlockKind, Condition,
    MacroDefinition, ObserveMode, TimeoutOutcome, WatchGroup, WatchLane,
};
use vstd::prelude::*;

verus! {

broadcast use crate::macro_engine::group_block_views;

pub fn clone_blocks(blocks: &Vec<Block>) -> (copy: Vec<Block>)
    ensures
        blocks_view(copy@) == blocks_view(blocks@),
    decreases blocks,
{
    let mut copy: Vec<Block> = Vec::new();
    let mut i: usize = 0;
    while i < blocks.len()
        invariant
            i <= blocks@.len(),
            copy@.len() == i,
            forall|j: int| 0 <= j < i ==> block_view(#[trigger] copy@[j]) == block_view(blocks@[j]),
        decreases blocks@.len() - i,
    {
        copy.push(clone_block(&blocks[i]));
        i += 1;
    }
    assert(blocks_view(copy@) =~= blocks_view(blocks@));
    copy
}

pub fn clone_outcome(outcome: &TimeoutOutcome) -> (copy: TimeoutOutcome)
    ensures
        outcome_view(copy) == outcome_view(*outcome),
        outcome_bodies(copy) == outcome_bodies(*outcome),
    decreases outcome,
{
    match outcome {
        TimeoutOutcome::RunBody { body } => TimeoutOutcome::RunBody { body: clone_blocks(body) },
        TimeoutOutcome::StopError { message } => TimeoutOutcome::StopError {
            message: message.clone(),
        },
        TimeoutOutcome::Continue => TimeoutOutcome::Continue,
    }
}

pub fn clone_mode(mode: &ObserveMode) -> (copy: ObserveMode)
    ensures
        wait_view(copy) == wait_view(*mode),
        mode_bodies(copy) == mode_bodies(*mode),
    decreases mode,
{
    match mode {
        ObserveMode::CheckNow => ObserveMode::CheckNow,
        ObserveMode::WaitForTrue { timeout_ms, timeout_outcome } => ObserveMode::WaitForTrue {
            timeout_ms: *timeout_ms,
            timeout_outcome: clone_outcome(timeout_outcome),
        },
        ObserveMode::WaitForFalse { timeout_ms, timeout_outcome } => ObserveMode::WaitForFalse {
            timeout_ms: *timeout_ms,
            timeout_outcome: clone_outcome(timeout_outcome),
        },
    }
}

pub fn clone_condition(condition: &Condition) -> (copy: Condition)
    ensures
        condition_view(copy) == condition_view(*condition),
        condition_bodies(copy) == condition_bodies(*condition),
    decreases condition,
{
    match condition {
        Condition::Text { source_block_id, rule_id, mode } => Condition::Text {
            source_block_id: source_block_id.clone(),
            rule_id: rule_id.clone(),
            mode: clone_mode(mode),
        },
        Condition::Image { source_block_id, rule_id, mode } => Condition::Image {
            source_block_id: source_block_id.clone(),
            rule_id: rule_id.clone(),
            mode: clone_mode(mode),
        },
    }
}

pub fn clone_lane(lane: &WatchLane) -> (copy: WatchLane)
    ensures
        lane_view(copy) == lane_view(*lane),
    decreases lane,
{
    WatchLane {
        id: lane.id.clone(),
        enabled: lane.enabled,
        condition: lane.condition.clone(),
        then_body: clone_blocks(&lane.then_body),
    }
}

pub fn clone_lanes(lanes: &Vec<WatchLane>) -> (copy: Vec<WatchLane>)
    ensures
        lanes_view(copy@) == lanes_view(lanes@),
    decreases lanes,
{
    let mut copy: Vec<WatchLane> = Vec::new();
    let mut i: usize = 0;
    while i < lanes.len()
        invariant
            i <= lanes@.len(),
            copy@.len() == i,
            forall|j: int| 0 <= j < i ==> lane_view(#[trigger] copy@[j]) == lane_view(lanes@[j]),
        decreases lanes@.len() - i,
    {
        copy.push(clone_lane(&lanes[i]));
        i += 1;
    }
    assert(lanes_view(copy@) =~= lanes_view(lanes@));
    copy
}

pub fn clone_kind(kind: &BlockKind) -> (copy: BlockKind)
    ensures
        head_view(copy) == head_view(*kind),
        kind_bodies(copy) == kind_bodies(*kind),
    decreases kind,
{
    match kind {
        BlockKind::Observe { condition } => BlockKind::Observe {
            condition: clone_condition(condition),
        },
        BlockKind::Action { action } => BlockKind::Action { action: action.clone() },
        BlockKind::If { condition, then_body, else_body } => BlockKind::If {
            condition: clone_condition(condition),
            then_body: clone_blocks(then_body),
            else_body: clone_blocks(else_body),
        },
        BlockKind::Wait { duration_ms } => BlockKind::Wait { duration_ms: *duration_ms },
        BlockKind::RepeatN { count, body } => BlockKind::RepeatN {
            count: *count,
            body: clone_blocks(body),
        },
        BlockKind::RepeatUntil { condition, max_iterations, body } => BlockKind::RepeatUntil {
            condition: clone_condition(condition),
            max_iterations: *max_iterations,
            body: clone_blocks(body),
        },
        BlockKind::Continuous { body } => BlockKind::Continuous { body: clone_blocks(body) },
        BlockKind::WatchGroup { group } => BlockKind::WatchGroup {
            group: WatchGroup {
                lanes: clone_lanes(&group.lanes),
                timeout_ms: group.timeout_ms,
                timeout_outcome: clone_outcome(&group.timeout_outcome),
                cooldown_ms: group.cooldown_ms,
            },
        },
        BlockKind::StopSuccess => BlockKind::StopSuccess,
        BlockKind::StopError { message } => BlockKind::StopError { message: message.clone() },
        BlockKind::Comment { text } => BlockKind::Comment { text: text.clone() },
    }
}

pub fn clone_block(block: &Block) -> (copy: Block)
    ensures
        copy@ == block@,
    decreases block,
{
    Block { id: block.id.clone(), enabled: block.enabled, kind: clone_kind(&block.kind) }
}

impl Clone for MacroDefinition {
    fn clone(&self) -> (copy: Self)
        ensures
            copy@ == self@,
    {
        MacroDefinition {
            schema_version: self.schema_version,
            id: self.id.clone(),
            name: self.name.clone(),
            revision: self.revision,
            target: self.target.clone(),
            regions: clone_list(&self.regions),
            points: clone_list(&self.points),
            text_rules: clone_list(&self.text_rules),
            image_rules: clone_list(&self.image_rules),
            blocks: clone_blocks(&self.blocks),
            safety: self.safety,
        }
    }
}

impl Clone for Block {
    fn clone(&self) -> (copy: Self)
        ensures
            copy@ == self@,
    {
        clone_block(self)
    }
}

impl Clone for TimeoutOutcome {
    fn clone(&self) -> (copy: Self)
        ensures
            outcome_view(copy) == outcome_view(*self),
            outcome_bodies(copy) == outcome_bodies(*self),
    {
        clone_outcome(self)
    }
}

impl Clone for ObserveMode {
    fn clone(&self) -> (copy: Self)
        ensures
            wait_view(copy) == wait_view(*self),
            mode_bodies(copy) == mode_bodies(*self),
    {
        clone_mode(self)
    }
}

impl Clone for Condition {
    fn clone(&self) -> (copy: Self)
        ensures
            condition_view(copy) == condition_view(*self),
            condition_bodies(copy) == condition_bodies(*self),
    {
        clone_condition(self)
    }
}

impl Clone for WatchLane {
    fn clone(&self) -> (copy: Self)
        ensures
            lane_view(copy) == lane_view(*self),
    {
        clone_lane(self)
    }
}

impl Clone for WatchGroup {
    fn clone(&self) -> (copy: Self)
        ensures
            lanes_view(copy.lanes@) == lanes_view(self.lanes@),
            copy.timeout_ms == self.timeout_ms,
            outcome_view(copy.timeout_outcome) == outcome_view(self.timeout_outcome),
            outcome_bodies(copy.timeout_outcome) == outcome_bodies(self.timeout_outcome),
            copy.cooldown_ms == self.cooldown_ms,
    {
        WatchGroup {
            lanes: clone_lanes(&self.lanes),
            timeout_ms: self.timeout_ms,
            timeout_outcome: clone_outcome(&self.timeout_outcome),
            cooldown_ms: self.cooldown_ms,
        }
    }
}

impl Clone for BlockKind {
    fn clone(&self) -> (copy: Self)
        ensures
            head_view(copy) == head_view(*self),
            kind_bodies(copy) == kind_bodies(*self),
    {
        clone_kind(self)
    }
}

} // verus!
