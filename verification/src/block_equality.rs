//! Equality of blocks by their contents.
use crate::content::{all_alike, equal_lists, Alike, Content, Exact};
use crate::macro_engine::{
    block_view, blocks_view, condition_bodies, condition_view, head_view, kind_bodies, lane_view,
    lanes_view, mode_bodies, outcome_bodies, outcome_view, wait_view, Block, BlockKind, BodyView,
    Condition, ImageRule, MacroDefinition, MacroDefinitionView, ObserveMode, PointDefinition,
    RegionDefinition, RoleView, TextRule, TimeoutOutcome, WatchLane,
};
use vstd::prelude::*;

verus! {

broadcast use crate::macro_engine::group_block_views;

pub fn same_blocks(left: &Vec<Block>, right: &Vec<Block>) -> (equal: bool)
    ensures
        equal == (blocks_view(left@) == blocks_view(right@)),
    decreases left,
{
    if left.len() != right.len() {
        assert(blocks_view(left@).len() != blocks_view(right@).len());
        return false;
    }
    let mut i: usize = 0;
    while i < left.len()
        invariant
            left@.len() == right@.len(),
            i <= left@.len(),
            forall|j: int| 0 <= j < i ==> block_view(#[trigger] left@[j]) == block_view(right@[j]),
        decreases left@.len() - i,
    {
        if !same_block(&left[i], &right[i]) {
            assert(blocks_view(left@)[i as int] != blocks_view(right@)[i as int]);
            return false;
        }
        i += 1;
    }
    assert(blocks_view(left@) =~= blocks_view(right@));
    true
}

pub fn same_outcome(left: &TimeoutOutcome, right: &TimeoutOutcome) -> (equal: bool)
    ensures
        equal == (outcome_view(*left) == outcome_view(*right) && outcome_bodies(*left)
            == outcome_bodies(*right)),
    decreases left,
{
    match (left, right) {
        (TimeoutOutcome::RunBody { body: a }, TimeoutOutcome::RunBody { body: b }) => {
            let equal = same_blocks(a, b);
            assert(outcome_bodies(*left)[0].blocks == blocks_view(a@));
            assert(outcome_bodies(*right)[0].blocks == blocks_view(b@));
            equal
        },
        (TimeoutOutcome::StopError { message: a }, TimeoutOutcome::StopError { message: b }) => *a
            == *b,
        (TimeoutOutcome::Continue, TimeoutOutcome::Continue) => true,
        _ => false,
    }
}

pub fn same_mode(left: &ObserveMode, right: &ObserveMode) -> (equal: bool)
    ensures
        equal == (wait_view(*left) == wait_view(*right) && mode_bodies(*left) == mode_bodies(
            *right,
        )),
    decreases left,
{
    match (left, right) {
        (ObserveMode::CheckNow, ObserveMode::CheckNow) => true,
        (
            ObserveMode::WaitForTrue { timeout_ms: a, timeout_outcome: left_outcome },
            ObserveMode::WaitForTrue { timeout_ms: b, timeout_outcome: right_outcome },
        ) => *a == *b && same_outcome(left_outcome, right_outcome),
        (
            ObserveMode::WaitForFalse { timeout_ms: a, timeout_outcome: left_outcome },
            ObserveMode::WaitForFalse { timeout_ms: b, timeout_outcome: right_outcome },
        ) => *a == *b && same_outcome(left_outcome, right_outcome),
        _ => false,
    }
}

pub fn same_condition(left: &Condition, right: &Condition) -> (equal: bool)
    ensures
        equal == (condition_view(*left) == condition_view(*right) && condition_bodies(*left)
            == condition_bodies(*right)),
    decreases left,
{
    match (left, right) {
        (
            Condition::Text { source_block_id: a, rule_id: left_rule, mode: left_mode },
            Condition::Text { source_block_id: b, rule_id: right_rule, mode: right_mode },
        ) => *a == *b && *left_rule == *right_rule && same_mode(left_mode, right_mode),
        (
            Condition::Image { source_block_id: a, rule_id: left_rule, mode: left_mode },
            Condition::Image { source_block_id: b, rule_id: right_rule, mode: right_mode },
        ) => *a == *b && *left_rule == *right_rule && same_mode(left_mode, right_mode),
        _ => false,
    }
}

pub fn same_lane(left: &WatchLane, right: &WatchLane) -> (equal: bool)
    ensures
        equal == (lane_view(*left) == lane_view(*right)),
    decreases left,
{
    left.id == right.id && left.enabled == right.enabled && left.condition.same(&right.condition)
        && same_blocks(&left.then_body, &right.then_body)
}

pub fn same_lanes(left: &Vec<WatchLane>, right: &Vec<WatchLane>) -> (equal: bool)
    ensures
        equal == (lanes_view(left@) == lanes_view(right@)),
    decreases left,
{
    if left.len() != right.len() {
        assert(lanes_view(left@).len() != lanes_view(right@).len());
        return false;
    }
    let mut i: usize = 0;
    while i < left.len()
        invariant
            left@.len() == right@.len(),
            i <= left@.len(),
            forall|j: int| 0 <= j < i ==> lane_view(#[trigger] left@[j]) == lane_view(right@[j]),
        decreases left@.len() - i,
    {
        if !same_lane(&left[i], &right[i]) {
            assert(lanes_view(left@)[i as int] != lanes_view(right@)[i as int]);
            return false;
        }
        i += 1;
    }
    assert(lanes_view(left@) =~= lanes_view(right@));
    true
}

/// Two concatenations with first parts of one length agree exactly where both parts do.
pub proof fn lemma_parts_agree<T>(a: Seq<T>, b: Seq<T>, c: Seq<T>, d: Seq<T>)
    requires
        a.len() == c.len(),
    ensures
        (a + b == c + d) == (a == c && b == d),
{
    if a + b == c + d {
        assert forall|i: int| 0 <= i < a.len() implies a[i] == c[i] by {
            assert((a + b)[i] == (c + d)[i]);
        }
        assert((a + b).len() == (c + d).len());
        assert forall|i: int| 0 <= i < b.len() implies b[i] == d[i] by {
            assert((a + b)[a.len() + i] == (c + d)[a.len() + i]);
        }
        assert(a =~= c);
        assert(b =~= d);
    }
}

pub fn same_kind(left: &BlockKind, right: &BlockKind) -> (equal: bool)
    ensures
        equal == (head_view(*left) == head_view(*right) && kind_bodies(*left) == kind_bodies(
            *right,
        )),
    decreases left,
{
    match (left, right) {
        (BlockKind::Observe { condition: a }, BlockKind::Observe { condition: b }) => {
            same_condition(a, b)
        },
        (BlockKind::Action { action: a }, BlockKind::Action { action: b }) => a.same(b),
        (
            BlockKind::If { condition: a, then_body: left_then, else_body: left_else },
            BlockKind::If { condition: b, then_body: right_then, else_body: right_else },
        ) => {
            proof {
                let x = seq![
                    BodyView { role: RoleView::Then, blocks: blocks_view(left_then@) },
                    BodyView { role: RoleView::Else, blocks: blocks_view(left_else@) },
                ];
                let y = seq![
                    BodyView { role: RoleView::Then, blocks: blocks_view(right_then@) },
                    BodyView { role: RoleView::Else, blocks: blocks_view(right_else@) },
                ];
                lemma_parts_agree(x, condition_bodies(*a), y, condition_bodies(*b));
                assert(x[0].blocks == blocks_view(left_then@));
                assert(x[1].blocks == blocks_view(left_else@));
                assert(y[0].blocks == blocks_view(right_then@));
                assert(y[1].blocks == blocks_view(right_else@));
            }
            same_condition(a, b) && same_blocks(left_then, right_then) && same_blocks(
                left_else,
                right_else,
            )
        },
        (BlockKind::Wait { duration_ms: a }, BlockKind::Wait { duration_ms: b }) => *a == *b,
        (
            BlockKind::RepeatN { count: a, body: left_body },
            BlockKind::RepeatN { count: b, body: right_body },
        ) => {
            assert(kind_bodies(*left)[0].blocks == blocks_view(left_body@));
            assert(kind_bodies(*right)[0].blocks == blocks_view(right_body@));
            *a == *b && same_blocks(left_body, right_body)
        },
        (
            BlockKind::RepeatUntil { condition: a, max_iterations: left_max, body: left_body },
            BlockKind::RepeatUntil { condition: b, max_iterations: right_max, body: right_body },
        ) => {
            proof {
                let x = seq![BodyView { role: RoleView::Loop, blocks: blocks_view(left_body@) }];
                let y = seq![BodyView { role: RoleView::Loop, blocks: blocks_view(right_body@) }];
                lemma_parts_agree(x, condition_bodies(*a), y, condition_bodies(*b));
                assert(x[0].blocks == blocks_view(left_body@));
                assert(y[0].blocks == blocks_view(right_body@));
            }
            *left_max == *right_max && same_condition(a, b) && same_blocks(left_body, right_body)
        },
        (BlockKind::Continuous { body: a }, BlockKind::Continuous { body: b }) => {
            assert(kind_bodies(*left)[0].blocks == blocks_view(a@));
            assert(kind_bodies(*right)[0].blocks == blocks_view(b@));
            same_blocks(a, b)
        },
        (BlockKind::WatchGroup { group: a }, BlockKind::WatchGroup { group: b }) => {
            proof {
                if outcome_view(a.timeout_outcome) == outcome_view(b.timeout_outcome) {
                    assert(outcome_bodies(a.timeout_outcome).len() == outcome_bodies(
                        b.timeout_outcome,
                    ).len());
                    if kind_bodies(*left) == kind_bodies(*right) {
                        assert(kind_bodies(*left).len() == kind_bodies(*right).len());
                        assert(lanes_view(a.lanes@).len() == lanes_view(b.lanes@).len());
                        lemma_parts_agree(
                            lanes_view(a.lanes@),
                            outcome_bodies(a.timeout_outcome),
                            lanes_view(b.lanes@),
                            outcome_bodies(b.timeout_outcome),
                        );
                    }
                }
            }
            a.timeout_ms == b.timeout_ms && a.cooldown_ms == b.cooldown_ms && same_outcome(
                &a.timeout_outcome,
                &b.timeout_outcome,
            ) && same_lanes(&a.lanes, &b.lanes)
        },
        (BlockKind::StopSuccess, BlockKind::StopSuccess) => true,
        (BlockKind::StopError { message: a }, BlockKind::StopError { message: b }) => *a == *b,
        (BlockKind::Comment { text: a }, BlockKind::Comment { text: b }) => *a == *b,
        _ => false,
    }
}

pub fn same_block(left: &Block, right: &Block) -> (equal: bool)
    ensures
        equal == (left@ == right@),
    decreases left,
{
    left.id == right.id && left.enabled == right.enabled && same_kind(&left.kind, &right.kind)
}

/// Two definitions are equal: their floating-point numbers compare as equal, and everything else is
/// the same.
pub open spec fn equal_definitions(one: MacroDefinitionView, other: MacroDefinitionView) -> bool {
    &&& all_alike::<RegionDefinition>(one.regions, other.regions)
    &&& all_alike::<PointDefinition>(one.points, other.points)
    &&& all_alike::<TextRule>(one.text_rules, other.text_rules)
    &&& all_alike::<ImageRule>(one.image_rules, other.image_rules)
    &&& one == (MacroDefinitionView {
        regions: one.regions,
        points: one.points,
        text_rules: one.text_rules,
        image_rules: one.image_rules,
        ..other
    })
}

impl Alike for MacroDefinition {
    open spec fn alike(one: MacroDefinitionView, other: MacroDefinitionView) -> bool {
        equal_definitions(one, other)
    }

    fn equals(&self, other: &Self) -> (equal: bool) {
        self.schema_version == other.schema_version && self.id == other.id && self.name
            == other.name && self.revision == other.revision && self.target.same(&other.target)
            && equal_lists(&self.regions, &other.regions) && equal_lists(&self.points, &other.points)
            && equal_lists(&self.text_rules, &other.text_rules) && equal_lists(
            &self.image_rules,
            &other.image_rules,
        ) && same_blocks(&self.blocks, &other.blocks) && self.safety == other.safety
    }
}

impl Content for MacroDefinition {
    fn duplicate(&self) -> (copy: Self) {
        self.clone()
    }
}

impl Content for Block {
    fn duplicate(&self) -> (copy: Self) {
        self.clone()
    }
}

} // verus!
