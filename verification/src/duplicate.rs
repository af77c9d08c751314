//! Copies of blocks under new identities.
use crate::container::{lemma_condition_roles, lemma_roles, role_fits};
use crate::content::views;
use crate::id_set::{IdMap, IdSet};
use crate::identities::{all_ids, ids_of};
use crate::macro_engine::{
    block_view, blocks_view, condition_bodies, condition_view, head_view, kind_bodies, lane_view,
    outcome_bodies, outcome_view, Action, ActionTarget, ActionTargetView, ActionView, Block,
    BlockKind, BlockView, BodyView, Condition, ConditionView, HeadView, PassiveCondition,
    PassiveView, RoleView, TimeoutOutcome, WatchGroup, WatchLane,
};
use crate::text::{append_wide_decimal, decimal, lemma_decimal_injective, lemma_decimal_reads_back};
use crate::tree::{flatten, flatten_block};
use vstd::prelude::*;
use vstd::string::StringExecFns;

verus! {

broadcast use crate::macro_engine::group_block_views;

/// The identity that the n-th attempt to copy a block proposes.
pub open spec fn copy_candidate(base: Seq<char>, n: nat) -> Seq<char> {
    if n == 1 {
        base + "-copy"@
    } else {
        base + "-copy-"@ + decimal(n)
    }
}

/// The n-th proposal is the first that is not taken.
pub open spec fn first_free_copy(base: Seq<char>, used: Set<Seq<char>>, n: nat) -> bool {
    &&& n >= 1
    &&& !used.contains(copy_candidate(base, n))
    &&& forall|m: nat| 1 <= m < n ==> used.contains(#[trigger] copy_candidate(base, m))
}

/// The identity that a copy of a block gets: the first proposal that is not taken.
pub open spec fn copy_id(base: Seq<char>, used: Set<Seq<char>>) -> Seq<char> {
    copy_candidate(base, choose|n: nat| first_free_copy(base, used, n))
}

pub proof fn lemma_first_free_unique(base: Seq<char>, used: Set<Seq<char>>, n: nat)
    requires
        first_free_copy(base, used, n),
    ensures
        copy_id(base, used) == copy_candidate(base, n),
{
    let chosen = choose|k: nat| first_free_copy(base, used, k);
    assert(first_free_copy(base, used, chosen));
    if chosen < n {
        assert(used.contains(copy_candidate(base, chosen)));
    } else if n < chosen {
        assert(used.contains(copy_candidate(base, n)));
    }
}

/// Different attempts propose different identities.
pub proof fn lemma_candidates_differ(base: Seq<char>, m: nat, n: nat)
    requires
        m >= 1,
        n >= 1,
        copy_candidate(base, m) == copy_candidate(base, n),
    ensures
        m == n,
{
    reveal_strlit("-copy");
    reveal_strlit("-copy-");
    lemma_decimal_reads_back(m);
    lemma_decimal_reads_back(n);
    if m != n {
        if m == 1 {
            assert(copy_candidate(base, m).len() == base.len() + 5);
            assert(copy_candidate(base, n).len() > base.len() + 6);
        } else if n == 1 {
            assert(copy_candidate(base, n).len() == base.len() + 5);
            assert(copy_candidate(base, m).len() > base.len() + 6);
        } else {
            let prefix = base + "-copy-"@;
            assert((prefix + decimal(m)).skip(prefix.len() as int) =~= decimal(m));
            assert((prefix + decimal(n)).skip(prefix.len() as int) =~= decimal(n));
            lemma_decimal_injective(m, n);
        }
    }
}

/// As many taken proposals as there are attempts bound the number of attempts.
pub proof fn lemma_attempts_bounded(base: Seq<char>, used: Set<Seq<char>>, n: nat)
    requires
        used.finite(),
        forall|m: nat| 1 <= m < n + 1 ==> used.contains(#[trigger] copy_candidate(base, m)),
    ensures
        n <= used.len(),
{
    let taken = Seq::new(n, |i: int| copy_candidate(base, (i + 1) as nat));
    assert forall|i: int, j: int|
        0 <= i < taken.len() && 0 <= j < taken.len() && i != j implies taken[i] != taken[j] by {
        if taken[i] == taken[j] {
            lemma_candidates_differ(base, (i + 1) as nat, (j + 1) as nat);
        }
    }
    taken.unique_seq_to_set();
    assert(taken.to_set().subset_of(used)) by {
        assert forall|x: Seq<char>| taken.to_set().contains(x) implies used.contains(x) by {
            let i = choose|i: int| 0 <= i < taken.len() && taken[i] == x;
            assert(used.contains(copy_candidate(base, (i + 1) as nat)));
        }
    }
    vstd::set_lib::lemma_len_subset(taken.to_set(), used);
}

/// Proposes identities for a copy until one is not taken, and takes it.
pub fn unique_copy_id(base: &str, used: &mut IdSet) -> (id: String)
    ensures
        id@ == copy_id(base@, old(used)@),
        !old(used)@.contains(id@),
        final(used)@ == old(used)@.insert(id@),
{
    let mut n: u128 = 1;
    loop
        invariant
            1 <= n <= usize::MAX + 1,
            used@ == old(used)@,
            forall|m: nat| 1 <= m < n ==> used@.contains(#[trigger] copy_candidate(base@, m)),
        decreases usize::MAX + 1 - n,
    {
        let mut id = base.to_owned();
        if n == 1 {
            id.append("-copy");
        } else {
            id.append("-copy-");
            append_wide_decimal(&mut id, n);
        }
        assert(id@ =~= copy_candidate(base@, n as nat));
        if !used.contains(id.as_str()) {
            proof {
                lemma_first_free_unique(base@, used@, n as nat);
            }
            let _ = used.insert(id.clone());
            return id;
        }
        proof {
            used.lemma_bounded();
            assert forall|m: nat| 1 <= m < n + 1 implies used@.contains(
                #[trigger] copy_candidate(base@, m),
            ) by {
                if m == n {
                    assert(copy_candidate(base@, m) == id@);
                }
            }
            lemma_attempts_bounded(base@, used@, n as nat);
        }
        n += 1;
    }
}

/// The identities that the copies of a list of identities get, taken in order.
pub open spec fn copy_map(ids: Seq<Seq<char>>, used: Set<Seq<char>>) -> Map<Seq<char>, Seq<char>>
    decreases ids.len(),
{
    if ids.len() == 0 {
        Map::empty()
    } else {
        copy_map(ids.drop_last(), used).insert(
            ids.last(),
            copy_id(ids.last(), copy_used(ids.drop_last(), used)),
        )
    }
}

/// The identities that are taken once a list of identities was copied.
pub open spec fn copy_used(ids: Seq<Seq<char>>, used: Set<Seq<char>>) -> Set<Seq<char>>
    decreases ids.len(),
{
    if ids.len() == 0 {
        used
    } else {
        copy_used(ids.drop_last(), used).insert(
            copy_id(ids.last(), copy_used(ids.drop_last(), used)),
        )
    }
}

/// An identity under a map of new identities.
pub open spec fn renamed_id(id: Seq<char>, map: Map<Seq<char>, Seq<char>>) -> Seq<char> {
    if map.contains_key(id) {
        map[id]
    } else {
        id
    }
}

pub open spec fn renamed_condition(
    condition: ConditionView,
    map: Map<Seq<char>, Seq<char>>,
) -> ConditionView {
    ConditionView { source: renamed_id(condition.source, map), ..condition }
}

pub open spec fn renamed_action(
    action: ActionView,
    map: Map<Seq<char>, Seq<char>>,
) -> ActionView {
    match action {
        ActionView::ClickTextMatch { source, button } => ActionView::ClickTextMatch {
            source: renamed_id(source, map),
            button,
        },
        ActionView::ClickImageMatch { source, button } => ActionView::ClickImageMatch {
            source: renamed_id(source, map),
            button,
        },
        ActionView::MoveOnly { target: ActionTargetView::TextMatch { source } } => {
            ActionView::MoveOnly {
                target: ActionTargetView::TextMatch { source: renamed_id(source, map) },
            }
        },
        ActionView::MoveOnly { target: ActionTargetView::ImageMatch { source } } => {
            ActionView::MoveOnly {
                target: ActionTargetView::ImageMatch { source: renamed_id(source, map) },
            }
        },
        _ => action,
    }
}

/// What a block is, with the sources it names renamed.
pub open spec fn renamed_head(head: HeadView, map: Map<Seq<char>, Seq<char>>) -> HeadView {
    match head {
        HeadView::Observe { condition } => HeadView::Observe {
            condition: renamed_condition(condition, map),
        },
        HeadView::If { condition } => HeadView::If { condition: renamed_condition(condition, map) },
        HeadView::RepeatUntil { condition, max_iterations } => HeadView::RepeatUntil {
            condition: renamed_condition(condition, map),
            max_iterations,
        },
        HeadView::Action { action } => HeadView::Action { action: renamed_action(action, map) },
        _ => head,
    }
}

pub open spec fn renamed_role(role: RoleView, map: Map<Seq<char>, Seq<char>>) -> RoleView {
    match role {
        RoleView::Lane { id, enabled, condition } => RoleView::Lane {
            id: renamed_id(id, map),
            enabled,
            condition: PassiveView { source: renamed_id(condition.source, map), ..condition },
        },
        _ => role,
    }
}

/// A block with its identity, its lanes' identities and the sources it names renamed, and with the
/// blocks of its bodies renamed likewise, except those of a condition's timeout body.
pub open spec fn renamed(block: BlockView, map: Map<Seq<char>, Seq<char>>) -> BlockView
    decreases block,
{
    BlockView {
        id: renamed_id(block.id, map),
        enabled: block.enabled,
        head: renamed_head(block.head, map),
        bodies: Seq::new(
            block.bodies.len(),
            |k: int|
                if 0 <= k < block.bodies.len() {
                    BodyView {
                        role: renamed_role(block.bodies[k].role, map),
                        blocks: if block.bodies[k].role is Timeout && !(
                        block.head is WatchGroup) {
                            block.bodies[k].blocks
                        } else {
                            renamed_all(block.bodies[k].blocks, map)
                        },
                    }
                } else {
                    arbitrary()
                },
        ),
    }
}

pub open spec fn renamed_all(
    blocks: Seq<BlockView>,
    map: Map<Seq<char>, Seq<char>>,
) -> Seq<BlockView>
    decreases blocks,
{
    Seq::new(
        blocks.len(),
        |i: int|
            if 0 <= i < blocks.len() {
                renamed(blocks[i], map)
            } else {
                arbitrary()
            },
    )
}

/// A copy of a block with new identities throughout, where `used` are taken.
pub open spec fn duplicated(block: BlockView, used: Set<Seq<char>>) -> BlockView {
    renamed(block, copy_map(ids_of(flatten_block(block)), used))
}

fn rename_id(id: &String, map: &IdMap) -> (new: String)
    ensures
        new@ == renamed_id(id@, map@),
{
    match map.get(id.as_str()) {
        Some(new) => new.clone(),
        None => id.clone(),
    }
}

fn rename_condition(condition: &Condition, map: &IdMap) -> (copy: Condition)
    ensures
        condition_view(copy) == renamed_condition(condition_view(*condition), map@),
        condition_bodies(copy) == condition_bodies(*condition),
{
    match condition {
        Condition::Text { source_block_id, rule_id, mode } => Condition::Text {
            source_block_id: rename_id(source_block_id, map),
            rule_id: rule_id.clone(),
            mode: mode.clone(),
        },
        Condition::Image { source_block_id, rule_id, mode } => Condition::Image {
            source_block_id: rename_id(source_block_id, map),
            rule_id: rule_id.clone(),
            mode: mode.clone(),
        },
    }
}

fn rename_passive(condition: &PassiveCondition, map: &IdMap) -> (copy: PassiveCondition)
    ensures
        copy@ == (PassiveView { source: renamed_id(condition@.source, map@), ..condition@ }),
{
    match condition {
        PassiveCondition::Text { source_block_id, rule_id } => PassiveCondition::Text {
            source_block_id: rename_id(source_block_id, map),
            rule_id: rule_id.clone(),
        },
        PassiveCondition::Image { source_block_id, rule_id } => PassiveCondition::Image {
            source_block_id: rename_id(source_block_id, map),
            rule_id: rule_id.clone(),
        },
    }
}

fn rename_action(action: &Action, map: &IdMap) -> (copy: Action)
    ensures
        copy@ == renamed_action(action@, map@),
{
    match action {
        Action::ClickTextMatch { source_block_id, button } => Action::ClickTextMatch {
            source_block_id: rename_id(source_block_id, map),
            button: *button,
        },
        Action::ClickImageMatch { source_block_id, button } => Action::ClickImageMatch {
            source_block_id: rename_id(source_block_id, map),
            button: *button,
        },
        Action::MoveOnly { target: ActionTarget::TextMatch { source_block_id } } => {
            Action::MoveOnly {
                target: ActionTarget::TextMatch { source_block_id: rename_id(source_block_id, map) },
            }
        },
        Action::MoveOnly { target: ActionTarget::ImageMatch { source_block_id } } => {
            Action::MoveOnly {
                target: ActionTarget::ImageMatch {
                    source_block_id: rename_id(source_block_id, map),
                },
            }
        },
        _ => action.clone(),
    }
}

fn rename_blocks(blocks: &Vec<Block>, map: &IdMap) -> (copy: Vec<Block>)
    ensures
        blocks_view(copy@) == renamed_all(blocks_view(blocks@), map@),
    decreases blocks,
{
    let mut copy: Vec<Block> = Vec::new();
    let mut i: usize = 0;
    while i < blocks.len()
        invariant
            i <= blocks@.len(),
            copy@.len() == i,
            forall|j: int|
                0 <= j < i ==> block_view(#[trigger] copy@[j]) == renamed(
                    block_view(blocks@[j]),
                    map@,
                ),
        decreases blocks@.len() - i,
    {
        copy.push(rename_block(&blocks[i], map));
        i += 1;
    }
    assert(blocks_view(copy@) =~= renamed_all(blocks_view(blocks@), map@));
    copy
}

fn rename_lanes(lanes: &Vec<WatchLane>, map: &IdMap) -> (copy: Vec<WatchLane>)
    ensures
        copy@.len() == lanes@.len(),
        forall|k: int|
            0 <= k < lanes@.len() ==> lane_view(#[trigger] copy@[k]) == (BodyView {
                role: renamed_role(lane_view(lanes@[k]).role, map@),
                blocks: renamed_all(lane_view(lanes@[k]).blocks, map@),
            }),
    decreases lanes,
{
    let mut copy: Vec<WatchLane> = Vec::new();
    let mut i: usize = 0;
    while i < lanes.len()
        invariant
            i <= lanes@.len(),
            copy@.len() == i,
            forall|k: int|
                0 <= k < i ==> lane_view(#[trigger] copy@[k]) == (BodyView {
                    role: renamed_role(lane_view(lanes@[k]).role, map@),
                    blocks: renamed_all(lane_view(lanes@[k]).blocks, map@),
                }),
        decreases lanes@.len() - i,
    {
        let lane = &lanes[i];
        copy.push(
            WatchLane {
                id: rename_id(&lane.id, map),
                enabled: lane.enabled,
                condition: rename_passive(&lane.condition, map),
                then_body: rename_blocks(&lane.then_body, map),
            },
        );
        i += 1;
    }
    copy
}

fn rename_outcome(outcome: &TimeoutOutcome, map: &IdMap) -> (copy: TimeoutOutcome)
    ensures
        outcome_view(copy) == outcome_view(*outcome),
        outcome_bodies(copy).len() == outcome_bodies(*outcome).len(),
        forall|k: int|
            0 <= k < outcome_bodies(*outcome).len() ==> #[trigger] outcome_bodies(copy)[k] == (
            BodyView {
                role: RoleView::Timeout,
                blocks: renamed_all(outcome_bodies(*outcome)[k].blocks, map@),
            }),
    decreases outcome,
{
    match outcome {
        TimeoutOutcome::RunBody { body } => TimeoutOutcome::RunBody {
            body: rename_blocks(body, map),
        },
        _ => outcome.clone(),
    }
}

/// A copy of a block with identities and sources renamed.
pub fn rename_block(block: &Block, map: &IdMap) -> (copy: Block)
    ensures
        copy@ == renamed(block@, map@),
    decreases block,
{
    let kind = match &block.kind {
        BlockKind::Observe { condition } => BlockKind::Observe {
            condition: rename_condition(condition, map),
        },
        BlockKind::Action { action } => BlockKind::Action { action: rename_action(action, map) },
        BlockKind::If { condition, then_body, else_body } => BlockKind::If {
            condition: rename_condition(condition, map),
            then_body: rename_blocks(then_body, map),
            else_body: rename_blocks(else_body, map),
        },
        BlockKind::RepeatN { count, body } => BlockKind::RepeatN {
            count: *count,
            body: rename_blocks(body, map),
        },
        BlockKind::RepeatUntil { condition, max_iterations, body } => BlockKind::RepeatUntil {
            condition: rename_condition(condition, map),
            max_iterations: *max_iterations,
            body: rename_blocks(body, map),
        },
        BlockKind::Continuous { body } => BlockKind::Continuous { body: rename_blocks(body, map) },
        BlockKind::WatchGroup { group } => BlockKind::WatchGroup {
            group: WatchGroup {
                lanes: rename_lanes(&group.lanes, map),
                timeout_ms: group.timeout_ms,
                timeout_outcome: rename_outcome(&group.timeout_outcome, map),
                cooldown_ms: group.cooldown_ms,
            },
        },
        _ => block.kind.clone(),
    };
    let copy = Block { id: rename_id(&block.id, map), enabled: block.enabled, kind };
    proof {
        lemma_roles(*block);
        lemma_renamed_kind(*block, copy, map@);
    }
    copy
}

/// The bodies of a renamed block, kind by kind.
proof fn lemma_renamed_kind(block: Block, copy: Block, map: Map<Seq<char>, Seq<char>>)
    requires
        copy.id@ == renamed_id(block.id@, map),
        copy.enabled == block.enabled,
        head_view(copy.kind) == renamed_head(head_view(block.kind), map),
        match (block.kind, copy.kind) {
            (
                BlockKind::Observe { condition },
                BlockKind::Observe { condition: copied },
            ) => condition_bodies(copied) == condition_bodies(condition),
            (
                BlockKind::If { condition, then_body, else_body },
                BlockKind::If { condition: copied, then_body: new_then, else_body: new_else },
            ) => {
                &&& condition_bodies(copied) == condition_bodies(condition)
                &&& blocks_view(new_then@) == renamed_all(blocks_view(then_body@), map)
                &&& blocks_view(new_else@) == renamed_all(blocks_view(else_body@), map)
            },
            (
                BlockKind::RepeatN { body, .. },
                BlockKind::RepeatN { body: new, .. },
            ) => blocks_view(new@) == renamed_all(blocks_view(body@), map),
            (
                BlockKind::RepeatUntil { condition, body, .. },
                BlockKind::RepeatUntil { condition: copied, body: new, .. },
            ) => condition_bodies(copied) == condition_bodies(condition) && blocks_view(new@)
                == renamed_all(blocks_view(body@), map),
            (
                BlockKind::Continuous { body },
                BlockKind::Continuous { body: new },
            ) => blocks_view(new@) == renamed_all(blocks_view(body@), map),
            (BlockKind::WatchGroup { group }, BlockKind::WatchGroup { group: new }) => {
                &&& new.lanes@.len() == group.lanes@.len()
                &&& forall|k: int|
                    0 <= k < group.lanes@.len() ==> lane_view(#[trigger] new.lanes@[k]) == (
                    BodyView {
                        role: renamed_role(lane_view(group.lanes@[k]).role, map),
                        blocks: renamed_all(lane_view(group.lanes@[k]).blocks, map),
                    })
                &&& outcome_bodies(new.timeout_outcome).len() == outcome_bodies(
                    group.timeout_outcome,
                ).len()
                &&& forall|k: int|
                    0 <= k < outcome_bodies(group.timeout_outcome).len()
                        ==> #[trigger] outcome_bodies(new.timeout_outcome)[k] == (BodyView {
                        role: RoleView::Timeout,
                        blocks: renamed_all(
                            outcome_bodies(group.timeout_outcome)[k].blocks,
                            map,
                        ),
                    })
            },
            _ => kind_bodies(copy.kind) == kind_bodies(block.kind),
        },
    ensures
        copy@ == renamed(block@, map),
{
    lemma_roles(block);
    let bodies = renamed(block@, map).bodies;
    assert(copy@.bodies == kind_bodies(copy.kind));
    assert(block@.bodies == kind_bodies(block.kind));
    match block.kind {
        BlockKind::Observe { condition } => {
            lemma_condition_roles(condition);
            assert(kind_bodies(copy.kind) == condition_bodies(condition));
            assert(copy@.bodies =~= bodies);
        },
        BlockKind::If { condition, then_body, else_body } => {
            lemma_condition_roles(condition);
            assert(copy@.bodies =~= bodies);
        },
        BlockKind::RepeatUntil { condition, body, .. } => {
            lemma_condition_roles(condition);
            assert(copy@.bodies =~= bodies);
        },
        BlockKind::WatchGroup { group } => {
            assert(copy@.bodies.len() == bodies.len());
            assert forall|k: int| 0 <= k < bodies.len() implies copy@.bodies[k] == bodies[k] by {
                assert(role_fits(block.kind, k, block@.bodies[k].role));
                if k < group.lanes@.len() {
                    assert(block@.bodies[k] == lane_view(group.lanes@[k]));
                } else {
                    assert(block@.bodies[k] == outcome_bodies(group.timeout_outcome)[k
                        - group.lanes@.len()]);
                }
            }
            assert(copy@.bodies =~= bodies);
        },
        _ => {
            assert(copy@.bodies =~= bodies);
        },
    }
}

/// A copy of a block with new identities throughout; the new identities are taken.
pub fn duplicate_with_new_ids(block: &Block, used: &mut IdSet) -> (copy: Block)
    ensures
        copy@ == duplicated(block@, old(used)@),
        final(used)@ == copy_used(ids_of(flatten_block(block@)), old(used)@),
{
    let mut alone: Vec<Block> = Vec::new();
    alone.push(block.clone());
    let ids = all_ids(&alone);
    let ghost list = views(ids@);
    proof {
        assert(blocks_view(alone@) =~= seq![block@]);
        reveal_with_fuel(flatten, 2);
        assert(seq![block@].drop_last() =~= Seq::empty());
        assert(flatten(seq![block@]) =~= flatten_block(block@));
        assert(list == ids_of(flatten_block(block@)));
    }
    let mut map = IdMap::new();
    let mut i: usize = 0;
    while i < ids.len()
        invariant
            i <= ids@.len(),
            list == views(ids@),
            map@ == copy_map(list.take(i as int), old(used)@),
            used@ == copy_used(list.take(i as int), old(used)@),
        decreases ids@.len() - i,
    {
        proof {
            assert(list.take(i + 1).drop_last() =~= list.take(i as int));
            assert(list.take(i + 1).last() == ids@[i as int]@);
        }
        let new = unique_copy_id(ids[i].as_str(), used);
        map.insert(ids[i].clone(), new);
        i += 1;
    }
    assert(list.take(i as int) =~= list);
    rename_block(block, &map)
}

} // verus!
