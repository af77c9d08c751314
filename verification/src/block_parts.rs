//! The parts that blocks bring to a fingerprint, from which their contents are read back.
use crate::block_equality::lemma_parts_agree;
use crate::fingerprint::{Fingerprint, Token};
use crate::macro_engine::{
    block_view, blocks_view, condition_bodies, condition_view, head_view, kind_bodies, lane_view,
    lanes_view, mode_bodies, outcome_bodies, outcome_view, wait_view, Action, ActionTarget,
    ActionTargetView, ActionView, Block, BlockKind, BlockView, BodyView, Condition, ConditionView,
    DetectorFamily, HeadView, Limit, ObserveMode, OutcomeView, PassiveCondition, RoleView,
    TimeoutOutcome, WaitView, WatchLane,
};
use crate::parts::{
    add_limit, button_number, button_tag, flag, flag_number, lemma_limit_read_back, limit_parts,
    Parts,
};
use vstd::prelude::*;

verus! {

broadcast use crate::macro_engine::group_block_views;

pub open spec fn family_number(family: DetectorFamily) -> nat {
    match family {
        DetectorFamily::Text => 0,
        DetectorFamily::Image => 1,
    }
}

/// The parts of an outcome: its sort and its message.
pub open spec fn outcome_parts(outcome: OutcomeView) -> Seq<Token> {
    match outcome {
        OutcomeView::RunBody => seq![Token::Number(0), Token::Text(Seq::empty())],
        OutcomeView::StopError { message } => seq![Token::Number(1), Token::Text(message)],
        OutcomeView::Continue => seq![Token::Number(2), Token::Text(Seq::empty())],
    }
}

/// The parts of a way of waiting: its sort, its limit and its outcome.
pub open spec fn wait_parts(wait: WaitView) -> Seq<Token> {
    match wait {
        WaitView::CheckNow => seq![Token::Number(0)] + limit_parts(Limit::Unlimited)
            + outcome_parts(OutcomeView::Continue),
        WaitView::WaitForTrue { timeout_ms, outcome } => seq![Token::Number(1)] + limit_parts(
            timeout_ms,
        ) + outcome_parts(outcome),
        WaitView::WaitForFalse { timeout_ms, outcome } => seq![Token::Number(2)] + limit_parts(
            timeout_ms,
        ) + outcome_parts(outcome),
    }
}

pub open spec fn condition_parts(condition: ConditionView) -> Seq<Token> {
    seq![
        Token::Number(family_number(condition.family)),
        Token::Text(condition.source),
        Token::Text(condition.rule),
    ] + wait_parts(condition.wait)
}

/// The parts of an action: its sort, what it names, and its button.
pub open spec fn action_parts(action: ActionView) -> Seq<Token> {
    match action {
        ActionView::ClickTextMatch { source, button } => seq![
            Token::Number(0),
            Token::Text(source),
            Token::Number(button_number(button)),
        ],
        ActionView::ClickImageMatch { source, button } => seq![
            Token::Number(1),
            Token::Text(source),
            Token::Number(button_number(button)),
        ],
        ActionView::ClickPoint { point_id, button } => seq![
            Token::Number(2),
            Token::Text(point_id),
            Token::Number(button_number(button)),
        ],
        ActionView::ClickRegion { region_id, button } => seq![
            Token::Number(3),
            Token::Text(region_id),
            Token::Number(button_number(button)),
        ],
        ActionView::MoveOnly { target } => match target {
            ActionTargetView::TextMatch { source } => seq![
                Token::Number(4),
                Token::Text(source),
                Token::Number(0),
            ],
            ActionTargetView::ImageMatch { source } => seq![
                Token::Number(5),
                Token::Text(source),
                Token::Number(0),
            ],
            ActionTargetView::Point { point_id } => seq![
                Token::Number(6),
                Token::Text(point_id),
                Token::Number(0),
            ],
            ActionTargetView::Region { region_id } => seq![
                Token::Number(7),
                Token::Text(region_id),
                Token::Number(0),
            ],
        },
    }
}

pub open spec fn head_number(head: HeadView) -> nat {
    match head {
        HeadView::Observe { .. } => 0,
        HeadView::Action { .. } => 1,
        HeadView::If { .. } => 2,
        HeadView::Wait { .. } => 3,
        HeadView::RepeatN { .. } => 4,
        HeadView::RepeatUntil { .. } => 5,
        HeadView::Continuous => 6,
        HeadView::WatchGroup { .. } => 7,
        HeadView::StopSuccess => 8,
        HeadView::StopError { .. } => 9,
        HeadView::Comment { .. } => 10,
    }
}

/// The parts of what a block is, after its sort.
pub open spec fn head_fields(head: HeadView) -> Seq<Token> {
    match head {
        HeadView::Observe { condition } => condition_parts(condition),
        HeadView::Action { action } => action_parts(action),
        HeadView::If { condition } => condition_parts(condition),
        HeadView::Wait { duration_ms } => seq![Token::Number(duration_ms as nat)],
        HeadView::RepeatN { count } => seq![Token::Number(count as nat)],
        HeadView::RepeatUntil { condition, max_iterations } => condition_parts(condition)
            + limit_parts(max_iterations),
        HeadView::Continuous => Seq::empty(),
        HeadView::WatchGroup { timeout_ms, outcome, cooldown_ms } => limit_parts(timeout_ms)
            + outcome_parts(outcome) + seq![Token::Number(cooldown_ms as nat)],
        HeadView::StopSuccess => Seq::empty(),
        HeadView::StopError { message } => seq![Token::Text(message)],
        HeadView::Comment { text } => seq![Token::Text(text)],
    }
}

pub open spec fn role_parts(role: RoleView) -> Seq<Token> {
    match role {
        RoleView::Then => seq![Token::Number(0)],
        RoleView::Else => seq![Token::Number(1)],
        RoleView::Loop => seq![Token::Number(2)],
        RoleView::Lane { id, enabled, condition } => seq![
            Token::Number(3),
            Token::Text(id),
            Token::Number(flag(enabled)),
            Token::Number(family_number(condition.family)),
            Token::Text(condition.source),
            Token::Text(condition.rule),
        ],
        RoleView::Timeout => seq![Token::Number(4)],
    }
}

/// The parts of a block: itself, what it is, and its bodies.
pub open spec fn block_parts(block: BlockView) -> Seq<Token>
    decreases block,
{
    seq![
        Token::Text(block.id),
        Token::Number(flag(block.enabled)),
        Token::Number(head_number(block.head)),
    ] + (head_fields(block.head) + (seq![Token::Number(block.bodies.len())] + bodies_parts(
        block.bodies,
    )))
}

pub open spec fn bodies_parts(bodies: Seq<BodyView>) -> Seq<Token>
    decreases bodies,
{
    if bodies.len() == 0 {
        Seq::empty()
    } else {
        bodies_parts(bodies.drop_last()) + body_parts(bodies.last())
    }
}

pub open spec fn body_parts(body: BodyView) -> Seq<Token>
    decreases body,
{
    role_parts(body.role) + (seq![Token::Number(body.blocks.len())] + blocks_parts(body.blocks))
}

pub open spec fn blocks_parts(blocks: Seq<BlockView>) -> Seq<Token>
    decreases blocks,
{
    if blocks.len() == 0 {
        Seq::empty()
    } else {
        blocks_parts(blocks.drop_last()) + block_parts(blocks.last())
    }
}

pub proof fn lemma_wait_read_back(
    a: WaitView,
    b: WaitView,
    left: Seq<Token>,
    right: Seq<Token>,
)
    requires
        wait_parts(a) + left == wait_parts(b) + right,
    ensures
        a == b,
        left == right,
{
    let x = wait_parts(a);
    let y = wait_parts(b);
    lemma_parts_agree(x, left, y, right);
    assert(x[0] == y[0]);
    assert(x[1] == y[1]);
    assert(x[2] == y[2]);
    assert(x[3] == y[3]);
    assert(x[4] == y[4]);
}

proof fn lemma_condition_read_back(
    a: ConditionView,
    b: ConditionView,
    left: Seq<Token>,
    right: Seq<Token>,
)
    requires
        condition_parts(a) + left == condition_parts(b) + right,
    ensures
        a == b,
        left == right,
{
    let x = condition_parts(a);
    let y = condition_parts(b);
    lemma_parts_agree(x, left, y, right);
    assert(x[0] == y[0]);
    assert(x[1] == y[1]);
    assert(x[2] == y[2]);
    assert(x.skip(3) =~= wait_parts(a.wait));
    assert(y.skip(3) =~= wait_parts(b.wait));
    lemma_wait_read_back(a.wait, b.wait, Seq::empty(), Seq::empty());
}

proof fn lemma_head_read_back(a: HeadView, b: HeadView, left: Seq<Token>, right: Seq<Token>)
    requires
        head_number(a) == head_number(b),
        head_fields(a) + left == head_fields(b) + right,
    ensures
        a == b,
        left == right,
{
    let x = head_fields(a);
    let y = head_fields(b);
    lemma_parts_agree(x, left, y, right);
    match (a, b) {
        (HeadView::Observe { condition: p }, HeadView::Observe { condition: q }) => {
            lemma_condition_read_back(p, q, Seq::empty(), Seq::empty());
        },
        (HeadView::If { condition: p }, HeadView::If { condition: q }) => {
            lemma_condition_read_back(p, q, Seq::empty(), Seq::empty());
        },
        (
            HeadView::RepeatUntil { condition: p, max_iterations: m },
            HeadView::RepeatUntil { condition: q, max_iterations: n },
        ) => {
            lemma_condition_read_back(p, q, limit_parts(m), limit_parts(n));
            lemma_limit_read_back(m, n, Seq::empty(), Seq::empty());
        },
        (HeadView::Action { action: p }, HeadView::Action { action: q }) => {
            assert(x[0] == y[0]);
            assert(x[1] == y[1]);
            assert(x[2] == y[2]);
        },
        (HeadView::Wait { .. }, HeadView::Wait { .. }) => {
            assert(x[0] == y[0]);
        },
        (HeadView::RepeatN { .. }, HeadView::RepeatN { .. }) => {
            assert(x[0] == y[0]);
        },
        (
            HeadView::WatchGroup { timeout_ms: m, .. },
            HeadView::WatchGroup { timeout_ms: n, .. },
        ) => {
            assert(x[0] == y[0]);
            assert(x[1] == y[1]);
            assert(x[2] == y[2]);
            assert(x[3] == y[3]);
            assert(x[4] == y[4]);
        },
        (HeadView::StopError { .. }, HeadView::StopError { .. }) => {
            assert(x[0] == y[0]);
        },
        (HeadView::Comment { .. }, HeadView::Comment { .. }) => {
            assert(x[0] == y[0]);
        },
        _ => {},
    }
}

proof fn lemma_role_read_back(a: RoleView, b: RoleView, left: Seq<Token>, right: Seq<Token>)
    requires
        role_parts(a) + left == role_parts(b) + right,
    ensures
        a == b,
        left == right,
{
    assert((role_parts(a) + left)[0] == role_parts(a)[0]);
    assert((role_parts(b) + right)[0] == role_parts(b)[0]);
    lemma_parts_agree(role_parts(a), left, role_parts(b), right);
    if a is Lane {
        assert(role_parts(a)[1] == role_parts(b)[1]);
        assert(role_parts(a)[2] == role_parts(b)[2]);
        assert(role_parts(a)[3] == role_parts(b)[3]);
        assert(role_parts(a)[4] == role_parts(b)[4]);
        assert(role_parts(a)[5] == role_parts(b)[5]);
    }
}

/// A block is read back from the front of a list of parts, and so is what follows.
pub proof fn lemma_block_read_back(
    a: BlockView,
    b: BlockView,
    left: Seq<Token>,
    right: Seq<Token>,
)
    requires
        block_parts(a) + left == block_parts(b) + right,
    ensures
        a == b,
        left == right,
    decreases a, 0nat,
{
    let x = seq![
        Token::Text(a.id),
        Token::Number(flag(a.enabled)),
        Token::Number(head_number(a.head)),
    ];
    let y = seq![
        Token::Text(b.id),
        Token::Number(flag(b.enabled)),
        Token::Number(head_number(b.head)),
    ];
    let a_bodies = seq![Token::Number(a.bodies.len())] + (bodies_parts(a.bodies) + left);
    let b_bodies = seq![Token::Number(b.bodies.len())] + (bodies_parts(b.bodies) + right);
    assert(block_parts(a) + left =~= x + (head_fields(a.head) + a_bodies));
    assert(block_parts(b) + right =~= y + (head_fields(b.head) + b_bodies));
    lemma_parts_agree(x, head_fields(a.head) + a_bodies, y, head_fields(b.head) + b_bodies);
    assert(x[0] == y[0]);
    assert(x[1] == y[1]);
    assert(x[2] == y[2]);
    lemma_head_read_back(a.head, b.head, a_bodies, b_bodies);
    lemma_parts_agree(
        seq![Token::Number(a.bodies.len())],
        bodies_parts(a.bodies) + left,
        seq![Token::Number(b.bodies.len())],
        bodies_parts(b.bodies) + right,
    );
    assert(seq![Token::Number(a.bodies.len())][0] == seq![Token::Number(b.bodies.len())][0]);
    lemma_bodies_read_back(a.bodies, b.bodies, left, right);
}

proof fn lemma_bodies_from(
    a: Seq<BodyView>,
    b: Seq<BodyView>,
    n: int,
    left: Seq<Token>,
    right: Seq<Token>,
)
    requires
        a.len() == b.len(),
        0 <= n <= a.len(),
        a.take(n) == b.take(n),
        bodies_parts(a) + left == bodies_parts(b) + right,
    ensures
        a == b,
        left == right,
    decreases a, 2nat, a.len() - n,
{
    if n == a.len() {
        assert(a.take(n) =~= a);
        assert(b.take(n) =~= b);
        lemma_parts_agree(bodies_parts(a), left, bodies_parts(b), right);
    } else {
        lemma_bodies_split(a, n);
        lemma_bodies_split(b, n);
        let a_rest = bodies_tail(a, n + 1) + left;
        let b_rest = bodies_tail(b, n + 1) + right;
        let front = bodies_parts(a.take(n));
        assert(bodies_parts(a) + left =~= front + (body_parts(a[n]) + a_rest));
        assert(bodies_parts(b) + right =~= front + (body_parts(b[n]) + b_rest));
        lemma_parts_agree(front, body_parts(a[n]) + a_rest, front, body_parts(b[n]) + b_rest);
        lemma_body_read_back(a[n], b[n], a_rest, b_rest);
        assert(a.take(n + 1) =~= a.take(n).push(a[n]));
        assert(b.take(n + 1) =~= b.take(n).push(b[n]));
        lemma_bodies_from(a, b, n + 1, left, right);
    }
}

/// The parts of the bodies from an index on.
spec fn bodies_tail(bodies: Seq<BodyView>, n: int) -> Seq<Token> {
    bodies_parts(bodies).skip(bodies_parts(bodies.take(n)).len() as int)
}

proof fn lemma_bodies_split(bodies: Seq<BodyView>, n: int)
    requires
        0 <= n < bodies.len(),
    ensures
        bodies_parts(bodies) == bodies_parts(bodies.take(n)) + (body_parts(bodies[n])
            + bodies_tail(bodies, n + 1)),
    decreases bodies.len(),
{
    assert(bodies.take(n + 1).drop_last() =~= bodies.take(n));
    assert(bodies.take(n + 1).last() == bodies[n]);
    lemma_bodies_prefix(bodies, n + 1);
    let p = bodies_parts(bodies.take(n + 1));
    assert(p == bodies_parts(bodies.take(n)) + body_parts(bodies[n]));
    assert(bodies_parts(bodies) =~= p + bodies_tail(bodies, n + 1));
    assert(bodies_parts(bodies) =~= bodies_parts(bodies.take(n)) + (body_parts(bodies[n])
        + bodies_tail(bodies, n + 1)));
}

proof fn lemma_bodies_prefix(bodies: Seq<BodyView>, n: int)
    requires
        0 <= n <= bodies.len(),
    ensures
        bodies_parts(bodies.take(n)).is_prefix_of(bodies_parts(bodies)),
    decreases bodies.len(),
{
    if n == bodies.len() {
        assert(bodies.take(n) =~= bodies);
        assert(bodies_parts(bodies) =~= bodies_parts(bodies).take(
            bodies_parts(bodies).len() as int,
        ));
    } else {
        assert(bodies.drop_last().take(n) =~= bodies.take(n));
        lemma_bodies_prefix(bodies.drop_last(), n);
        let p = bodies_parts(bodies.take(n));
        assert(p =~= bodies_parts(bodies).take(p.len() as int));
    }
}

pub proof fn lemma_bodies_read_back(
    a: Seq<BodyView>,
    b: Seq<BodyView>,
    left: Seq<Token>,
    right: Seq<Token>,
)
    requires
        a.len() == b.len(),
        bodies_parts(a) + left == bodies_parts(b) + right,
    ensures
        a == b,
        left == right,
    decreases a, 3nat,
{
    assert(a.take(0) =~= b.take(0));
    lemma_bodies_from(a, b, 0, left, right);
}

proof fn lemma_body_read_back(a: BodyView, b: BodyView, left: Seq<Token>, right: Seq<Token>)
    requires
        body_parts(a) + left == body_parts(b) + right,
    ensures
        a == b,
        left == right,
    decreases a, 0nat,
{
    let a_rest = seq![Token::Number(a.blocks.len())] + (blocks_parts(a.blocks) + left);
    let b_rest = seq![Token::Number(b.blocks.len())] + (blocks_parts(b.blocks) + right);
    assert(body_parts(a) + left =~= role_parts(a.role) + a_rest);
    assert(body_parts(b) + right =~= role_parts(b.role) + b_rest);
    lemma_role_read_back(a.role, b.role, a_rest, b_rest);
    lemma_blocks_count(a.blocks, b.blocks, left, right);
    lemma_blocks_read_back(a.blocks, b.blocks, left, right);
}

proof fn lemma_blocks_count(
    a: Seq<BlockView>,
    b: Seq<BlockView>,
    left: Seq<Token>,
    right: Seq<Token>,
)
    requires
        seq![Token::Number(a.len())] + (blocks_parts(a) + left) == seq![Token::Number(b.len())] + (
        blocks_parts(b) + right),
    ensures
        a.len() == b.len(),
        blocks_parts(a) + left == blocks_parts(b) + right,
{
    lemma_parts_agree(
        seq![Token::Number(a.len())],
        blocks_parts(a) + left,
        seq![Token::Number(b.len())],
        blocks_parts(b) + right,
    );
    assert(seq![Token::Number(a.len())][0] == seq![Token::Number(b.len())][0]);
}

proof fn lemma_blocks_prefix(blocks: Seq<BlockView>, n: int)
    requires
        0 <= n <= blocks.len(),
    ensures
        blocks_parts(blocks.take(n)).is_prefix_of(blocks_parts(blocks)),
    decreases blocks.len(),
{
    if n == blocks.len() {
        assert(blocks.take(n) =~= blocks);
        assert(blocks_parts(blocks) =~= blocks_parts(blocks).take(
            blocks_parts(blocks).len() as int,
        ));
    } else {
        assert(blocks.drop_last().take(n) =~= blocks.take(n));
        lemma_blocks_prefix(blocks.drop_last(), n);
        let p = blocks_parts(blocks.take(n));
        assert(p =~= blocks_parts(blocks).take(p.len() as int));
    }
}

/// The parts of the blocks from an index on.
spec fn blocks_tail(blocks: Seq<BlockView>, n: int) -> Seq<Token> {
    blocks_parts(blocks).skip(blocks_parts(blocks.take(n)).len() as int)
}

proof fn lemma_blocks_split(blocks: Seq<BlockView>, n: int)
    requires
        0 <= n < blocks.len(),
    ensures
        blocks_parts(blocks) == blocks_parts(blocks.take(n)) + (block_parts(blocks[n])
            + blocks_tail(blocks, n + 1)),
{
    assert(blocks.take(n + 1).drop_last() =~= blocks.take(n));
    assert(blocks.take(n + 1).last() == blocks[n]);
    lemma_blocks_prefix(blocks, n + 1);
    let p = blocks_parts(blocks.take(n + 1));
    assert(p == blocks_parts(blocks.take(n)) + block_parts(blocks[n]));
    assert(blocks_parts(blocks) =~= p + blocks_tail(blocks, n + 1));
    assert(blocks_parts(blocks) =~= blocks_parts(blocks.take(n)) + (block_parts(blocks[n])
        + blocks_tail(blocks, n + 1)));
}

proof fn lemma_blocks_from(
    a: Seq<BlockView>,
    b: Seq<BlockView>,
    n: int,
    left: Seq<Token>,
    right: Seq<Token>,
)
    requires
        a.len() == b.len(),
        0 <= n <= a.len(),
        a.take(n) == b.take(n),
        blocks_parts(a) + left == blocks_parts(b) + right,
    ensures
        a == b,
        left == right,
    decreases a, 2nat, a.len() - n,
{
    if n == a.len() {
        assert(a.take(n) =~= a);
        assert(b.take(n) =~= b);
        lemma_parts_agree(blocks_parts(a), left, blocks_parts(b), right);
    } else {
        lemma_blocks_split(a, n);
        lemma_blocks_split(b, n);
        let a_rest = blocks_tail(a, n + 1) + left;
        let b_rest = blocks_tail(b, n + 1) + right;
        let front = blocks_parts(a.take(n));
        assert(blocks_parts(a) + left =~= front + (block_parts(a[n]) + a_rest));
        assert(blocks_parts(b) + right =~= front + (block_parts(b[n]) + b_rest));
        lemma_parts_agree(front, block_parts(a[n]) + a_rest, front, block_parts(b[n]) + b_rest);
        lemma_block_read_back(a[n], b[n], a_rest, b_rest);
        assert(a.take(n + 1) =~= a.take(n).push(a[n]));
        assert(b.take(n + 1) =~= b.take(n).push(b[n]));
        lemma_blocks_from(a, b, n + 1, left, right);
    }
}

/// Blocks are read back from the front of a list of parts, and so is what follows.
pub proof fn lemma_blocks_read_back(
    a: Seq<BlockView>,
    b: Seq<BlockView>,
    left: Seq<Token>,
    right: Seq<Token>,
)
    requires
        a.len() == b.len(),
        blocks_parts(a) + left == blocks_parts(b) + right,
    ensures
        a == b,
        left == right,
    decreases a, 3nat,
{
    assert(a.take(0) =~= b.take(0));
    lemma_blocks_from(a, b, 0, left, right);
}

fn add_outcome(outcome: &TimeoutOutcome, out: &mut Fingerprint)
    requires
        old(out).wf(),
    ensures
        final(out).wf(),
        final(out)@ == old(out)@ + outcome_parts(outcome_view(*outcome)),
{
    let ghost before = out@;
    proof {
        reveal_strlit("");
        assert(""@ =~= Seq::empty());
    }
    match outcome {
        TimeoutOutcome::RunBody { .. } => {
            out.number(0);
            out.text("");
        },
        TimeoutOutcome::StopError { message } => {
            out.number(1);
            out.text(message.as_str());
        },
        TimeoutOutcome::Continue => {
            out.number(2);
            out.text("");
        },
    }
    assert(out@ =~= before + outcome_parts(outcome_view(*outcome)));
}

pub fn add_wait(mode: &ObserveMode, out: &mut Fingerprint)
    requires
        old(out).wf(),
    ensures
        final(out).wf(),
        final(out)@ == old(out)@ + wait_parts(wait_view(*mode)),
{
    let ghost before = out@;
    match mode {
        ObserveMode::CheckNow => {
            out.number(0);
            add_limit(Limit::Unlimited, out);
            add_outcome(&TimeoutOutcome::Continue, out);
        },
        ObserveMode::WaitForTrue { timeout_ms, timeout_outcome } => {
            out.number(1);
            add_limit(*timeout_ms, out);
            add_outcome(timeout_outcome, out);
        },
        ObserveMode::WaitForFalse { timeout_ms, timeout_outcome } => {
            out.number(2);
            add_limit(*timeout_ms, out);
            add_outcome(timeout_outcome, out);
        },
    }
    assert(out@ =~= before + wait_parts(wait_view(*mode)));
}

fn add_condition(condition: &Condition, out: &mut Fingerprint)
    requires
        old(out).wf(),
    ensures
        final(out).wf(),
        final(out)@ == old(out)@ + condition_parts(condition_view(*condition)),
{
    let ghost before = out@;
    match condition {
        Condition::Text { source_block_id, rule_id, mode } => {
            out.number(0);
            out.text(source_block_id.as_str());
            out.text(rule_id.as_str());
            add_wait(mode, out);
        },
        Condition::Image { source_block_id, rule_id, mode } => {
            out.number(1);
            out.text(source_block_id.as_str());
            out.text(rule_id.as_str());
            add_wait(mode, out);
        },
    }
    assert(out@ =~= before + condition_parts(condition_view(*condition)));
}

fn add_action(action: &Action, out: &mut Fingerprint)
    requires
        old(out).wf(),
    ensures
        final(out).wf(),
        final(out)@ == old(out)@ + action_parts(action@),
{
    let ghost before = out@;
    match action {
        Action::ClickTextMatch { source_block_id, button } => {
            out.number(0);
            out.text(source_block_id.as_str());
            out.number(button_tag(*button));
        },
        Action::ClickImageMatch { source_block_id, button } => {
            out.number(1);
            out.text(source_block_id.as_str());
            out.number(button_tag(*button));
        },
        Action::ClickPoint { point_id, button } => {
            out.number(2);
            out.text(point_id.as_str());
            out.number(button_tag(*button));
        },
        Action::ClickRegion { region_id, button } => {
            out.number(3);
            out.text(region_id.as_str());
            out.number(button_tag(*button));
        },
        Action::MoveOnly { target } => match target {
            ActionTarget::TextMatch { source_block_id } => {
                out.number(4);
                out.text(source_block_id.as_str());
                out.number(0);
            },
            ActionTarget::ImageMatch { source_block_id } => {
                out.number(5);
                out.text(source_block_id.as_str());
                out.number(0);
            },
            ActionTarget::Point { point_id } => {
                out.number(6);
                out.text(point_id.as_str());
                out.number(0);
            },
            ActionTarget::Region { region_id } => {
                out.number(7);
                out.text(region_id.as_str());
                out.number(0);
            },
        },
    }
    assert(out@ =~= before + action_parts(action@));
}

/// Adds the sort of a block and the parts of what it is.
fn add_head(kind: &BlockKind, out: &mut Fingerprint)
    requires
        old(out).wf(),
    ensures
        final(out).wf(),
        final(out)@ == old(out)@ + (seq![Token::Number(head_number(head_view(*kind)))]
            + head_fields(head_view(*kind))),
{
    let ghost before = out@;
    match kind {
        BlockKind::Observe { condition } => {
            out.number(0);
            add_condition(condition, out);
        },
        BlockKind::Action { action } => {
            out.number(1);
            add_action(action, out);
        },
        BlockKind::If { condition, .. } => {
            out.number(2);
            add_condition(condition, out);
        },
        BlockKind::Wait { duration_ms } => {
            out.number(3);
            out.number(*duration_ms);
        },
        BlockKind::RepeatN { count, .. } => {
            out.number(4);
            out.number(*count as u64);
        },
        BlockKind::RepeatUntil { condition, max_iterations, .. } => {
            out.number(5);
            add_condition(condition, out);
            add_limit(*max_iterations, out);
        },
        BlockKind::Continuous { .. } => {
            out.number(6);
        },
        BlockKind::WatchGroup { group } => {
            out.number(7);
            add_limit(group.timeout_ms, out);
            add_outcome(&group.timeout_outcome, out);
            out.number(group.cooldown_ms);
        },
        BlockKind::StopSuccess => {
            out.number(8);
        },
        BlockKind::StopError { message } => {
            out.number(9);
            out.text(message.as_str());
        },
        BlockKind::Comment { text } => {
            out.number(10);
            out.text(text.as_str());
        },
    }
    assert(out@ =~= before + (seq![Token::Number(head_number(head_view(*kind)))] + head_fields(
        head_view(*kind),
    )));
}

/// Adds a body that plays a role of its own: one of a branch, a loop or a timeout.
fn add_plain_body(role: u64, body: &Vec<Block>, Ghost(view): Ghost<RoleView>, out: &mut Fingerprint)
    requires
        old(out).wf(),
        role_parts(view) == seq![Token::Number(role as nat)],
    ensures
        final(out).wf(),
        final(out)@ == old(out)@ + body_parts(
            BodyView { role: view, blocks: blocks_view(body@) },
        ),
    decreases body, 2nat,
{
    let ghost before = out@;
    out.number(role);
    out.number(body.len() as u64);
    add_blocks(body, out);
    assert(out@ =~= before + body_parts(BodyView { role: view, blocks: blocks_view(body@) }));
}

fn add_lane(lane: &WatchLane, out: &mut Fingerprint)
    requires
        old(out).wf(),
    ensures
        final(out).wf(),
        final(out)@ == old(out)@ + body_parts(lane_view(*lane)),
    decreases lane, 0nat,
{
    let ghost before = out@;
    out.number(3);
    out.text(lane.id.as_str());
    out.number(flag_number(lane.enabled));
    match &lane.condition {
        PassiveCondition::Text { source_block_id, rule_id } => {
            out.number(0);
            out.text(source_block_id.as_str());
            out.text(rule_id.as_str());
        },
        PassiveCondition::Image { source_block_id, rule_id } => {
            out.number(1);
            out.text(source_block_id.as_str());
            out.text(rule_id.as_str());
        },
    }
    assert(out@ =~= before + role_parts(lane_view(*lane).role));
    out.number(lane.then_body.len() as u64);
    add_blocks(&lane.then_body, out);
    assert(out@ =~= before + body_parts(lane_view(*lane)));
}

fn add_timeout(outcome: &TimeoutOutcome, out: &mut Fingerprint)
    requires
        old(out).wf(),
    ensures
        final(out).wf(),
        final(out)@ == old(out)@ + bodies_parts(outcome_bodies(*outcome)),
    decreases outcome, 0nat,
{
    let ghost before = out@;
    proof {
        lemma_one_body(outcome_bodies(*outcome));
    }
    match outcome {
        TimeoutOutcome::RunBody { body } => {
            add_plain_body(4, body, Ghost(RoleView::Timeout), out);
        },
        _ => {
            assert(out@ =~= before + bodies_parts(outcome_bodies(*outcome)));
        },
    }
}

/// At most one body brings its own parts alone.
proof fn lemma_one_body(bodies: Seq<BodyView>)
    ensures
        bodies.len() == 1 ==> bodies_parts(bodies) == body_parts(bodies[0]),
        bodies.len() == 0 ==> bodies_parts(bodies) == Seq::<Token>::empty(),
{
    if bodies.len() == 1 {
        reveal_with_fuel(bodies_parts, 2);
        assert(bodies.drop_last() =~= Seq::empty());
        assert(bodies_parts(bodies) =~= body_parts(bodies[0]));
    }
}

pub proof fn lemma_bodies_parts_add(left: Seq<BodyView>, right: Seq<BodyView>)
    ensures
        bodies_parts(left + right) == bodies_parts(left) + bodies_parts(right),
    decreases right.len(),
{
    if right.len() == 0 {
        assert(left + right =~= left);
        assert(bodies_parts(left) + bodies_parts(right) =~= bodies_parts(left));
    } else {
        assert((left + right).drop_last() =~= left + right.drop_last());
        lemma_bodies_parts_add(left, right.drop_last());
        assert(bodies_parts(left + right) =~= bodies_parts(left) + bodies_parts(right));
    }
}

/// Adds the body that a mode's timeout may run.
pub fn add_mode_bodies(mode: &ObserveMode, out: &mut Fingerprint)
    requires
        old(out).wf(),
    ensures
        final(out).wf(),
        final(out)@ == old(out)@ + bodies_parts(mode_bodies(*mode)),
    decreases mode, 0nat,
{
    let ghost before = out@;
    match mode {
        ObserveMode::CheckNow => {
            assert(out@ =~= before + bodies_parts(mode_bodies(*mode)));
        },
        ObserveMode::WaitForTrue { timeout_outcome, .. } => add_timeout(timeout_outcome, out),
        ObserveMode::WaitForFalse { timeout_outcome, .. } => add_timeout(timeout_outcome, out),
    }
}

fn add_condition_bodies(condition: &Condition, out: &mut Fingerprint)
    requires
        old(out).wf(),
    ensures
        final(out).wf(),
        final(out)@ == old(out)@ + bodies_parts(condition_bodies(*condition)),
    decreases condition, 0nat,
{
    match condition {
        Condition::Text { mode, .. } => add_mode_bodies(mode, out),
        Condition::Image { mode, .. } => add_mode_bodies(mode, out),
    }
}

/// Adds the bodies of a kind.
fn add_bodies(kind: &BlockKind, out: &mut Fingerprint)
    requires
        old(out).wf(),
    ensures
        final(out).wf(),
        final(out)@ == old(out)@ + bodies_parts(kind_bodies(*kind)),
    decreases kind, 0nat,
{
    let ghost before = out@;
    match kind {
        BlockKind::Observe { condition } => {
            add_condition_bodies(condition, out);
        },
        BlockKind::If { condition, then_body, else_body } => {
            let ghost x = BodyView { role: RoleView::Then, blocks: blocks_view(then_body@) };
            let ghost y = BodyView { role: RoleView::Else, blocks: blocks_view(else_body@) };
            add_plain_body(0, then_body, Ghost(RoleView::Then), out);
            add_plain_body(1, else_body, Ghost(RoleView::Else), out);
            add_condition_bodies(condition, out);
            proof {
                lemma_bodies_parts_add(seq![x, y], condition_bodies(*condition));
                assert(seq![x, y] =~= seq![x] + seq![y]);
                lemma_bodies_parts_add(seq![x], seq![y]);
                lemma_one_body(seq![x]);
                lemma_one_body(seq![y]);
                assert(out@ =~= before + bodies_parts(kind_bodies(*kind)));
            }
        },
        BlockKind::RepeatN { body, .. } => {
            add_plain_body(2, body, Ghost(RoleView::Loop), out);
            proof {
                lemma_one_body(kind_bodies(*kind));
            }
        },
        BlockKind::Continuous { body } => {
            add_plain_body(2, body, Ghost(RoleView::Loop), out);
            proof {
                lemma_one_body(kind_bodies(*kind));
            }
        },
        BlockKind::RepeatUntil { condition, body, .. } => {
            let ghost x = BodyView { role: RoleView::Loop, blocks: blocks_view(body@) };
            add_plain_body(2, body, Ghost(RoleView::Loop), out);
            add_condition_bodies(condition, out);
            proof {
                lemma_bodies_parts_add(seq![x], condition_bodies(*condition));
                lemma_one_body(seq![x]);
                assert(out@ =~= before + bodies_parts(kind_bodies(*kind)));
            }
        },
        BlockKind::WatchGroup { group } => {
            let ghost lanes = lanes_view(group.lanes@);
            let mut i: usize = 0;
            assert(out@ =~= before + bodies_parts(lanes.take(0)));
            while i < group.lanes.len()
                invariant
                    i <= group.lanes@.len(),
                    lanes == lanes_view(group.lanes@),
                    out.wf(),
                    out@ == before + bodies_parts(lanes.take(i as int)),
                    decreases_to!(kind => group.lanes),
                decreases group.lanes@.len() - i,
            {
                proof {
                    assert(lanes.take(i + 1).drop_last() =~= lanes.take(i as int));
                    assert(lanes.take(i + 1).last() == lane_view(group.lanes@[i as int]));
                }
                add_lane(&group.lanes[i], out);
                i += 1;
                assert(out@ =~= before + bodies_parts(lanes.take(i as int)));
            }
            add_timeout(&group.timeout_outcome, out);
            proof {
                assert(lanes.take(i as int) =~= lanes);
                lemma_bodies_parts_add(lanes, outcome_bodies(group.timeout_outcome));
                assert(out@ =~= before + bodies_parts(kind_bodies(*kind)));
            }
        },
        _ => {
            assert(out@ =~= before + bodies_parts(kind_bodies(*kind)));
        },
    }
}

/// Adds the parts of a block.
pub fn add_block(block: &Block, out: &mut Fingerprint)
    requires
        old(out).wf(),
    ensures
        final(out).wf(),
        final(out)@ == old(out)@ + block_parts(block@),
    decreases block, 0nat,
{
    let ghost before = out@;
    let bodies = crate::tree::child_containers(block);
    out.text(block.id.as_str());
    out.number(flag_number(block.enabled));
    add_head(&block.kind, out);
    out.number(bodies.len() as u64);
    add_bodies(&block.kind, out);
    assert(block@.bodies == kind_bodies(block.kind));
    assert(out@ =~= before + block_parts(block@));
}

/// Adds the parts of the blocks of a list.
pub fn add_blocks(blocks: &Vec<Block>, out: &mut Fingerprint)
    requires
        old(out).wf(),
    ensures
        final(out).wf(),
        final(out)@ == old(out)@ + blocks_parts(blocks_view(blocks@)),
    decreases blocks, 1nat,
{
    let ghost before = out@;
    let ghost all = blocks_view(blocks@);
    let mut i: usize = 0;
    assert(out@ =~= before + blocks_parts(all.take(0)));
    while i < blocks.len()
        invariant
            i <= blocks@.len(),
            all == blocks_view(blocks@),
            out.wf(),
            out@ == before + blocks_parts(all.take(i as int)),
        decreases blocks@.len() - i,
    {
        proof {
            assert(all.take(i + 1).drop_last() =~= all.take(i as int));
            assert(all.take(i + 1).last() == block_view(blocks@[i as int]));
        }
        add_block(&blocks[i], out);
        i += 1;
        assert(out@ =~= before + blocks_parts(all.take(i as int)));
    }
    assert(all.take(i as int) =~= all);
}

} // verus!
