//! What holds of the problems of a draft: which actions rest on something stale, and which failed
//! tests still count.
use crate::bodies::body_container;
use crate::container::{container_owner, ContainerView};
use crate::command_view::CommandView;
use crate::draft::{
    any_stands, applied, detector_fingerprint, detector_parts, region_of, stands,
    DetectorFailureView, EditorDraftView,
};
use crate::fingerprint::{lemma_render_injective, render, Token};
use crate::identities::{lemma_first_repeat_none, structural_ids};
use crate::macro_engine::{
    ActionTargetView, ActionView, BlockView, BodyView, ConditionView, HeadView, ImageRule,
    ImageRuleView, MacroDefinitionView, RegionDefinition, RegionDefinitionView, TextRule,
    TextRuleView, ValidationProblemView,
};
use crate::parts::{lemma_option_read_back, option_parts, printed_option, Parts};
use crate::places::{
    action_source, block_places, body_places, draft_problems, failure_problems, places, stale_problems, PlaceView,
};
use crate::rule_edits::{image_rule_is, text_rule_is};
use crate::tree::first_index;
use vstd::prelude::*;

verus! {

/// A block acts on the match of a source.
pub open spec fn acts_on(head: HeadView, source: Seq<char>) -> bool {
    head is Action && match head->action {
        ActionView::ClickTextMatch { source: from, .. } => from == source,
        ActionView::ClickImageMatch { source: from, .. } => from == source,
        ActionView::MoveOnly { target: ActionTargetView::TextMatch { source: from } } => from
            == source,
        ActionView::MoveOnly { target: ActionTargetView::ImageMatch { source: from } } => from
            == source,
        _ => false,
    }
}

/// A problem is that a block acts on a stale source.
pub open spec fn tells_stale(
    problem: ValidationProblemView,
    at: PlaceView,
    invalidated: Set<Seq<char>>,
) -> bool {
    &&& at.live && problem.block_id == Some(at.block.id)
    &&& problem.code == "editor.dependent_action_needs_revalidation"@
    &&& exists|source: Seq<char>|
        invalidated.contains(source) && #[trigger] acts_on(at.block.head, source) && problem.message
            == "action '"@ + at.block.id + "' depends on changed observation source '"@ + source
            + "'; validate the source before running"@
}

/// A block that is on acts on a stale source.
pub open spec fn rests_on_stale(at: PlaceView, invalidated: Set<Seq<char>>) -> bool {
    at.live && exists|source: Seq<char>|
        invalidated.contains(source) && #[trigger] acts_on(at.block.head, source)
}

/// There is a problem for every action that is on and rests on a stale source, and for no other; they
/// come in the order of the blocks.
pub proof fn stale_actions_are_problems(all: Seq<PlaceView>, invalidated: Set<Seq<char>>)
    ensures
        forall|k: int|
            0 <= k < stale_problems(all, invalidated).len() ==> exists|i: int|
                0 <= i < all.len() && tells_stale(
                    #[trigger] stale_problems(all, invalidated)[k],
                    #[trigger] all[i],
                    invalidated,
                ),
        forall|i: int|
            0 <= i < all.len() && rests_on_stale(#[trigger] all[i], invalidated) ==> exists|k: int|
                0 <= k < stale_problems(all, invalidated).len() && tells_stale(
                    #[trigger] stale_problems(all, invalidated)[k],
                    all[i],
                    invalidated,
                ),
    decreases all.len(),
{
    if all.len() > 0 {
        let rest = all.drop_last();
        let last = all.last();
        let before = stale_problems(rest, invalidated);
        let now = stale_problems(all, invalidated);
        stale_actions_are_problems(rest, invalidated);
        let n = all.len() - 1;
        assert(all[n] == last);
        if rests_on_stale(last, invalidated) {
            let source = choose|source: Seq<char>|
                invalidated.contains(source) && #[trigger] acts_on(last.block.head, source);
            assert(action_source(last.block.head) == Some(source));
        }
        if now.len() > before.len() {
            let source = action_source(last.block.head)->0;
            assert(acts_on(last.block.head, source));
            assert(tells_stale(now[before.len() as int], last, invalidated));
        }
        assert forall|k: int| 0 <= k < now.len() implies exists|i: int|
            0 <= i < all.len() && tells_stale(#[trigger] now[k], #[trigger] all[i], invalidated) by {
            if k < before.len() {
                assert(now[k] == before[k]);
                let i = choose|i: int|
                    0 <= i < rest.len() && tells_stale(before[k], #[trigger] rest[i], invalidated);
                assert(all[i] == rest[i]);
                assert(tells_stale(now[k], all[i], invalidated));
            } else {
                assert(tells_stale(now[k], all[n], invalidated));
            }
        }
        assert forall|i: int|
            0 <= i < all.len() && rests_on_stale(
                #[trigger] all[i],
                invalidated,
            ) implies exists|k: int|
            0 <= k < now.len() && tells_stale(#[trigger] now[k], all[i], invalidated) by {
            if i < n {
                assert(rest[i] == all[i]);
                let k = choose|k: int|
                    0 <= k < before.len() && tells_stale(#[trigger] before[k], rest[i], invalidated);
                assert(now[k] == before[k]);
            } else {
                assert(tells_stale(now[before.len() as int], all[i], invalidated));
            }
        }
    }
}

/// A failed test still counts: the block observes by the same detector as when it was tested.
pub open spec fn still_counts(
    definition: MacroDefinitionView,
    failure: DetectorFailureView,
) -> bool {
    detector_fingerprint(definition, failure.block_id) == Some(failure.fingerprint)
}

/// A problem tells a failed test: of which block it was, and what was seen.
pub open spec fn tells_failure(
    problem: ValidationProblemView,
    failure: DetectorFailureView,
) -> bool {
    problem.code == "editor.detector_test_failed"@ && problem.block_id == Some(failure.block_id)
        && problem.message == failure.evidence
}

/// There is a problem for every failed test that still counts, and for no other.
pub proof fn failed_tests_are_problems(
    definition: MacroDefinitionView,
    failures: Seq<DetectorFailureView>,
)
    ensures
        forall|k: int|
            0 <= k < failure_problems(definition, failures).len() ==> exists|i: int|
                0 <= i < failures.len() && still_counts(definition, failures[i]) && tells_failure(
                    #[trigger] failure_problems(definition, failures)[k],
                    #[trigger] failures[i],
                ),
        forall|i: int|
            0 <= i < failures.len() && still_counts(definition, #[trigger] failures[i])
                ==> exists|k: int|
                0 <= k < failure_problems(definition, failures).len() && tells_failure(
                    #[trigger] failure_problems(definition, failures)[k],
                    failures[i],
                ),
    decreases failures.len(),
{
    if failures.len() > 0 {
        let rest = failures.drop_last();
        let before = failure_problems(definition, rest);
        let now = failure_problems(definition, failures);
        failed_tests_are_problems(definition, rest);
        let n = failures.len() - 1;
        assert(failures[n] == failures.last());
        if still_counts(definition, failures.last()) {
            assert(tells_failure(now[before.len() as int], failures[n]));
        }
        assert forall|k: int| 0 <= k < now.len() implies exists|i: int|
            0 <= i < failures.len() && still_counts(definition, failures[i]) && tells_failure(
                #[trigger] now[k],
                #[trigger] failures[i],
            ) by {
            if k < before.len() {
                assert(now[k] == before[k]);
                let i = choose|i: int|
                    0 <= i < rest.len() && still_counts(definition, rest[i]) && tells_failure(
                        before[k],
                        #[trigger] rest[i],
                    );
                assert(failures[i] == rest[i]);
                assert(tells_failure(now[k], failures[i]));
            } else {
                assert(tells_failure(now[k], failures[n]));
            }
        }
        assert forall|i: int|
            0 <= i < failures.len() && still_counts(
                definition,
                #[trigger] failures[i],
            ) implies exists|k: int|
            0 <= k < now.len() && tells_failure(#[trigger] now[k], failures[i]) by {
            if i < n {
                assert(rest[i] == failures[i]);
                let k = choose|k: int|
                    0 <= k < before.len() && tells_failure(#[trigger] before[k], rest[i]);
                assert(now[k] == before[k]);
            } else {
                assert(tells_failure(now[before.len() as int], failures[i]));
            }
        }
    }
}

/// The problems of a draft are those that the runtime finds, then those of stale actions, then those
/// of failed tests.
pub proof fn problems_of_a_draft(draft: EditorDraftView, runtime: Seq<ValidationProblemView>)
    ensures
        draft_problems(draft, runtime) == runtime + (stale_problems(
            places(draft.definition.blocks, ContainerView::Root, true),
            draft.invalidated,
        ) + failure_problems(draft.definition, draft.failures)),
        draft_problems(draft, runtime).take(runtime.len() as int) == runtime,
{
    assert(draft_problems(draft, runtime) =~= runtime + (stale_problems(
        places(draft.definition.blocks, ContainerView::Root, true),
        draft.invalidated,
    ) + failure_problems(draft.definition, draft.failures)));
    assert(draft_problems(draft, runtime).take(runtime.len() as int) =~= runtime);
}

/// A place is on exactly where its block is on and what it stands in is: the list itself, or the
/// place of the block that owns its container.
pub open spec fn on_with_its_owner(
    list: Seq<PlaceView>,
    at: ContainerView,
    live: bool,
    i: int,
) -> bool {
    ||| list[i].container == at && list[i].live == (live && list[i].block.enabled)
    ||| exists|j: int|
        0 <= j < i && container_owner(list[i].container) == Some((#[trigger] list[j]).block.id)
            && list[i].live == (list[j].live && list[i].block.enabled)
}

proof fn lemma_on_joined(
    a: Seq<PlaceView>,
    b: Seq<PlaceView>,
    at: ContainerView,
    live: bool,
)
    requires
        forall|i: int| 0 <= i < a.len() ==> #[trigger] on_with_its_owner(a, at, live, i),
        forall|i: int| 0 <= i < b.len() ==> #[trigger] on_with_its_owner(b, at, live, i),
    ensures
        forall|i: int| 0 <= i < (a + b).len() ==> #[trigger] on_with_its_owner(a + b, at, live, i),
{
    let all = a + b;
    assert forall|i: int| 0 <= i < all.len() implies #[trigger] on_with_its_owner(
        all,
        at,
        live,
        i,
    ) by {
        if i < a.len() {
            assert(all[i] == a[i]);
            assert(on_with_its_owner(a, at, live, i));
            if !(a[i].container == at && a[i].live == (live && a[i].block.enabled)) {
                let j = choose|j: int|
                    0 <= j < i && container_owner(a[i].container) == Some(
                        (#[trigger] a[j]).block.id,
                    ) && a[i].live == (a[j].live && a[i].block.enabled);
                assert(all[j] == a[j]);
            }
        } else {
            let x = i - a.len();
            assert(all[i] == b[x]);
            assert(on_with_its_owner(b, at, live, x));
            if !(b[x].container == at && b[x].live == (live && b[x].block.enabled)) {
                let j = choose|j: int|
                    0 <= j < x && container_owner(b[x].container) == Some(
                        (#[trigger] b[j]).block.id,
                    ) && b[x].live == (b[j].live && b[x].block.enabled);
                assert(all[a.len() + j] == b[j]);
            }
        }
    }
}

/// A block is on exactly where it is enabled and everything that it stands in is enabled too: at the
/// top where the list is on, and in a body where the owner of the body is on.
pub proof fn blocks_are_on_with_their_owners(
    blocks: Seq<BlockView>,
    at: ContainerView,
    live: bool,
)
    ensures
        forall|i: int|
            0 <= i < places(blocks, at, live).len() ==> #[trigger] on_with_its_owner(
                places(blocks, at, live),
                at,
                live,
                i,
            ),
    decreases blocks,
{
    if blocks.len() > 0 {
        let rest = blocks.drop_last();
        let last = blocks.last();
        assert(decreases_to!(blocks => rest));
        assert(decreases_to!(blocks => last));
        blocks_are_on_with_their_owners(rest, at, live);
        lemma_block_is_on(last, at, live);
        lemma_on_joined(places(rest, at, live), block_places(last, at, live), at, live);
    }
}

proof fn lemma_block_is_on(block: BlockView, at: ContainerView, live: bool)
    ensures
        forall|i: int|
            0 <= i < block_places(block, at, live).len() ==> #[trigger] on_with_its_owner(
                block_places(block, at, live),
                at,
                live,
                i,
            ),
    decreases block,
{
    let all = block_places(block, at, live);
    let inner = body_places(block.id, live && block.enabled, block.bodies);
    assert(decreases_to!(block => block.bodies));
    lemma_bodies_are_on(block.id, live && block.enabled, block.bodies);
    assert forall|i: int| 0 <= i < all.len() implies #[trigger] on_with_its_owner(
        all,
        at,
        live,
        i,
    ) by {
        if i > 0 {
            assert(all[i] == inner[i - 1]);
            assert(below_owner(inner, block.id, live && block.enabled, i - 1));
            if container_owner(inner[i - 1].container) == Some(block.id) && inner[i - 1].live == (
            live && block.enabled && inner[i - 1].block.enabled) {
                assert(all[0].block.id == block.id);
                assert(all[0].live == (live && block.enabled));
            } else {
                let j = choose|j: int|
                    0 <= j < i - 1 && container_owner(inner[i - 1].container) == Some(
                        (#[trigger] inner[j]).block.id,
                    ) && inner[i - 1].live == (inner[j].live && inner[i - 1].block.enabled);
                assert(all[j + 1] == inner[j]);
            }
        }
    }
}

/// A place below an owner is on with it, or with the owner of its own container.
spec fn below_owner(list: Seq<PlaceView>, owner: Seq<char>, live: bool, i: int) -> bool {
    ||| container_owner(list[i].container) == Some(owner) && list[i].live == (live
        && list[i].block.enabled)
    ||| exists|j: int|
        0 <= j < i && container_owner(list[i].container) == Some((#[trigger] list[j]).block.id)
            && list[i].live == (list[j].live && list[i].block.enabled)
}

proof fn lemma_bodies_are_on(owner: Seq<char>, live: bool, bodies: Seq<BodyView>)
    ensures
        forall|i: int|
            0 <= i < body_places(owner, live, bodies).len() ==> #[trigger] below_owner(
                body_places(owner, live, bodies),
                owner,
                live,
                i,
            ),
    decreases bodies,
{
    if bodies.len() > 0 {
        let rest = bodies.drop_last();
        let last = bodies.last();
        assert(decreases_to!(bodies => rest));
        assert(decreases_to!(bodies => last.blocks));
        let at = body_container(owner, last.role);
        lemma_bodies_are_on(owner, live, rest);
        blocks_are_on_with_their_owners(last.blocks, at, live);
        let a = body_places(owner, live, rest);
        let b = places(last.blocks, at, live);
        let all = body_places(owner, live, bodies);
        assert forall|i: int| 0 <= i < all.len() implies #[trigger] below_owner(
            all,
            owner,
            live,
            i,
        ) by {
            if i < a.len() {
                assert(all[i] == a[i]);
                assert(below_owner(a, owner, live, i));
                if !(container_owner(a[i].container) == Some(owner) && a[i].live == (live
                    && a[i].block.enabled)) {
                    let j = choose|j: int|
                        0 <= j < i && container_owner(a[i].container) == Some(
                            (#[trigger] a[j]).block.id,
                        ) && a[i].live == (a[j].live && a[i].block.enabled);
                    assert(all[j] == a[j]);
                }
            } else {
                let x = i - a.len();
                assert(all[i] == b[x]);
                assert(on_with_its_owner(b, at, live, x));
                if !(b[x].container == at && b[x].live == (live && b[x].block.enabled)) {
                    let j = choose|j: int|
                        0 <= j < x && container_owner(b[x].container) == Some(
                            (#[trigger] b[j]).block.id,
                        ) && b[x].live == (b[j].live && b[x].block.enabled);
                    assert(all[a.len() + j] == b[j]);
                }
            }
        }
    }
}

/// What a block observes by, as a test of it proves it: the text rule or the image rule, without what
/// verified it, and the region that the rule looks in.
pub open spec fn tested_by(
    definition: MacroDefinitionView,
    condition: ConditionView,
) -> (Option<TextRuleView>, Option<ImageRuleView>, Option<RegionDefinitionView>) {
    let text = first_index(definition.text_rules, text_rule_is(condition.rule));
    let image = first_index(definition.image_rules, image_rule_is(condition.rule));
    if condition.family is Text {
        let rule = definition.text_rules[text->0];
        (
            Some(TextRule::printed(rule)),
            None,
            printed_option::<RegionDefinition>(region_of(definition, rule.region_id)),
        )
    } else {
        let rule = definition.image_rules[image->0];
        (
            None,
            Some(ImageRule::printed(ImageRuleView { verification: None, ..rule })),
            printed_option::<RegionDefinition>(region_of(definition, rule.region_id)),
        )
    }
}

/// A test proves the detector that it was made of, and no other: where the fingerprints of two
/// conditions with a rule are the same, so are the rules and the regions, as they are printed.
pub proof fn tests_prove_their_detector(
    a: MacroDefinitionView,
    x: ConditionView,
    b: MacroDefinitionView,
    y: ConditionView,
)
    requires
        detector_parts(a, x) is Some,
        detector_parts(b, y) is Some,
        render(detector_parts(a, x)->0) == render(detector_parts(b, y)->0),
    ensures
        x.family == y.family,
        tested_by(a, x) == tested_by(b, y),
{
    let left = detector_parts(a, x)->0;
    let right = detector_parts(b, y)->0;
    lemma_render_injective(left, right);
    assert(left[0] == (if x.family is Text {
        Token::Number(0)
    } else {
        Token::Number(1)
    }));
    assert(right[0] == (if y.family is Text {
        Token::Number(0)
    } else {
        Token::Number(1)
    }));
    assert(x.family == y.family);
    let p = left.drop_first();
    let q = right.drop_first();
    if x.family is Text {
        let r = a.text_rules[first_index(a.text_rules, text_rule_is(x.rule))->0];
        let s = b.text_rules[first_index(b.text_rules, text_rule_is(y.rule))->0];
        let m = region_of(a, r.region_id);
        let n = region_of(b, s.region_id);
        assert(p =~= TextRule::parts(r) + option_parts::<RegionDefinition>(m));
        assert(q =~= TextRule::parts(s) + option_parts::<RegionDefinition>(n));
        TextRule::read_back(
            r,
            s,
            option_parts::<RegionDefinition>(m),
            option_parts::<RegionDefinition>(n),
        );
        assert(option_parts::<RegionDefinition>(m) + Seq::<Token>::empty() =~= option_parts::<
            RegionDefinition,
        >(n) + Seq::<Token>::empty());
        lemma_option_read_back::<RegionDefinition>(m, n, Seq::empty(), Seq::empty());
    } else {
        let r = ImageRuleView {
            verification: None,
            ..a.image_rules[first_index(a.image_rules, image_rule_is(x.rule))->0]
        };
        let s = ImageRuleView {
            verification: None,
            ..b.image_rules[first_index(b.image_rules, image_rule_is(y.rule))->0]
        };
        let m = region_of(a, r.region_id);
        let n = region_of(b, s.region_id);
        assert(p =~= ImageRule::parts(r) + option_parts::<RegionDefinition>(m));
        assert(q =~= ImageRule::parts(s) + option_parts::<RegionDefinition>(n));
        ImageRule::read_back(
            r,
            s,
            option_parts::<RegionDefinition>(m),
            option_parts::<RegionDefinition>(n),
        );
        assert(option_parts::<RegionDefinition>(m) + Seq::<Token>::empty() =~= option_parts::<
            RegionDefinition,
        >(n) + Seq::<Token>::empty());
        lemma_option_read_back::<RegionDefinition>(m, n, Seq::empty(), Seq::empty());
    }
}

/// A clean report makes a draft ready, with nothing stale in it, unless a failed test still counts; a
/// report with problems is refused.
pub proof fn clean_reports_make_ready(draft: EditorDraftView, problems: Seq<ValidationProblemView>)
    requires
        draft.editability is Editable,
        structural_ids(draft.definition.blocks).no_duplicates(),
    ensures
        ({
            let (after, answer) = applied(
                draft,
                CommandView::MarkValidated { runtime_problems: problems },
            );
            let failed = exists|i: int|
                0 <= i < draft.failures.len() && still_counts(
                    draft.definition,
                    #[trigger] draft.failures[i],
                );
            &&& answer is Ok <==> problems.len() == 0 && !failed
            &&& answer is Ok ==> after.status is Ready && after.invalidated == Set::<
                Seq<char>,
            >::empty() && after.definition == draft.definition
            &&& answer is Err ==> after == draft
        }),
{
    lemma_first_repeat_none(structural_ids(draft.definition.blocks));
    if exists|i: int|
        0 <= i < draft.failures.len() && still_counts(
            draft.definition,
            #[trigger] draft.failures[i],
        ) {
        let i = choose|i: int|
            0 <= i < draft.failures.len() && still_counts(
                draft.definition,
                #[trigger] draft.failures[i],
            );
        assert(stands(draft.definition, draft.failures[i]));
    }
    if any_stands(draft.definition, draft.failures) {
        let i = choose|i: int|
            0 <= i < draft.failures.len() && stands(draft.definition, #[trigger] draft.failures[i]);
        assert(still_counts(draft.definition, draft.failures[i]));
    }
}

} // verus!
