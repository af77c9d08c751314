//! What holds of what the palette puts in: which observation a new block goes by, what it does, and
//! where it stands.
use crate::command_view::{CommandView, GuardView};
use crate::container::{container, ContainerView};
use crate::editor_types::InsertionTargetView;
use crate::identities::structural_ids;
use crate::macro_engine::{
    ActionView, BlockView, BodyView, ConditionView, HeadView, Limit, MacroDefinitionView, MouseButton,
    OutcomeView, RoleView, TextMatchMode, TextRuleView,
};
use crate::canvas_model::{port_target, PortView, SelectionView};
use crate::palette::{
    add_step, new_block, note_insert, palette_insert, place_for, rejection_text, PaletteKind,
};
use crate::place_laws::{lemma_distinct_blocks, located_block_reads_back, shaped};
use crate::places::{lanes_of, located, sibling_at};
use crate::rule_edits::text_rule_is;
use crate::sources::{
    has_geometry, matched_source_for, matched_sources, observations, source_for, source_is,
    sources_in, with_geometry,
};
use crate::tree::{
    first_index, flatten, found_block, has_id, lemma_first_index, lemma_first_where_found,
};
use vstd::prelude::*;

verus! {

/// What a block observes, under its own name.
pub open spec fn observed_by(block: BlockView) -> (Seq<char>, GuardView) {
    (
        block.id,
        GuardView { condition: block.head->Observe_condition, bodies: block.bodies },
    )
}

/// A text rule of an identity, the first where there are several, finds its text rather than the
/// absence of it.
pub open spec fn finds_text(rules: Seq<TextRuleView>, id: Seq<char>) -> bool {
    exists|i: int|
        0 <= i < rules.len() && (#[trigger] rules[i]).id == id && rules[i].match_mode
            != TextMatchMode::Absent && forall|j: int| 0 <= j < i ==> (#[trigger] rules[j]).id != id
}

/// A block observes something that has a place when it is found: an image, or a text that a rule of
/// the macro looks for.
pub open spec fn finds_a_place(definition: MacroDefinitionView, block: BlockView) -> bool {
    block.head is Observe && (block.head->Observe_condition.family is Image || finds_text(
        definition.text_rules,
        block.head->Observe_condition.rule,
    ))
}

/// A block is the first of a walk that a predicate holds of.
pub open spec fn is_first(
    flat: Seq<BlockView>,
    holds: spec_fn(BlockView) -> bool,
    i: int,
) -> bool {
    0 <= i < flat.len() && holds(flat[i]) && forall|j: int| 0 <= j < i ==> !holds(#[trigger] flat[j])
}

/// A source is what some block of a walk observes that a predicate holds of.
pub open spec fn comes_from(
    source: (Seq<char>, GuardView),
    flat: Seq<BlockView>,
    holds: spec_fn(BlockView) -> bool,
) -> bool {
    exists|i: int|
        0 <= i < flat.len() && holds(#[trigger] flat[i]) && source == observed_by(flat[i])
}

/// A list of sources is what the blocks of a walk observe of which a predicate holds, the first
/// first.
#[verifier::opaque]
spec fn lists(
    list: Seq<(Seq<char>, GuardView)>,
    flat: Seq<BlockView>,
    holds: spec_fn(BlockView) -> bool,
) -> bool {
    &&& list.len() == 0 <==> forall|i: int| 0 <= i < flat.len() ==> !holds(#[trigger] flat[i])
    &&& forall|i: int| #[trigger]
        is_first(flat, holds, i) ==> list.len() > 0 && list[0] == observed_by(flat[i])
    &&& forall|k: int| 0 <= k < list.len() ==> comes_from(#[trigger] list[k], flat, holds)
    &&& forall|i: int|
        0 <= i < flat.len() && holds(#[trigger] flat[i]) ==> list.contains(observed_by(flat[i]))
}

proof fn lemma_lists_step(
    list: Seq<(Seq<char>, GuardView)>,
    more: Seq<(Seq<char>, GuardView)>,
    flat: Seq<BlockView>,
    holds: spec_fn(BlockView) -> bool,
)
    requires
        flat.len() > 0,
        lists(list, flat.drop_last(), holds),
        more == (if holds(flat.last()) {
            list.push(observed_by(flat.last()))
        } else {
            list
        }),
    ensures
        lists(more, flat, holds),
{
    reveal(lists);
    let rest = flat.drop_last();
    let n = rest.len() as int;
    assert(flat[n] == flat.last());
    assert(forall|i: int| 0 <= i < n ==> flat[i] == rest[i]);
    if holds(flat.last()) {
        assert(more[list.len() as int] == observed_by(flat.last()));
    }
    assert(more.len() == 0 <==> forall|i: int|
        0 <= i < flat.len() ==> !holds(#[trigger] flat[i])) by {
        if more.len() == 0 {
            assert forall|i: int| 0 <= i < flat.len() implies !holds(#[trigger] flat[i]) by {
                if i < n {
                    assert(!holds(rest[i]));
                }
            }
        } else if forall|i: int| 0 <= i < flat.len() ==> !holds(#[trigger] flat[i]) {
            assert forall|i: int| 0 <= i < n implies !holds(#[trigger] rest[i]) by {
                assert(!holds(flat[i]));
            }
            assert(!holds(flat[n]));
        }
    }
    assert forall|i: int| #[trigger] is_first(flat, holds, i) implies more.len() > 0 && more[0]
        == observed_by(flat[i]) by {
        if i < n {
            assert forall|j: int| 0 <= j < i implies !holds(#[trigger] rest[j]) by {
                assert(!holds(flat[j]));
            }
            assert(is_first(rest, holds, i));
            assert(more[0] == list[0]);
        } else {
            assert forall|j: int| 0 <= j < n implies !holds(#[trigger] rest[j]) by {
                assert(!holds(flat[j]));
            }
            assert(list.len() == 0);
        }
    }
    assert forall|k: int| 0 <= k < more.len() implies comes_from(
        #[trigger] more[k],
        flat,
        holds,
    ) by {
        if k < list.len() {
            assert(comes_from(list[k], rest, holds));
            let i = choose|i: int|
                0 <= i < rest.len() && holds(#[trigger] rest[i]) && list[k] == observed_by(rest[i]);
            assert(holds(flat[i]));
        } else {
            assert(holds(flat[n]));
        }
    }
    assert forall|i: int| 0 <= i < flat.len() && holds(#[trigger] flat[i]) implies more.contains(
        observed_by(flat[i]),
    ) by {
        if i < n {
            assert(holds(rest[i]));
            let k = list.index_of(observed_by(rest[i]));
            assert(more[k] == observed_by(flat[i]));
        }
    }
}

proof fn lemma_observations(flat: Seq<BlockView>)
    ensures
        lists(observations(flat), flat, |block: BlockView| block.head is Observe),
    decreases flat.len(),
{
    if flat.len() > 0 {
        lemma_observations(flat.drop_last());
        lemma_lists_step(
            observations(flat.drop_last()),
            observations(flat),
            flat,
            |block: BlockView| block.head is Observe,
        );
    } else {
        reveal(lists);
    }
}

proof fn lemma_geometry(rules: Seq<TextRuleView>, condition: ConditionView)
    ensures
        has_geometry(rules, condition) == (condition.family is Image || finds_text(
            rules,
            condition.rule,
        )),
{
    lemma_first_index(rules, text_rule_is(condition.rule));
    if finds_text(rules, condition.rule) {
        let i = choose|i: int|
            0 <= i < rules.len() && (#[trigger] rules[i]).id == condition.rule
                && rules[i].match_mode != TextMatchMode::Absent && forall|j: int|
                0 <= j < i ==> (#[trigger] rules[j]).id != condition.rule;
        assert(text_rule_is(condition.rule)(rules[i]));
        let k = first_index(rules, text_rule_is(condition.rule))->0;
        assert(rules[k].id == condition.rule);
    }
    if first_index(rules, text_rule_is(condition.rule)) is Some {
        let k = first_index(rules, text_rule_is(condition.rule))->0;
        assert forall|j: int| 0 <= j < k implies (#[trigger] rules[j]).id != condition.rule by {
            assert(!text_rule_is(condition.rule)(rules[j]));
        }
        assert(rules[k].id == condition.rule);
    }
}

proof fn lemma_matched(definition: MacroDefinitionView, flat: Seq<BlockView>)
    ensures
        lists(
            with_geometry(definition.text_rules, observations(flat)),
            flat,
            |block: BlockView| finds_a_place(definition, block),
        ),
    decreases flat.len(),
{
    let rules = definition.text_rules;
    if flat.len() > 0 {
        let rest = flat.drop_last();
        let last = flat.last();
        lemma_matched(definition, rest);
        let list = with_geometry(rules, observations(rest));
        let more = with_geometry(rules, observations(flat));
        if last.head is Observe {
            let condition = last.head->Observe_condition;
            assert(observations(flat).drop_last() =~= observations(rest));
            assert(observations(flat).last() == observed_by(last));
            lemma_geometry(rules, condition);
        }
        lemma_lists_step(
            list,
            more,
            flat,
            |block: BlockView| finds_a_place(definition, block),
        );
    } else {
        reveal(lists);
        assert(observations(flat) =~= Seq::empty());
    }
}

/// The sources for a click are the observations that find a place, and only these.
pub proof fn clicks_go_by_what_has_a_place(definition: MacroDefinitionView)
    ensures
        ({
            let flat = flatten(definition.blocks);
            let list = matched_sources(definition);
            &&& forall|k: int|
                0 <= k < list.len() ==> comes_from(
                    #[trigger] list[k],
                    flat,
                    |block: BlockView| finds_a_place(definition, block),
                )
            &&& forall|i: int|
                0 <= i < flat.len() && finds_a_place(definition, #[trigger] flat[i])
                    ==> list.contains(observed_by(flat[i]))
        }),
{
    let flat = flatten(definition.blocks);
    let list = matched_sources(definition);
    let holds = |block: BlockView| finds_a_place(definition, block);
    lemma_matched(definition, flat);
    reveal(lists);
    assert forall|i: int|
        0 <= i < flat.len() && finds_a_place(definition, #[trigger] flat[i]) implies list.contains(
        observed_by(flat[i]),
    ) by {
        assert(holds(flat[i]));
    }
}

/// A new click goes by the selected block where that observes something with a place, and otherwise
/// by the first block that does; there is none to go by exactly where no block does.
pub proof fn clicks_go_by_the_selected_block(
    definition: MacroDefinitionView,
    selected: Option<Seq<char>>,
)
    requires
        shaped(definition.blocks),
        structural_ids(definition.blocks).no_duplicates(),
    ensures
        ({
            let flat = flatten(definition.blocks);
            let source = matched_source_for(definition, selected);
            let chosen = found_block(definition.blocks, selected->0);
            let holds = |block: BlockView| finds_a_place(definition, block);
            if selected is Some && chosen is Some && finds_a_place(definition, chosen->0) {
                source == Some(observed_by(chosen->0))
            } else {
                &&& source is None <==> forall|i: int|
                    0 <= i < flat.len() ==> !finds_a_place(definition, #[trigger] flat[i])
                &&& forall|i: int| #[trigger]
                    is_first(flat, holds, i) ==> source == Some(observed_by(flat[i]))
            }
        }),
{
    let flat = flatten(definition.blocks);
    let list = matched_sources(definition);
    let holds = |block: BlockView| finds_a_place(definition, block);
    lemma_matched(definition, flat);
    reveal(lists);
    lemma_distinct_blocks(flat);
    assert(list.len() == 0 <==> forall|i: int|
        0 <= i < flat.len() ==> !finds_a_place(definition, #[trigger] flat[i])) by {
        if forall|i: int| 0 <= i < flat.len() ==> !finds_a_place(definition, #[trigger] flat[i]) {
            assert forall|i: int| 0 <= i < flat.len() implies !holds(#[trigger] flat[i]) by {}
        }
        if list.len() == 0 {
            assert forall|i: int| 0 <= i < flat.len() implies !finds_a_place(
                definition,
                #[trigger] flat[i],
            ) by {
                assert(!holds(flat[i]));
            }
        }
    }
    if let Some(id) = selected {
        let at = lemma_first_where_found(flat, has_id(id));
        lemma_first_index(list, source_is(id));
        if found_block(definition.blocks, id) is Some && finds_a_place(definition, flat[at]) {
            assert(holds(flat[at]));
            let k = list.index_of(observed_by(flat[at]));
            assert(source_is(id)(list[k]));
        }
        if first_index(list, source_is(id)) is Some {
            let k = first_index(list, source_is(id))->0;
            assert(comes_from(list[k], flat, holds));
            let i = choose|i: int|
                0 <= i < flat.len() && holds(#[trigger] flat[i]) && list[k] == observed_by(flat[i]);
            assert(has_id(id)(flat[i]));
            assert(flat[i].id == flat[at].id);
            assert(i == at);
        }
    }
}

/// A new IF or watch group goes by the selected block where that observes something, and otherwise
/// by the first block that does; there is none to go by exactly where no block does.
pub proof fn branches_go_by_the_selected_block(blocks: Seq<BlockView>, selected: Option<Seq<char>>)
    requires
        shaped(blocks),
        structural_ids(blocks).no_duplicates(),
    ensures
        ({
            let flat = flatten(blocks);
            let source = source_for(blocks, selected);
            let chosen = found_block(blocks, selected->0);
            let holds = |block: BlockView| block.head is Observe;
            if selected is Some && chosen is Some && chosen->0.head is Observe {
                source == Some(observed_by(chosen->0))
            } else {
                &&& source is None <==> forall|i: int|
                    0 <= i < flat.len() ==> (#[trigger] flat[i]).head !is Observe
                &&& forall|i: int| #[trigger]
                    is_first(flat, holds, i) ==> source == Some(observed_by(flat[i]))
            }
        }),
{
    let flat = flatten(blocks);
    let list = sources_in(blocks);
    let holds = |block: BlockView| block.head is Observe;
    lemma_observations(flat);
    reveal(lists);
    assert(list.len() == 0 <==> forall|i: int|
        0 <= i < flat.len() ==> (#[trigger] flat[i]).head !is Observe) by {
        if forall|i: int| 0 <= i < flat.len() ==> (#[trigger] flat[i]).head !is Observe {
            assert forall|i: int| 0 <= i < flat.len() implies !holds(#[trigger] flat[i]) by {}
        }
        if list.len() == 0 {
            assert forall|i: int| 0 <= i < flat.len() implies (#[trigger] flat[i]).head
                !is Observe by {
                assert(!holds(flat[i]));
            }
        }
    }
    if let Some(id) = selected {
        located_block_reads_back(blocks, id);
    }
}

/// What a new block of the palette is: a new observation looks for the first text rule, or else the
/// first image rule, at once; a new click is a left click on the match of the observation it goes by,
/// of its kind; a new IF branches on that observation at once, with two empty branches; a new watch
/// group has one empty lane that watches it; a new loop repeats twice, with an empty body; a new wait
/// takes a quarter of a second; a new stop ends the run well.
pub proof fn palette_blocks_are_what_they_are_called(
    definition: MacroDefinitionView,
    selected: Option<Seq<char>>,
    kind: PaletteKind,
)
    ensures
        ({
            let result = new_block(definition, selected, kind);
            let block = result->Ok_0;
            let click = matched_source_for(definition, selected);
            let branch = source_for(definition.blocks, selected);
            &&& result is Ok ==> block.enabled
            &&& match kind {
                PaletteKind::Observe => {
                    &&& result is Ok <==> definition.text_rules.len() + definition.image_rules.len()
                        > 0
                    &&& result is Ok ==> block.head is Observe && block.bodies.len() == 0 && {
                        let condition = block.head->Observe_condition;
                        &&& condition.source == block.id && condition.wait is CheckNow
                        &&& definition.text_rules.len() > 0 ==> condition.family is Text
                            && condition.rule == definition.text_rules[0].id
                        &&& definition.text_rules.len() == 0 ==> condition.family is Image
                            && condition.rule == definition.image_rules[0].id
                    }
                },
                PaletteKind::Action => {
                    &&& result is Ok <==> click is Some
                    &&& result is Ok ==> block.head is Action && block.bodies.len() == 0 && {
                        let (source, guard) = click->0;
                        &&& guard.condition.family is Text ==> block.head->action == (
                        ActionView::ClickTextMatch { source, button: MouseButton::Left })
                        &&& guard.condition.family is Image ==> block.head->action == (
                        ActionView::ClickImageMatch { source, button: MouseButton::Left })
                    }
                },
                PaletteKind::If => {
                    &&& result is Ok <==> branch is Some
                    &&& result is Ok ==> block.head is If && {
                        let (source, guard) = branch->0;
                        let condition = block.head->If_condition;
                        &&& condition.source == source && condition.rule == guard.condition.rule
                        &&& condition.family == guard.condition.family
                        &&& condition.wait is CheckNow
                        &&& block.bodies == seq![
                            BodyView { role: RoleView::Then, blocks: Seq::empty() },
                            BodyView { role: RoleView::Else, blocks: Seq::empty() },
                        ]
                    }
                },
                PaletteKind::Repeat => result is Ok && block.head == (HeadView::RepeatN { count: 2 })
                    && block.bodies == seq![
                    BodyView { role: RoleView::Loop, blocks: Seq::<BlockView>::empty() },
                ],
                PaletteKind::Watch => {
                    &&& result is Ok <==> branch is Some
                    &&& result is Ok ==> block.head == (HeadView::WatchGroup {
                        timeout_ms: Limit::Unlimited,
                        outcome: OutcomeView::Continue,
                        cooldown_ms: 250,
                    }) && block.bodies.len() == 1 && block.bodies[0].role is Lane
                        && block.bodies[0].blocks.len() == 0 && {
                        let (source, guard) = branch->0;
                        let lane = block.bodies[0].role;
                        &&& lane->enabled && lane->Lane_condition.source == source
                        &&& lane->Lane_condition.rule == guard.condition.rule
                        &&& lane->Lane_condition.family == guard.condition.family
                    }
                },
                PaletteKind::Wait => result is Ok && block.head == (HeadView::Wait {
                    duration_ms: 250,
                }) && block.bodies.len() == 0,
                PaletteKind::Stop => result is Ok && block.head is StopSuccess && block.bodies.len()
                    == 0,
            }
        }),
{
}

/// A place is behind the last block of a container.
pub open spec fn at_the_end(
    blocks: Seq<BlockView>,
    target: InsertionTargetView,
    path: ContainerView,
) -> bool {
    target.container == path && container(blocks, path) is Some ==> target.index == container(
        blocks,
        path,
    )->0.len()
}

/// Where a new block goes: into THEN of a selected IF, into the body of a selected loop, into the
/// first lane of a selected watch group, into a selected lane or timeout, each at the end; right
/// behind any other selected block; and to the end of the macro where nothing of it is selected.
pub proof fn new_blocks_go_by_the_selection(blocks: Seq<BlockView>, selected: Option<SelectionView>)
    requires
        shaped(blocks),
        structural_ids(blocks).no_duplicates(),
    ensures
        ({
            let target = place_for(blocks, selected);
            match selected {
                Some(SelectionView::Block(id)) => match found_block(blocks, id) {
                    None => target.container is Root && target.index == blocks.len(),
                    Some(block) => match block.head {
                        HeadView::If { .. } => target.container == (ContainerView::IfThen {
                            if_id: id,
                        }) && at_the_end(blocks, target, ContainerView::IfThen { if_id: id }),
                        HeadView::RepeatN { .. } => target.container == (ContainerView::LoopBody {
                            loop_id: id,
                        }) && at_the_end(blocks, target, ContainerView::LoopBody { loop_id: id }),
                        HeadView::RepeatUntil { .. } => target.container == (
                        ContainerView::LoopBody { loop_id: id }) && at_the_end(
                            blocks,
                            target,
                            ContainerView::LoopBody { loop_id: id },
                        ),
                        HeadView::Continuous => target.container == (ContainerView::LoopBody {
                            loop_id: id,
                        }) && at_the_end(blocks, target, ContainerView::LoopBody { loop_id: id }),
                        HeadView::WatchGroup { .. } if lanes_of(block).len() > 0 => {
                            let lane = ContainerView::WatchLaneBody {
                                watch_id: id,
                                lane_id: lanes_of(block)[0].role->Lane_id,
                            };
                            target.container == lane && at_the_end(blocks, target, lane)
                        },
                        _ => located(blocks, id) is Some && target.container == located(
                            blocks,
                            id,
                        )->0.container && (sibling_at(
                            blocks,
                            located(blocks, id)->0,
                        ) matches Some((index, _)) && target.index == index + 1),
                    },
                },
                Some(SelectionView::Lane { group_id, lane_id }) => {
                    let lane = ContainerView::WatchLaneBody { watch_id: group_id, lane_id };
                    target.container == lane && at_the_end(blocks, target, lane)
                },
                Some(SelectionView::TimeoutBody { owner_id }) => {
                    let late = ContainerView::TimeoutBody { owner_id };
                    if container(blocks, late) is Some {
                        target.container == late && at_the_end(blocks, target, late)
                    } else {
                        target.container is Root && target.index == blocks.len()
                    }
                },
                _ => target.container is Root && target.index == blocks.len(),
            }
        }),
{
    if let Some(SelectionView::Block(id)) = selected {
        located_block_reads_back(blocks, id);
        let at = lemma_first_where_found(flatten(blocks), has_id(id));
    }
}

/// A step that is added at a port goes where the port leads, and is refused where it leads nowhere;
/// one that is added without a port goes by the selection. It is the same block either way.
pub proof fn steps_are_added_at_their_port(
    definition: MacroDefinitionView,
    selected: Option<SelectionView>,
    port: PortView,
    kind: PaletteKind,
)
    ensures
        ({
            let plain = palette_insert(definition, selected, kind);
            let at_port = add_step(definition, selected, Some(port), kind);
            let led = port_target(definition.blocks, port);
            &&& add_step(definition, selected, None, kind) == plain
            &&& plain is Ok ==> plain->Ok_0 is InsertBlock && plain->Ok_0->InsertBlock_target
                == place_for(definition.blocks, selected)
            &&& plain is Ok && led is Ok ==> at_port == Ok::<_, Seq<char>>(
                CommandView::InsertBlock {
                    target: led->Ok_0,
                    block: plain->Ok_0->InsertBlock_block,
                },
            )
            &&& plain is Ok && led is Err ==> at_port == Err::<CommandView, _>(
                rejection_text(led->Err_0),
            )
            &&& plain is Err ==> at_port is Err
        }),
{
}

/// A note is a comment that is put at the end of the macro, or where a port leads.
pub proof fn notes_are_comments(definition: MacroDefinitionView, port: Option<PortView>)
    ensures
        ({
            let result = note_insert(definition, port);
            let led = port_target(definition.blocks, port->0);
            &&& port is Some && led is Err ==> result == Err::<CommandView, _>(
                rejection_text(led->Err_0),
            )
            &&& port is None || led is Ok ==> result is Ok && result->Ok_0 is InsertBlock && {
                let block = result->Ok_0->InsertBlock_block;
                let target = result->Ok_0->InsertBlock_target;
                &&& block.head == (HeadView::Comment { text: "New step"@ }) && block.enabled
                &&& block.bodies.len() == 0
                &&& port is None ==> target.container is Root && target.index
                    == definition.blocks.len()
                &&& port is Some ==> target == led->Ok_0
            }
        }),
{
}

} // verus!
