//! What new blocks can refer to: the observations of a draft, and identities that are not taken.
use crate::command_view::GuardView;
use crate::content::{option_view, views};
use crate::draft::EditorDraft;
use crate::edits::block_at;
use crate::identities::{structural_id_set, structural_ids};
use crate::macro_engine::{
    BlockKind, BlockView, Condition, ConditionView, DetectorFamily, HeadView, MacroDefinition,
    MacroDefinitionView, ObserveMode, TextMatchMode, TextRuleView, WaitView,
};
use crate::places::{block_at_path, locate_block_path, located};
use crate::rule_edits::{text_rule_is, text_rule_position};
use crate::text::{append_wide_decimal, decimal, lemma_decimal_injective, same_text};
use crate::tree::{first_index, flatten, walk};
use vstd::prelude::*;
use vstd::string::StringExecFns;

verus! {

broadcast use crate::macro_engine::group_block_views;

/// An observation that a block makes, if it makes one.
pub open spec fn observation_of(block: BlockView) -> Option<(Seq<char>, GuardView)> {
    match block.head {
        HeadView::Observe { condition } => Some(
            (block.id, GuardView { condition, bodies: block.bodies }),
        ),
        _ => None,
    }
}

/// The observations of a list of blocks, in its order.
pub open spec fn observations(flat: Seq<BlockView>) -> Seq<(Seq<char>, GuardView)>
    decreases flat.len(),
{
    if flat.len() == 0 {
        Seq::empty()
    } else {
        let rest = observations(flat.drop_last());
        match observation_of(flat.last()) {
            Some(source) => rest.push(source),
            None => rest,
        }
    }
}

/// The observations anywhere in a tree of blocks, in the order of the walk.
pub open spec fn sources_in(blocks: Seq<BlockView>) -> Seq<(Seq<char>, GuardView)> {
    observations(flatten(blocks))
}

/// The observations of a draft, in every body that a block owns.
pub fn observation_sources(draft: &EditorDraft) -> (sources: Vec<(String, Condition)>)
    ensures
        views(sources@) == sources_in(draft@.definition.blocks),
{
    let all = walk(&draft.definition.blocks);
    let ghost flat = views(all@);
    let mut sources: Vec<(String, Condition)> = Vec::new();
    let mut i: usize = 0;
    assert(views(sources@) =~= observations(flat.take(0)));
    while i < all.len()
        invariant
            i <= all@.len(),
            flat == views(all@),
            views(sources@) == observations(flat.take(i as int)),
        decreases all@.len() - i,
    {
        let block = all[i];
        let ghost before = views(sources@);
        proof {
            assert(flat.take(i + 1).drop_last() =~= flat.take(i as int));
            assert(flat.take(i + 1).last() == block@);
        }
        if let BlockKind::Observe { condition } = &block.kind {
            sources.push((block.id.clone(), condition.clone()));
            assert(views(sources@) =~= before.push(observation_of(block@)->0));
        }
        i += 1;
    }
    assert(flat.take(i as int) =~= flat);
    sources
}

/// An observation tells where its match is: an image always, a text unless it is looked for to be
/// absent.
pub open spec fn has_geometry(rules: Seq<TextRuleView>, condition: ConditionView) -> bool {
    match condition.family {
        DetectorFamily::Image => true,
        DetectorFamily::Text => match first_index(rules, text_rule_is(condition.rule)) {
            Some(i) => rules[i].match_mode != TextMatchMode::Absent,
            None => false,
        },
    }
}

pub fn observation_has_match_geometry(definition: &MacroDefinition, condition: &Condition) -> (result:
    bool)
    ensures
        result == has_geometry(definition@.text_rules, condition@.condition),
{
    match condition {
        Condition::Image { .. } => true,
        Condition::Text { rule_id, .. } => match text_rule_position(
            &definition.text_rules,
            rule_id.as_str(),
        ) {
            Some(i) => definition.text_rules[i].match_mode != TextMatchMode::Absent,
            None => false,
        },
    }
}

/// Those of some observations that tell where their match is.
pub open spec fn with_geometry(
    rules: Seq<TextRuleView>,
    sources: Seq<(Seq<char>, GuardView)>,
) -> Seq<(Seq<char>, GuardView)>
    decreases sources.len(),
{
    if sources.len() == 0 {
        Seq::empty()
    } else {
        let rest = with_geometry(rules, sources.drop_last());
        if has_geometry(rules, sources.last().1.condition) {
            rest.push(sources.last())
        } else {
            rest
        }
    }
}

/// The observations of a definition that an action can click.
pub open spec fn matched_sources(definition: MacroDefinitionView) -> Seq<(Seq<char>, GuardView)> {
    with_geometry(definition.text_rules, sources_in(definition.blocks))
}

pub fn matched_observation_sources(draft: &EditorDraft) -> (sources: Vec<(String, Condition)>)
    ensures
        views(sources@) == matched_sources(draft@.definition),
{
    let all = observation_sources(draft);
    let ghost list = views(all@);
    let ghost rules = draft@.definition.text_rules;
    let mut sources: Vec<(String, Condition)> = Vec::new();
    let mut i: usize = 0;
    assert(views(sources@) =~= with_geometry(rules, list.take(0)));
    while i < all.len()
        invariant
            i <= all@.len(),
            list == views(all@),
            rules == draft@.definition.text_rules,
            views(sources@) == with_geometry(rules, list.take(i as int)),
        decreases all@.len() - i,
    {
        let source = &all[i];
        let ghost before = views(sources@);
        proof {
            assert(list.take(i + 1).drop_last() =~= list.take(i as int));
            assert(list.take(i + 1).last() == source@);
        }
        if observation_has_match_geometry(&draft.definition, &source.1) {
            sources.push((source.0.clone(), source.1.clone()));
            assert(views(sources@) =~= before.push(source@));
        }
        i += 1;
    }
    assert(list.take(i as int) =~= list);
    sources
}

/// The first of a list, if there is one.
pub open spec fn first_of<T>(list: Seq<T>) -> Option<T> {
    if list.len() == 0 {
        None
    } else {
        Some(list[0])
    }
}

/// The observation that a selected block makes.
pub open spec fn selected_source(blocks: Seq<BlockView>, selected: Option<Seq<char>>) -> Option<
    (Seq<char>, GuardView),
> {
    match selected {
        None => None,
        Some(id) => match located(blocks, id) {
            None => None,
            Some(path) => match block_at(blocks, path) {
                Ok(block) => observation_of(block),
                Err(_) => None,
            },
        },
    }
}

/// The observation that a new block refers to: the selected one, or else the first.
pub open spec fn source_for(blocks: Seq<BlockView>, selected: Option<Seq<char>>) -> Option<
    (Seq<char>, GuardView),
> {
    match selected_source(blocks, selected) {
        Some(source) => Some(source),
        None => first_of(sources_in(blocks)),
    }
}

/// Takes the first of a list.
fn take_first(list: Vec<(String, Condition)>) -> (first: Option<(String, Condition)>)
    ensures
        option_view(first) == first_of(views(list@)),
{
    if list.len() == 0 {
        None
    } else {
        Some((list[0].0.clone(), list[0].1.clone()))
    }
}

pub fn observation_source(draft: &EditorDraft, selected_id: Option<&str>) -> (source: Option<
    (String, Condition),
>)
    ensures
        option_view(source) == source_for(draft@.definition.blocks, option_view(selected_id)),
{
    if let Some(id) = selected_id {
        if let Some(path) = locate_block_path(&draft.definition, id) {
            if let Some(block) = block_at_path(&draft.definition, &path) {
                if let BlockKind::Observe { condition } = &block.kind {
                    return Some((block.id.clone(), condition.clone()));
                }
            }
        }
    }
    take_first(observation_sources(draft))
}

/// The predicate that picks the observation of a block.
pub open spec fn source_is(id: Seq<char>) -> spec_fn((Seq<char>, GuardView)) -> bool {
    |source: (Seq<char>, GuardView)| source.0 == id
}

/// The observation that a new action clicks: the selected one if it can, or else the first that
/// can.
pub open spec fn matched_source_for(
    definition: MacroDefinitionView,
    selected: Option<Seq<char>>,
) -> Option<(Seq<char>, GuardView)> {
    let list = matched_sources(definition);
    match selected {
        Some(id) => match first_index(list, source_is(id)) {
            Some(i) => Some(list[i]),
            None => first_of(list),
        },
        None => first_of(list),
    }
}

pub fn matched_observation_source(draft: &EditorDraft, selected_id: Option<&str>) -> (source: Option<
    (String, Condition),
>)
    ensures
        option_view(source) == matched_source_for(draft@.definition, option_view(selected_id)),
{
    let sources = matched_observation_sources(draft);
    let ghost list = views(sources@);
    if let Some(id) = selected_id {
        let mut i: usize = 0;
        while i < sources.len()
            invariant
                i <= sources@.len(),
                list == views(sources@),
                list == matched_sources(draft@.definition),
                selected_id == Some(id),
                forall|j: int| 0 <= j < i ==> (#[trigger] list[j]).0 != id@,
            decreases sources@.len() - i,
        {
            assert(list[i as int] == sources@[i as int]@);
            if same_text(sources[i].0.as_str(), id) {
                proof {
                    crate::tree::lemma_is_first_index(list, source_is(id@), i as int);
                }
                return Some((sources[i].0.clone(), sources[i].1.clone()));
            }
            i += 1;
        }
        proof {
            crate::tree::lemma_first_index(list, source_is(id@));
        }
    }
    take_first(sources)
}

/// A condition that checks at once what another one observes, under a source of its own.
pub open spec fn checked_now(condition: ConditionView, source: Seq<char>) -> GuardView {
    GuardView {
        condition: ConditionView { source, wait: WaitView::CheckNow, ..condition },
        bodies: Seq::empty(),
    }
}

pub fn condition_with_source(condition: Condition, source_block_id: String) -> (result: Condition)
    ensures
        result@ == checked_now(condition@.condition, source_block_id@),
{
    match condition {
        Condition::Text { rule_id, .. } => Condition::Text {
            source_block_id,
            rule_id,
            mode: ObserveMode::CheckNow,
        },
        Condition::Image { rule_id, .. } => Condition::Image {
            source_block_id,
            rule_id,
            mode: ObserveMode::CheckNow,
        },
    }
}

/// The identity that an ordinal stands for.
pub open spec fn numbered(prefix: Seq<char>, ordinal: nat) -> Seq<char> {
    prefix + "-"@ + decimal(ordinal)
}

/// An ordinal is the first that is not taken.
pub open spec fn first_free(prefix: Seq<char>, used: Set<Seq<char>>, ordinal: nat) -> bool {
    &&& ordinal >= 1
    &&& !used.contains(numbered(prefix, ordinal))
    &&& forall|m: nat| 1 <= m < ordinal ==> used.contains(#[trigger] numbered(prefix, m))
}

/// The identity of a new block: the first ordinal behind its prefix that is not taken.
pub open spec fn fresh_id(prefix: Seq<char>, used: Set<Seq<char>>) -> Seq<char> {
    numbered(prefix, choose|ordinal: nat| first_free(prefix, used, ordinal))
}

proof fn lemma_fresh_id(prefix: Seq<char>, used: Set<Seq<char>>, ordinal: nat)
    requires
        first_free(prefix, used, ordinal),
    ensures
        fresh_id(prefix, used) == numbered(prefix, ordinal),
{
    let chosen = choose|k: nat| first_free(prefix, used, k);
    assert(first_free(prefix, used, chosen));
    if chosen < ordinal {
        assert(used.contains(numbered(prefix, chosen)));
    } else if ordinal < chosen {
        assert(used.contains(numbered(prefix, ordinal)));
    }
}

pub proof fn lemma_ordinals_bounded(prefix: Seq<char>, used: Set<Seq<char>>, n: nat)
    requires
        used.finite(),
        forall|m: nat| 1 <= m < n + 1 ==> used.contains(#[trigger] numbered(prefix, m)),
    ensures
        n <= used.len(),
{
    let taken = Seq::new(n, |i: int| numbered(prefix, (i + 1) as nat));
    assert forall|i: int, j: int|
        0 <= i < taken.len() && 0 <= j < taken.len() && i != j implies taken[i] != taken[j] by {
        if taken[i] == taken[j] {
            let head = prefix + "-"@;
            let a = decimal((i + 1) as nat);
            let b = decimal((j + 1) as nat);
            assert((head + a).skip(head.len() as int) =~= a);
            assert((head + b).skip(head.len() as int) =~= b);
            lemma_decimal_injective((i + 1) as nat, (j + 1) as nat);
        }
    }
    taken.unique_seq_to_set();
    assert(taken.to_set().subset_of(used)) by {
        assert forall|x: Seq<char>| taken.to_set().contains(x) implies used.contains(x) by {
            let i = choose|i: int| 0 <= i < taken.len() && taken[i] == x;
            assert(used.contains(numbered(prefix, (i + 1) as nat)));
        }
    }
    vstd::set_lib::lemma_len_subset(taken.to_set(), used);
}

/// The identity of a new block or lane, which no block and no lane of the draft has.
pub fn next_unique_id(draft: &EditorDraft, prefix: &str) -> (id: String)
    ensures
        id@ == fresh_id(prefix@, structural_ids(draft@.definition.blocks).to_set()),
        !structural_ids(draft@.definition.blocks).contains(id@),
{
    let used = structural_id_set(&draft.definition.blocks);
    let mut ordinal: u128 = 1;
    loop
        invariant
            1 <= ordinal <= usize::MAX + 1,
            used@ == structural_ids(draft@.definition.blocks).to_set(),
            forall|m: nat| 1 <= m < ordinal ==> used@.contains(#[trigger] numbered(prefix@, m)),
        decreases usize::MAX + 1 - ordinal,
    {
        let mut id = prefix.to_owned();
        id.append("-");
        append_wide_decimal(&mut id, ordinal);
        assert(id@ =~= numbered(prefix@, ordinal as nat));
        if !used.contains(id.as_str()) {
            proof {
                lemma_fresh_id(prefix@, used@, ordinal as nat);
            }
            return id;
        }
        proof {
            used.lemma_bounded();
            assert forall|m: nat| 1 <= m < ordinal + 1 implies used@.contains(
                #[trigger] numbered(prefix@, m),
            ) by {
                if m == ordinal {
                    assert(numbered(prefix@, m) == id@);
                }
            }
            lemma_ordinals_bounded(prefix@, used@, ordinal as nat);
        }
        ordinal += 1;
    }
}

} // verus!
