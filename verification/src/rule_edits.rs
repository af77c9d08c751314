//! Edits of the rules and regions of a definition, and what they make stale.
use crate::content::{option_view, views, Alike};
use crate::editor_types::{EditorError, EditorErrorView};
use crate::id_set::IdSet;
use crate::macro_engine::{
    blocks_view, equal_rects, lane_view, lanes_view, rects_equal, AssetRef, AssetRefView, Block,
    BlockKind, BlockView, BodyView, Condition, ImageRule, ImageRuleVerificationArtifact,
    ImageRuleVerificationArtifactView, ImageRuleView, MacroDefinition, MacroDefinitionView,
    PassiveCondition, RectRatio, RegionDefinition, RegionDefinitionView, RoleView, TextRule,
    TextRuleView,
};
use crate::block_edit::head_condition;
use crate::container::{lemma_roles, role_fits};
use crate::text::same_text;
use crate::tree::{first_index, flatten, lemma_first_index, lemma_is_first_index, walk};
use vstd::prelude::*;

verus! {

broadcast use crate::macro_engine::group_block_views;

/// The observation sources that a block itself brings for a rule: its condition's and its lanes'.
pub open spec fn own_rule_sources(block: BlockView, rule: Seq<char>) -> Set<Seq<char>> {
    Set::new(
        |source: Seq<char>|
            {
                ||| head_condition(block.head) matches Some(condition) && condition.rule == rule
                    && condition.source == source
                ||| exists|k: int|
                    0 <= k < block.bodies.len() && lane_watches(
                        #[trigger] block.bodies[k],
                        rule,
                        source,
                    )
            },
    )
}

/// A body is a lane that watches a source by a rule.
pub open spec fn lane_watches(body: BodyView, rule: Seq<char>, source: Seq<char>) -> bool {
    body.role matches RoleView::Lane { condition, .. } && condition.rule == rule && condition.source
        == source
}

/// Every observation source, anywhere in a list of blocks, that uses a rule.
pub open spec fn rule_sources(blocks: Seq<BlockView>, rule: Seq<char>) -> Set<Seq<char>> {
    sources_of(flatten(blocks), rule)
}

pub open spec fn sources_of(flat: Seq<BlockView>, rule: Seq<char>) -> Set<Seq<char>>
    decreases flat.len(),
{
    if flat.len() == 0 {
        Set::empty()
    } else {
        sources_of(flat.drop_last(), rule).union(own_rule_sources(flat.last(), rule))
    }
}

/// Adds the sources that a block itself brings for a rule.
fn collect_own_sources(block: &Block, rule: &str, ids: &mut IdSet)
    ensures
        final(ids)@ == old(ids)@.union(own_rule_sources(block@, rule@)),
{
    let ghost before = ids@;
    proof {
        lemma_roles(*block);
    }
    match &block.kind {
        BlockKind::Observe { condition } => collect_condition_source(condition, rule, ids),
        BlockKind::If { condition, .. } => collect_condition_source(condition, rule, ids),
        BlockKind::RepeatUntil { condition, .. } => collect_condition_source(condition, rule, ids),
        BlockKind::WatchGroup { group } => {
            let mut i: usize = 0;
            let ghost lanes = group.lanes@;
            assert(ids@ =~= before.union(lane_sources(lanes.take(0), rule@)));
            while i < group.lanes.len()
                invariant
                    i <= group.lanes@.len(),
                    lanes == group.lanes@,
                    ids@ == before.union(lane_sources(lanes.take(i as int), rule@)),
                decreases group.lanes@.len() - i,
            {
                proof {
                    assert(lanes.take(i + 1).drop_last() =~= lanes.take(i as int));
                    assert(lanes.take(i + 1).last() == lanes[i as int]);
                }
                let (source, lane_rule) = match &group.lanes[i].condition {
                    PassiveCondition::Text { source_block_id, rule_id } => (source_block_id, rule_id),
                    PassiveCondition::Image { source_block_id, rule_id } => (
                        source_block_id,
                        rule_id,
                    ),
                };
                if same_text(lane_rule.as_str(), rule) {
                    let _ = ids.insert(source.clone());
                }
                proof {
                    assert(ids@ =~= before.union(lane_sources(lanes.take(i + 1), rule@)));
                }
                i += 1;
            }
            proof {
                assert(lanes.take(i as int) =~= lanes);
                lemma_lane_sources(*block, rule@);
            }
        },
        _ => {},
    }
    proof {
        if !(block.kind is WatchGroup) {
            assert forall|k: int, source: Seq<char>|
                0 <= k < block@.bodies.len() implies !(#[trigger] lane_watches(
                block@.bodies[k],
                rule@,
                source,
            )) by {
                assert(role_fits(block.kind, k, block@.bodies[k].role));
            }
        }
        assert(ids@ =~= before.union(own_rule_sources(block@, rule@)));
    }
}

/// The sources of those of a list of lanes that use a rule.
spec fn lane_sources(
    lanes: Seq<crate::macro_engine::WatchLane>,
    rule: Seq<char>,
) -> Set<Seq<char>>
    decreases lanes.len(),
{
    if lanes.len() == 0 {
        Set::empty()
    } else if lanes.last().condition@.rule == rule {
        lane_sources(lanes.drop_last(), rule).insert(lanes.last().condition@.source)
    } else {
        lane_sources(lanes.drop_last(), rule)
    }
}

proof fn lemma_lane_sources_members(
    lanes: Seq<crate::macro_engine::WatchLane>,
    rule: Seq<char>,
    source: Seq<char>,
)
    ensures
        lane_sources(lanes, rule).contains(source) <==> exists|k: int|
            0 <= k < lanes.len() && lane_watches(#[trigger] lanes_view(lanes)[k], rule, source),
    decreases lanes.len(),
{
    if lanes.len() > 0 {
        let rest = lanes.drop_last();
        lemma_lane_sources_members(rest, rule, source);
        assert forall|k: int| 0 <= k < rest.len() implies lanes_view(rest)[k]
            == #[trigger] lanes_view(lanes)[k] by {}
        let last = lanes.len() - 1;
        assert(lanes_view(lanes)[last] == lane_view(lanes.last()));
        if lane_sources(rest, rule).contains(source) {
            let k = choose|k: int|
                0 <= k < rest.len() && lane_watches(#[trigger] lanes_view(rest)[k], rule, source);
            assert(lane_watches(lanes_view(lanes)[k], rule, source));
        }
        if exists|k: int|
            0 <= k < lanes.len() && lane_watches(#[trigger] lanes_view(lanes)[k], rule, source) {
            let k = choose|k: int|
                0 <= k < lanes.len() && lane_watches(#[trigger] lanes_view(lanes)[k], rule, source);
            if k < last {
                assert(lane_watches(lanes_view(rest)[k], rule, source));
            }
        }
    }
}

proof fn lemma_lane_sources(block: Block, rule: Seq<char>)
    requires
        block.kind is WatchGroup,
    ensures
        lane_sources(block.kind->group.lanes@, rule) == own_rule_sources(block@, rule),
{
    let lanes = block.kind->group.lanes@;
    let view = lanes_view(lanes);
    lemma_roles(block);
    assert(block@.bodies == view + crate::macro_engine::outcome_bodies(
        block.kind->group.timeout_outcome,
    ));
    assert forall|source: Seq<char>|
        lane_sources(lanes, rule).contains(source) == own_rule_sources(block@, rule).contains(
            source,
        ) by {
        lemma_lane_sources_members(lanes, rule, source);
        if lane_sources(lanes, rule).contains(source) {
            let k = choose|k: int|
                0 <= k < lanes.len() && lane_watches(#[trigger] view[k], rule, source);
            assert(lane_watches(block@.bodies[k], rule, source));
        }
        if own_rule_sources(block@, rule).contains(source) {
            let k = choose|k: int|
                0 <= k < block@.bodies.len() && lane_watches(
                    #[trigger] block@.bodies[k],
                    rule,
                    source,
                );
            assert(role_fits(block.kind, k, block@.bodies[k].role));
            assert(lane_watches(view[k], rule, source));
        }
    }
    assert(lane_sources(lanes, rule) =~= own_rule_sources(block@, rule));
}

fn collect_condition_source(condition: &Condition, rule: &str, ids: &mut IdSet)
    ensures
        final(ids)@ == (if crate::macro_engine::condition_view(*condition).rule == rule@ {
            old(ids)@.insert(crate::macro_engine::condition_view(*condition).source)
        } else {
            old(ids)@
        }),
{
    let (source, used) = match condition {
        Condition::Text { source_block_id, rule_id, .. } => (source_block_id, rule_id),
        Condition::Image { source_block_id, rule_id, .. } => (source_block_id, rule_id),
    };
    if same_text(used.as_str(), rule) {
        let _ = ids.insert(source.clone());
    }
}

/// Every observation source, anywhere in a list of blocks, that uses a rule.
pub fn source_ids_for_rule(blocks: &Vec<Block>, rule: &str) -> (ids: IdSet)
    ensures
        ids@ == rule_sources(blocks_view(blocks@), rule@),
{
    let all = walk(blocks);
    let ghost flat = views(all@);
    let mut ids = IdSet::new();
    let mut i: usize = 0;
    assert(flat.take(0) =~= Seq::empty());
    while i < all.len()
        invariant
            i <= all@.len(),
            flat == views(all@),
            ids@ == sources_of(flat.take(i as int), rule@),
        decreases all@.len() - i,
    {
        proof {
            assert(flat.take(i + 1).drop_last() =~= flat.take(i as int));
            assert(flat.take(i + 1).last() == all@[i as int]@);
        }
        collect_own_sources(all[i], rule, &mut ids);
        i += 1;
    }
    assert(flat.take(i as int) =~= flat);
    ids
}

/// The revision after a change; the last revision stays.
pub open spec fn bumped(revision: u64) -> u64 {
    if revision < u64::MAX {
        (revision + 1) as u64
    } else {
        revision
    }
}

pub fn bump(revision: u64) -> (next: u64)
    ensures
        next == bumped(revision),
{
    if revision < u64::MAX {
        revision + 1
    } else {
        revision
    }
}

pub open spec fn text_rule_is(id: Seq<char>) -> spec_fn(TextRuleView) -> bool {
    |rule: TextRuleView| rule.id == id
}

pub open spec fn image_rule_is(id: Seq<char>) -> spec_fn(ImageRuleView) -> bool {
    |rule: ImageRuleView| rule.id == id
}

pub open spec fn region_is(id: Seq<char>) -> spec_fn(RegionDefinitionView) -> bool {
    |region: RegionDefinitionView| region.id == id
}

/// A definition and the observation sources that are stale in it.
#[verifier::ext_equal]
pub ghost struct EditedView {
    pub definition: MacroDefinitionView,
    pub invalidated: Set<Seq<char>>,
}

/// The definition with a text rule replaced under its identity. A rule that says something new
/// gets the next revision and makes the sources that use it stale.
pub open spec fn text_rule_replaced(edited: EditedView, rule: TextRuleView) -> Result<
    EditedView,
    EditorErrorView,
> {
    let rules = edited.definition.text_rules;
    match first_index(rules, text_rule_is(rule.id)) {
        None => Err(EditorErrorView::MissingRule(rule.id)),
        Some(i) => if TextRule::alike(
            rules[i],
            TextRuleView { revision: rules[i].revision, ..rule },
        ) {
            Ok(edited)
        } else {
            Ok(
                EditedView {
                    definition: MacroDefinitionView {
                        text_rules: rules.update(
                            i,
                            TextRuleView { revision: bumped(rules[i].revision), ..rule },
                        ),
                        ..edited.definition
                    },
                    invalidated: edited.invalidated.union(
                        rule_sources(edited.definition.blocks, rule.id),
                    ),
                },
            )
        },
    }
}

/// The definition with an image rule replaced under its identity. A rule that says something new
/// gets the next revision, loses its verification and makes the sources that use it stale.
pub open spec fn image_rule_replaced(edited: EditedView, rule: ImageRuleView) -> Result<
    EditedView,
    EditorErrorView,
> {
    let rules = edited.definition.image_rules;
    match first_index(rules, image_rule_is(rule.id)) {
        None => Err(EditorErrorView::MissingRule(rule.id)),
        Some(i) => if ImageRule::alike(
            rules[i],
            ImageRuleView { revision: rules[i].revision, ..rule },
        ) {
            Ok(edited)
        } else {
            Ok(
                EditedView {
                    definition: MacroDefinitionView {
                        image_rules: rules.update(
                            i,
                            ImageRuleView {
                                revision: bumped(rules[i].revision),
                                verification: None,
                                ..rule
                            },
                        ),
                        ..edited.definition
                    },
                    invalidated: edited.invalidated.union(
                        rule_sources(edited.definition.blocks, rule.id),
                    ),
                },
            )
        },
    }
}

/// The definition with another verification of an image rule.
pub open spec fn verification_set(
    edited: EditedView,
    rule_id: Seq<char>,
    verification: Option<ImageRuleVerificationArtifactView>,
) -> Result<EditedView, EditorErrorView> {
    let rules = edited.definition.image_rules;
    match first_index(rules, image_rule_is(rule_id)) {
        None => Err(EditorErrorView::MissingRule(rule_id)),
        Some(i) => Ok(
            EditedView {
                definition: MacroDefinitionView {
                    image_rules: rules.update(i, ImageRuleView { verification, ..rules[i] }),
                    ..edited.definition
                },
                ..edited
            },
        ),
    }
}

/// The definition with another template of an image rule: the rule replaced.
pub open spec fn template_recaptured(
    edited: EditedView,
    rule_id: Seq<char>,
    template: AssetRefView,
) -> Result<EditedView, EditorErrorView> {
    let rules = edited.definition.image_rules;
    match first_index(rules, image_rule_is(rule_id)) {
        None => Err(EditorErrorView::MissingRule(rule_id)),
        Some(i) => image_rule_replaced(edited, ImageRuleView { template, ..rules[i] }),
    }
}

/// Sources that use one of the first text rules on a region.
pub open spec fn text_region_sources(
    rules: Seq<TextRuleView>,
    blocks: Seq<BlockView>,
    region: Seq<char>,
) -> Set<Seq<char>> {
    Set::new(
        |source: Seq<char>|
            exists|k: int|
                0 <= k < rules.len() && (#[trigger] rules[k]).region_id == region && rule_sources(
                    blocks,
                    rules[k].id,
                ).contains(source),
    )
}

/// Sources that use one of the first image rules on a region.
pub open spec fn image_region_sources(
    rules: Seq<ImageRuleView>,
    blocks: Seq<BlockView>,
    region: Seq<char>,
) -> Set<Seq<char>> {
    Set::new(
        |source: Seq<char>|
            exists|k: int|
                0 <= k < rules.len() && (#[trigger] rules[k]).region_id == region && rule_sources(
                    blocks,
                    rules[k].id,
                ).contains(source),
    )
}

/// Image rules where those on a region have lost their verification.
pub open spec fn unverified_on(rules: Seq<ImageRuleView>, region: Seq<char>) -> Seq<
    ImageRuleView,
> {
    Seq::new(
        rules.len(),
        |k: int|
            if rules[k].region_id == region {
                ImageRuleView { verification: None, ..rules[k] }
            } else {
                rules[k]
            },
    )
}

/// The definition with a region at another place. That gives the region its next revision, makes
/// every source stale that uses a rule on it, and clears the verifications of its image rules.
pub open spec fn region_recaptured(edited: EditedView, region_id: Seq<char>, rect: RectRatio) -> Result<
    EditedView,
    EditorErrorView,
> {
    let definition = edited.definition;
    match first_index(definition.regions, region_is(region_id)) {
        None => Err(EditorErrorView::MissingRegion(region_id)),
        Some(i) => if equal_rects(definition.regions[i].rect, rect) {
            Ok(edited)
        } else {
            Ok(
                EditedView {
                    definition: MacroDefinitionView {
                        regions: definition.regions.update(
                            i,
                            RegionDefinitionView {
                                rect,
                                revision: bumped(definition.regions[i].revision),
                                ..definition.regions[i]
                            },
                        ),
                        image_rules: unverified_on(definition.image_rules, region_id),
                        ..definition
                    },
                    invalidated: edited.invalidated.union(
                        text_region_sources(definition.text_rules, definition.blocks, region_id),
                    ).union(
                        image_region_sources(definition.image_rules, definition.blocks, region_id),
                    ),
                },
            )
        },
    }
}

pub fn text_rule_position(rules: &Vec<TextRule>, id: &str) -> (position: Option<usize>)
    ensures
        match position {
            Some(i) => first_index(views(rules@), text_rule_is(id@)) == Some(i as int) && i
                < rules@.len(),
            None => first_index(views(rules@), text_rule_is(id@)) is None,
        },
{
    let mut i: usize = 0;
    proof {
        lemma_first_index(views(rules@), text_rule_is(id@));
    }
    while i < rules.len()
        invariant
            i <= rules@.len(),
            forall|j: int| 0 <= j < i ==> !text_rule_is(id@)(#[trigger] views(rules@)[j]),
        decreases rules@.len() - i,
    {
        if same_text(rules[i].id.as_str(), id) {
            proof {
                assert(text_rule_is(id@)(views(rules@)[i as int]));
                lemma_is_first_index(views(rules@), text_rule_is(id@), i as int);
            }
            return Some(i);
        }
        assert(!text_rule_is(id@)(views(rules@)[i as int]));
        i += 1;
    }
    None
}

pub fn image_rule_position(rules: &Vec<ImageRule>, id: &str) -> (position: Option<usize>)
    ensures
        match position {
            Some(i) => first_index(views(rules@), image_rule_is(id@)) == Some(i as int) && i
                < rules@.len(),
            None => first_index(views(rules@), image_rule_is(id@)) is None,
        },
{
    let mut i: usize = 0;
    proof {
        lemma_first_index(views(rules@), image_rule_is(id@));
    }
    while i < rules.len()
        invariant
            i <= rules@.len(),
            forall|j: int| 0 <= j < i ==> !image_rule_is(id@)(#[trigger] views(rules@)[j]),
        decreases rules@.len() - i,
    {
        if same_text(rules[i].id.as_str(), id) {
            proof {
                assert(image_rule_is(id@)(views(rules@)[i as int]));
                lemma_is_first_index(views(rules@), image_rule_is(id@), i as int);
            }
            return Some(i);
        }
        assert(!image_rule_is(id@)(views(rules@)[i as int]));
        i += 1;
    }
    None
}

pub fn region_position(regions: &Vec<RegionDefinition>, id: &str) -> (position: Option<usize>)
    ensures
        match position {
            Some(i) => first_index(views(regions@), region_is(id@)) == Some(i as int) && i
                < regions@.len(),
            None => first_index(views(regions@), region_is(id@)) is None,
        },
{
    let mut i: usize = 0;
    proof {
        lemma_first_index(views(regions@), region_is(id@));
    }
    while i < regions.len()
        invariant
            i <= regions@.len(),
            forall|j: int| 0 <= j < i ==> !region_is(id@)(#[trigger] views(regions@)[j]),
        decreases regions@.len() - i,
    {
        if same_text(regions[i].id.as_str(), id) {
            proof {
                assert(region_is(id@)(views(regions@)[i as int]));
                lemma_is_first_index(views(regions@), region_is(id@), i as int);
            }
            return Some(i);
        }
        assert(!region_is(id@)(views(regions@)[i as int]));
        i += 1;
    }
    None
}

/// The contents of a definition together with its stale sources.
pub open spec fn edited_view(definition: MacroDefinition, invalidated: IdSet) -> EditedView {
    EditedView { definition: definition@, invalidated: invalidated@ }
}

/// Replaces a text rule under its identity.
pub fn replace_text_rule(
    definition: &mut MacroDefinition,
    invalidated: &mut IdSet,
    rule: TextRule,
) -> (result: Result<(), EditorError>)
    ensures
        match result {
            Ok(()) => text_rule_replaced(edited_view(*old(definition), *old(invalidated)), rule@)
                == Ok::<_, EditorErrorView>(edited_view(*final(definition), *final(invalidated))),
            Err(error) => text_rule_replaced(
                edited_view(*old(definition), *old(invalidated)),
                rule@,
            ) == Err::<EditedView, _>(error@),
        },
{
    let ghost before = definition@;
    let ghost given = rule@;
    let mut rule = rule;
    let i: usize = match text_rule_position(&definition.text_rules, rule.id.as_str()) {
        None => return Err(EditorError::MissingRule(rule.id.clone())),
        Some(i) => i,
    };
    rule.revision = definition.text_rules[i].revision;
    if definition.text_rules[i].equals(&rule) {
        return Ok(());
    }
    rule.revision = bump(definition.text_rules[i].revision);
    let id = rule.id.clone();
    definition.text_rules.set(i, rule);
    let stale = source_ids_for_rule(&definition.blocks, id.as_str());
    invalidated.extend(&stale);
    proof {
        assert(definition@.text_rules =~= before.text_rules.update(
            i as int,
            TextRuleView { revision: bumped(before.text_rules[i as int].revision), ..given },
        ));
    }
    Ok(())
}

/// Replaces an image rule under its identity.
pub fn replace_image_rule(
    definition: &mut MacroDefinition,
    invalidated: &mut IdSet,
    rule: ImageRule,
) -> (result: Result<(), EditorError>)
    ensures
        match result {
            Ok(()) => image_rule_replaced(edited_view(*old(definition), *old(invalidated)), rule@)
                == Ok::<_, EditorErrorView>(edited_view(*final(definition), *final(invalidated))),
            Err(error) => image_rule_replaced(
                edited_view(*old(definition), *old(invalidated)),
                rule@,
            ) == Err::<EditedView, _>(error@),
        },
{
    let ghost before = definition@;
    let ghost given = rule@;
    let mut rule = rule;
    let i: usize = match image_rule_position(&definition.image_rules, rule.id.as_str()) {
        None => return Err(EditorError::MissingRule(rule.id.clone())),
        Some(i) => i,
    };
    rule.revision = definition.image_rules[i].revision;
    if definition.image_rules[i].equals(&rule) {
        return Ok(());
    }
    rule.revision = bump(definition.image_rules[i].revision);
    rule.verification = None;
    let id = rule.id.clone();
    definition.image_rules.set(i, rule);
    let stale = source_ids_for_rule(&definition.blocks, id.as_str());
    invalidated.extend(&stale);
    proof {
        assert(definition@.image_rules =~= before.image_rules.update(
            i as int,
            ImageRuleView {
                revision: bumped(before.image_rules[i as int].revision),
                verification: None,
                ..given
            },
        ));
    }
    Ok(())
}

/// Gives an image rule another template.
pub fn recapture_template(
    definition: &mut MacroDefinition,
    invalidated: &mut IdSet,
    rule_id: &String,
    template: AssetRef,
) -> (result: Result<(), EditorError>)
    ensures
        match result {
            Ok(()) => template_recaptured(
                edited_view(*old(definition), *old(invalidated)),
                rule_id@,
                template@,
            ) == Ok::<_, EditorErrorView>(edited_view(*final(definition), *final(invalidated))),
            Err(error) => template_recaptured(
                edited_view(*old(definition), *old(invalidated)),
                rule_id@,
                template@,
            ) == Err::<EditedView, _>(error@),
        },
{
    let i: usize = match image_rule_position(&definition.image_rules, rule_id.as_str()) {
        None => return Err(EditorError::MissingRule(rule_id.clone())),
        Some(i) => i,
    };
    let mut rule = definition.image_rules[i].clone();
    rule.template = template;
    proof {
        assert(views(definition.image_rules@)[i as int] == definition.image_rules@[i as int]@);
    }
    replace_image_rule(definition, invalidated, rule)
}

/// Sets or clears the verification of an image rule.
pub(crate) fn set_verification(
    definition: &mut MacroDefinition,
    rule_id: &String,
    verification: Option<ImageRuleVerificationArtifact>,
    Ghost(invalidated): Ghost<Set<Seq<char>>>,
) -> (result: Result<(), EditorError>)
    ensures
        match result {
            Ok(()) => verification_set(
                EditedView { definition: old(definition)@, invalidated },
                rule_id@,
                option_view(verification),
            ) == Ok::<_, EditorErrorView>(
                EditedView { definition: final(definition)@, invalidated },
            ),
            Err(error) => verification_set(
                EditedView { definition: old(definition)@, invalidated },
                rule_id@,
                option_view(verification),
            ) == Err::<EditedView, _>(error@),
        },
{
    let ghost before = definition@;
    let i: usize = match image_rule_position(&definition.image_rules, rule_id.as_str()) {
        None => return Err(EditorError::MissingRule(rule_id.clone())),
        Some(i) => i,
    };
    definition.image_rules[i].verification = verification;
    proof {
        assert(definition@.image_rules =~= before.image_rules.update(
            i as int,
            ImageRuleView {
                verification: option_view(verification),
                ..before.image_rules[i as int]
            },
        ));
    }
    Ok(())
}

/// Moves a region to another place.
pub fn recapture_region(
    definition: &mut MacroDefinition,
    invalidated: &mut IdSet,
    region_id: &String,
    rect: RectRatio,
) -> (result: Result<(), EditorError>)
    ensures
        match result {
            Ok(()) => region_recaptured(
                edited_view(*old(definition), *old(invalidated)),
                region_id@,
                rect,
            ) == Ok::<_, EditorErrorView>(edited_view(*final(definition), *final(invalidated))),
            Err(error) => region_recaptured(
                edited_view(*old(definition), *old(invalidated)),
                region_id@,
                rect,
            ) == Err::<EditedView, _>(error@),
        },
{
    let ghost before = definition@;
    let ghost stale_before = invalidated@;
    let i: usize = match region_position(&definition.regions, region_id.as_str()) {
        None => return Err(EditorError::MissingRegion(region_id.clone())),
        Some(i) => i,
    };
    if rects_equal(definition.regions[i].rect, rect) {
        return Ok(());
    }
    let revision = bump(definition.regions[i].revision);
    definition.regions[i].rect = rect;
    definition.regions[i].revision = revision;
    let ghost regions = definition@.regions;
    proof {
        assert(regions =~= before.regions.update(
            i as int,
            RegionDefinitionView {
                rect,
                revision: bumped(before.regions[i as int].revision),
                ..before.regions[i as int]
            },
        ));
    }
    let mut k: usize = 0;
    assert(invalidated@ =~= stale_before.union(
        text_region_sources(before.text_rules.take(0), before.blocks, region_id@),
    ));
    while k < definition.text_rules.len()
        invariant
            k <= definition.text_rules@.len(),
            definition@ == (MacroDefinitionView { regions, ..before }),
            invalidated@ == stale_before.union(
                text_region_sources(before.text_rules.take(k as int), before.blocks, region_id@),
            ),
        decreases definition.text_rules@.len() - k,
    {
        let ghost sofar = invalidated@;
        let rule = &definition.text_rules[k];
        assert(before.text_rules[k as int] == rule@);
        if rule.region_id == *region_id {
            let stale = source_ids_for_rule(&definition.blocks, rule.id.as_str());
            invalidated.extend(&stale);
        }
        proof {
            lemma_text_region_step(before.text_rules, before.blocks, region_id@, k as int);
            assert(invalidated@ =~= stale_before.union(
                text_region_sources(before.text_rules.take(k + 1), before.blocks, region_id@),
            ));
        }
        k += 1;
    }
    let ghost stale_text = invalidated@;
    proof {
        assert(before.text_rules.take(k as int) =~= before.text_rules);
        assert(invalidated@ =~= stale_text.union(
            image_region_sources(before.image_rules.take(0), before.blocks, region_id@),
        ));
    }
    let mut m: usize = 0;
    while m < definition.image_rules.len()
        invariant
            m <= definition.image_rules@.len(),
            definition.image_rules@.len() == before.image_rules.len(),
            definition@ == (MacroDefinitionView {
                regions,
                image_rules: definition@.image_rules,
                ..before
            }),
            forall|j: int|
                0 <= j < m ==> (#[trigger] definition@.image_rules[j]) == unverified_on(
                    before.image_rules,
                    region_id@,
                )[j],
            forall|j: int|
                m <= j < before.image_rules.len() ==> (#[trigger] definition@.image_rules[j])
                    == before.image_rules[j],
            invalidated@ == stale_text.union(
                image_region_sources(before.image_rules.take(m as int), before.blocks, region_id@),
            ),
        decreases definition.image_rules@.len() - m,
    {
        let ghost rules = definition@.image_rules;
        assert(rules[m as int] == definition.image_rules@[m as int]@);
        if definition.image_rules[m].region_id == *region_id {
            let stale = source_ids_for_rule(
                &definition.blocks,
                definition.image_rules[m].id.as_str(),
            );
            invalidated.extend(&stale);
            definition.image_rules[m].verification = None;
        }
        proof {
            lemma_image_region_step(before.image_rules, before.blocks, region_id@, m as int);
            assert(invalidated@ =~= stale_text.union(
                image_region_sources(before.image_rules.take(m + 1), before.blocks, region_id@),
            ));
            assert forall|j: int| 0 <= j < rules.len() && j != m implies (
            #[trigger] definition@.image_rules[j]) == rules[j] by {}
            assert(definition@.image_rules[m as int] == unverified_on(
                before.image_rules,
                region_id@,
            )[m as int]);
        }
        m += 1;
    }
    proof {
        assert(before.image_rules.take(m as int) =~= before.image_rules);
        assert(definition@.image_rules =~= unverified_on(before.image_rules, region_id@));
    }
    Ok(())
}

proof fn lemma_text_region_step(
    rules: Seq<TextRuleView>,
    blocks: Seq<BlockView>,
    region: Seq<char>,
    k: int,
)
    requires
        0 <= k < rules.len(),
    ensures
        text_region_sources(rules.take(k + 1), blocks, region) == (if rules[k].region_id == region {
            text_region_sources(rules.take(k), blocks, region).union(
                rule_sources(blocks, rules[k].id),
            )
        } else {
            text_region_sources(rules.take(k), blocks, region)
        }),
{
    let more = text_region_sources(rules.take(k + 1), blocks, region);
    let less = text_region_sources(rules.take(k), blocks, region);
    assert forall|source: Seq<char>| less.contains(source) implies more.contains(source) by {
        let j = choose|j: int|
            0 <= j < rules.take(k).len() && (#[trigger] rules.take(k)[j]).region_id == region
                && rule_sources(blocks, rules.take(k)[j].id).contains(source);
        assert(rules.take(k + 1)[j] == rules.take(k)[j]);
    }
    assert forall|source: Seq<char>| more.contains(source) && !less.contains(source) implies
        rules[k].region_id == region && rule_sources(blocks, rules[k].id).contains(source) by {
        let j = choose|j: int|
            0 <= j < rules.take(k + 1).len() && (#[trigger] rules.take(k + 1)[j]).region_id
                == region && rule_sources(blocks, rules.take(k + 1)[j].id).contains(source);
        if j < k {
            assert(rules.take(k)[j] == rules.take(k + 1)[j]);
        }
    }
    assert(rules.take(k + 1)[k] == rules[k]);
    assert(more =~= if rules[k].region_id == region {
        less.union(rule_sources(blocks, rules[k].id))
    } else {
        less
    });
}

proof fn lemma_image_region_step(
    rules: Seq<ImageRuleView>,
    blocks: Seq<BlockView>,
    region: Seq<char>,
    k: int,
)
    requires
        0 <= k < rules.len(),
    ensures
        image_region_sources(rules.take(k + 1), blocks, region) == (if rules[k].region_id == region {
            image_region_sources(rules.take(k), blocks, region).union(
                rule_sources(blocks, rules[k].id),
            )
        } else {
            image_region_sources(rules.take(k), blocks, region)
        }),
{
    let more = image_region_sources(rules.take(k + 1), blocks, region);
    let less = image_region_sources(rules.take(k), blocks, region);
    assert forall|source: Seq<char>| less.contains(source) implies more.contains(source) by {
        let j = choose|j: int|
            0 <= j < rules.take(k).len() && (#[trigger] rules.take(k)[j]).region_id == region
                && rule_sources(blocks, rules.take(k)[j].id).contains(source);
        assert(rules.take(k + 1)[j] == rules.take(k)[j]);
    }
    assert forall|source: Seq<char>| more.contains(source) && !less.contains(source) implies
        rules[k].region_id == region && rule_sources(blocks, rules[k].id).contains(source) by {
        let j = choose|j: int|
            0 <= j < rules.take(k + 1).len() && (#[trigger] rules.take(k + 1)[j]).region_id
                == region && rule_sources(blocks, rules.take(k + 1)[j].id).contains(source);
        if j < k {
            assert(rules.take(k)[j] == rules.take(k + 1)[j]);
        }
    }
    assert(rules.take(k + 1)[k] == rules[k]);
    assert(more =~= if rules[k].region_id == region {
        less.union(rule_sources(blocks, rules[k].id))
    } else {
        less
    });
}

} // verus!
