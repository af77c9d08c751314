//! What holds of the edits of a macro's rules and regions: what they say afterwards, and what is
//! stale then.
use crate::command_view::CommandView;
use crate::commands::edited;
use crate::content::Alike;
use crate::editor_types::EditorErrorView;
use crate::macro_engine::{
    equal_rects, AssetRefView, BlockView, ConditionView, HeadView, ImageRule,
    ImageRuleVerificationArtifactView, ImageRuleView, MacroDefinitionView, PassiveView,
    RectRatio, RegionDefinitionView, TargetProfileView, TextRule, TextRuleView,
};
use crate::rule_edits::{
    image_rule_is, lane_watches, own_rule_sources, region_is, rule_sources, sources_of,
    text_rule_is, EditedView,
};
use crate::tree::{first_index, flatten, lemma_first_index};
use vstd::prelude::*;

verus! {

/// A condition observes by a rule under a source.
pub open spec fn uses(condition: ConditionView, rule: Seq<char>, source: Seq<char>) -> bool {
    condition.rule == rule && condition.source == source
}

/// A lane observes by a rule under a source.
pub open spec fn lane_uses(condition: PassiveView, rule: Seq<char>, source: Seq<char>) -> bool {
    condition.rule == rule && condition.source == source
}

/// A block observes by a rule under a source: as what it waits for, branches on or repeats until, or
/// in one of its lanes.
pub open spec fn block_uses(block: BlockView, rule: Seq<char>, source: Seq<char>) -> bool {
    ||| match block.head {
        HeadView::Observe { condition } => uses(condition, rule, source),
        HeadView::If { condition } => uses(condition, rule, source),
        HeadView::RepeatUntil { condition, .. } => uses(condition, rule, source),
        _ => false,
    }
    ||| exists|k: int|
        0 <= k < block.bodies.len() && (#[trigger] block.bodies[k]).role is Lane && lane_uses(
            block.bodies[k].role->Lane_condition,
            rule,
            source,
        )
}

/// Some block of a macro observes by a rule under a source.
pub open spec fn macro_uses(blocks: Seq<BlockView>, rule: Seq<char>, source: Seq<char>) -> bool {
    exists|i: int|
        0 <= i < flatten(blocks).len() && block_uses(#[trigger] flatten(blocks)[i], rule, source)
}

proof fn lemma_own_sources(block: BlockView, rule: Seq<char>, source: Seq<char>)
    ensures
        own_rule_sources(block, rule).contains(source) == block_uses(block, rule, source),
{
    if exists|k: int|
        0 <= k < block.bodies.len() && lane_watches(#[trigger] block.bodies[k], rule, source) {
        let k = choose|k: int|
            0 <= k < block.bodies.len() && lane_watches(#[trigger] block.bodies[k], rule, source);
        assert(block.bodies[k].role is Lane && lane_uses(
            block.bodies[k].role->Lane_condition,
            rule,
            source,
        ));
    }
    if exists|k: int|
        0 <= k < block.bodies.len() && (#[trigger] block.bodies[k]).role is Lane && lane_uses(
            block.bodies[k].role->Lane_condition,
            rule,
            source,
        ) {
        let k = choose|k: int|
            0 <= k < block.bodies.len() && (#[trigger] block.bodies[k]).role is Lane && lane_uses(
                block.bodies[k].role->Lane_condition,
                rule,
                source,
            );
        assert(lane_watches(block.bodies[k], rule, source));
    }
}

proof fn lemma_sources(flat: Seq<BlockView>, rule: Seq<char>, source: Seq<char>)
    ensures
        sources_of(flat, rule).contains(source) == exists|i: int|
            0 <= i < flat.len() && block_uses(#[trigger] flat[i], rule, source),
    decreases flat.len(),
{
    if flat.len() > 0 {
        let rest = flat.drop_last();
        lemma_sources(rest, rule, source);
        lemma_own_sources(flat.last(), rule, source);
        if sources_of(rest, rule).contains(source) {
            let i = choose|i: int|
                0 <= i < rest.len() && block_uses(#[trigger] rest[i], rule, source);
            assert(flat[i] == rest[i]);
        }
        if exists|i: int| 0 <= i < flat.len() && block_uses(#[trigger] flat[i], rule, source) {
            let i = choose|i: int|
                0 <= i < flat.len() && block_uses(#[trigger] flat[i], rule, source);
            if i < rest.len() {
                assert(rest[i] == flat[i]);
            }
        }
        if block_uses(flat.last(), rule, source) {
            assert(block_uses(flat[flat.len() - 1], rule, source));
        }
    }
}

/// A source is stale after an edit exactly where it was before, or where the macro observes under it
/// by a rule that the edit touched.
pub open spec fn stale_by_rule(before: EditedView, after: EditedView, rule: Seq<char>) -> bool {
    forall|source: Seq<char>| #[trigger]
        after.invalidated.contains(source) <==> before.invalidated.contains(source) || macro_uses(
            before.definition.blocks,
            rule,
            source,
        )
}

/// The next revision of something, which is greater as long as there is a greater number.
pub open spec fn next_revision(old: u64, new: u64) -> bool {
    new == (if old == u64::MAX {
        old as int
    } else {
        old + 1
    })
}

/// The text rule of an identity, the first where there are several.
pub open spec fn first_text_rule(rules: Seq<TextRuleView>, id: Seq<char>, i: int) -> bool {
    0 <= i < rules.len() && rules[i].id == id && forall|j: int|
        0 <= j < i ==> (#[trigger] rules[j]).id != id
}

/// The image rule of an identity, the first where there are several.
pub open spec fn first_image_rule(rules: Seq<ImageRuleView>, id: Seq<char>, i: int) -> bool {
    0 <= i < rules.len() && rules[i].id == id && forall|j: int|
        0 <= j < i ==> (#[trigger] rules[j]).id != id
}

/// A text rule that says something new is the rule of its identity afterwards, as the next revision
/// of the one before, and what was observed by it is stale; one that says the same changes nothing.
/// The other rules and everything else stay as they were. A rule that the macro has not is refused.
pub proof fn replaced_text_rule_is_a_new_revision(before: EditedView, rule: TextRuleView)
    ensures
        ({
            let rules = before.definition.text_rules;
            let result = edited(before, CommandView::ReplaceTextRule { rule });
            &&& (forall|i: int| 0 <= i < rules.len() ==> (#[trigger] rules[i]).id != rule.id)
                ==> result == Err::<EditedView, _>(EditorErrorView::MissingRule(rule.id))
            &&& forall|i: int| #[trigger]
                first_text_rule(rules, rule.id, i) ==> result is Ok && {
                    let after = result->Ok_0;
                    let now = after.definition.text_rules;
                    let same = TextRule::alike(
                        rules[i],
                        TextRuleView { revision: rules[i].revision, ..rule },
                    );
                    &&& same ==> after == before
                    &&& !same ==> {
                        &&& now.len() == rules.len()
                        &&& forall|j: int|
                            0 <= j < rules.len() && j != i ==> #[trigger] now[j] == rules[j]
                        &&& now[i] == (TextRuleView { revision: now[i].revision, ..rule })
                        &&& next_revision(rules[i].revision, now[i].revision)
                        &&& stale_by_rule(before, after, rule.id)
                        &&& after.definition == (MacroDefinitionView {
                            text_rules: now,
                            ..before.definition
                        })
                    }
                }
        }),
{
    let rules = before.definition.text_rules;
    lemma_first_index(rules, text_rule_is(rule.id));
    if first_index(rules, text_rule_is(rule.id)) is Some {
        let k = first_index(rules, text_rule_is(rule.id))->0;
        assert(rules[k].id == rule.id);
    }
    assert forall|i: int| first_text_rule(rules, rule.id, i) implies first_index(
        rules,
        text_rule_is(rule.id),
    ) == Some(i) by {
        assert(text_rule_is(rule.id)(rules[i]));
        let k = first_index(rules, text_rule_is(rule.id))->0;
        assert(rules[k].id == rule.id);
    }
    assert forall|source: Seq<char>| #[trigger]
        rule_sources(before.definition.blocks, rule.id).contains(source) == macro_uses(
            before.definition.blocks,
            rule.id,
            source,
        ) by {
        lemma_sources(flatten(before.definition.blocks), rule.id, source);
    }
}

/// An image rule that says something new is the rule of its identity afterwards, as the next
/// revision of the one before; what verified the old one is gone, and what was observed by it is
/// stale. One that says the same changes nothing.
pub proof fn replaced_image_rule_is_a_new_revision(before: EditedView, rule: ImageRuleView)
    ensures
        ({
            let rules = before.definition.image_rules;
            let result = edited(before, CommandView::ReplaceImageRule { rule });
            &&& (forall|i: int| 0 <= i < rules.len() ==> (#[trigger] rules[i]).id != rule.id)
                ==> result == Err::<EditedView, _>(EditorErrorView::MissingRule(rule.id))
            &&& forall|i: int| #[trigger]
                first_image_rule(rules, rule.id, i) ==> result is Ok && {
                    let after = result->Ok_0;
                    let now = after.definition.image_rules;
                    let same = ImageRule::alike(
                        rules[i],
                        ImageRuleView { revision: rules[i].revision, ..rule },
                    );
                    &&& same ==> after == before
                    &&& !same ==> {
                        &&& now.len() == rules.len()
                        &&& forall|j: int|
                            0 <= j < rules.len() && j != i ==> #[trigger] now[j] == rules[j]
                        &&& now[i] == (ImageRuleView {
                            revision: now[i].revision,
                            verification: None,
                            ..rule
                        })
                        &&& next_revision(rules[i].revision, now[i].revision)
                        &&& stale_by_rule(before, after, rule.id)
                        &&& after.definition == (MacroDefinitionView {
                            image_rules: now,
                            ..before.definition
                        })
                    }
                }
        }),
{
    let rules = before.definition.image_rules;
    lemma_image_rule(rules, rule.id);
    assert forall|source: Seq<char>| #[trigger]
        rule_sources(before.definition.blocks, rule.id).contains(source) == macro_uses(
            before.definition.blocks,
            rule.id,
            source,
        ) by {
        lemma_sources(flatten(before.definition.blocks), rule.id, source);
    }
}

proof fn lemma_image_rule(rules: Seq<ImageRuleView>, id: Seq<char>)
    ensures
        (forall|i: int| 0 <= i < rules.len() ==> (#[trigger] rules[i]).id != id) <==> first_index(
            rules,
            image_rule_is(id),
        ) is None,
        forall|i: int| #[trigger]
            first_image_rule(rules, id, i) ==> first_index(rules, image_rule_is(id)) == Some(i),
{
    lemma_first_index(rules, image_rule_is(id));
    if first_index(rules, image_rule_is(id)) is Some {
        let k = first_index(rules, image_rule_is(id))->0;
        assert(rules[k].id == id);
    } else {
        assert forall|i: int| 0 <= i < rules.len() implies (#[trigger] rules[i]).id != id by {
            assert(!image_rule_is(id)(rules[i]));
        }
    }
    assert forall|i: int| #[trigger] first_image_rule(rules, id, i) implies first_index(
        rules,
        image_rule_is(id),
    ) == Some(i) by {
        assert(image_rule_is(id)(rules[i]));
        let k = first_index(rules, image_rule_is(id))->0;
        assert(rules[k].id == id);
    }
}

/// A verification is set on the image rule it is for, or taken from it. That is no new revision of
/// the rule, and nothing becomes stale.
pub proof fn verification_belongs_to_its_rule(
    before: EditedView,
    id: Seq<char>,
    verification: ImageRuleVerificationArtifactView,
)
    ensures
        ({
            let rules = before.definition.image_rules;
            let set = edited(
                before,
                CommandView::ApplyImageVerification { rule_id: id, verification },
            );
            let cleared = edited(before, CommandView::ClearImageVerification { rule_id: id });
            &&& (forall|i: int| 0 <= i < rules.len() ==> (#[trigger] rules[i]).id != id) ==> set
                == Err::<EditedView, _>(EditorErrorView::MissingRule(id)) && cleared == Err::<
                EditedView,
                _,
            >(EditorErrorView::MissingRule(id))
            &&& forall|i: int| #[trigger]
                first_image_rule(rules, id, i) ==> set is Ok && cleared is Ok && {
                    let a = set->Ok_0.definition.image_rules;
                    let b = cleared->Ok_0.definition.image_rules;
                    &&& a.len() == rules.len() && b.len() == rules.len()
                    &&& forall|j: int|
                        0 <= j < rules.len() && j != i ==> #[trigger] a[j] == rules[j] && b[j]
                            == rules[j]
                    &&& a[i] == (ImageRuleView { verification: Some(verification), ..rules[i] })
                    &&& b[i] == (ImageRuleView { verification: None, ..rules[i] })
                    &&& set->Ok_0 == (EditedView {
                        definition: MacroDefinitionView { image_rules: a, ..before.definition },
                        ..before
                    })
                    &&& cleared->Ok_0 == (EditedView {
                        definition: MacroDefinitionView { image_rules: b, ..before.definition },
                        ..before
                    })
                }
        }),
{
    lemma_image_rule(before.definition.image_rules, id);
}

/// A new template becomes the template of its image rule, as a new revision of the rule that is not
/// verified; what was observed by the rule is stale. The same template again changes nothing.
pub proof fn recaptured_template_is_a_new_revision(
    before: EditedView,
    id: Seq<char>,
    template: AssetRefView,
    i: int,
)
    requires
        first_image_rule(before.definition.image_rules, id, i),
    ensures
        ({
            let rules = before.definition.image_rules;
            let result = edited(
                before,
                CommandView::ApplyTemplateRecapture { rule_id: id, template },
            );
            let after = result->Ok_0;
            let now = after.definition.image_rules;
            let same = ImageRule::alike(rules[i], ImageRuleView { template, ..rules[i] });
            &&& result is Ok && now.len() == rules.len()
            &&& now[i].id == id && now[i].template == template
            &&& same ==> after == before
            &&& !same ==> {
                &&& now[i] == (ImageRuleView {
                    template,
                    verification: None,
                    revision: now[i].revision,
                    ..rules[i]
                })
                &&& next_revision(rules[i].revision, now[i].revision)
                &&& stale_by_rule(before, after, id)
            }
        }),
{
    lemma_image_rule(before.definition.image_rules, id);
    let rule = ImageRuleView { template, ..before.definition.image_rules[i] };
    replaced_image_rule_is_a_new_revision(before, rule);
    assert(ImageRuleView { revision: before.definition.image_rules[i].revision, ..rule } == rule);
}

/// The region of an identity, the first where there are several.
pub open spec fn first_region(regions: Seq<RegionDefinitionView>, id: Seq<char>, i: int) -> bool {
    0 <= i < regions.len() && regions[i].id == id && forall|j: int|
        0 <= j < i ==> (#[trigger] regions[j]).id != id
}

/// Some rule of a macro looks in a region, and the macro observes by it under a source.
pub open spec fn looks_in(
    definition: MacroDefinitionView,
    region: Seq<char>,
    source: Seq<char>,
) -> bool {
    ||| exists|k: int|
        0 <= k < definition.text_rules.len() && (#[trigger] definition.text_rules[k]).region_id
            == region && macro_uses(definition.blocks, definition.text_rules[k].id, source)
    ||| exists|k: int|
        0 <= k < definition.image_rules.len() && (#[trigger] definition.image_rules[k]).region_id
            == region && macro_uses(definition.blocks, definition.image_rules[k].id, source)
}

/// A region that is captured anew has the new rectangle, as its next revision. No image rule that
/// looks in it is verified any more, and what was observed by any rule that looks in it is stale. The
/// other regions, the image rules that look elsewhere and all else stay as they were. The same
/// rectangle again changes nothing.
pub proof fn recaptured_region_is_a_new_revision(
    before: EditedView,
    id: Seq<char>,
    rect: RectRatio,
    i: int,
)
    requires
        first_region(before.definition.regions, id, i),
    ensures
        ({
            let old = before.definition;
            let result = edited(before, CommandView::RecaptureRegion { region_id: id, rect });
            let after = result->Ok_0;
            let new = after.definition;
            let same = equal_rects(old.regions[i].rect, rect);
            &&& result is Ok
            &&& same ==> after == before
            &&& !same ==> {
                &&& new.regions.len() == old.regions.len()
                &&& forall|j: int|
                    0 <= j < old.regions.len() && j != i ==> #[trigger] new.regions[j]
                        == old.regions[j]
                &&& new.regions[i].id == id && new.regions[i].rect == rect
                &&& next_revision(old.regions[i].revision, new.regions[i].revision)
                &&& new.image_rules.len() == old.image_rules.len()
                &&& forall|k: int|
                    0 <= k < old.image_rules.len() ==> #[trigger] new.image_rules[k] == (
                    ImageRuleView {
                        verification: if old.image_rules[k].region_id == id {
                            None
                        } else {
                            old.image_rules[k].verification
                        },
                        ..old.image_rules[k]
                    })
                &&& forall|source: Seq<char>| #[trigger]
                    after.invalidated.contains(source) <==> before.invalidated.contains(source)
                        || looks_in(old, id, source)
                &&& new == (MacroDefinitionView {
                    regions: new.regions,
                    image_rules: new.image_rules,
                    ..old
                })
            }
        }),
{
    let old = before.definition;
    lemma_first_index(old.regions, region_is(id));
    assert(region_is(id)(old.regions[i]));
    let k = first_index(old.regions, region_is(id))->0;
    assert(old.regions[k].id == id);
    assert(k == i);
    assert forall|rule: Seq<char>, source: Seq<char>| #[trigger]
        rule_sources(old.blocks, rule).contains(source) == macro_uses(
            old.blocks,
            rule,
            source,
        ) by {
        lemma_sources(flatten(old.blocks), rule, source);
    }
    let after = edited(before, CommandView::RecaptureRegion { region_id: id, rect })->Ok_0;
    if !equal_rects(old.regions[i].rect, rect) {
        assert forall|source: Seq<char>| #[trigger] after.invalidated.contains(source)
            <==> before.invalidated.contains(source) || looks_in(old, id, source) by {
            if exists|k: int|
                0 <= k < old.text_rules.len() && (#[trigger] old.text_rules[k]).region_id == id
                    && macro_uses(old.blocks, old.text_rules[k].id, source) {
                let k = choose|k: int|
                    0 <= k < old.text_rules.len() && (#[trigger] old.text_rules[k]).region_id
                        == id && macro_uses(old.blocks, old.text_rules[k].id, source);
                assert(rule_sources(old.blocks, old.text_rules[k].id).contains(source));
            }
            if exists|k: int|
                0 <= k < old.image_rules.len() && (#[trigger] old.image_rules[k]).region_id == id
                    && macro_uses(old.blocks, old.image_rules[k].id, source) {
                let k = choose|k: int|
                    0 <= k < old.image_rules.len() && (#[trigger] old.image_rules[k]).region_id
                        == id && macro_uses(old.blocks, old.image_rules[k].id, source);
                assert(rule_sources(old.blocks, old.image_rules[k].id).contains(source));
            }
        }
    }
}

/// A new target becomes the target of the macro, and nothing else changes.
pub proof fn replaced_target_is_the_target(before: EditedView, target: TargetProfileView)
    ensures
        edited(before, CommandView::ReplaceTarget { target }) == Ok::<_, EditorErrorView>(
            EditedView {
                definition: MacroDefinitionView { target, ..before.definition },
                ..before
            },
        ),
{
}

} // verus!
