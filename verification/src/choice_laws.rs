//! What holds of the choices that the editor offers: they apply, and they bring no taken identity.
use crate::block_edit::{converted, family};
use crate::canvas_model::SelectionView;
use crate::command_view::{CommandView, ConversionTargetView};
use crate::commands::edited;
use crate::container::{container, ContainerView};
use crate::conversion::{changing, family_targets, saved_targets, target_changes};
use crate::copy_laws::lemma_inserted_distinct;
use crate::draft::{applied, edit_applied, snapshot, EditorDraftView};
use crate::draft_laws::sound;
use crate::editor_types::{BlockPathView, EditOutcome, EditorErrorView};
use crate::edits::{block_at, inserted, is_loop};
use crate::identities::{ids_of, lane_ids, lemma_first_repeat_none, own_ids, structural_ids};
use crate::macro_engine::{BlockView, BodyView, HeadView, MacroDefinitionView};
use crate::palette::{
    child_container, new_block, palette_insert, palette_prefix, place_for, PaletteKind,
};
use crate::place_laws::{
    lemma_body_found, lemma_container_in_tree, located_block_reads_back, shaped, well_shaped,
};
use crate::places::located;
use crate::sources::{first_free, fresh_id, lemma_ordinals_bounded, numbered};
use crate::tree::{flatten, flatten_block, flatten_bodies, has_id, lemma_first_index};
use crate::tree_laws::{holdings, insertion_adds_the_block, lemma_inventory_block, shell};
use crate::watch_laws::{insertion_nests_no_watch, lemma_of_block};
use vstd::prelude::*;

verus! {

/// A conversion keeps the block's identity, its enablement and its family; a loop keeps its body.
pub proof fn conversion_keeps_identity(block: BlockView, target: ConversionTargetView)
    requires
        converted(block, target) is Some,
    ensures
        converted(block, target)->0.id == block.id,
        converted(block, target)->0.enabled == block.enabled,
        family(converted(block, target)->0.head) == family(block.head),
        is_loop(block.head) && block.bodies.len() > 0 ==> converted(block, target)->0.bodies.len()
            > 0 && converted(block, target)->0.bodies[0] == block.bodies[0],
{
}

/// Everything that a block can become within its family is a conversion that applies to it.
pub proof fn family_targets_apply(definition: MacroDefinitionView, block: BlockView, i: int)
    requires
        0 <= i < family_targets(definition, block).len(),
    ensures
        converted(block, family_targets(definition, block)[i].1) is Some,
{
    let all = family_targets(definition, block);
    match block.head {
        HeadView::Action { .. } => {
            if crate::block_edit::saved_location(block.head) {
                let left = saved_targets(definition, crate::macro_engine::MouseButton::Left);
                let right = saved_targets(definition, crate::macro_engine::MouseButton::Right);
                assert(all == left + right);
                let target = if i < left.len() {
                    left[i].1
                } else {
                    right[i - left.len()].1
                };
                assert(all[i].1 == target);
                assert(target is ClickPoint || target is ClickRegion);
            }
        },
        _ => {},
    }
}

/// Of targets that apply, those that are offered each change the block.
proof fn lemma_changing(
    block: BlockView,
    path: BlockPathView,
    targets: Seq<(Seq<char>, ConversionTargetView)>,
    i: int,
)
    requires
        forall|j: int|
            0 <= j < targets.len() ==> converted(block, (#[trigger] targets[j]).1) is Some,
        0 <= i < changing(block, path, targets).len(),
    ensures
        changing(block, path, targets)[i].1.command matches CommandView::ConvertBlock {
            path: at,
            target,
        } && at == path && (converted(block, target) matches Some(new) && new != block),
    decreases targets.len(),
{
    let rest = targets.drop_last();
    let few = changing(block, path, rest);
    let (label, target) = targets.last();
    assert forall|j: int| 0 <= j < rest.len() implies converted(
        block,
        (#[trigger] rest[j]).1,
    ) is Some by {
        assert(rest[j] == targets[j]);
    }
    assert(converted(block, targets[targets.len() - 1].1) is Some);
    if i < few.len() {
        lemma_changing(block, path, rest, i);
        assert(changing(block, path, targets)[i] == few[i]);
    } else {
        assert(target_changes(block, target));
        lemma_change_shows(block, target);
    }
}

/// The conversions that are offered each change the block, and each is one that applies.
pub proof fn offered_conversions_change_the_block(
    definition: MacroDefinitionView,
    block: BlockView,
    path: BlockPathView,
    i: int,
)
    requires
        0 <= i < changing(block, path, family_targets(definition, block)).len(),
    ensures
        changing(
            block,
            path,
            family_targets(definition, block),
        )[i].1.command matches CommandView::ConvertBlock { path: at, target } && at == path && (
        converted(block, target) matches Some(new) && new != block),
{
    let targets = family_targets(definition, block);
    assert forall|j: int| 0 <= j < targets.len() implies converted(
        block,
        (#[trigger] targets[j]).1,
    ) is Some by {
        family_targets_apply(definition, block, j);
    }
    lemma_changing(block, path, targets, i);
}

proof fn lemma_change_shows(block: BlockView, target: ConversionTargetView)
    requires
        converted(block, target) is Some,
        target_changes(block, target),
    ensures
        converted(block, target)->0 != block,
{
    let new = converted(block, target)->0;
    match target {
        ConversionTargetView::TextObservation { mode } => {
            assert(Seq::<BodyView>::empty() + mode.bodies =~= mode.bodies);
        },
        ConversionTargetView::ImageObservation { mode } => {
            assert(Seq::<BodyView>::empty() + mode.bodies =~= mode.bodies);
        },
        _ => {},
    }
}

proof fn lemma_some_ordinal(prefix: Seq<char>, used: Set<Seq<char>>)
    requires
        used.finite(),
    ensures
        exists|n: nat| first_free(prefix, used, n),
{
    if !(exists|n: nat| first_free(prefix, used, n)) {
        lemma_ordinals_taken(prefix, used, used.len() + 1);
        lemma_ordinals_bounded(prefix, used, used.len() + 1);
    }
}

proof fn lemma_ordinals_taken(prefix: Seq<char>, used: Set<Seq<char>>, n: nat)
    requires
        !(exists|k: nat| first_free(prefix, used, k)),
    ensures
        forall|m: nat| 1 <= m < n + 1 ==> used.contains(#[trigger] numbered(prefix, m)),
    decreases n,
{
    if n > 0 {
        lemma_ordinals_taken(prefix, used, (n - 1) as nat);
        assert(!first_free(prefix, used, n));
    }
}

/// A new identity is not taken.
pub proof fn new_identity_is_free(prefix: Seq<char>, used: Set<Seq<char>>)
    requires
        used.finite(),
    ensures
        !used.contains(fresh_id(prefix, used)),
{
    lemma_some_ordinal(prefix, used);
    let n = choose|n: nat| first_free(prefix, used, n);
    assert(first_free(prefix, used, n));
}

/// What the palette makes brings identities that are distinct and not taken.
pub proof fn palette_block_is_new(
    definition: MacroDefinitionView,
    selected: Option<Seq<char>>,
    kind: PaletteKind,
)
    requires
        new_block(definition, selected, kind) is Ok,
    ensures
        ({
            let block = new_block(definition, selected, kind)->Ok_0;
            let used = structural_ids(definition.blocks);
            &&& ids_of(flatten_block(block)).no_duplicates()
            &&& forall|id: Seq<char>|
                used.contains(id) ==> !(#[trigger] ids_of(flatten_block(block)).contains(id))
        }),
{
    let block = new_block(definition, selected, kind)->Ok_0;
    let ids = structural_ids(definition.blocks);
    let used = ids.to_set();
    new_identity_is_free(palette_prefix(kind), used);
    new_identity_is_free("lane"@, used);
    let own = own_ids(block);
    lemma_empty_below(block);
    assert(ids_of(flatten_block(block)) == own);
    if kind is Watch {
        let lane = fresh_id("lane"@, used);
        assert(block.bodies.drop_last() =~= Seq::empty());
        assert(lane_ids(block.bodies.drop_last()) =~= Seq::empty());
        assert(own =~= seq![block.id, lane]);
        lemma_prefixes_differ(used);
    } else {
        lemma_no_lanes(block.bodies);
        assert(own =~= seq![block.id]);
    }
    assert forall|id: Seq<char>| ids.contains(id) implies !(#[trigger] own.contains(id)) by {
        assert(used.contains(id));
        if own.contains(id) {
            let k = own.index_of(id);
            assert(own[k] == id);
        }
    }
}

proof fn lemma_no_lanes(bodies: Seq<BodyView>)
    requires
        forall|k: int| 0 <= k < bodies.len() ==> !((#[trigger] bodies[k]).role is Lane),
    ensures
        lane_ids(bodies) == Seq::<Seq<char>>::empty(),
    decreases bodies.len(),
{
    if bodies.len() > 0 {
        assert(!(bodies[bodies.len() - 1].role is Lane));
        assert forall|k: int| 0 <= k < bodies.drop_last().len() implies !((
        #[trigger] bodies.drop_last()[k]).role is Lane) by {
            assert(bodies.drop_last()[k] == bodies[k]);
        }
        lemma_no_lanes(bodies.drop_last());
    }
}

/// Names with different prefixes differ.
proof fn lemma_prefixes_differ(used: Set<Seq<char>>)
    ensures
        fresh_id("watch"@, used) != fresh_id("lane"@, used),
{
    reveal_strlit("watch");
    reveal_strlit("lane");
    reveal_strlit("-");
    let a = fresh_id("watch"@, used);
    let b = fresh_id("lane"@, used);
    assert(a[0] == 'w');
    assert(b[0] == 'l');
}

/// A block whose bodies are empty has nothing below it.
proof fn lemma_empty_below(block: BlockView)
    requires
        forall|k: int| 0 <= k < block.bodies.len() ==> (#[trigger] block.bodies[k]).blocks.len() == 0,
    ensures
        flatten_block(block) == seq![block],
        ids_of(flatten_block(block)) == own_ids(block),
{
    lemma_empty_bodies(block.bodies);
    assert(flatten_block(block) =~= seq![block]);
    assert(seq![block].drop_last() =~= Seq::empty());
    assert(ids_of(seq![block].drop_last()) =~= Seq::empty());
    assert(ids_of(seq![block]) =~= own_ids(block));
}

proof fn lemma_empty_bodies(bodies: Seq<BodyView>)
    requires
        forall|k: int| 0 <= k < bodies.len() ==> (#[trigger] bodies[k]).blocks.len() == 0,
    ensures
        flatten_bodies(bodies) == Seq::<BlockView>::empty(),
    decreases bodies.len(),
{
    if bodies.len() > 0 {
        assert forall|k: int| 0 <= k < bodies.drop_last().len() implies (
        #[trigger] bodies.drop_last()[k]).blocks.len() == 0 by {
            assert(bodies.drop_last()[k] == bodies[k]);
        }
        lemma_empty_bodies(bodies.drop_last());
        assert(bodies[bodies.len() - 1].blocks.len() == 0);
        assert(flatten(bodies.last().blocks) =~= Seq::empty());
        assert(flatten_bodies(bodies) =~= Seq::empty());
    }
}

/// Where a new block goes is a place that there is: a container of the macro, and an index in it.
/// A selected lane must exist; any other selection falls back to a place that does.
pub proof fn palette_place_exists(blocks: Seq<BlockView>, selected: Option<SelectionView>)
    requires
        shaped(blocks),
        structural_ids(blocks).no_duplicates(),
        selected matches Some(SelectionView::Lane { group_id, lane_id }) ==> container(
            blocks,
            ContainerView::WatchLaneBody { watch_id: group_id, lane_id },
        ) is Some,
    ensures
        container(blocks, place_for(blocks, selected).container) is Some,
        0 <= place_for(blocks, selected).index <= container(
            blocks,
            place_for(blocks, selected).container,
        )->0.len(),
{
    if let Some(SelectionView::Block(id)) = selected {
        located_block_reads_back(blocks, id);
        if let Some(path) = located(blocks, id) {
            let block = block_at(blocks, path)->Ok_0;
            let list = container(blocks, path.container)->0;
            lemma_first_index(list, has_id(path.block_id));
            let i = crate::edits::place(blocks, path)->Ok_0;
            lemma_container_in_tree(blocks, path.container, i);
            let at = flatten(blocks).index_of(block);
            assert(well_shaped(flatten(blocks)[at]));
            if let Some(child) = child_container(block) {
                lemma_body_found(blocks, block, 0);
            }
        }
    }
}

/// What the palette inserts into a sound draft that may be edited is accepted: at most a watch
/// group is refused, where it would stand below another.
pub proof fn palette_inserts_are_accepted(
    draft: EditorDraftView,
    selected: Option<SelectionView>,
    kind: PaletteKind,
)
    requires
        sound(draft),
        draft.editability is Editable,
        shaped(draft.definition.blocks),
        palette_insert(draft.definition, selected, kind) is Ok,
        selected matches Some(SelectionView::Lane { group_id, lane_id }) ==> container(
            draft.definition.blocks,
            ContainerView::WatchLaneBody { watch_id: group_id, lane_id },
        ) is Some,
    ensures
        ({
            let answer = applied(draft, palette_insert(draft.definition, selected, kind)->Ok_0).1;
            answer == Ok::<_, EditorErrorView>(EditOutcome::Changed) || (kind is Watch && answer
                == Err::<EditOutcome, _>(EditorErrorView::NestedWatchGroup))
        }),
{
    let blocks = draft.definition.blocks;
    let command = palette_insert(draft.definition, selected, kind)->Ok_0;
    let block = new_block(draft.definition, crate::palette::named(selected), kind)->Ok_0;
    let target = place_for(blocks, selected);
    palette_place_exists(blocks, selected);
    palette_block_is_new(draft.definition, crate::palette::named(selected), kind);
    insertion_adds_the_block(blocks, target, block);
    let after = inserted(blocks, target, block)->Ok_0;
    lemma_inserted_distinct(blocks, target, block);
    lemma_first_repeat_none(structural_ids(after));
    lemma_first_repeat_none(structural_ids(blocks));
    lemma_inventory_block(block);
    assert(holdings(after).count(shell(block)) > holdings(blocks).count(shell(block)));
    assert(after != blocks);
    if !(kind is Watch) {
        lemma_empty_below(block);
        lemma_of_block(block);
        insertion_nests_no_watch(blocks, target, block);
    }
    let result = edited(snapshot(draft), command);
    assert(result->Ok_0.definition.blocks == after);
    assert(applied(draft, command) == edit_applied(draft, result));
}

} // verus!
