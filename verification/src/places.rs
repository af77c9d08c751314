//! Where blocks stand, and what follows from where they stand.
use crate::bodies::{body_container, body_path, owned_bodies};
use crate::container::{container, find_container, lane_position, ContainerPath, ContainerView};
use crate::content::{clone_list, option_view, views};
use crate::draft::{stands, DetectorFailureView, EditorDraft, EditorDraftView};
use crate::editor_types::{BlockPath, BlockPathView};
use crate::edits::{block_at, block_position, find_block_in_container, is_lane, place};
use crate::macro_engine::{
    blocks_view, Action, ActionTarget, ActionTargetView, ActionView, Block, BlockKind, BlockView,
    BodyView, HeadView, MacroDefinition, MacroDefinitionView, ValidationProblem,
    ValidationProblemView,
};
use crate::text::same_text;
use crate::tree::{
    find_block, first_index, first_where, flatten, found_block, lemma_child_smaller,
    lemma_first_index, lemma_first_where_step, size, walk,
};
use vstd::prelude::*;
use vstd::string::StringExecFns;

verus! {

broadcast use crate::macro_engine::group_block_views;

/// A block where it stands.
pub struct Place<'a> {
    pub container: ContainerPath,
    /// Whether the block and all blocks above it are enabled.
    pub live: bool,
    pub block: &'a Block,
}

/// The contents of a [`Place`].
#[verifier::ext_equal]
pub ghost struct PlaceView {
    pub container: ContainerView,
    pub live: bool,
    pub block: BlockView,
}

impl<'a> View for Place<'a> {
    type V = PlaceView;

    open spec fn view(&self) -> PlaceView {
        PlaceView { container: self.container@, live: self.live, block: self.block@ }
    }
}

/// Every block of a container and below it, in the order of the walk.
pub open spec fn places(blocks: Seq<BlockView>, at: ContainerView, live: bool) -> Seq<PlaceView>
    decreases blocks,
{
    if blocks.len() == 0 {
        Seq::empty()
    } else {
        places(blocks.drop_last(), at, live) + block_places(blocks.last(), at, live)
    }
}

/// A block and every block below it.
pub open spec fn block_places(block: BlockView, at: ContainerView, live: bool) -> Seq<PlaceView>
    decreases block,
{
    seq![PlaceView { container: at, live: live && block.enabled, block }] + body_places(
        block.id,
        live && block.enabled,
        block.bodies,
    )
}

/// Every block of the bodies of one owner.
pub open spec fn body_places(owner: Seq<char>, live: bool, bodies: Seq<BodyView>) -> Seq<PlaceView>
    decreases bodies,
{
    if bodies.len() == 0 {
        Seq::empty()
    } else {
        body_places(owner, live, bodies.drop_last()) + places(
            bodies.last().blocks,
            body_container(owner, bodies.last().role),
            live,
        )
    }
}

fn collect_places<'a>(
    blocks: &'a Vec<Block>,
    at: &ContainerPath,
    live: bool,
    out: &mut Vec<Place<'a>>,
)
    ensures
        views(final(out)@) == views(old(out)@) + places(blocks_view(blocks@), at@, live),
    decreases size(blocks_view(blocks@)),
{
    let ghost all = blocks_view(blocks@);
    let ghost before = views(out@);
    let mut i: usize = 0;
    assert(views(out@) =~= before + places(all.take(0), at@, live));
    while i < blocks.len()
        invariant
            all == blocks_view(blocks@),
            i <= blocks@.len(),
            views(out@) == before + places(all.take(i as int), at@, live),
        decreases blocks@.len() - i,
    {
        let block = &blocks[i];
        let ghost start = views(out@);
        let inside = live && block.enabled;
        let here = Place { container: at.clone(), live: inside, block };
        let ghost first = here@;
        out.push(here);
        let bodies = owned_bodies(block);
        let mut k: usize = 0;
        assert(views(out@) =~= start + seq![first] + body_places(
            block@.id,
            inside,
            block@.bodies.take(0),
        ));
        while k < bodies.len()
            invariant
                all == blocks_view(blocks@),
                i < blocks@.len(),
                block == blocks@[i as int],
                k <= bodies@.len(),
                views(bodies@) == block@.bodies,
                views(out@) == start + seq![first] + body_places(
                    block@.id,
                    inside,
                    block@.bodies.take(k as int),
                ),
            decreases bodies@.len() - k,
        {
            let body = &bodies[k];
            let path = body_path(&block.id, &body.role);
            proof {
                assert(block@.bodies[k as int] == body@);
                lemma_child_smaller(all, i as int, k as int);
                assert(block@.bodies.take(k + 1).drop_last() =~= block@.bodies.take(k as int));
            }
            collect_places(body.blocks, &path, inside, out);
            k += 1;
            assert(views(out@) =~= start + seq![first] + body_places(
                block@.id,
                inside,
                block@.bodies.take(k as int),
            ));
        }
        proof {
            assert(block@.bodies.take(k as int) =~= block@.bodies);
            assert(all.take(i + 1).drop_last() =~= all.take(i as int));
            assert(all.take(i + 1).last() == block@);
            assert(block_places(block@, at@, live) == seq![first] + body_places(
                block@.id,
                inside,
                block@.bodies,
            ));
        }
        i += 1;
        assert(views(out@) =~= before + places(all.take(i as int), at@, live));
    }
    assert(all.take(i as int) =~= all);
}

/// Every block of a definition where it stands, in the order of the walk.
pub fn walk_places<'a>(definition: &'a MacroDefinition) -> (all: Vec<Place<'a>>)
    ensures
        views(all@) == places(definition@.blocks, ContainerView::Root, true),
{
    let mut all: Vec<Place<'a>> = Vec::new();
    let root = ContainerPath::Root;
    collect_places(&definition.blocks, &root, true, &mut all);
    assert(views(all@) =~= places(definition@.blocks, ContainerView::Root, true));
    all
}

/// The predicate that picks the places of blocks of one identity.
pub open spec fn place_of(id: Seq<char>) -> spec_fn(PlaceView) -> bool {
    |at: PlaceView| at.block.id == id
}

/// Where the first block of an identity stands.
pub open spec fn located(blocks: Seq<BlockView>, id: Seq<char>) -> Option<BlockPathView> {
    match first_where(places(blocks, ContainerView::Root, true), place_of(id)) {
        None => None,
        Some(at) => Some(BlockPathView { container: at.container, block_id: id }),
    }
}

/// Finds where the first block of an identity stands.
pub fn locate_block_path(definition: &MacroDefinition, id: &str) -> (path: Option<BlockPath>)
    ensures
        option_view(path) == located(definition@.blocks, id@),
{
    let all = walk_places(definition);
    let ghost flat = views(all@);
    let mut i: usize = 0;
    while i < all.len()
        invariant
            i <= all@.len(),
            flat == views(all@),
            flat == places(definition@.blocks, ContainerView::Root, true),
            first_where(flat.take(i as int), place_of(id@)) is None,
        decreases all@.len() - i,
    {
        proof {
            lemma_first_where_step(flat, i as int, place_of(id@));
        }
        let here = &all[i];
        if same_text(here.block.id.as_str(), id) {
            return Some(BlockPath { container: here.container.clone(), block_id: id.to_owned() });
        }
        i += 1;
    }
    assert(flat.take(i as int) =~= flat);
    None
}

/// The block that a path names, if its container and the block in it exist.
pub fn block_at_path<'a>(definition: &'a MacroDefinition, path: &BlockPath) -> (found: Option<
    &'a Block,
>)
    ensures
        option_view(found) == (match block_at(definition@.blocks, path@) {
            Ok(block) => Some(block),
            Err(_) => None,
        }),
{
    match find_block_in_container(&definition.blocks, path) {
        Ok(block) => Some(block),
        Err(_) => None,
    }
}

/// The index of a block among its siblings, and their number.
pub open spec fn sibling_at(blocks: Seq<BlockView>, path: BlockPathView) -> Option<(int, int)> {
    match place(blocks, path) {
        Ok(i) => Some((i, container(blocks, path.container)->0.len() as int)),
        Err(_) => None,
    }
}

pub fn sibling_position(definition: &MacroDefinition, path: &BlockPath) -> (position: Option<
    (usize, usize),
>)
    ensures
        match position {
            Some((index, len)) => sibling_at(definition@.blocks, path@) == Some(
                (index as int, len as int),
            ) && index < len,
            None => sibling_at(definition@.blocks, path@) is None,
        },
{
    let list = match find_container(&definition.blocks, &path.container) {
        None => return None,
        Some(list) => list,
    };
    match block_position(list, path.block_id.as_str()) {
        None => None,
        Some(index) => Some((index, list.len())),
    }
}

/// The number of blocks of a container.
pub fn container_len(definition: &MacroDefinition, path: &ContainerPath) -> (len: Option<usize>)
    ensures
        match len {
            Some(len) => container(definition@.blocks, path@) is Some && len == container(
                definition@.blocks,
                path@,
            )->0.len(),
            None => container(definition@.blocks, path@) is None,
        },
{
    match find_container(&definition.blocks, path) {
        None => None,
        Some(list) => Some(list.len()),
    }
}

/// The lanes of a block.
pub open spec fn lanes_of(block: BlockView) -> Seq<BodyView> {
    match block.head {
        HeadView::WatchGroup { outcome, .. } => if outcome is RunBody {
            block.bodies.drop_last()
        } else {
            block.bodies
        },
        _ => Seq::empty(),
    }
}

/// The predicate that picks the groups that have a lane.
pub open spec fn watches(lane_id: Seq<char>) -> spec_fn(BlockView) -> bool {
    |block: BlockView| first_index(lanes_of(block), is_lane(lane_id)) is Some
}

/// The group of a lane, the lane's index and the number of lanes.
pub open spec fn lane_located(blocks: Seq<BlockView>, lane_id: Seq<char>) -> Option<
    (Seq<char>, int, int),
> {
    match first_where(flatten(blocks), watches(lane_id)) {
        None => None,
        Some(group) => Some(
            (
                group.id,
                first_index(lanes_of(group), is_lane(lane_id))->0,
                lanes_of(group).len() as int,
            ),
        ),
    }
}

/// The lanes of a watch group are the first of its bodies.
pub proof fn lemma_lanes_of(block: Block)
    ensures
        match block.kind {
            BlockKind::WatchGroup { group } => lanes_of(block@)
                == crate::macro_engine::lanes_view(group.lanes@),
            _ => lanes_of(block@) == Seq::<BodyView>::empty(),
        },
{
    if let BlockKind::WatchGroup { group } = block.kind {
        assert(block@.bodies == crate::macro_engine::kind_bodies(block.kind));
        assert(lanes_of(block@) =~= crate::macro_engine::lanes_view(group.lanes@));
    }
}

/// The position of a lane is that of the first of the group's lanes that has its identity.
pub proof fn lemma_lane_of_group(block: Block, lane_id: Seq<char>, position: Option<usize>)
    requires
        block.kind is WatchGroup,
        ({
            let lanes = block.kind->group.lanes@;
            match position {
                Some(i) => i < lanes.len() && lanes[i as int].id@ == lane_id && forall|j: int|
                    0 <= j < i ==> (#[trigger] lanes[j]).id@ != lane_id,
                None => forall|j: int| 0 <= j < lanes.len() ==> (#[trigger] lanes[j]).id@ != lane_id,
            }
        }),
    ensures
        match position {
            Some(i) => first_index(lanes_of(block@), is_lane(lane_id)) == Some(i as int),
            None => first_index(lanes_of(block@), is_lane(lane_id)) is None,
        },
{
    lemma_lanes_of(block);
    lemma_first_index(lanes_of(block@), is_lane(lane_id));
    let lanes = block.kind->group.lanes@;
    assert forall|j: int| 0 <= j < lanes.len() implies is_lane(lane_id)(
        #[trigger] lanes_of(block@)[j],
    ) == (lanes[j].id@ == lane_id) by {
        assert(lanes_of(block@)[j] == crate::macro_engine::lane_view(lanes[j]));
    }
    if position is Some {
        assert(is_lane(lane_id)(lanes_of(block@)[position->0 as int]));
    }
}

pub fn locate_watch_lane(definition: &MacroDefinition, lane_id: &str) -> (found: Option<
    (String, usize, usize),
>)
    ensures
        match found {
            Some((group, index, len)) => lane_located(definition@.blocks, lane_id@) == Some(
                (group@, index as int, len as int),
            ) && index < len,
            None => lane_located(definition@.blocks, lane_id@) is None,
        },
{
    let all = walk(&definition.blocks);
    let ghost flat = views(all@);
    let mut i: usize = 0;
    while i < all.len()
        invariant
            i <= all@.len(),
            flat == views(all@),
            flat == flatten(definition@.blocks),
            first_where(flat.take(i as int), watches(lane_id@)) is None,
        decreases all@.len() - i,
    {
        let block = all[i];
        proof {
            lemma_first_where_step(flat, i as int, watches(lane_id@));
            lemma_lanes_of(*block);
        }
        if let BlockKind::WatchGroup { group } = &block.kind {
            let position = lane_position(&group.lanes, lane_id);
            proof {
                lemma_lane_of_group(*block, lane_id@, position);
            }
            if let Some(index) = position {
                return Some((block.id.clone(), index, group.lanes.len()));
            }
        }
        i += 1;
    }
    assert(flat.take(i as int) =~= flat);
    None
}

/// The identities of the lanes of a group.
pub open spec fn lane_names(lanes: Seq<BodyView>) -> Seq<Seq<char>> {
    Seq::new(lanes.len(), |i: int| lanes[i].role->Lane_id)
}

impl EditorDraft {
    /// The lanes of a watch group, by priority.
    pub fn watch_lane_ids(&self, group_id: &str) -> (ids: Vec<&str>)
        ensures
            views(ids@) == (match found_block(self@.definition.blocks, group_id@) {
                Some(block) => lane_names(lanes_of(block)),
                None => Seq::empty(),
            }),
    {
        let mut ids: Vec<&str> = Vec::new();
        let block = match find_block(&self.definition.blocks, group_id) {
            None => {
                assert(views(ids@) =~= Seq::empty());
                return ids;
            },
            Some(block) => block,
        };
        proof {
            lemma_lanes_of(*block);
        }
        if let BlockKind::WatchGroup { group } = &block.kind {
            let mut i: usize = 0;
            while i < group.lanes.len()
                invariant
                    i <= group.lanes@.len(),
                    ids@.len() == i,
                    forall|j: int| 0 <= j < i ==> (#[trigger] ids@[j])@ == group.lanes@[j].id@,
                decreases group.lanes@.len() - i,
            {
                ids.push(group.lanes[i].id.as_str());
                i += 1;
            }
        }
        assert(views(ids@) =~= lane_names(lanes_of(block@)));
        ids
    }
}

/// The observation whose match an action depends on.
pub open spec fn action_source(head: HeadView) -> Option<Seq<char>> {
    match head {
        HeadView::Action { action } => match action {
            ActionView::ClickTextMatch { source, .. } => Some(source),
            ActionView::ClickImageMatch { source, .. } => Some(source),
            ActionView::MoveOnly { target } => match target {
                ActionTargetView::TextMatch { source } => Some(source),
                ActionTargetView::ImageMatch { source } => Some(source),
                _ => None,
            },
            _ => None,
        },
        _ => None,
    }
}

pub fn source_of_action(block: &Block) -> (source: Option<&String>)
    ensures
        option_view(source) == action_source(block@.head),
{
    match &block.kind {
        BlockKind::Action { action } => match action {
            Action::ClickTextMatch { source_block_id, .. } => Some(source_block_id),
            Action::ClickImageMatch { source_block_id, .. } => Some(source_block_id),
            Action::MoveOnly { target } => match target {
                ActionTarget::TextMatch { source_block_id } => Some(source_block_id),
                ActionTarget::ImageMatch { source_block_id } => Some(source_block_id),
                _ => None,
            },
            _ => None,
        },
        _ => None,
    }
}

/// The problem of an action whose observation changed.
pub open spec fn stale_problem(block: BlockView, source: Seq<char>) -> ValidationProblemView {
    ValidationProblemView {
        code: "editor.dependent_action_needs_revalidation"@,
        message: "action '"@ + block.id + "' depends on changed observation source '"@ + source
            + "'; validate the source before running"@,
        block_id: Some(block.id),
    }
}

/// A live action depends on a changed observation.
pub open spec fn is_stale(at: PlaceView, invalidated: Set<Seq<char>>) -> bool {
    at.live && action_source(at.block.head) is Some && invalidated.contains(
        action_source(at.block.head)->0,
    )
}

/// The problems of the live actions whose observations changed.
pub open spec fn stale_problems(all: Seq<PlaceView>, invalidated: Set<Seq<char>>) -> Seq<
    ValidationProblemView,
>
    decreases all.len(),
{
    if all.len() == 0 {
        Seq::empty()
    } else {
        let rest = stale_problems(all.drop_last(), invalidated);
        if is_stale(all.last(), invalidated) {
            rest.push(stale_problem(all.last().block, action_source(all.last().block.head)->0))
        } else {
            rest
        }
    }
}

/// The problem of a detector whose last test failed.
pub open spec fn failure_problem(failure: DetectorFailureView) -> ValidationProblemView {
    ValidationProblemView {
        code: "editor.detector_test_failed"@,
        message: failure.evidence,
        block_id: Some(failure.block_id),
    }
}

/// The problems of the detectors whose failed tests stand.
pub open spec fn failure_problems(
    definition: MacroDefinitionView,
    failures: Seq<DetectorFailureView>,
) -> Seq<ValidationProblemView>
    decreases failures.len(),
{
    if failures.len() == 0 {
        Seq::empty()
    } else {
        let rest = failure_problems(definition, failures.drop_last());
        if stands(definition, failures.last()) {
            rest.push(failure_problem(failures.last()))
        } else {
            rest
        }
    }
}

/// Everything that stands against running a draft: what the runtime's validation found, the
/// actions whose observations changed, and the detectors whose tests failed.
pub open spec fn draft_problems(
    draft: EditorDraftView,
    runtime: Seq<ValidationProblemView>,
) -> Seq<ValidationProblemView> {
    runtime + stale_problems(
        places(draft.definition.blocks, ContainerView::Root, true),
        draft.invalidated,
    ) + failure_problems(draft.definition, draft.failures)
}

fn stale_action_problem(block: &Block, source: &String) -> (problem: ValidationProblem)
    ensures
        problem@ == stale_problem(block@, source@),
{
    let mut message = "action '".to_owned();
    message.append(block.id.as_str());
    message.append("' depends on changed observation source '");
    message.append(source.as_str());
    message.append("'; validate the source before running");
    ValidationProblem {
        code: "editor.dependent_action_needs_revalidation".to_owned(),
        message,
        block_id: Some(block.id.clone()),
    }
}

/// Lists everything that stands against running a draft, given what the runtime's validation
/// found in its definition.
pub fn editor_validation_problems(
    draft: &EditorDraft,
    runtime_problems: &Vec<ValidationProblem>,
) -> (problems: Vec<ValidationProblem>)
    ensures
        views(problems@) == draft_problems(draft@, views(runtime_problems@)),
{
    let mut problems = clone_list(runtime_problems);
    let ghost runtime = views(runtime_problems@);
    let all = walk_places(&draft.definition);
    let ghost flat = views(all@);
    let invalidated = draft.invalidated_source_ids();
    let mut i: usize = 0;
    assert(views(problems@) =~= runtime + stale_problems(flat.take(0), invalidated@));
    while i < all.len()
        invariant
            i <= all@.len(),
            flat == views(all@),
            views(problems@) == runtime + stale_problems(flat.take(i as int), invalidated@),
        decreases all@.len() - i,
    {
        let here = &all[i];
        let ghost before = views(problems@);
        proof {
            assert(flat.take(i + 1).drop_last() =~= flat.take(i as int));
            assert(flat.take(i + 1).last() == here@);
        }
        if here.live {
            if let Some(source) = source_of_action(here.block) {
                if invalidated.contains(source.as_str()) {
                    let problem = stale_action_problem(here.block, source);
                    let ghost view = problem@;
                    problems.push(problem);
                    assert(views(problems@) =~= before.push(view));
                }
            }
        }
        i += 1;
        assert(views(problems@) =~= runtime + stale_problems(flat.take(i as int), invalidated@));
    }
    proof {
        assert(flat.take(i as int) =~= flat);
    }
    let mut failed = draft.standing_failure_problems();
    let ghost failed_view = views(failed@);
    let ghost so_far = views(problems@);
    problems.append(&mut failed);
    assert(views(problems@) =~= so_far + failed_view);
    problems
}

} // verus!
