//! The editable draft of a macro, and the transaction that every edit is.
use crate::block_edit::head_condition;
use crate::command_view::CommandView;
use crate::commands::{apply_to_definition, edited};
use crate::block_equality::equal_definitions;
use crate::content::{option_view, views, Alike, Exact};
use crate::editor_types::{
    DraftEditability, DraftStatus, EditOutcome, EditorCommand, EditorError, EditorErrorView,
};
use crate::fingerprint::{render, Fingerprint, Token};
use crate::id_set::IdSet;
use crate::identities::{first_repeat, repeated_id, structural_ids};
use crate::macro_engine::{
    blocks_view, condition_view, Block, BlockKind, BlockView, Condition, ConditionView,
    DetectorFamily, ImageRule, ImageRuleView, MacroDefinition, MacroDefinitionView,
    RegionDefinition, RegionDefinitionView, TextRule, ValidationProblem,
};
use crate::parts::{add_option, option_parts, Parts};
use crate::rule_edits::{
    bump, bumped, edited_view, image_rule_is, image_rule_position, region_is, region_position,
    text_rule_is, text_rule_position, EditedView,
};
use crate::tree::{
    child_containers, find_block, first_index, flatten, flatten_bodies, found_block, walk,
};
use std::collections::VecDeque;
use vstd::prelude::*;

verus! {

broadcast use crate::macro_engine::group_block_views;

/// Number of edits that can be undone.
pub const EDITOR_UNDO_LIMIT: usize = 32;

/// A definition and its stale sources, as they were before an edit.
#[derive(Debug, PartialEq)]
struct UndoEntry {
    definition: MacroDefinition,
    invalidated_source_ids: IdSet,
}

impl View for UndoEntry {
    type V = EditedView;

    closed spec fn view(&self) -> EditedView {
        EditedView { definition: self.definition@, invalidated: self.invalidated_source_ids@ }
    }
}

impl Clone for UndoEntry {
    fn clone(&self) -> (copy: Self)
        ensures
            copy@ == self@,
    {
        UndoEntry {
            definition: self.definition.clone(),
            invalidated_source_ids: self.invalidated_source_ids.clone(),
        }
    }
}

/// A detector test that failed, and the detector that it tested.
#[derive(Debug, PartialEq, Eq)]
pub struct DetectorFailure {
    pub block_id: String,
    pub fingerprint: String,
    pub evidence: String,
}

/// The contents of a [`DetectorFailure`].
#[verifier::ext_equal]
pub ghost struct DetectorFailureView {
    pub block_id: Seq<char>,
    pub fingerprint: Seq<char>,
    pub evidence: Seq<char>,
}

impl View for DetectorFailure {
    type V = DetectorFailureView;

    open spec fn view(&self) -> DetectorFailureView {
        DetectorFailureView {
            block_id: self.block_id@,
            fingerprint: self.fingerprint@,
            evidence: self.evidence@,
        }
    }
}

impl Clone for DetectorFailure {
    fn clone(&self) -> (copy: Self)
        ensures
            copy == *self,
    {
        DetectorFailure {
            block_id: self.block_id.clone(),
            fingerprint: self.fingerprint.clone(),
            evidence: self.evidence.clone(),
        }
    }
}

/// What the editor remembers of a draft beside its definition.
#[derive(Debug, PartialEq)]
pub struct EditorMemory {
    invalidated_source_ids: IdSet,
    undo: VecDeque<UndoEntry>,
    redo: VecDeque<UndoEntry>,
    detector_failures: Vec<DetectorFailure>,
}

/// The contents of an [`EditorMemory`].
#[verifier::ext_equal]
pub ghost struct EditorMemoryView {
    pub invalidated: Set<Seq<char>>,
    pub undo: Seq<EditedView>,
    pub redo: Seq<EditedView>,
    pub failures: Seq<DetectorFailureView>,
}

impl View for EditorMemory {
    type V = EditorMemoryView;

    closed spec fn view(&self) -> EditorMemoryView {
        EditorMemoryView {
            invalidated: self.invalidated_source_ids@,
            undo: views(self.undo@),
            redo: views(self.redo@),
            failures: views(self.detector_failures@),
        }
    }
}

impl Clone for EditorMemory {
    fn clone(&self) -> (copy: Self)
        ensures
            copy@ == self@,
    {
        let copy = EditorMemory {
            invalidated_source_ids: self.invalidated_source_ids.clone(),
            undo: self.undo.clone(),
            redo: self.redo.clone(),
            detector_failures: self.detector_failures.clone(),
        };
        proof {
            assert(views(copy.undo@) =~= views(self.undo@));
            assert(views(copy.redo@) =~= views(self.redo@));
            assert(views(copy.detector_failures@) =~= views(self.detector_failures@));
        }
        copy
    }
}

/// Editor-only state. The canonical definition never stores removed conversion data or undo data.
#[derive(Debug, PartialEq)]
pub struct EditorDraft {
    pub definition: MacroDefinition,
    pub status: DraftStatus,
    pub editability: DraftEditability,
    pub memory: EditorMemory,
}

/// The contents of an [`EditorDraft`].
#[verifier::ext_equal]
pub ghost struct EditorDraftView {
    pub definition: MacroDefinitionView,
    pub status: DraftStatus,
    pub editability: DraftEditability,
    pub invalidated: Set<Seq<char>>,
    pub undo: Seq<EditedView>,
    pub redo: Seq<EditedView>,
    pub failures: Seq<DetectorFailureView>,
}

impl View for EditorDraft {
    type V = EditorDraftView;

    open spec fn view(&self) -> EditorDraftView {
        EditorDraftView {
            definition: self.definition@,
            status: self.status,
            editability: self.editability,
            invalidated: self.memory@.invalidated,
            undo: self.memory@.undo,
            redo: self.memory@.redo,
            failures: self.memory@.failures,
        }
    }
}

impl Clone for EditorDraft {
    fn clone(&self) -> (copy: Self)
        ensures
            copy@ == self@,
    {
        EditorDraft {
            definition: self.definition.clone(),
            status: self.status,
            editability: self.editability,
            memory: self.memory.clone(),
        }
    }
}

impl std::ops::Deref for EditorDraft {
    type Target = MacroDefinition;

    fn deref(&self) -> (definition: &MacroDefinition)
        ensures
            *definition == self.definition,
    {
        &self.definition
    }
}

/// The draft that a definition opens as.
pub open spec fn opened(definition: MacroDefinitionView) -> EditorDraftView {
    EditorDraftView {
        definition,
        status: DraftStatus::Ready,
        editability: DraftEditability::Editable,
        invalidated: Set::empty(),
        undo: Seq::empty(),
        redo: Seq::empty(),
        failures: Seq::empty(),
    }
}

/// The text rule, or image rule, that a condition uses, together with the rule's region, as the
/// parts of a fingerprint. A verification is no part of a detector.
pub open spec fn detector_parts(
    definition: MacroDefinitionView,
    condition: ConditionView,
) -> Option<Seq<Token>> {
    match condition.family {
        DetectorFamily::Text => match first_index(
            definition.text_rules,
            text_rule_is(condition.rule),
        ) {
            None => None,
            Some(i) => Some(
                seq![Token::Number(0)] + TextRule::parts(definition.text_rules[i]) + option_parts::<
                    RegionDefinition,
                >(region_of(definition, definition.text_rules[i].region_id)),
            ),
        },
        DetectorFamily::Image => match first_index(
            definition.image_rules,
            image_rule_is(condition.rule),
        ) {
            None => None,
            Some(i) => Some(
                seq![Token::Number(1)] + ImageRule::parts(
                    ImageRuleView { verification: None, ..definition.image_rules[i] },
                ) + option_parts::<RegionDefinition>(
                    region_of(definition, definition.image_rules[i].region_id),
                ),
            ),
        },
    }
}

/// The region of an identity.
pub open spec fn region_of(definition: MacroDefinitionView, id: Seq<char>) -> Option<
    RegionDefinitionView,
> {
    match first_index(definition.regions, region_is(id)) {
        None => None,
        Some(i) => Some(definition.regions[i]),
    }
}

/// The fingerprint of the detector that a block observes with, if it has one.
pub open spec fn detector_fingerprint(
    definition: MacroDefinitionView,
    block_id: Seq<char>,
) -> Option<Seq<char>> {
    match found_block(definition.blocks, block_id) {
        None => None,
        Some(block) => match head_condition(block.head) {
            None => None,
            Some(condition) => match detector_parts(definition, condition) {
                None => None,
                Some(parts) => Some(render(parts)),
            },
        },
    }
}

/// A failed test stands as long as the detector it tested is the one in the definition.
pub open spec fn stands(definition: MacroDefinitionView, failure: DetectorFailureView) -> bool {
    detector_fingerprint(definition, failure.block_id) == Some(failure.fingerprint)
}

/// Some failed test stands.
pub open spec fn any_stands(
    definition: MacroDefinitionView,
    failures: Seq<DetectorFailureView>,
) -> bool {
    exists|i: int| 0 <= i < failures.len() && stands(definition, #[trigger] failures[i])
}

/// A history with one more entry, where the oldest gives way at the limit.
pub open spec fn pushed<T>(history: Seq<T>, entry: T, limit: int) -> Seq<T> {
    if history.len() == limit {
        history.drop_first().push(entry)
    } else {
        history.push(entry)
    }
}

/// The definition and the stale sources of a draft.
pub open spec fn snapshot(draft: EditorDraftView) -> EditedView {
    EditedView { definition: draft.definition, invalidated: draft.invalidated }
}

/// The draft with what a snapshot holds, at its next revision.
pub open spec fn restored(draft: EditorDraftView, entry: EditedView) -> EditorDraftView {
    EditorDraftView {
        definition: MacroDefinitionView {
            revision: bumped(draft.definition.revision),
            ..entry.definition
        },
        invalidated: entry.invalidated,
        status: DraftStatus::NeedsValidation,
        ..draft
    }
}

/// A watch group has another watch group below it.
pub open spec fn nested_watch(blocks: Seq<BlockView>) -> bool {
    exists|i: int|
        0 <= i < flatten(blocks).len() && (#[trigger] flatten(blocks)[i]).head is WatchGroup
            && watch_below(flatten(blocks)[i])
}

/// A block has a watch group below it.
pub open spec fn watch_below(block: BlockView) -> bool {
    exists|j: int|
        0 <= j < flatten_bodies(block.bodies).len() && (#[trigger] flatten_bodies(
            block.bodies,
        )[j]).head is WatchGroup
}

/// What a command answers and what it leaves of a draft. A refused command leaves it as it was.
pub open spec fn applied(draft: EditorDraftView, command: CommandView) -> (
    EditorDraftView,
    Result<EditOutcome, EditorErrorView>,
) {
    if draft.editability is Running {
        (draft, Err(EditorErrorView::RunInProgress))
    } else if first_repeat(structural_ids(draft.definition.blocks)) is Some {
        (
            draft,
            Err(
                EditorErrorView::DuplicateIdentity(
                    first_repeat(structural_ids(draft.definition.blocks))->0,
                ),
            ),
        )
    } else {
        match command {
            CommandView::MarkValidated { runtime_problems } => if runtime_problems.len() > 0
                || any_stands(draft.definition, draft.failures) {
                (draft, Err(EditorErrorView::ValidationFailed))
            } else if draft.status is Ready && draft.invalidated == Set::<Seq<char>>::empty() {
                (draft, Ok(EditOutcome::NoChange))
            } else {
                (
                    EditorDraftView {
                        invalidated: Set::empty(),
                        status: DraftStatus::Ready,
                        ..draft
                    },
                    Ok(EditOutcome::Validated),
                )
            },
            CommandView::Undo => if draft.undo.len() == 0 {
                (draft, Err(EditorErrorView::NothingToUndo))
            } else {
                (
                    EditorDraftView {
                        undo: draft.undo.drop_last(),
                        redo: pushed(draft.redo, snapshot(draft), EDITOR_UNDO_LIMIT as int),
                        ..restored(draft, draft.undo.last())
                    },
                    Ok(EditOutcome::Changed),
                )
            },
            CommandView::Redo => if draft.redo.len() == 0 {
                (draft, Err(EditorErrorView::NothingToRedo))
            } else {
                (
                    EditorDraftView {
                        redo: draft.redo.drop_last(),
                        undo: pushed(draft.undo, snapshot(draft), EDITOR_UNDO_LIMIT as int),
                        ..restored(draft, draft.redo.last())
                    },
                    Ok(EditOutcome::Changed),
                )
            },
            _ => edit_applied(draft, edited(snapshot(draft), command)),
        }
    }
}

/// An edit changed nothing: the definition equals the one before, and the same sources are stale.
pub open spec fn unchanged(next: EditedView, before: EditedView) -> bool {
    equal_definitions(next.definition, before.definition) && next.invalidated == before.invalidated
}

/// What an edit answers and what it leaves of a draft, given what the command makes of it.
pub open spec fn edit_applied(
    draft: EditorDraftView,
    result: Result<EditedView, EditorErrorView>,
) -> (EditorDraftView, Result<EditOutcome, EditorErrorView>) {
    match result {
        Err(error) => (draft, Err(error)),
        Ok(next) => if first_repeat(structural_ids(next.definition.blocks)) is Some {
            (
                draft,
                Err(
                    EditorErrorView::DuplicateIdentity(
                        first_repeat(structural_ids(next.definition.blocks))->0,
                    ),
                ),
            )
        } else if nested_watch(next.definition.blocks) {
            (draft, Err(EditorErrorView::NestedWatchGroup))
        } else if unchanged(next, snapshot(draft)) {
            (draft, Ok(EditOutcome::NoChange))
        } else {
            (
                EditorDraftView {
                    undo: pushed(draft.undo, snapshot(draft), EDITOR_UNDO_LIMIT as int),
                    redo: Seq::empty(),
                    ..restored(draft, next)
                },
                Ok(EditOutcome::Changed),
            )
        },
    }
}

/// An answer by its contents.
pub open spec fn answer_view(answer: Result<EditOutcome, EditorError>) -> Result<
    EditOutcome,
    EditorErrorView,
> {
    match answer {
        Ok(outcome) => Ok(outcome),
        Err(error) => Err(error@),
    }
}

impl EditorDraft {
    pub fn new(definition: MacroDefinition) -> (draft: Self)
        ensures
            draft@ == opened(definition@),
    {
        let draft = EditorDraft {
            definition,
            status: DraftStatus::Ready,
            editability: DraftEditability::Editable,
            memory: EditorMemory {
                invalidated_source_ids: IdSet::new(),
                undo: VecDeque::new(),
                redo: VecDeque::new(),
                detector_failures: Vec::new(),
            },
        };
        proof {
            assert(draft@.undo =~= Seq::empty());
            assert(draft@.redo =~= Seq::empty());
            assert(draft@.failures =~= Seq::empty());
        }
        draft
    }

    pub fn invalidated_source_ids(&self) -> (ids: &IdSet)
        ensures
            ids@ == self@.invalidated,
    {
        &self.memory.invalidated_source_ids
    }

    pub fn undo_len(&self) -> (len: usize)
        ensures
            len == self@.undo.len(),
    {
        self.memory.undo.len()
    }

    pub fn redo_len(&self) -> (len: usize)
        ensures
            len == self@.redo.len(),
    {
        self.memory.redo.len()
    }

    /// Remembers that a test of a block's detector failed, in place of any earlier failure.
    pub fn record_detector_test_failure(
        &mut self,
        block_id: &str,
        fingerprint: String,
        evidence: String,
    )
        ensures
            final(self)@ == (EditorDraftView {
                failures: other_failures(old(self)@.failures, block_id@).push(
                    DetectorFailureView {
                        block_id: block_id@,
                        fingerprint: fingerprint@,
                        evidence: evidence@,
                    },
                ),
                ..old(self)@
            }),
    {
        self.clear_detector_test_failure(block_id);
        let ghost before = self@.failures;
        let failure = DetectorFailure { block_id: block_id.to_owned(), fingerprint, evidence };
        let ghost view = failure@;
        self.memory.detector_failures.push(failure);
        assert(self@.failures =~= before.push(view));
    }

    /// Forgets the failed tests of a block's detector.
    pub fn clear_detector_test_failure(&mut self, block_id: &str)
        ensures
            final(self)@ == (EditorDraftView {
                failures: other_failures(old(self)@.failures, block_id@),
                ..old(self)@
            }),
    {
        let ghost all = self@.failures;
        let mut kept: Vec<DetectorFailure> = Vec::new();
        let mut i: usize = 0;
        assert(views(kept@) =~= other_failures(all.take(0), block_id@));
        while i < self.memory.detector_failures.len()
            invariant
                self@ == old(self)@,
                all == views(self.memory.detector_failures@),
                i <= self.memory.detector_failures@.len(),
                views(kept@) == other_failures(all.take(i as int), block_id@),
            decreases self.memory.detector_failures@.len() - i,
        {
            let failure = &self.memory.detector_failures[i];
            let ghost before = views(kept@);
            proof {
                assert(all.take(i + 1).drop_last() =~= all.take(i as int));
                assert(all.take(i + 1).last() == failure@);
            }
            if !crate::text::same_text(failure.block_id.as_str(), block_id) {
                kept.push(failure.clone());
                assert(views(kept@) =~= before.push(failure@));
            }
            i += 1;
        }
        assert(all.take(i as int) =~= all);
        self.memory.detector_failures = kept;
    }
}

impl EditorDraft {
    /// The problems of the detectors whose failed tests stand.
    pub fn standing_failure_problems(&self) -> (problems: Vec<ValidationProblem>)
        ensures
            views(problems@) == crate::places::failure_problems(
                self@.definition,
                self@.failures,
            ),
    {
        let ghost all = self@.failures;
        let failures = &self.memory.detector_failures;
        let mut problems: Vec<ValidationProblem> = Vec::new();
        let mut i: usize = 0;
        assert(views(problems@) =~= crate::places::failure_problems(
            self@.definition,
            all.take(0),
        ));
        while i < failures.len()
            invariant
                all == views(failures@),
                i <= failures@.len(),
                views(problems@) == crate::places::failure_problems(
                    self@.definition,
                    all.take(i as int),
                ),
            decreases failures@.len() - i,
        {
            let failure = &failures[i];
            let ghost before = views(problems@);
            proof {
                assert(all.take(i + 1).drop_last() =~= all.take(i as int));
                assert(all.take(i + 1).last() == failure@);
            }
            if failure_stands(&self.definition, failure) {
                problems.push(
                    ValidationProblem {
                        code: "editor.detector_test_failed".to_owned(),
                        message: failure.evidence.clone(),
                        block_id: Some(failure.block_id.clone()),
                    },
                );
                assert(views(problems@) =~= before.push(
                    crate::places::failure_problem(failure@),
                ));
            }
            i += 1;
        }
        assert(all.take(i as int) =~= all);
        problems
    }
}

/// The failures that are of other blocks.
pub open spec fn other_failures(
    failures: Seq<DetectorFailureView>,
    block_id: Seq<char>,
) -> Seq<DetectorFailureView>
    decreases failures.len(),
{
    if failures.len() == 0 {
        Seq::empty()
    } else if failures.last().block_id == block_id {
        other_failures(failures.drop_last(), block_id)
    } else {
        other_failures(failures.drop_last(), block_id).push(failures.last())
    }
}

/// The condition that a block observes itself.
pub fn condition_for_block<'a>(definition: &'a MacroDefinition, block_id: &str) -> (condition: Option<
    &'a Condition,
>)
    ensures
        match found_block(definition@.blocks, block_id@) {
            None => condition is None,
            Some(block) => match head_condition(block.head) {
                None => condition is None,
                Some(view) => condition matches Some(found) && condition_view(*found) == view,
            },
        },
{
    match find_block(&definition.blocks, block_id) {
        None => None,
        Some(block) => match &block.kind {
            BlockKind::Observe { condition } => Some(condition),
            BlockKind::If { condition, .. } => Some(condition),
            BlockKind::RepeatUntil { condition, .. } => Some(condition),
            _ => None,
        },
    }
}

fn region_copy(definition: &MacroDefinition, id: &str) -> (region: Option<RegionDefinition>)
    ensures
        option_view(region) == region_of(definition@, id@),
{
    match region_position(&definition.regions, id) {
        None => None,
        Some(i) => Some(definition.regions[i].clone()),
    }
}

/// The fingerprint of the detector that a block observes with, if it has one.
pub fn detector_fingerprint_for_block(definition: &MacroDefinition, block_id: &str) -> (fingerprint:
    Option<String>)
    ensures
        option_view(fingerprint) == detector_fingerprint(definition@, block_id@),
{
    let condition = match condition_for_block(definition, block_id) {
        None => return None,
        Some(condition) => condition,
    };
    let mut out = Fingerprint::new();
    match condition {
        Condition::Text { rule_id, .. } => {
            match text_rule_position(&definition.text_rules, rule_id.as_str()) {
                None => return None,
                Some(i) => {
                    let rule = &definition.text_rules[i];
                    out.number(0);
                    rule.add_parts(&mut out);
                    let region = region_copy(definition, rule.region_id.as_str());
                    add_option(&region, &mut out);
                    assert(out@ =~= detector_parts(definition@, condition_view(*condition))->0);
                },
            }
        },
        Condition::Image { rule_id, .. } => {
            match image_rule_position(&definition.image_rules, rule_id.as_str()) {
                None => return None,
                Some(i) => {
                    let mut rule = definition.image_rules[i].clone();
                    rule.verification = None;
                    assert(rule@ == (ImageRuleView {
                        verification: None,
                        ..definition@.image_rules[i as int]
                    }));
                    out.number(1);
                    rule.add_parts(&mut out);
                    let region = region_copy(definition, rule.region_id.as_str());
                    add_option(&region, &mut out);
                    assert(out@ =~= detector_parts(definition@, condition_view(*condition))->0);
                },
            }
        },
    }
    Some(out.finish())
}

/// Whether a failed test stands.
fn failure_stands(definition: &MacroDefinition, failure: &DetectorFailure) -> (result: bool)
    ensures
        result == stands(definition@, failure@),
{
    match detector_fingerprint_for_block(definition, failure.block_id.as_str()) {
        None => false,
        Some(fingerprint) => fingerprint == failure.fingerprint,
    }
}

fn any_failure_stands(
    definition: &MacroDefinition,
    failures: &Vec<DetectorFailure>,
) -> (result: bool)
    ensures
        result == any_stands(definition@, views(failures@)),
{
    let mut i: usize = 0;
    while i < failures.len()
        invariant
            i <= failures@.len(),
            forall|j: int| 0 <= j < i ==> !stands(definition@, #[trigger] views(failures@)[j]),
        decreases failures@.len() - i,
    {
        if failure_stands(definition, &failures[i]) {
            assert(stands(definition@, views(failures@)[i as int]));
            return true;
        }
        i += 1;
    }
    false
}

/// Whether a watch group has another watch group below it.
pub fn has_nested_watch(blocks: &Vec<Block>) -> (nested: bool)
    ensures
        nested == nested_watch(blocks_view(blocks@)),
{
    let all = walk(blocks);
    let ghost flat = flatten(blocks_view(blocks@));
    let mut i: usize = 0;
    while i < all.len()
        invariant
            i <= all@.len(),
            flat == flatten(blocks_view(blocks@)),
            views(all@) == flat,
            forall|j: int|
                0 <= j < i ==> !((#[trigger] flat[j]).head is WatchGroup && watch_below(flat[j])),
        decreases all@.len() - i,
    {
        assert(flat[i as int] == all@[i as int]@);
        if let BlockKind::WatchGroup { .. } = &all[i].kind {
            if holds_watch(all[i]) {
                return true;
            }
        }
        i += 1;
    }
    false
}

/// Whether a block has a watch group below it.
fn holds_watch(block: &Block) -> (found: bool)
    ensures
        found == watch_below(block@),
{
    let bodies = child_containers(block);
    let ghost flat = flatten_bodies(block@.bodies);
    let mut k: usize = 0;
    while k < bodies.len()
        invariant
            k <= bodies@.len(),
            bodies@.len() == block@.bodies.len(),
            forall|j: int|
                0 <= j < bodies@.len() ==> blocks_view((#[trigger] bodies@[j])@)
                    == block@.bodies[j].blocks,
            forall|j: int|
                0 <= j < flatten_bodies(block@.bodies.take(k as int)).len() ==> !((
                #[trigger] flatten_bodies(block@.bodies.take(k as int))[j]).head is WatchGroup),
        decreases bodies@.len() - k,
    {
        let all = walk(bodies[k]);
        let ghost part = flatten(block@.bodies[k as int].blocks);
        let ghost sofar = flatten_bodies(block@.bodies.take(k as int));
        proof {
            crate::tree::lemma_flatten_bodies_take(block@.bodies, k as int);
            crate::tree::lemma_flatten_bodies_add(
                block@.bodies.take(k + 1),
                block@.bodies.skip(k + 1),
            );
            assert(block@.bodies.take(k + 1) + block@.bodies.skip(k + 1) =~= block@.bodies);
        }
        let mut i: usize = 0;
        while i < all.len()
            invariant
                i <= all@.len(),
                views(all@) == part,
                sofar + part + flatten_bodies(block@.bodies.skip(k + 1)) == flatten_bodies(
                    block@.bodies,
                ),
                forall|j: int| 0 <= j < i ==> !((#[trigger] part[j]).head is WatchGroup),
            decreases all@.len() - i,
        {
            assert(part[i as int] == all@[i as int]@);
            if let BlockKind::WatchGroup { .. } = &all[i].kind {
                proof {
                    let at = sofar.len() + i;
                    assert(flatten_bodies(block@.bodies)[at] == part[i as int]);
                }
                return true;
            }
            i += 1;
        }
        proof {
            let next = flatten_bodies(block@.bodies.take(k + 1));
            assert forall|j: int| 0 <= j < next.len() implies !((
            #[trigger] next[j]).head is WatchGroup) by {
                if j < sofar.len() {
                    assert(next[j] == sofar[j]);
                } else {
                    assert(next[j] == part[j - sofar.len()]);
                }
            }
        }
        k += 1;
    }
    assert(block@.bodies.take(k as int) =~= block@.bodies);
    false
}

/// Adds an entry to a history, where the oldest gives way at the limit.
fn push_entry(history: &mut VecDeque<UndoEntry>, entry: UndoEntry)
    ensures
        views(final(history)@) == pushed(
            views(old(history)@),
            entry@,
            EDITOR_UNDO_LIMIT as int,
        ),
{
    let ghost before = history@;
    if history.len() == EDITOR_UNDO_LIMIT {
        let _ = history.pop_front();
    }
    history.push_back(entry);
    assert(views(history@) =~= pushed(views(before), entry@, EDITOR_UNDO_LIMIT as int));
}

/// Applies one edit to a draft as a transaction: it is done completely, or refused and nothing
/// has changed.
pub fn apply_editor_command(draft: &mut EditorDraft, command: EditorCommand) -> (answer: Result<
    EditOutcome,
    EditorError,
>)
    ensures
        (final(draft)@, answer_view(answer)) == applied(old(draft)@, command@),
{
    if let DraftEditability::Running { .. } = draft.editability {
        return Err(EditorError::RunInProgress);
    }
    if let Some(id) = repeated_id(&draft.definition.blocks) {
        return Err(EditorError::DuplicateIdentity(id));
    }
    match command {
        EditorCommand::MarkValidated { runtime_problems } => {
            if runtime_problems.len() > 0 || any_failure_stands(
                &draft.definition,
                &draft.memory.detector_failures,
            ) {
                return Err(EditorError::ValidationFailed);
            }
            if draft.status == DraftStatus::Ready && draft.memory.invalidated_source_ids.is_empty() {
                return Ok(EditOutcome::NoChange);
            }
            draft.memory.invalidated_source_ids.clear();
            draft.status = DraftStatus::Ready;
            Ok(EditOutcome::Validated)
        },
        EditorCommand::Undo => {
            let ghost undo = views(draft.memory.undo@);
            let previous = match draft.memory.undo.pop_back() {
                None => {
                    return Err(EditorError::NothingToUndo);
                },
                Some(previous) => previous,
            };
            assert(views(draft.memory.undo@) =~= undo.drop_last());
            let revision = bump(draft.definition.revision);
            let current = UndoEntry {
                definition: draft.definition.clone(),
                invalidated_source_ids: draft.memory.invalidated_source_ids.clone(),
            };
            push_entry(&mut draft.memory.redo, current);
            draft.definition = previous.definition;
            draft.definition.revision = revision;
            draft.memory.invalidated_source_ids = previous.invalidated_source_ids;
            draft.status = DraftStatus::NeedsValidation;
            Ok(EditOutcome::Changed)
        },
        EditorCommand::Redo => {
            let ghost redo = views(draft.memory.redo@);
            let next = match draft.memory.redo.pop_back() {
                None => {
                    return Err(EditorError::NothingToRedo);
                },
                Some(next) => next,
            };
            assert(views(draft.memory.redo@) =~= redo.drop_last());
            let revision = bump(draft.definition.revision);
            let current = UndoEntry {
                definition: draft.definition.clone(),
                invalidated_source_ids: draft.memory.invalidated_source_ids.clone(),
            };
            push_entry(&mut draft.memory.undo, current);
            draft.definition = next.definition;
            draft.definition.revision = revision;
            draft.memory.invalidated_source_ids = next.invalidated_source_ids;
            draft.status = DraftStatus::NeedsValidation;
            Ok(EditOutcome::Changed)
        },
        command => apply_edit(draft, command),
    }
}

/// Applies a command that edits the definition, on a copy that is kept only if nothing is wrong
/// with it.
fn apply_edit(draft: &mut EditorDraft, command: EditorCommand) -> (answer: Result<
    EditOutcome,
    EditorError,
>)
    ensures
        (final(draft)@, answer_view(answer)) == edit_applied(
            old(draft)@,
            edited(snapshot(old(draft)@), command@),
        ),
{
    let mut candidate = draft.definition.clone();
    let mut invalidated = draft.memory.invalidated_source_ids.clone();
    proof {
        assert(edited_view(candidate, invalidated) == snapshot(draft@));
    }
    match apply_to_definition(&mut candidate, &mut invalidated, command) {
        Err(error) => return Err(error),
        Ok(()) => {},
    }
    if let Some(id) = repeated_id(&candidate.blocks) {
        return Err(EditorError::DuplicateIdentity(id));
    }
    if has_nested_watch(&candidate.blocks) {
        return Err(EditorError::NestedWatchGroup);
    }
    if candidate.equals(&draft.definition) && invalidated.same(&draft.memory.invalidated_source_ids) {
        return Ok(EditOutcome::NoChange);
    }
    candidate.revision = bump(draft.definition.revision);
    let before = UndoEntry {
        definition: draft.definition.clone(),
        invalidated_source_ids: draft.memory.invalidated_source_ids.clone(),
    };
    push_entry(&mut draft.memory.undo, before);
    draft.memory.redo = VecDeque::new();
    assert(views(draft.memory.redo@) =~= Seq::empty());
    draft.definition = candidate;
    draft.memory.invalidated_source_ids = invalidated;
    draft.status = DraftStatus::NeedsValidation;
    Ok(EditOutcome::Changed)
}

} // verus!
