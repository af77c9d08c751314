//! What holds of a draft whatever commands are applied to it.
use crate::command_view::CommandView;
use crate::commands::edited;
use crate::draft::{
    any_stands, applied, edit_applied, nested_watch, opened, pushed, snapshot, EditorDraftView,
    EDITOR_UNDO_LIMIT,
};
use crate::editor_types::{EditOutcome, EditorErrorView};
use crate::identities::{lemma_first_repeat_none, structural_ids};
use crate::macro_engine::{BlockView, MacroDefinitionView};
use crate::rule_edits::{bumped, EditedView};
use vstd::prelude::*;

verus! {

/// The blocks have distinct structural identities, and no watch group stands below another.
pub open spec fn sound_blocks(blocks: Seq<BlockView>) -> bool {
    structural_ids(blocks).no_duplicates() && !nested_watch(blocks)
}

/// Every entry of a history has sound blocks.
pub open spec fn sound_history(history: Seq<EditedView>) -> bool {
    forall|i: int|
        0 <= i < history.len() ==> sound_blocks((#[trigger] history[i]).definition.blocks)
}

/// The definition of a draft and everything that undo and redo can bring back is sound, and
/// neither history is longer than the limit.
pub open spec fn sound(draft: EditorDraftView) -> bool {
    &&& sound_blocks(draft.definition.blocks)
    &&& sound_history(draft.undo)
    &&& sound_history(draft.redo)
    &&& draft.undo.len() <= EDITOR_UNDO_LIMIT
    &&& draft.redo.len() <= EDITOR_UNDO_LIMIT
}

/// A command that edits the definition, rather than its history or its validation.
pub open spec fn is_edit(command: CommandView) -> bool {
    !(command is Undo || command is Redo || command is MarkValidated)
}

/// What a definition holds beside its revision.
pub open spec fn same_but_revision(a: MacroDefinitionView, b: MacroDefinitionView) -> bool {
    a == MacroDefinitionView { revision: a.revision, ..b }
}

/// An edit is a transaction: where it is refused, the draft is as it was.
pub proof fn refused_command_changes_nothing(draft: EditorDraftView, command: CommandView)
    requires
        applied(draft, command).1 is Err,
    ensures
        applied(draft, command).0 == draft,
{
}

/// A command that answers that nothing changed leaves the draft as it was.
pub proof fn no_change_changes_nothing(draft: EditorDraftView, command: CommandView)
    requires
        applied(draft, command).1 == Ok::<_, EditorErrorView>(EditOutcome::NoChange),
    ensures
        applied(draft, command).0 == draft,
{
}

/// While a run is in progress every command is refused.
pub proof fn running_draft_is_read_only(draft: EditorDraftView, command: CommandView)
    requires
        draft.editability is Running,
    ensures
        applied(draft, command) == (
            draft,
            Err::<EditOutcome, _>(EditorErrorView::RunInProgress),
        ),
{
}

/// A change counts the revision on, asks for validation, and leaves alone who may edit and which
/// tests failed.
pub proof fn change_is_a_new_revision(draft: EditorDraftView, command: CommandView)
    requires
        applied(draft, command).1 == Ok::<_, EditorErrorView>(EditOutcome::Changed),
    ensures
        applied(draft, command).0.definition.revision == bumped(draft.definition.revision),
        applied(draft, command).0.status is NeedsValidation,
        applied(draft, command).0.editability == draft.editability,
        applied(draft, command).0.failures == draft.failures,
{
}

/// Only validation makes a draft ready that was not, and it needs a clean report and no failed
/// test that stands.
pub proof fn only_validation_makes_ready(draft: EditorDraftView, command: CommandView)
    requires
        draft.status is NeedsValidation,
        applied(draft, command).0.status is Ready,
    ensures
        command matches CommandView::MarkValidated { runtime_problems } && runtime_problems.len()
            == 0 && !any_stands(draft.definition, draft.failures),
        applied(draft, command).0.definition == draft.definition,
        applied(draft, command).0.invalidated == Set::<Seq<char>>::empty(),
{
}

/// A draft that opens on a sound definition is sound.
pub proof fn opened_draft_is_sound(definition: MacroDefinitionView)
    requires
        sound_blocks(definition.blocks),
    ensures
        sound(opened(definition)),
{
}

proof fn lemma_pushed(history: Seq<EditedView>, entry: EditedView)
    requires
        sound_history(history),
        sound_blocks(entry.definition.blocks),
        history.len() <= EDITOR_UNDO_LIMIT,
    ensures
        sound_history(pushed(history, entry, EDITOR_UNDO_LIMIT as int)),
        pushed(history, entry, EDITOR_UNDO_LIMIT as int).len() <= EDITOR_UNDO_LIMIT,
        pushed(history, entry, EDITOR_UNDO_LIMIT as int).last() == entry,
        pushed(history, entry, EDITOR_UNDO_LIMIT as int).len() > 0,
{
    let all = pushed(history, entry, EDITOR_UNDO_LIMIT as int);
    assert forall|i: int| 0 <= i < all.len() implies sound_blocks(
        (#[trigger] all[i]).definition.blocks,
    ) by {
        if i < all.len() - 1 {
            if history.len() == EDITOR_UNDO_LIMIT {
                assert(all[i] == history[i + 1]);
            } else {
                assert(all[i] == history[i]);
            }
        }
    }
}

/// Whatever command comes, and whether it is accepted or refused, a sound draft stays sound:
/// identities stay distinct, watch groups stay outside one another, and the histories stay
/// within their limit.
pub proof fn commands_keep_a_draft_sound(draft: EditorDraftView, command: CommandView)
    requires
        sound(draft),
    ensures
        sound(applied(draft, command).0),
{
    let after = applied(draft, command).0;
    let before = snapshot(draft);
    if after != draft {
        match command {
            CommandView::MarkValidated { .. } => {},
            CommandView::Undo => {
                lemma_pushed(draft.redo, before);
                assert(sound_blocks(draft.undo[draft.undo.len() - 1].definition.blocks));
                assert forall|i: int| 0 <= i < after.undo.len() implies sound_blocks(
                    (#[trigger] after.undo[i]).definition.blocks,
                ) by {
                    assert(after.undo[i] == draft.undo[i]);
                }
            },
            CommandView::Redo => {
                lemma_pushed(draft.undo, before);
                assert(sound_blocks(draft.redo[draft.redo.len() - 1].definition.blocks));
                assert forall|i: int| 0 <= i < after.redo.len() implies sound_blocks(
                    (#[trigger] after.redo[i]).definition.blocks,
                ) by {
                    assert(after.redo[i] == draft.redo[i]);
                }
            },
            _ => {
                lemma_pushed(draft.undo, before);
                let next = edited(before, command)->Ok_0;
                lemma_first_repeat_none(structural_ids(next.definition.blocks));
                assert(after == edit_applied(draft, edited(before, command)).0);
            },
        }
    }
}

/// Undo takes back the edit before it: definition and stale sources are those from before the
/// edit, but for the revision, which has counted on twice, and a redo is at hand.
pub proof fn undo_takes_back_an_edit(draft: EditorDraftView, command: CommandView)
    requires
        sound(draft),
        is_edit(command),
        applied(draft, command).1 == Ok::<_, EditorErrorView>(EditOutcome::Changed),
    ensures
        ({
            let undone = applied(applied(draft, command).0, CommandView::Undo);
            &&& undone.1 == Ok::<_, EditorErrorView>(EditOutcome::Changed)
            &&& same_but_revision(undone.0.definition, draft.definition)
            &&& undone.0.definition.revision == bumped(bumped(draft.definition.revision))
            &&& undone.0.invalidated == draft.invalidated
            &&& undone.0.redo == seq![snapshot(applied(draft, command).0)]
            &&& draft.undo.len() < EDITOR_UNDO_LIMIT ==> undone.0.undo == draft.undo
        }),
{
    let after = applied(draft, command).0;
    commands_keep_a_draft_sound(draft, command);
    lemma_first_repeat_none(structural_ids(after.definition.blocks));
    lemma_pushed(draft.undo, snapshot(draft));
    assert(after.redo =~= Seq::empty());
    let undone = applied(after, CommandView::Undo).0;
    assert(undone.redo =~= seq![snapshot(after)]);
    if draft.undo.len() < EDITOR_UNDO_LIMIT {
        assert(undone.undo =~= draft.undo);
    }
}

/// Redo after undo brings back what undo took away: definition and stale sources are those from
/// before the undo, but for the revision.
pub proof fn redo_brings_back_an_undo(draft: EditorDraftView)
    requires
        sound(draft),
        draft.editability is Editable,
        draft.undo.len() > 0,
    ensures
        ({
            let redone = applied(applied(draft, CommandView::Undo).0, CommandView::Redo);
            &&& redone.1 == Ok::<_, EditorErrorView>(EditOutcome::Changed)
            &&& same_but_revision(redone.0.definition, draft.definition)
            &&& redone.0.definition.revision == bumped(bumped(draft.definition.revision))
            &&& redone.0.invalidated == draft.invalidated
            &&& draft.redo.len() < EDITOR_UNDO_LIMIT ==> redone.0.redo == draft.redo
        }),
{
    let undone = applied(draft, CommandView::Undo).0;
    commands_keep_a_draft_sound(draft, CommandView::Undo);
    lemma_first_repeat_none(structural_ids(draft.definition.blocks));
    lemma_first_repeat_none(structural_ids(undone.definition.blocks));
    lemma_pushed(draft.redo, snapshot(draft));
    let redone = applied(undone, CommandView::Redo).0;
    if draft.redo.len() < EDITOR_UNDO_LIMIT {
        assert(redone.redo =~= draft.redo);
    }
}

/// A new edit leaves nothing to redo.
pub proof fn edit_forgets_what_was_undone(draft: EditorDraftView, command: CommandView)
    requires
        is_edit(command),
        applied(draft, command).1 == Ok::<_, EditorErrorView>(EditOutcome::Changed),
    ensures
        applied(draft, command).0.redo == Seq::<EditedView>::empty(),
{
}

} // verus!
