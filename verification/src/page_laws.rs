//! What holds of the page whatever is done on it: what answers of the desktop, edits of the layout
//! and steps of the history leave alone.
use crate::authoring::{
    authoring_print, AuthoringKindView, EditorAuthoringError, EditorAuthoringOutcome,
    EditorAuthoringResult,
};
use crate::canvas_layout::{
    arranged, finite_position, graph_has, kept_zoom, reconciled, LayoutView, Position,
};
use crate::canvas_model::{canvas_of, CanvasView};
use crate::command_view::CommandView;
use crate::draft::applied;
use crate::draft_laws::{
    commands_keep_a_draft_sound, is_edit, same_but_revision, sound, undo_takes_back_an_edit,
};
use crate::editor_types::{EditOutcome, EditorErrorView};
use crate::history::EditDomain;
use crate::layout_laws::{
    arrangement_covers_the_graph, arrangement_is_finite, holdable, reconciling_covers_the_graph,
    reconciling_settles,
};
use crate::page::{
    canvas_arranged, layout_fitted, layout_loaded, mutations_allowed, node_moved, PageView,
};
use crate::page_authoring::{answer_taken, answers_editor, editor_answered};
use crate::page_edit::dispatched;
use crate::page_wizard::{answers_wizard, wizard_answered};
use crate::rule_edits::bumped;
use crate::wizard::{WizardAuthoringResult, WizardResultError};
use vstd::prelude::*;

verus! {

/// Nothing that the editor edits differs between two pages.
pub open spec fn same_work(a: PageView, b: PageView) -> bool {
    a.draft == b.draft && a.canvas_layout == b.canvas_layout && a.history == b.history && a.samples
        == b.samples
}

/// Where the draft may not be edited, a command is refused and changes nothing but what is said.
pub proof fn locked_page_refuses_edits(page: PageView, command: CommandView)
    requires
        !mutations_allowed(page),
    ensures
        dispatched(page, command).1 == Err::<EditOutcome, _>(EditorErrorView::RunInProgress),
        dispatched(page, command).0 == (PageView {
            editor_feedback: dispatched(page, command).0.editor_feedback,
            ..page
        }),
{
}

/// A refused command changes nothing but what is said.
pub proof fn refused_edit_keeps_the_work(page: PageView, command: CommandView)
    requires
        dispatched(page, command).1 is Err,
    ensures
        same_work(dispatched(page, command).0, page),
{
}

/// Edits, undo and redo on the page keep a sound draft sound.
pub proof fn page_keeps_a_draft_sound(page: PageView, command: CommandView)
    requires
        page.draft matches Some(draft) && sound(draft),
    ensures
        dispatched(page, command).0.draft matches Some(draft) && sound(draft),
{
    let draft = page.draft->0;
    commands_keep_a_draft_sound(draft, command);
    commands_keep_a_draft_sound(draft, CommandView::Undo);
    commands_keep_a_draft_sound(draft, CommandView::Redo);
}

/// Undo on the page takes back the edit before it: the draft holds what it held, but for its
/// revision.
pub proof fn page_undo_takes_back_an_edit(page: PageView, command: CommandView)
    requires
        page.draft matches Some(draft) && sound(draft),
        is_edit(command),
        dispatched(page, command).1 == Ok::<_, EditorErrorView>(EditOutcome::Changed),
    ensures
        ({
            let undone = dispatched(dispatched(page, command).0, CommandView::Undo);
            &&& undone.1 == Ok::<_, EditorErrorView>(EditOutcome::Changed)
            &&& undone.0.draft is Some
            &&& same_but_revision(undone.0.draft->0.definition, page.draft->0.definition)
            &&& undone.0.draft->0.definition.revision == bumped(
                bumped(page.draft->0.definition.revision),
            )
            &&& undone.0.draft->0.invalidated == page.draft->0.invalidated
        }),
{
    let draft = page.draft->0;
    undo_takes_back_an_edit(draft, command);
    let after = dispatched(page, command).0;
    assert(after.history.undo.last() == EditDomain::Definition);
    assert(after.draft == Some(applied(draft, command).0));
    assert(mutations_allowed(after));
}

/// Moving, arranging, fitting and loading the layout leave the draft alone: the definition never
/// depends on how it is drawn.
pub proof fn layout_never_touches_the_draft(
    page: PageView,
    id: Seq<char>,
    position: Position,
    saved: LayoutView,
)
    ensures
        node_moved(page, id, position).0.draft == page.draft,
        canvas_arranged(page).draft == page.draft,
        layout_fitted(page).draft == page.draft,
        layout_loaded(page, saved).draft == page.draft,
{
}

/// The layout of a page fits its draft: there is nothing in it to repair.
pub open spec fn fitting(page: PageView) -> bool {
    page.draft matches Some(draft) ==> reconciled(
        canvas_of(draft.definition.blocks),
        page.canvas_layout,
    ) == page.canvas_layout
}

/// A layout that has nothing to repair.
spec fn clean(graph: CanvasView, layout: LayoutView) -> bool {
    &&& forall|id: Seq<char>| #[trigger]
        layout.positions.dom().contains(id) <==> graph_has(graph, id)
    &&& forall|id: Seq<char>|
        layout.positions.dom().contains(id) ==> finite_position(#[trigger] layout.positions[id])
    &&& finite_position(layout.pan)
    &&& kept_zoom(layout.zoom) == layout.zoom
}

proof fn lemma_clean(graph: CanvasView, layout: LayoutView)
    requires
        holdable(graph),
    ensures
        clean(graph, layout) <==> reconciled(graph, layout) == layout,
{
    arrangement_is_finite(graph);
    let again = reconciled(graph, layout);
    let fresh = arranged(graph).positions;
    if clean(graph, layout) {
        assert forall|id: Seq<char>|
            again.positions.dom().contains(id) == #[trigger] layout.positions.dom().contains(id)
                && (layout.positions.dom().contains(id) ==> again.positions[id]
                == layout.positions[id]) by {
            reconciling_covers_the_graph(graph, layout, id);
            if layout.positions.dom().contains(id) {
                assert(finite_position(layout.positions[id]));
            }
        }
        assert(again.positions =~= layout.positions);
    }
    if again == layout {
        assert forall|id: Seq<char>| #[trigger]
            layout.positions.dom().contains(id) <==> graph_has(graph, id) by {
            reconciling_covers_the_graph(graph, layout, id);
        }
        assert forall|id: Seq<char>|
            layout.positions.dom().contains(id) implies finite_position(
            #[trigger] layout.positions[id],
        ) by {
            reconciling_covers_the_graph(graph, layout, id);
            arrangement_covers_the_graph(graph, id);
            assert(fresh.dom().contains(id));
            assert(finite_position(fresh[id]));
        }
    }
}

/// A layout that fits is stored as it is, and a page with the same draft loads what was stored.
pub proof fn stored_layout_reads_back(page: PageView, fresh: PageView)
    requires
        fitting(page),
        page.draft is Some,
        fresh.draft == page.draft,
    ensures
        layout_loaded(fresh, page.canvas_layout).canvas_layout == page.canvas_layout,
        fitting(layout_loaded(fresh, page.canvas_layout)),
{
}

/// Whatever was stored, the loaded layout fits the draft; moving and arranging nodes keep it fitting.
pub proof fn layouts_keep_fitting(
    page: PageView,
    saved: LayoutView,
    id: Seq<char>,
    position: Position,
)
    requires
        page.draft matches Some(draft) ==> holdable(canvas_of(draft.definition.blocks)),
    ensures
        page.draft is Some ==> fitting(layout_loaded(page, saved)),
        fitting(page) ==> fitting(node_moved(page, id, position).0),
        fitting(page) ==> fitting(canvas_arranged(page)),
{
    if let Some(draft) = page.draft {
        let graph = canvas_of(draft.definition.blocks);
        arrangement_is_finite(graph);
        reconciling_settles(graph, saved);
        if fitting(page) {
            let moved = node_moved(page, id, position).0.canvas_layout;
            let laid = canvas_arranged(page).canvas_layout;
            lemma_clean(graph, page.canvas_layout);
            assert forall|other: Seq<char>| #[trigger]
                laid.positions.dom().contains(other) <==> graph_has(graph, other) by {
                arrangement_covers_the_graph(graph, other);
            }
            assert(clean(graph, moved));
            assert(clean(graph, laid));
            lemma_clean(graph, moved);
            lemma_clean(graph, laid);
        }
    }
}

/// An answer that is not to the request the editor waits for changes nothing.
pub proof fn unexpected_editor_answer_changes_nothing(page: PageView, result: EditorAuthoringResult)
    requires
        !(page.active_editor_request matches Some(request) && answers_editor(page, request, result)),
    ensures
        editor_answered(page, result) == (
            page,
            Err::<(), _>(EditorAuthoringError::UnexpectedResult),
        ),
{
}

/// An answer to a request that was made of another definition is dropped: the work stays as it is.
pub proof fn stale_editor_answer_keeps_the_work(page: PageView, result: EditorAuthoringResult)
    requires
        page.active_editor_request matches Some(request) && (page.draft matches Some(draft)
            ==> authoring_print(draft.definition) != request.fingerprint),
    ensures
        editor_answered(page, result).1 is Err,
        same_work(editor_answered(page, result).0, page),
{
}

proof fn lemma_no_request(page: PageView, command: CommandView)
    requires
        page.active_editor_request is None,
    ensures
        dispatched(page, command).0.active_editor_request is None,
{
}

proof fn lemma_answer_leaves_no_request(
    page: PageView,
    kind: AuthoringKindView,
    outcome: EditorAuthoringOutcome,
)
    requires
        page.active_editor_request is None,
    ensures
        answer_taken(page, kind, outcome).0.active_editor_request is None,
{
    assert forall|command: CommandView|
        #[trigger] dispatched(page, command).0.active_editor_request is None by {
        lemma_no_request(page, command);
    }
}

/// The editor takes an answer once: after it was accepted, the same answer is unexpected and
/// changes nothing.
pub proof fn editor_answer_is_taken_once(page: PageView, result: EditorAuthoringResult)
    requires
        editor_answered(page, result).1 is Ok,
    ensures
        ({
            let after = editor_answered(page, result).0;
            editor_answered(after, result) == (
                after,
                Err::<(), _>(EditorAuthoringError::UnexpectedResult),
            )
        }),
{
    let cleared = PageView {
        pending_inspector_intent: None,
        ..crate::page::without_editor_request(page)
    };
    lemma_answer_leaves_no_request(
        cleared,
        page.active_editor_request->0.kind,
        result.outcome,
    );
}

/// No answer to the wizard touches the draft, its layout or its history.
pub proof fn wizard_answers_keep_the_work(page: PageView, result: WizardAuthoringResult)
    ensures
        same_work(wizard_answered(page, result).0, page),
{
}

/// An answer that is not to the request the wizard waits for changes nothing, and one that was
/// asked of other settings leaves the wizard as it is.
pub proof fn stray_wizard_answer_keeps_the_wizard(page: PageView, result: WizardAuthoringResult)
    ensures
        !(page.active_wizard_request matches Some(request) && answers_wizard(page, request, result))
            ==> wizard_answered(page, result) == (
            page,
            Err::<(), _>(WizardResultError::UnexpectedResult),
        ),
        wizard_answered(page, result).1 is Err ==> wizard_answered(page, result).0.wizard
            == page.wizard,
{
}

/// The wizard takes an answer once.
pub proof fn wizard_answer_is_taken_once(page: PageView, result: WizardAuthoringResult)
    requires
        wizard_answered(page, result).1 is Ok,
    ensures
        ({
            let after = wizard_answered(page, result).0;
            wizard_answered(after, result) == (
                after,
                Err::<(), _>(WizardResultError::UnexpectedResult),
            )
        }),
{
}

} // verus!
