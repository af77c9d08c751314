//! One history of edits for the definition and the layout of the canvas.
use crate::canvas_layout::{
    after_edit, before_edit, LayoutEdit, LayoutEditView, LayoutView, MacroCanvasLayout,
};
use crate::command_view::CommandView;
use crate::content::views;
use crate::draft::{applied, apply_editor_command, pushed, EditorDraft, EditorDraftView};
use crate::editor_types::{EditorCommand, EditorError, EditorErrorView};
use std::collections::VecDeque;
use vstd::prelude::*;

verus! {

/// Number of edits that the history of the canvas holds.
pub const UI_HISTORY_LIMIT: usize = 100;

/// What an edit changed.
#[derive(Debug, Clone, Copy, PartialEq, Eq, Structural)]
pub enum EditDomain {
    Definition,
    Layout,
}

#[derive(Debug, PartialEq, Eq)]
pub enum HistoryError {
    NothingToUndo,
    NothingToRedo,
    Definition(EditorError),
    Layout,
}

/// The contents of a [`HistoryError`].
#[verifier::ext_equal]
pub ghost enum HistoryErrorView {
    NothingToUndo,
    NothingToRedo,
    Definition(EditorErrorView),
    Layout,
}

impl View for HistoryError {
    type V = HistoryErrorView;

    open spec fn view(&self) -> HistoryErrorView {
        match *self {
            HistoryError::NothingToUndo => HistoryErrorView::NothingToUndo,
            HistoryError::NothingToRedo => HistoryErrorView::NothingToRedo,
            HistoryError::Definition(error) => HistoryErrorView::Definition(error@),
            HistoryError::Layout => HistoryErrorView::Layout,
        }
    }
}

/// Adds an entry to a history, where the oldest gives way at the limit.
fn push_bounded<T>(history: &mut VecDeque<T>, entry: T)
    ensures
        final(history)@ == pushed(old(history)@, entry, UI_HISTORY_LIMIT as int),
{
    if history.len() == UI_HISTORY_LIMIT {
        let ghost before = history@;
        let _ = history.pop_front();
        assert(history@ =~= before.drop_first());
    }
    history.push_back(entry);
}

proof fn lemma_views_pushed(list: Seq<LayoutEdit>, edit: LayoutEdit)
    ensures
        views(pushed(list, edit, UI_HISTORY_LIMIT as int)) == pushed(
            views(list),
            edit@,
            UI_HISTORY_LIMIT as int,
        ),
{
    assert(views(pushed(list, edit, UI_HISTORY_LIMIT as int)) =~= pushed(
        views(list),
        edit@,
        UI_HISTORY_LIMIT as int,
    ));
}

/// The edits of the layout that can be taken back, and those that were.
#[derive(Debug)]
pub struct LayoutHistory {
    undo: VecDeque<LayoutEdit>,
    redo: VecDeque<LayoutEdit>,
}

/// The contents of a [`LayoutHistory`].
#[verifier::ext_equal]
pub ghost struct LayoutHistoryView {
    pub undo: Seq<LayoutEditView>,
    pub redo: Seq<LayoutEditView>,
}

impl View for LayoutHistory {
    type V = LayoutHistoryView;

    closed spec fn view(&self) -> LayoutHistoryView {
        LayoutHistoryView { undo: views(self.undo@), redo: views(self.redo@) }
    }
}

impl Default for LayoutHistory {
    fn default() -> (history: Self)
        ensures
            history@ == (LayoutHistoryView { undo: Seq::empty(), redo: Seq::empty() }),
    {
        let history = LayoutHistory { undo: VecDeque::new(), redo: VecDeque::new() };
        assert(history@.undo =~= Seq::empty());
        assert(history@.redo =~= Seq::empty());
        history
    }
}

/// A history of the layout with one more edit.
pub open spec fn recorded(history: LayoutHistoryView, edit: LayoutEditView) -> LayoutHistoryView {
    LayoutHistoryView {
        undo: pushed(history.undo, edit, UI_HISTORY_LIMIT as int),
        redo: Seq::empty(),
    }
}

/// The history and the layout with the latest edit taken back, if there is one.
pub open spec fn layout_undone(history: LayoutHistoryView, layout: LayoutView) -> Option<
    (LayoutHistoryView, LayoutView),
> {
    if history.undo.len() == 0 {
        None
    } else {
        let edit = history.undo.last();
        Some(
            (
                LayoutHistoryView {
                    undo: history.undo.drop_last(),
                    redo: pushed(history.redo, edit, UI_HISTORY_LIMIT as int),
                },
                before_edit(layout, edit),
            ),
        )
    }
}

/// The history and the layout with the edit done again that was taken back last, if there is one.
pub open spec fn layout_redone(history: LayoutHistoryView, layout: LayoutView) -> Option<
    (LayoutHistoryView, LayoutView),
> {
    if history.redo.len() == 0 {
        None
    } else {
        let edit = history.redo.last();
        Some(
            (
                LayoutHistoryView {
                    undo: pushed(history.undo, edit, UI_HISTORY_LIMIT as int),
                    redo: history.redo.drop_last(),
                },
                after_edit(layout, edit),
            ),
        )
    }
}

impl LayoutHistory {
    pub fn record(&mut self, edit: LayoutEdit)
        ensures
            final(self)@ == recorded(old(self)@, edit@),
    {
        proof {
            lemma_views_pushed(self.undo@, edit);
        }
        push_bounded(&mut self.undo, edit);
        self.redo = VecDeque::new();
        assert(views(self.redo@) =~= Seq::empty());
    }

    pub fn undo(&mut self, layout: &mut MacroCanvasLayout) -> (result: Result<(), HistoryError>)
        ensures
            match layout_undone(old(self)@, old(layout)@) {
                Some((history, placed)) => result is Ok && final(self)@ == history && final(layout)@ == placed,
                None => result matches Err(error) && error is NothingToUndo && final(self)@
                    == old(self)@ && final(layout)@ == old(layout)@,
            },
    {
        let ghost before = views(self.undo@);
        let edit = match self.undo.pop_back() {
            None => return Err(HistoryError::NothingToUndo),
            Some(edit) => edit,
        };
        assert(views(self.undo@) =~= before.drop_last());
        edit.apply_before(layout);
        proof {
            lemma_views_pushed(self.redo@, edit);
        }
        push_bounded(&mut self.redo, edit);
        Ok(())
    }

    pub fn redo(&mut self, layout: &mut MacroCanvasLayout) -> (result: Result<(), HistoryError>)
        ensures
            match layout_redone(old(self)@, old(layout)@) {
                Some((history, placed)) => result is Ok && final(self)@ == history && final(layout)@ == placed,
                None => result matches Err(error) && error is NothingToRedo && final(self)@
                    == old(self)@ && final(layout)@ == old(layout)@,
            },
    {
        let ghost before = views(self.redo@);
        let edit = match self.redo.pop_back() {
            None => return Err(HistoryError::NothingToRedo),
            Some(edit) => edit,
        };
        assert(views(self.redo@) =~= before.drop_last());
        edit.apply_after(layout);
        proof {
            lemma_views_pushed(self.undo@, edit);
        }
        push_bounded(&mut self.undo, edit);
        Ok(())
    }
}

/// The order in which the definition and the layout were edited.
#[derive(Debug)]
pub struct UiEditHistory {
    undo_domains: VecDeque<EditDomain>,
    redo_domains: VecDeque<EditDomain>,
    layout: LayoutHistory,
}

/// The contents of a [`UiEditHistory`].
#[verifier::ext_equal]
pub ghost struct UiHistoryView {
    pub undo: Seq<EditDomain>,
    pub redo: Seq<EditDomain>,
    pub layout: LayoutHistoryView,
}

impl View for UiEditHistory {
    type V = UiHistoryView;

    closed spec fn view(&self) -> UiHistoryView {
        UiHistoryView {
            undo: self.undo_domains@,
            redo: self.redo_domains@,
            layout: self.layout@,
        }
    }
}

/// A history without any edit.
pub open spec fn no_history() -> UiHistoryView {
    UiHistoryView {
        undo: Seq::empty(),
        redo: Seq::empty(),
        layout: LayoutHistoryView { undo: Seq::empty(), redo: Seq::empty() },
    }
}

impl Default for UiEditHistory {
    fn default() -> (history: Self)
        ensures
            history@ == no_history(),
    {
        let history = UiEditHistory {
            undo_domains: VecDeque::new(),
            redo_domains: VecDeque::new(),
            layout: LayoutHistory::default(),
        };
        assert(history@.undo =~= Seq::empty());
        assert(history@.redo =~= Seq::empty());
        history
    }
}

/// A history with one more edit; what was taken back before can no longer be done again.
pub open spec fn noted(history: UiHistoryView, domain: EditDomain) -> UiHistoryView {
    UiHistoryView {
        undo: pushed(history.undo, domain, UI_HISTORY_LIMIT as int),
        redo: Seq::empty(),
        ..history
    }
}

/// What is edited: the history, the definition and the layout.
pub ghost struct EditState {
    pub history: UiHistoryView,
    pub draft: EditorDraftView,
    pub layout: LayoutView,
}

/// What taking back the latest edit answers and leaves. Where it is refused, everything stays.
pub open spec fn ui_undone(state: EditState) -> (EditState, Result<EditDomain, HistoryErrorView>) {
    if state.history.undo.len() == 0 {
        (state, Err(HistoryErrorView::NothingToUndo))
    } else {
        let domain = state.history.undo.last();
        let history = UiHistoryView {
            undo: state.history.undo.drop_last(),
            redo: pushed(state.history.redo, domain, UI_HISTORY_LIMIT as int),
            ..state.history
        };
        match domain {
            EditDomain::Definition => match applied(state.draft, CommandView::Undo) {
                (draft, Ok(_)) => (
                    EditState { history, draft, ..state },
                    Ok(domain),
                ),
                (draft, Err(error)) => (
                    EditState { draft, ..state },
                    Err(HistoryErrorView::Definition(error)),
                ),
            },
            EditDomain::Layout => match layout_undone(state.history.layout, state.layout) {
                Some((inner, layout)) => (
                    EditState {
                        history: UiHistoryView { layout: inner, ..history },
                        layout,
                        ..state
                    },
                    Ok(domain),
                ),
                None => (state, Err(HistoryErrorView::NothingToUndo)),
            },
        }
    }
}

/// What doing again the edit that was taken back last answers and leaves.
pub open spec fn ui_redone(state: EditState) -> (EditState, Result<EditDomain, HistoryErrorView>) {
    if state.history.redo.len() == 0 {
        (state, Err(HistoryErrorView::NothingToRedo))
    } else {
        let domain = state.history.redo.last();
        let history = UiHistoryView {
            undo: pushed(state.history.undo, domain, UI_HISTORY_LIMIT as int),
            redo: state.history.redo.drop_last(),
            ..state.history
        };
        match domain {
            EditDomain::Definition => match applied(state.draft, CommandView::Redo) {
                (draft, Ok(_)) => (
                    EditState { history, draft, ..state },
                    Ok(domain),
                ),
                (draft, Err(error)) => (
                    EditState { draft, ..state },
                    Err(HistoryErrorView::Definition(error)),
                ),
            },
            EditDomain::Layout => match layout_redone(state.history.layout, state.layout) {
                Some((inner, layout)) => (
                    EditState {
                        history: UiHistoryView { layout: inner, ..history },
                        layout,
                        ..state
                    },
                    Ok(domain),
                ),
                None => (state, Err(HistoryErrorView::NothingToRedo)),
            },
        }
    }
}

/// An answer of the history by its contents.
pub open spec fn domain_answer(answer: Result<EditDomain, HistoryError>) -> Result<
    EditDomain,
    HistoryErrorView,
> {
    match answer {
        Ok(domain) => Ok(domain),
        Err(error) => Err(error@),
    }
}

impl UiEditHistory {
    fn record_domain(&mut self, domain: EditDomain)
        ensures
            final(self)@ == noted(old(self)@, domain),
    {
        push_bounded(&mut self.undo_domains, domain);
        self.redo_domains = VecDeque::new();
        assert(self.redo_domains@ =~= Seq::empty());
    }

    pub fn record_definition(&mut self)
        ensures
            final(self)@ == noted(old(self)@, EditDomain::Definition),
    {
        self.record_domain(EditDomain::Definition);
    }

    pub fn record_layout(&mut self, edit: LayoutEdit)
        ensures
            final(self)@ == noted(
                (UiHistoryView { layout: recorded(old(self)@.layout, edit@), ..old(self)@ }),
                EditDomain::Layout,
            ),
    {
        self.layout.record(edit);
        self.record_domain(EditDomain::Layout);
    }

    /// Takes back the latest edit, of the definition or of the layout.
    pub fn undo(&mut self, draft: &mut EditorDraft, layout: &mut MacroCanvasLayout) -> (answer:
        Result<EditDomain, HistoryError>)
        ensures
            (
                (EditState {
                    history: final(self)@,
                    draft: final(draft)@,
                    layout: final(layout)@,
                }),
                domain_answer(answer),
            ) == ui_undone(
                (EditState { history: old(self)@, draft: old(draft)@, layout: old(layout)@ }),
            ),
    {
        let ghost before = self.undo_domains@;
        let domain = match self.undo_domains.pop_back() {
            None => return Err(HistoryError::NothingToUndo),
            Some(domain) => domain,
        };
        assert(self.undo_domains@ =~= before.drop_last());
        let result: Result<(), HistoryError> = match domain {
            EditDomain::Definition => match apply_editor_command(draft, EditorCommand::Undo) {
                Ok(_) => Ok(()),
                Err(error) => Err(HistoryError::Definition(error)),
            },
            EditDomain::Layout => self.layout.undo(layout),
        };
        match result {
            Err(error) => {
                self.undo_domains.push_back(domain);
                assert(self.undo_domains@ =~= before);
                Err(error)
            },
            Ok(()) => {
                push_bounded(&mut self.redo_domains, domain);
                Ok(domain)
            },
        }
    }

    /// Does again the edit that was taken back last, of the definition or of the layout.
    pub fn redo(&mut self, draft: &mut EditorDraft, layout: &mut MacroCanvasLayout) -> (answer:
        Result<EditDomain, HistoryError>)
        ensures
            (
                (EditState {
                    history: final(self)@,
                    draft: final(draft)@,
                    layout: final(layout)@,
                }),
                domain_answer(answer),
            ) == ui_redone(
                (EditState { history: old(self)@, draft: old(draft)@, layout: old(layout)@ }),
            ),
    {
        let ghost before = self.redo_domains@;
        let domain = match self.redo_domains.pop_back() {
            None => return Err(HistoryError::NothingToRedo),
            Some(domain) => domain,
        };
        assert(self.redo_domains@ =~= before.drop_last());
        let result: Result<(), HistoryError> = match domain {
            EditDomain::Definition => match apply_editor_command(draft, EditorCommand::Redo) {
                Ok(_) => Ok(()),
                Err(error) => Err(HistoryError::Definition(error)),
            },
            EditDomain::Layout => self.layout.redo(layout),
        };
        match result {
            Err(error) => {
                self.redo_domains.push_back(domain);
                assert(self.redo_domains@ =~= before);
                Err(error)
            },
            Ok(()) => {
                push_bounded(&mut self.undo_domains, domain);
                Ok(domain)
            },
        }
    }

    pub fn undo_len(&self) -> (len: usize)
        ensures
            len == self@.undo.len(),
    {
        self.undo_domains.len()
    }

    pub fn redo_len(&self) -> (len: usize)
        ensures
            len == self@.redo.len(),
    {
        self.redo_domains.len()
    }
}

} // verus!
