//! The page: everything that is shown and edited, and nothing that runs.
use crate::authoring::{
    authoring_print, editor_authoring_fingerprint, equal_editor_requests, AuthoringKindView, EditorAuthoringKind,
    EditorAuthoringRequest, EditorRequestView,
};
use crate::canvas_layout::{
    after_edit, arranged, auto_arrange, equal_layouts, graph_has, moved_node, plain_layout,
    position_of, reconcile_layout, reconciled, stays, CanvasLayoutEngine, CanvasLayoutError,
    LayoutEdit, LayoutEditView, LayoutErrorView, LayoutView, MacroCanvasLayout, Position,
};
use crate::canvas_model::{
    canvas_of, project_canvas, CanvasSelection, OutputPort, PortView, SelectionView,
};
use crate::content::{clone_option, option_view, views, Alike, Content, Exact};
use crate::conversion::{PendingConversion, PendingView};
use crate::draft::{opened, EditorDraft, EditorDraftView};
use crate::editor_types::DraftEditability;
use crate::history::{
    domain_answer, no_history, noted, recorded, ui_redone, ui_undone, EditDomain, EditState,
    HistoryError, HistoryErrorView, UiEditHistory, UiHistoryView,
};
use crate::inspector::{InspectorIntent, InspectorIntentView};
use crate::intents::{
    enqueued, progress_start, run_intent, ImagePackageReverificationProgress,
    ImagePackageReverificationStage, IntentView, MacroIntent, MacroIntentQueue, MacroRunIntent,
    MacroUiIntent, ProgressView, QueueView, SavedMacroIdentity, SavedView,
};
use crate::library::{LibraryRowView, MacroLibraryRow};
use crate::macro_engine::{
    F32Bits, MacroDefinition, MacroDefinitionView, NegativeCorpusSampleView, TargetProfile,
};
use crate::monitor::{RunDefinitionSnapshot, SnapshotView};
use crate::rule_edits::{bump, bumped};
use crate::run_events::{
    ControllerLifecycleProjection, ControllerSemanticProjection, EventView, RunEvent,
};
use crate::sample_table::{no_samples, SampleTable};
use crate::single::SINGLE_ONE;
use crate::text::{blank, is_blank, trim_text, trimmed};
use crate::wizard::{
    review_print, AuthoringSessionId, WizardAuthoringKind, WizardAuthoringRequest,
    WizardRequestView, WizardState, WizardUiAction, WizardView,
};
use vstd::prelude::*;

verus! {

/// State of the page. It owns no command sender, capture service, pointer or other handle of the
/// machine.
#[derive(Debug)]
pub struct MacroPageState {
    pub draft: Option<EditorDraft>,
    pub selected_saved: Option<SavedMacroIdentity>,
    pub saved_revision: Option<u64>,
    pub enabled: bool,
    pub running_snapshot: Option<RunDefinitionSnapshot>,
    pub runtime_events: Vec<RunEvent>,
    pub controller_lifecycle: Option<ControllerLifecycleProjection>,
    pub controller_semantic: Option<ControllerSemanticProjection>,
    pub library_rows: Vec<MacroLibraryRow>,
    pub library_search: String,
    pub library_rename: String,
    pub library_package_path: String,
    pub confirm_library_delete: bool,
    pub image_package_reverification: Option<ImagePackageReverificationProgress>,
    /// Presentation state that can be rebuilt; it is never part of the draft.
    pub canvas_layout: MacroCanvasLayout,
    pub ui_edit_history: UiEditHistory,
    pub canvas_layout_dirty: bool,
    pub canvas_layout_hydrated: bool,
    pub intents: MacroIntentQueue,
    pub selected_block_id: Option<String>,
    pub selected_canvas: Option<CanvasSelection>,
    pub pending_canvas_port: Option<OutputPort>,
    pub pending_inspector_intent: Option<InspectorIntent>,
    pub editor_feedback: Option<String>,
    pub pending_conversion: Option<PendingConversion>,
    pub wizard: Option<WizardState>,
    pub pending_wizard_action: Option<WizardUiAction>,
    pub active_wizard_request: Option<WizardAuthoringRequest>,
    pub wizard_request_dispatched: bool,
    pub next_wizard_request_id: u64,
    pub wizard_session: Option<AuthoringSessionId>,
    pub draft_session: Option<AuthoringSessionId>,
    pub next_authoring_session_id: u64,
    pub active_editor_authoring_request: Option<EditorAuthoringRequest>,
    pub editor_authoring_dispatched: bool,
    pub next_editor_authoring_request_id: u64,
    pub editor_image_negative_samples: SampleTable,
}

/// The contents of a [`MacroPageState`].
#[verifier::ext_equal]
pub ghost struct PageView {
    pub draft: Option<EditorDraftView>,
    pub selected_saved: Option<SavedView>,
    pub saved_revision: Option<u64>,
    pub enabled: bool,
    pub running_snapshot: Option<SnapshotView>,
    pub runtime_events: Seq<EventView>,
    pub controller_lifecycle: Option<ControllerLifecycleProjection>,
    pub controller_semantic: Option<ControllerSemanticProjection>,
    pub library_rows: Seq<LibraryRowView>,
    pub library_search: Seq<char>,
    pub library_rename: Seq<char>,
    pub library_package_path: Seq<char>,
    pub confirm_library_delete: bool,
    pub reverification: Option<ProgressView>,
    pub canvas_layout: LayoutView,
    pub history: UiHistoryView,
    pub canvas_layout_dirty: bool,
    pub canvas_layout_hydrated: bool,
    pub intents: QueueView,
    pub selected_block_id: Option<Seq<char>>,
    pub selected_canvas: Option<SelectionView>,
    pub pending_canvas_port: Option<PortView>,
    pub pending_inspector_intent: Option<InspectorIntentView>,
    pub editor_feedback: Option<Seq<char>>,
    pub pending_conversion: Option<PendingView>,
    pub wizard: Option<WizardView>,
    pub pending_wizard_action: Option<WizardUiAction>,
    pub active_wizard_request: Option<WizardRequestView>,
    pub wizard_request_dispatched: bool,
    pub next_wizard_request_id: u64,
    pub wizard_session: Option<AuthoringSessionId>,
    pub draft_session: Option<AuthoringSessionId>,
    pub next_authoring_session_id: u64,
    pub active_editor_request: Option<EditorRequestView>,
    pub editor_authoring_dispatched: bool,
    pub next_editor_authoring_request_id: u64,
    pub samples: spec_fn(Seq<char>) -> Seq<NegativeCorpusSampleView>,
}

impl View for MacroPageState {
    type V = PageView;

    open spec fn view(&self) -> PageView {
        PageView {
            draft: option_view(self.draft),
            selected_saved: option_view(self.selected_saved),
            saved_revision: self.saved_revision,
            enabled: self.enabled,
            running_snapshot: option_view(self.running_snapshot),
            runtime_events: views(self.runtime_events@),
            controller_lifecycle: self.controller_lifecycle,
            controller_semantic: self.controller_semantic,
            library_rows: views(self.library_rows@),
            library_search: self.library_search@,
            library_rename: self.library_rename@,
            library_package_path: self.library_package_path@,
            confirm_library_delete: self.confirm_library_delete,
            reverification: option_view(self.image_package_reverification),
            canvas_layout: self.canvas_layout@,
            history: self.ui_edit_history@,
            canvas_layout_dirty: self.canvas_layout_dirty,
            canvas_layout_hydrated: self.canvas_layout_hydrated,
            intents: self.intents@,
            selected_block_id: option_view(self.selected_block_id),
            selected_canvas: option_view(self.selected_canvas),
            pending_canvas_port: option_view(self.pending_canvas_port),
            pending_inspector_intent: option_view(self.pending_inspector_intent),
            editor_feedback: option_view(self.editor_feedback),
            pending_conversion: option_view(self.pending_conversion),
            wizard: option_view(self.wizard),
            pending_wizard_action: self.pending_wizard_action,
            active_wizard_request: option_view(self.active_wizard_request),
            wizard_request_dispatched: self.wizard_request_dispatched,
            next_wizard_request_id: self.next_wizard_request_id,
            wizard_session: self.wizard_session,
            draft_session: self.draft_session,
            next_authoring_session_id: self.next_authoring_session_id,
            active_editor_request: option_view(self.active_editor_authoring_request),
            editor_authoring_dispatched: self.editor_authoring_dispatched,
            next_editor_authoring_request_id: self.next_editor_authoring_request_id,
            samples: self.editor_image_negative_samples@,
        }
    }
}

/// The page as it opens.
pub open spec fn fresh_page() -> PageView {
    PageView {
        draft: None,
        selected_saved: None,
        saved_revision: None,
        enabled: true,
        running_snapshot: None,
        runtime_events: Seq::empty(),
        controller_lifecycle: None,
        controller_semantic: None,
        library_rows: Seq::empty(),
        library_search: Seq::empty(),
        library_rename: Seq::empty(),
        library_package_path: Seq::empty(),
        confirm_library_delete: false,
        reverification: None,
        canvas_layout: plain_layout(),
        history: no_history(),
        canvas_layout_dirty: false,
        canvas_layout_hydrated: false,
        intents: QueueView {
            capacity: MacroIntentQueue::DEFAULT_CAPACITY as int,
            values: Seq::empty(),
        },
        selected_block_id: None,
        selected_canvas: None,
        pending_canvas_port: None,
        pending_inspector_intent: None,
        editor_feedback: None,
        pending_conversion: None,
        wizard: None,
        pending_wizard_action: None,
        active_wizard_request: None,
        wizard_request_dispatched: false,
        next_wizard_request_id: 1,
        wizard_session: None,
        draft_session: None,
        next_authoring_session_id: 1,
        active_editor_request: None,
        editor_authoring_dispatched: false,
        next_editor_authoring_request_id: 1,
        samples: no_samples(),
    }
}

impl Default for MacroPageState {
    fn default() -> (page: Self)
        ensures
            page@ == fresh_page(),
    {
        let page = MacroPageState {
            draft: None,
            selected_saved: None,
            saved_revision: None,
            enabled: true,
            running_snapshot: None,
            runtime_events: Vec::new(),
            controller_lifecycle: None,
            controller_semantic: None,
            library_rows: Vec::new(),
            library_search: String::new(),
            library_rename: String::new(),
            library_package_path: String::new(),
            confirm_library_delete: false,
            image_package_reverification: None,
            canvas_layout: MacroCanvasLayout::default(),
            ui_edit_history: UiEditHistory::default(),
            canvas_layout_dirty: false,
            canvas_layout_hydrated: false,
            intents: MacroIntentQueue::with_capacity(MacroIntentQueue::DEFAULT_CAPACITY),
            selected_block_id: None,
            selected_canvas: None,
            pending_canvas_port: None,
            pending_inspector_intent: None,
            editor_feedback: None,
            pending_conversion: None,
            wizard: None,
            pending_wizard_action: None,
            active_wizard_request: None,
            wizard_request_dispatched: false,
            next_wizard_request_id: 1,
            wizard_session: None,
            draft_session: None,
            next_authoring_session_id: 1,
            active_editor_authoring_request: None,
            editor_authoring_dispatched: false,
            next_editor_authoring_request_id: 1,
            editor_image_negative_samples: SampleTable::new(),
        };
        proof {
            assert(page@.runtime_events =~= Seq::empty());
            assert(page@.library_rows =~= Seq::empty());
            assert(page@.library_search =~= Seq::empty());
            assert(page@.library_rename =~= Seq::empty());
            assert(page@.library_package_path =~= Seq::empty());
        }
        page
    }
}

/// A page with one more request in its queue.
pub open spec fn asked(page: PageView, intent: IntentView) -> PageView {
    PageView { intents: enqueued(page.intents, intent), ..page }
}

/// A page that says something.
pub open spec fn told(page: PageView, message: Seq<char>) -> PageView {
    PageView { editor_feedback: Some(message), ..page }
}

/// A page with a saved macro selected.
pub open spec fn with_saved(page: PageView, saved: SavedView) -> PageView {
    PageView { saved_revision: Some(saved.revision), selected_saved: Some(saved), ..page }
}

/// A page that gave out a new session, and the session.
pub open spec fn with_session(page: PageView) -> (PageView, AuthoringSessionId) {
    (
        PageView { next_authoring_session_id: bumped(page.next_authoring_session_id), ..page },
        AuthoringSessionId(page.next_authoring_session_id),
    )
}

/// A page without a request of the wizard.
pub open spec fn without_wizard_request(page: PageView) -> PageView {
    PageView {
        active_wizard_request: None,
        wizard_request_dispatched: false,
        pending_wizard_action: None,
        ..page
    }
}

/// A page without a request of the editor.
pub open spec fn without_editor_request(page: PageView) -> PageView {
    PageView { active_editor_request: None, editor_authoring_dispatched: false, ..page }
}

/// A page at the start of a stay in the wizard.
pub open spec fn wizard_begun(page: PageView) -> PageView {
    let (next, session) = with_session(page);
    PageView {
        pending_inspector_intent: None,
        ..without_editor_request(
            without_wizard_request(PageView { wizard_session: Some(session), ..next }),
        )
    }
}

/// A page at the start of a stay in a draft.
pub open spec fn draft_begun(page: PageView) -> PageView {
    let (next, session) = with_session(page);
    without_editor_request(PageView { draft_session: Some(session), ..next })
}

/// A page whose layout was made to fit its draft.
pub open spec fn layout_fitted(page: PageView) -> PageView {
    match page.draft {
        Some(draft) => PageView {
            canvas_layout: reconciled(canvas_of(draft.definition.blocks), page.canvas_layout),
            canvas_layout_dirty: true,
            ..page
        },
        None => page,
    }
}

/// A page after a saved macro was opened.
pub open spec fn saved_opened(
    page: PageView,
    definition: MacroDefinitionView,
    saved: SavedView,
) -> PageView {
    with_saved(
        PageView {
            canvas_layout: reconciled(canvas_of(definition.blocks), plain_layout()),
            history: no_history(),
            canvas_layout_dirty: false,
            canvas_layout_hydrated: false,
            draft: Some(opened(definition)),
            selected_block_id: None,
            selected_canvas: None,
            editor_feedback: None,
            ..draft_begun(page)
        },
        saved,
    )
}

/// A page after a saved layout was loaded; without a draft there is nothing to lay out.
pub open spec fn layout_loaded(page: PageView, saved: LayoutView) -> PageView {
    match page.draft {
        Some(draft) => PageView {
            canvas_layout: reconciled(canvas_of(draft.definition.blocks), saved),
            history: no_history(),
            canvas_layout_dirty: false,
            canvas_layout_hydrated: true,
            ..page
        },
        None => page,
    }
}

/// A page after an edit of its layout was noted.
pub open spec fn layout_noted(page: PageView, edit: LayoutEditView) -> PageView {
    PageView {
        history: noted(
            UiHistoryView { layout: recorded(page.history.layout, edit), ..page.history },
            EditDomain::Layout,
        ),
        canvas_layout_dirty: true,
        ..page
    }
}

/// What moving a node of the canvas answers and leaves.
pub open spec fn node_moved(page: PageView, id: Seq<char>, position: Position) -> (
    PageView,
    Result<(), LayoutErrorView>,
) {
    if !(page.draft matches Some(draft) && graph_has(canvas_of(draft.definition.blocks), id)) {
        (page, Err(LayoutErrorView::MissingNode(id)))
    } else {
        match moved_node(page.canvas_layout, id, position) {
            Err(error) => (page, Err(error)),
            Ok(edit) => if stays(position_of(page.canvas_layout, id), position) {
                (page, Ok(()))
            } else {
                (
                    layout_noted(
                        PageView { canvas_layout: after_edit(page.canvas_layout, edit), ..page },
                        edit,
                    ),
                    Ok(()),
                )
            },
        }
    }
}

/// A page whose nodes were put where they belong by depth.
pub open spec fn canvas_arranged(page: PageView) -> PageView {
    match page.draft {
        None => page,
        Some(draft) => {
            let next = LayoutView {
                positions: arranged(canvas_of(draft.definition.blocks)).positions,
                ..page.canvas_layout
            };
            if equal_layouts(page.canvas_layout, next) {
                page
            } else {
                layout_noted(
                    PageView { canvas_layout: next, ..page },
                    LayoutEditView::Layout { before: page.canvas_layout, after: next },
                )
            }
        },
    }
}

/// What taking back the latest edit answers and leaves.
pub open spec fn page_undone(page: PageView) -> (PageView, Result<EditDomain, HistoryErrorView>) {
    match page.draft {
        None => (page, Err(HistoryErrorView::NothingToUndo)),
        Some(draft) => {
            let (state, answer) = ui_undone(
                EditState { history: page.history, draft, layout: page.canvas_layout },
            );
            (history_applied(page, state, answer), answer)
        },
    }
}

/// What doing again the edit that was taken back last answers and leaves.
pub open spec fn page_redone(page: PageView) -> (PageView, Result<EditDomain, HistoryErrorView>) {
    match page.draft {
        None => (page, Err(HistoryErrorView::NothingToRedo)),
        Some(draft) => {
            let (state, answer) = ui_redone(
                EditState { history: page.history, draft, layout: page.canvas_layout },
            );
            (history_applied(page, state, answer), answer)
        },
    }
}

/// A page after a step through its history.
pub open spec fn history_applied(
    page: PageView,
    state: EditState,
    answer: Result<EditDomain, HistoryErrorView>,
) -> PageView {
    let next = PageView {
        history: state.history,
        draft: Some(state.draft),
        canvas_layout: state.layout,
        ..page
    };
    match answer {
        Ok(EditDomain::Definition) => layout_fitted(next),
        Ok(EditDomain::Layout) => PageView { canvas_layout_dirty: true, ..next },
        Err(_) => next,
    }
}

/// The stay in the wizard, while it is open.
pub open spec fn live_wizard_session(page: PageView) -> Option<AuthoringSessionId> {
    if page.wizard is Some {
        page.wizard_session
    } else {
        None
    }
}

/// The stay in the draft, while there is one.
pub open spec fn live_draft_session(page: PageView) -> Option<AuthoringSessionId> {
    if page.draft is Some {
        page.draft_session
    } else {
        None
    }
}

/// A list of what there is.
pub open spec fn present<T>(value: Option<T>) -> Seq<T> {
    match value {
        Some(value) => seq![value],
        None => Seq::empty(),
    }
}

/// The draft may be edited: nothing else is under way, and no run holds it.
pub open spec fn mutations_allowed(page: PageView) -> bool {
    page.wizard is None && page.active_wizard_request is None && page.running_snapshot is None
        && page.active_editor_request is None && (page.draft matches Some(draft)
        && draft.editability == DraftEditability::Editable)
}

/// A request of the wizard is the one that is waited for, and the wizard is as it was then.
pub open spec fn wizard_request_current(
    page: PageView,
    request: WizardRequestView,
    kind: WizardAuthoringKind,
) -> bool {
    live_wizard_session(page) == Some(request.session) && request.kind == kind
        && page.active_wizard_request == Some(request) && (page.wizard matches Some(wizard)
        && review_print(wizard) == request.fingerprint)
}

/// A request of the editor is the one that is waited for.
pub open spec fn waits_for(page: PageView, request: EditorRequestView) -> bool {
    page.active_editor_request matches Some(active) && equal_editor_requests(active, request)
}

/// A request of the editor is the one that is waited for, and the draft is as it was then.
pub open spec fn editor_request_current(
    page: PageView,
    request: EditorRequestView,
    kind: AuthoringKindView,
) -> bool {
    live_draft_session(page) == Some(request.session) && request.kind == kind
        && waits_for(page, request) && (page.draft matches Some(draft)
        && authoring_print(draft.definition) == request.fingerprint)
}

impl Exact for WizardAuthoringRequest {
    fn same(&self, other: &Self) -> (equal: bool) {
        self.session == other.session && self.id == other.id && self.fingerprint
            == other.fingerprint && self.kind == other.kind
    }
}

impl Content for WizardAuthoringRequest {
    fn duplicate(&self) -> (copy: Self) {
        self.clone()
    }
}

impl MacroPageState {
    pub fn set_selected_saved(&mut self, saved: SavedMacroIdentity)
        ensures
            final(self)@ == with_saved(old(self)@, saved@),
    {
        self.saved_revision = Some(saved.revision);
        self.selected_saved = Some(saved);
    }

    pub fn set_enabled(&mut self, enabled: bool)
        ensures
            final(self)@ == (PageView { enabled, ..old(self)@ }),
    {
        self.enabled = enabled;
    }

    /// Takes over a stored enablement, but only while the same saved macro is selected.
    pub fn apply_enabled_if_selected(&mut self, saved: &SavedMacroIdentity, enabled: bool)
        ensures
            final(self)@ == (if old(self)@.selected_saved == Some(saved@) {
                PageView { enabled, ..old(self)@ }
            } else {
                old(self)@
            }),
    {
        let selected = match &self.selected_saved {
            Some(current) => current.same(saved),
            None => false,
        };
        if selected {
            self.set_enabled(enabled);
        }
    }

    /// Asks for a stored enablement. What is shown changes only when the host accepts it.
    pub fn request_enabled(&mut self, enabled: bool)
        ensures
            final(self)@ == (match old(self)@.selected_saved {
                Some(saved) => asked(old(self)@, IntentView::SetEnabled { saved, enabled }),
                None => old(self)@,
            }),
    {
        if let Some(saved) = clone_option(&self.selected_saved) {
            self.enqueue_intent(MacroIntent::SetEnabled { saved, enabled });
        }
    }

    /// Asks for a run of the saved macro that is selected.
    pub fn request_run(&mut self, run: MacroRunIntent)
        ensures
            final(self)@ == (match old(self)@.selected_saved {
                Some(saved) => asked(old(self)@, run_intent(run, saved)),
                None => old(self)@,
            }),
    {
        let saved = match clone_option(&self.selected_saved) {
            None => return,
            Some(saved) => saved,
        };
        let intent = match run {
            MacroRunIntent::DryRun => MacroIntent::DryRun { saved },
            MacroRunIntent::RunOnce => MacroIntent::RunOnce { saved },
            MacroRunIntent::ContinuousObservation => MacroIntent::Run { saved },
            MacroRunIntent::ContinuousLive => MacroIntent::RunLive { saved },
        };
        self.enqueue_intent(intent);
    }

    /// Asks for another name of the saved macro that is selected.
    pub fn request_rename(&mut self)
        ensures
            final(self)@ == (match old(self)@.selected_saved {
                Some(saved) if !blank(old(self)@.library_rename) => asked(
                    old(self)@,
                    IntentView::Rename { saved, name: trimmed(old(self)@.library_rename) },
                ),
                _ => old(self)@,
            }),
    {
        if is_blank(self.library_rename.as_str()) {
            return;
        }
        if let Some(saved) = clone_option(&self.selected_saved) {
            let name = trim_text(self.library_rename.as_str());
            self.enqueue_intent(MacroIntent::Rename { saved, name });
        }
    }

    /// Asks for a copy of the saved macro that is selected.
    pub fn request_duplicate(&mut self)
        ensures
            final(self)@ == (match old(self)@.selected_saved {
                Some(source) if !blank(old(self)@.library_rename) => asked(
                    old(self)@,
                    IntentView::Duplicate {
                        source,
                        macro_id: source.macro_id,
                        name: trimmed(old(self)@.library_rename),
                    },
                ),
                _ => old(self)@,
            }),
    {
        if is_blank(self.library_rename.as_str()) {
            return;
        }
        if let Some(source) = clone_option(&self.selected_saved) {
            let name = trim_text(self.library_rename.as_str());
            let macro_id = source.macro_id.clone();
            self.enqueue_intent(MacroIntent::Duplicate { source, macro_id, name });
        }
    }

    /// Asks for the import of a package.
    pub fn request_import(&mut self)
        ensures
            final(self)@ == (if blank(old(self)@.library_package_path) {
                old(self)@
            } else {
                asked(
                    old(self)@,
                    IntentView::ImportPackage {
                        package_root: trimmed(old(self)@.library_package_path),
                    },
                )
            }),
    {
        if is_blank(self.library_package_path.as_str()) {
            return;
        }
        let package_root = trim_text(self.library_package_path.as_str());
        self.enqueue_intent(MacroIntent::ImportPackage { package_root });
    }

    /// Asks for the export of the saved macro that is selected.
    pub fn request_export(&mut self)
        ensures
            final(self)@ == (if blank(old(self)@.library_package_path)
                || old(self)@.selected_saved is None {
                old(self)@
            } else {
                asked(
                    old(self)@,
                    IntentView::Export { package_root: trimmed(old(self)@.library_package_path) },
                )
            }),
    {
        if is_blank(self.library_package_path.as_str()) || self.selected_saved.is_none() {
            return;
        }
        let package_root = trim_text(self.library_package_path.as_str());
        self.enqueue_intent(MacroIntent::Export { package_root });
    }

    /// Asks for the removal of the saved macro that is selected, once that was confirmed.
    pub fn request_delete(&mut self)
        ensures
            final(self)@ == (match old(self)@.selected_saved {
                Some(saved) if old(self)@.confirm_library_delete => PageView {
                    confirm_library_delete: false,
                    ..asked(old(self)@, IntentView::Delete { saved })
                },
                _ => old(self)@,
            }),
    {
        if !self.confirm_library_delete {
            return;
        }
        if let Some(saved) = clone_option(&self.selected_saved) {
            self.enqueue_intent(MacroIntent::Delete { saved });
            self.confirm_library_delete = false;
        }
    }

    pub fn clear_selected_saved(&mut self)
        ensures
            final(self)@ == (PageView {
                selected_saved: None,
                saved_revision: None,
                ..old(self)@
            }),
    {
        self.selected_saved = None;
        self.saved_revision = None;
    }

    pub fn selected_saved_macro_id(&self) -> (id: Option<&str>)
        ensures
            option_view(id) == (match self@.selected_saved {
                Some(saved) => Some(saved.macro_id),
                None => None,
            }),
    {
        match &self.selected_saved {
            Some(saved) => Some(saved.macro_id.as_str()),
            None => None,
        }
    }

    pub fn enqueue_intent(&mut self, intent: MacroIntent)
        ensures
            final(self)@ == asked(old(self)@, intent@),
    {
        self.intents.push(intent);
    }

    pub fn push_intent(&mut self, intent: MacroUiIntent)
        ensures
            final(self)@ == asked(old(self)@, intent@),
    {
        self.enqueue_intent(intent);
    }

    pub fn pending_intent_count(&self) -> (count: usize)
        ensures
            count == self@.intents.values.len(),
    {
        self.intents.pending()
    }

    /// Takes every request out of the queue, in their order.
    pub fn drain_intents(&mut self) -> (intents: Vec<MacroUiIntent>)
        ensures
            views(intents@) == old(self)@.intents.values,
            final(self)@ == (PageView {
                intents: QueueView { values: Seq::empty(), ..old(self)@.intents },
                ..old(self)@
            }),
    {
        self.intents.drain()
    }

    /// Takes the first request out of the queue.
    pub fn take_intent(&mut self) -> (intent: Option<MacroIntent>)
        ensures
            match intent {
                Some(intent) => old(self)@.intents.values.len() > 0 && intent@
                    == old(self)@.intents.values[0] && final(self)@ == (PageView {
                    intents: QueueView {
                        values: old(self)@.intents.values.drop_first(),
                        ..old(self)@.intents
                    },
                    ..old(self)@
                }),
                None => old(self)@.intents.values.len() == 0 && final(self)@ == old(self)@,
            },
    {
        self.intents.pop()
    }

    pub fn begin_image_package_reverification(&mut self, rule_ids: Vec<String>)
        requires
            rule_ids@.len() > 0,
        ensures
            final(self)@ == (PageView {
                reverification: Some(progress_start(views(rule_ids@))),
                ..old(self)@
            }),
    {
        self.image_package_reverification = Some(ImagePackageReverificationProgress::new(rule_ids));
    }

    pub fn set_image_package_reverification_stage(
        &mut self,
        active_rule_index: usize,
        stage: ImagePackageReverificationStage,
    )
        ensures
            final(self)@ == (PageView {
                reverification: match old(self)@.reverification {
                    Some(progress) => Some(
                        ProgressView {
                            active_rule_index: active_rule_index as int,
                            stage,
                            ..progress
                        },
                    ),
                    None => None,
                },
                ..old(self)@
            }),
    {
        if let Some(progress) = &mut self.image_package_reverification {
            progress.active_rule_index = active_rule_index;
            progress.stage = stage;
        }
    }

    pub fn clear_image_package_reverification(&mut self)
        ensures
            final(self)@ == (PageView { reverification: None, ..old(self)@ }),
    {
        self.image_package_reverification = None;
    }

    /// Opens a saved macro as a draft.
    pub fn load_saved_draft(&mut self, definition: MacroDefinition, saved: SavedMacroIdentity)
        ensures
            final(self)@ == saved_opened(old(self)@, definition@, saved@),
    {
        self.begin_draft_session();
        self.canvas_layout =
        reconcile_layout(&project_canvas(&definition), MacroCanvasLayout::default());
        self.ui_edit_history = UiEditHistory::default();
        self.canvas_layout_dirty = false;
        self.canvas_layout_hydrated = false;
        self.draft = Some(EditorDraft::new(definition));
        self.set_selected_saved(saved);
        self.selected_block_id = None;
        self.selected_canvas = None;
        self.editor_feedback = None;
    }

    /// Makes a saved layout fit the draft.
    pub fn load_canvas_layout(&mut self, saved: MacroCanvasLayout)
        ensures
            final(self)@ == layout_loaded(old(self)@, saved@),
    {
        let graph = match &self.draft {
            None => return,
            Some(draft) => project_canvas(&draft.definition),
        };
        self.canvas_layout = reconcile_layout(&graph, saved);
        self.ui_edit_history = UiEditHistory::default();
        self.canvas_layout_dirty = false;
        self.canvas_layout_hydrated = true;
    }

    /// Loads the layout that was stored for the selected macro, once; the plain one where none was.
    pub fn hydrate_canvas_layout(&mut self, stored: Option<MacroCanvasLayout>)
        ensures
            final(self)@ == (if old(self)@.canvas_layout_hydrated {
                old(self)@
            } else {
                layout_loaded(
                    old(self)@,
                    match option_view(stored) {
                        Some(layout) => layout,
                        None => plain_layout(),
                    },
                )
            }),
    {
        if self.canvas_layout_hydrated {
            return;
        }
        let saved = match stored {
            Some(layout) => layout,
            None => MacroCanvasLayout::default(),
        };
        self.load_canvas_layout(saved);
    }

    /// What has to be stored of the layout, with the macro it belongs to: nothing, unless a saved
    /// macro is selected and the layout changed.
    pub fn persist_canvas_layout(&mut self) -> (stored: Option<(String, MacroCanvasLayout)>)
        ensures
            match old(self)@.selected_saved {
                Some(saved) if old(self)@.canvas_layout_dirty => option_view(stored) == Some(
                    (saved.macro_id, old(self)@.canvas_layout),
                ) && final(self)@ == (PageView { canvas_layout_dirty: false, ..old(self)@ }),
                _ => stored is None && final(self)@ == old(self)@,
            },
    {
        if !self.canvas_layout_dirty {
            return None;
        }
        let macro_id = match &self.selected_saved {
            None => return None,
            Some(saved) => saved.macro_id.clone(),
        };
        let layout = self.canvas_layout.clone();
        self.canvas_layout_dirty = false;
        Some((macro_id, layout))
    }

    /// Moves a node of the canvas.
    pub fn move_canvas_node(&mut self, block_id: &str, position: Position) -> (result: Result<
        (),
        CanvasLayoutError,
    >)
        ensures
            (
                final(self)@,
                match result {
                    Ok(()) => Ok::<(), LayoutErrorView>(()),
                    Err(error) => Err(error@),
                },
            ) == node_moved(old(self)@, block_id@, position),
    {
        let ghost before = self@;
        let known = match &self.draft {
            None => false,
            Some(draft) => project_canvas(&draft.definition).node(block_id).is_some(),
        };
        proof {
            if let Some(draft) = before.draft {
                let nodes = canvas_of(draft.definition.blocks).nodes;
                crate::tree::lemma_first_index(nodes, crate::canvas_model::node_is(block_id@));
                lemma_found_either_way(nodes, block_id@);
            }
        }
        if !known {
            return Err(CanvasLayoutError::MissingNode(block_id.to_owned()));
        }
        let edit = match CanvasLayoutEngine::move_node(&mut self.canvas_layout, block_id, position) {
            Err(error) => return Err(error),
            Ok(edit) => edit,
        };
        let moved = match &edit {
            LayoutEdit::NodePosition { before: Some(a), after: Some(b), .. } => *a != *b,
            _ => true,
        };
        if !moved {
            proof {
                let layout = before.canvas_layout;
                let at = position_of(layout, block_id@);
                assert(stays(at, position));
                assert(layout.positions.insert(block_id@, at->0) =~= layout.positions);
            }
            return Ok(());
        }
        self.record_canvas_layout_edit(edit);
        Ok(())
    }

    /// Puts the nodes of the canvas where they belong by depth.
    pub fn auto_arrange_canvas(&mut self)
        ensures
            final(self)@ == canvas_arranged(old(self)@),
    {
        let graph = match &self.draft {
            None => return,
            Some(draft) => project_canvas(&draft.definition),
        };
        let before = self.canvas_layout.clone();
        let mut next = auto_arrange(&graph);
        next.pan = before.pan;
        next.zoom = before.zoom;
        next.library_width = before.library_width;
        next.inspector_width = before.inspector_width;
        if before == next {
            return;
        }
        self.canvas_layout = next.clone();
        self.record_canvas_layout_edit(LayoutEdit::Layout { before, after: next });
    }

    pub fn reset_canvas_zoom(&mut self)
        ensures
            final(self)@ == (PageView {
                canvas_layout: LayoutView {
                    zoom: F32Bits(SINGLE_ONE),
                    ..old(self)@.canvas_layout
                },
                canvas_layout_dirty: true,
                ..old(self)@
            }),
    {
        self.canvas_layout.zoom = F32Bits(SINGLE_ONE);
        self.canvas_layout_dirty = true;
    }

    /// Shows another part of the canvas. Without a draft nothing changes.
    pub fn set_canvas_view(&mut self, pan: Position, zoom: F32Bits)
        ensures
            final(self)@ == (if old(self)@.draft is Some {
                PageView {
                    canvas_layout: LayoutView { pan, zoom, ..old(self)@.canvas_layout },
                    canvas_layout_dirty: true,
                    ..old(self)@
                }
            } else {
                old(self)@
            }),
    {
        if self.draft.is_none() {
            return;
        }
        self.canvas_layout.pan = pan;
        self.canvas_layout.zoom = zoom;
        self.canvas_layout_dirty = true;
    }

    pub fn record_canvas_layout_edit(&mut self, edit: LayoutEdit)
        ensures
            final(self)@ == layout_noted(old(self)@, edit@),
    {
        self.ui_edit_history.record_layout(edit);
        self.canvas_layout_dirty = true;
    }

    pub fn mark_canvas_layout_changed(&mut self)
        ensures
            final(self)@ == (PageView { canvas_layout_dirty: true, ..old(self)@ }),
    {
        self.canvas_layout_dirty = true;
    }

    /// Takes back the latest edit of the draft or of its layout.
    pub fn undo_ui_edit(&mut self) -> (answer: Result<EditDomain, HistoryError>)
        ensures
            (final(self)@, domain_answer(answer)) == page_undone(old(self)@),
    {
        let answer = match &mut self.draft {
            None => return Err(HistoryError::NothingToUndo),
            Some(draft) => self.ui_edit_history.undo(draft, &mut self.canvas_layout),
        };
        self.follow_history(&answer);
        answer
    }

    /// Does again the edit that was taken back last.
    pub fn redo_ui_edit(&mut self) -> (answer: Result<EditDomain, HistoryError>)
        ensures
            (final(self)@, domain_answer(answer)) == page_redone(old(self)@),
    {
        let answer = match &mut self.draft {
            None => return Err(HistoryError::NothingToRedo),
            Some(draft) => self.ui_edit_history.redo(draft, &mut self.canvas_layout),
        };
        self.follow_history(&answer);
        answer
    }

    fn follow_history(&mut self, answer: &Result<EditDomain, HistoryError>)
        ensures
            final(self)@ == (match *answer {
                Ok(EditDomain::Definition) => layout_fitted(old(self)@),
                Ok(EditDomain::Layout) => PageView { canvas_layout_dirty: true, ..old(self)@ },
                Err(_) => old(self)@,
            }),
    {
        match answer {
            Ok(EditDomain::Definition) => self.reconcile_canvas_layout(),
            Ok(EditDomain::Layout) => {
                self.canvas_layout_dirty = true;
            },
            Err(_) => {},
        }
    }

    /// Makes the layout fit the draft.
    pub fn reconcile_canvas_layout(&mut self)
        ensures
            final(self)@ == layout_fitted(old(self)@),
    {
        let graph = match &self.draft {
            None => return,
            Some(draft) => project_canvas(&draft.definition),
        };
        self.canvas_layout = reconcile_layout(&graph, self.canvas_layout.clone());
        self.canvas_layout_dirty = true;
    }

    pub fn allocate_authoring_session(&mut self) -> (session: AuthoringSessionId)
        ensures
            (final(self)@, session) == with_session(old(self)@),
    {
        let session = AuthoringSessionId(self.next_authoring_session_id);
        self.next_authoring_session_id = bump(self.next_authoring_session_id);
        session
    }

    pub fn begin_wizard_session(&mut self)
        ensures
            final(self)@ == wizard_begun(old(self)@),
    {
        let session = self.allocate_authoring_session();
        self.wizard_session = Some(session);
        self.cancel_wizard_authoring();
        self.active_editor_authoring_request = None;
        self.editor_authoring_dispatched = false;
        self.pending_inspector_intent = None;
    }

    pub fn begin_draft_session(&mut self)
        ensures
            final(self)@ == draft_begun(old(self)@),
    {
        let session = self.allocate_authoring_session();
        self.draft_session = Some(session);
        self.active_editor_authoring_request = None;
        self.editor_authoring_dispatched = false;
    }

    pub fn cancel_wizard_authoring(&mut self)
        ensures
            final(self)@ == without_wizard_request(old(self)@),
    {
        self.active_wizard_request = None;
        self.wizard_request_dispatched = false;
        self.pending_wizard_action = None;
    }

    pub fn active_wizard_session(&self) -> (session: Option<AuthoringSessionId>)
        ensures
            session == live_wizard_session(self@),
    {
        match &self.wizard {
            Some(_) => self.wizard_session,
            None => None,
        }
    }

    pub fn active_draft_session(&self) -> (session: Option<AuthoringSessionId>)
        ensures
            session == live_draft_session(self@),
    {
        match &self.draft {
            Some(_) => self.draft_session,
            None => None,
        }
    }

    /// The stays that answers of the desktop may belong to.
    pub fn active_authoring_sessions(&self) -> (sessions: Vec<AuthoringSessionId>)
        ensures
            sessions@ == present(live_wizard_session(self@)) + present(live_draft_session(self@)),
    {
        let mut sessions: Vec<AuthoringSessionId> = Vec::new();
        if let Some(session) = self.active_wizard_session() {
            sessions.push(session);
        }
        if let Some(session) = self.active_draft_session() {
            sessions.push(session);
        }
        assert(sessions@ =~= present(live_wizard_session(self@)) + present(
            live_draft_session(self@),
        ));
        sessions
    }

    /// The target that a stay captures from.
    pub fn target_profile_for_session(&self, session: AuthoringSessionId) -> (target: Option<
        &TargetProfile,
    >)
        ensures
            option_view(target) == (if live_wizard_session(self@) == Some(session) {
                Some(self@.wizard->0.target)
            } else if live_draft_session(self@) == Some(session) {
                Some(self@.draft->0.definition.target)
            } else {
                None
            }),
    {
        if let Some(wizard) = &self.wizard {
            if let Some(current) = self.wizard_session {
                if current == session {
                    return Some(&wizard.target);
                }
            }
        }
        if let Some(draft) = &self.draft {
            if let Some(current) = self.draft_session {
                if current == session {
                    return Some(&draft.definition.target);
                }
            }
        }
        None
    }

    /// Whether an answer to a request of the wizard would be taken.
    pub fn wizard_request_envelope_is_current(
        &self,
        request: &WizardAuthoringRequest,
        expected_kind: WizardAuthoringKind,
    ) -> (current: bool)
        ensures
            current == wizard_request_current(self@, request@, expected_kind),
    {
        let session = match self.active_wizard_session() {
            Some(session) => session == request.session,
            None => false,
        };
        let waited_for = match &self.active_wizard_request {
            Some(active) => active.same(request),
            None => false,
        };
        let unchanged = match &self.wizard {
            Some(wizard) => wizard.review_fingerprint() == request.fingerprint,
            None => false,
        };
        session && request.kind == expected_kind && waited_for && unchanged
    }

    /// Gives up a request of the wizard, if it is the one that is waited for.
    pub fn discard_wizard_result_envelope(&mut self, request: &WizardAuthoringRequest) -> (discarded:
        bool)
        ensures
            discarded == (old(self)@.active_wizard_request == Some(request@)),
            final(self)@ == (if discarded {
                without_wizard_request(old(self)@)
            } else {
                old(self)@
            }),
    {
        let waited_for = match &self.active_wizard_request {
            Some(active) => active.same(request),
            None => false,
        };
        if !waited_for {
            return false;
        }
        self.cancel_wizard_authoring();
        true
    }

    /// Whether an answer to a request of the editor would be taken.
    pub fn editor_request_envelope_is_current(
        &self,
        request: &EditorAuthoringRequest,
        expected_kind: &EditorAuthoringKind,
    ) -> (current: bool)
        ensures
            current == editor_request_current(self@, request@, expected_kind@),
    {
        let session = match self.active_draft_session() {
            Some(session) => session == request.session,
            None => false,
        };
        let waited_for = match &self.active_editor_authoring_request {
            Some(active) => active.equals(request),
            None => false,
        };
        let unchanged = match &self.draft {
            Some(draft) => editor_authoring_fingerprint(draft) == request.fingerprint,
            None => false,
        };
        session && request.kind.same(expected_kind) && waited_for && unchanged
    }

    /// Gives up a request of the editor, if it is the one that is waited for.
    pub fn discard_editor_result_envelope(&mut self, request: &EditorAuthoringRequest) -> (discarded:
        bool)
        ensures
            discarded == waits_for(old(self)@, request@),
            final(self)@ == (if discarded {
                PageView { pending_inspector_intent: None, ..without_editor_request(old(self)@) }
            } else {
                old(self)@
            }),
    {
        let waited_for = match &self.active_editor_authoring_request {
            Some(active) => active.equals(request),
            None => false,
        };
        if !waited_for {
            return false;
        }
        self.active_editor_authoring_request = None;
        self.editor_authoring_dispatched = false;
        self.pending_inspector_intent = None;
        true
    }

    /// Whether the draft may be edited.
    pub fn editor_mutations_allowed(&self) -> (allowed: bool)
        ensures
            allowed == mutations_allowed(self@),
    {
        let editable = match &self.draft {
            Some(draft) => draft.editability == DraftEditability::Editable,
            None => false,
        };
        self.wizard.is_none() && self.active_wizard_request.is_none()
            && self.running_snapshot.is_none() && self.active_editor_authoring_request.is_none()
            && editable
    }

    /// Hands out the request of the wizard, once.
    pub fn take_wizard_request(&mut self) -> (request: Option<WizardAuthoringRequest>)
        ensures
            if old(self)@.wizard_request_dispatched || old(self)@.active_wizard_request is None {
                request is None && final(self)@ == old(self)@
            } else {
                option_view(request) == old(self)@.active_wizard_request && final(self)@ == (
                PageView { wizard_request_dispatched: true, ..old(self)@ })
            },
    {
        if self.wizard_request_dispatched {
            return None;
        }
        let request = clone_option(&self.active_wizard_request);
        if request.is_some() {
            self.wizard_request_dispatched = true;
        }
        request
    }

    /// Hands out the request of the editor, once.
    pub fn take_editor_authoring_request(&mut self) -> (request: Option<EditorAuthoringRequest>)
        ensures
            if old(self)@.editor_authoring_dispatched || old(self)@.active_editor_request is None {
                request is None && final(self)@ == old(self)@
            } else {
                option_view(request) == old(self)@.active_editor_request && final(self)@ == (
                PageView { editor_authoring_dispatched: true, ..old(self)@ })
            },
    {
        if self.editor_authoring_dispatched {
            return None;
        }
        let request = clone_option(&self.active_editor_authoring_request);
        if request.is_some() {
            self.editor_authoring_dispatched = true;
        }
        request
    }
}

proof fn lemma_found_either_way(nodes: Seq<crate::canvas_model::NodeView>, id: Seq<char>)
    ensures
        crate::tree::first_where(nodes, crate::canvas_model::node_is(id)) is Some
            <==> crate::tree::first_index(nodes, crate::canvas_model::node_is(id)) is Some,
{
    let holds = crate::canvas_model::node_is(id);
    crate::tree::lemma_first_index(nodes, holds);
    lemma_first_where_some(nodes, holds);
}

proof fn lemma_first_where_some<T>(list: Seq<T>, holds: spec_fn(T) -> bool)
    ensures
        crate::tree::first_where(list, holds) is Some <==> exists|i: int|
            0 <= i < list.len() && holds(#[trigger] list[i]),
    decreases list.len(),
{
    if list.len() > 0 {
        lemma_first_where_some(list.drop_last(), holds);
        if crate::tree::first_where(list, holds) is Some {
            if crate::tree::first_where(list.drop_last(), holds) is Some {
                let i = choose|i: int|
                    0 <= i < list.drop_last().len() && holds(#[trigger] list.drop_last()[i]);
                assert(holds(list[i]));
            } else {
                assert(holds(list[list.len() - 1]));
            }
        }
        if exists|i: int| 0 <= i < list.len() && holds(#[trigger] list[i]) {
            let i = choose|i: int| 0 <= i < list.len() && holds(#[trigger] list[i]);
            if i < list.len() - 1 {
                assert(holds(list.drop_last()[i]));
            }
        }
    }
}

} // verus!
