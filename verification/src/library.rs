//! The library: one row for every macro that is saved or edited.
use crate::content::{views, Content};
use crate::macro_engine::{
    MacroDefinition, MacroDefinitionView, TargetProfileView, ValidationProblem,
};
use crate::monitor::{stop_text, MonitorProjection, MonitorView, StopOutcome, StopOutcomeView};
use crate::run_events::RunStatus;
use crate::text::{
    blank, contains_text, decimal, decimal_text, holds_text, is_blank, trim_text, trimmed,
};
use vstd::prelude::*;
use vstd::string::StringExecFns;

verus! {

#[derive(Debug, Clone, Copy, PartialEq, Eq, Structural)]
pub enum MacroLibraryStatus {
    Draft,
    Ready,
    NeedsRevalidation,
    Running,
    StoppedWithError,
    Disabled,
}

pub open spec fn status_word(status: MacroLibraryStatus) -> Seq<char> {
    match status {
        MacroLibraryStatus::Draft => "Draft"@,
        MacroLibraryStatus::Ready => "Ready"@,
        MacroLibraryStatus::NeedsRevalidation => "Needs revalidation"@,
        MacroLibraryStatus::Running => "Running"@,
        MacroLibraryStatus::StoppedWithError => "Last run failed"@,
        MacroLibraryStatus::Disabled => "Disabled"@,
    }
}

pub open spec fn status_sentence(status: MacroLibraryStatus) -> Seq<char> {
    match status {
        MacroLibraryStatus::Draft => {
            "This definition has unsaved edits or has not been saved yet."@
        },
        MacroLibraryStatus::Ready => "The saved revision is valid and enabled."@,
        MacroLibraryStatus::NeedsRevalidation => {
            "Changes require validation before this draft can be saved."@
        },
        MacroLibraryStatus::Running => "This saved macro currently owns the active run."@,
        MacroLibraryStatus::StoppedWithError => {
            "The most recent completed run stopped with an error."@
        },
        MacroLibraryStatus::Disabled => {
            "This macro is saved but cannot be started until it is enabled."@
        },
    }
}

impl MacroLibraryStatus {
    pub fn label(self) -> (word: &'static str)
        ensures
            word@ == status_word(self),
    {
        match self {
            MacroLibraryStatus::Draft => "Draft",
            MacroLibraryStatus::Ready => "Ready",
            MacroLibraryStatus::NeedsRevalidation => "Needs revalidation",
            MacroLibraryStatus::Running => "Running",
            MacroLibraryStatus::StoppedWithError => "Last run failed",
            MacroLibraryStatus::Disabled => "Disabled",
        }
    }

    pub fn description(self) -> (sentence: &'static str)
        ensures
            sentence@ == status_sentence(self),
    {
        match self {
            MacroLibraryStatus::Draft => {
                "This definition has unsaved edits or has not been saved yet."
            },
            MacroLibraryStatus::Ready => "The saved revision is valid and enabled.",
            MacroLibraryStatus::NeedsRevalidation => {
                "Changes require validation before this draft can be saved."
            },
            MacroLibraryStatus::Running => "This saved macro currently owns the active run.",
            MacroLibraryStatus::StoppedWithError => {
                "The most recent completed run stopped with an error."
            },
            MacroLibraryStatus::Disabled => {
                "This macro is saved but cannot be started until it is enabled."
            },
        }
    }
}

/// One row of the library.
#[derive(Debug, PartialEq, Eq)]
pub struct MacroLibraryRow {
    pub id: String,
    pub name: String,
    pub revision: u64,
    pub status: MacroLibraryStatus,
    pub target: String,
    pub dpi: u32,
    pub last_validation: String,
    pub last_run: String,
}

/// The contents of a [`MacroLibraryRow`].
#[verifier::ext_equal]
pub ghost struct LibraryRowView {
    pub id: Seq<char>,
    pub name: Seq<char>,
    pub revision: u64,
    pub status: MacroLibraryStatus,
    pub target: Seq<char>,
    pub dpi: u32,
    pub last_validation: Seq<char>,
    pub last_run: Seq<char>,
}

impl View for MacroLibraryRow {
    type V = LibraryRowView;

    open spec fn view(&self) -> LibraryRowView {
        LibraryRowView {
            id: self.id@,
            name: self.name@,
            revision: self.revision,
            status: self.status,
            target: self.target@,
            dpi: self.dpi,
            last_validation: self.last_validation@,
            last_run: self.last_run@,
        }
    }
}

impl Clone for MacroLibraryRow {
    fn clone(&self) -> (copy: Self)
        ensures
            copy == *self,
    {
        MacroLibraryRow {
            id: self.id.clone(),
            name: self.name.clone(),
            revision: self.revision,
            status: self.status,
            target: self.target.clone(),
            dpi: self.dpi,
            last_validation: self.last_validation.clone(),
            last_run: self.last_run.clone(),
        }
    }
}

impl Content for MacroLibraryRow {
    fn duplicate(&self) -> (copy: Self) {
        self.clone()
    }
}

/// A run has not come to its end.
pub open spec fn under_way(status: RunStatus) -> bool {
    status is Running || status is Paused || status is Stopping
}

/// A run ended badly.
pub open spec fn ended_badly(outcome: StopOutcomeView) -> bool {
    outcome.classification is Error || outcome.classification is SafetyStopped
}

/// The status of a macro: what keeps it from running comes before what it did last, and that before
/// what it still needs.
pub open spec fn library_status(
    revision: u64,
    saved_revision: Option<u64>,
    enabled: bool,
    problems: nat,
    monitor: MonitorView,
    last: Option<StopOutcomeView>,
) -> MacroLibraryStatus {
    if !enabled {
        MacroLibraryStatus::Disabled
    } else if under_way(monitor.status) && monitor.running_revision is Some {
        MacroLibraryStatus::Running
    } else if monitor.error is Some || (last matches Some(outcome) && ended_badly(outcome)) {
        MacroLibraryStatus::StoppedWithError
    } else if problems > 0 {
        MacroLibraryStatus::NeedsRevalidation
    } else if saved_revision != Some(revision) {
        MacroLibraryStatus::Draft
    } else {
        MacroLibraryStatus::Ready
    }
}

/// The window that a macro is for, by its title or else by its class.
pub open spec fn target_name(target: TargetProfileView) -> Seq<char> {
    if blank(target.title_contains) {
        target.window_class
    } else {
        target.title_contains
    }
}

pub open spec fn validation_text(problems: nat) -> Seq<char> {
    if problems == 0 {
        "Valid"@
    } else {
        decimal(problems) + " issues"@
    }
}

/// The row of a macro.
pub open spec fn library_row(
    definition: MacroDefinitionView,
    saved_revision: Option<u64>,
    enabled: bool,
    problems: nat,
    monitor: MonitorView,
    last: Option<StopOutcomeView>,
) -> LibraryRowView {
    LibraryRowView {
        id: definition.id,
        name: definition.name,
        revision: definition.revision,
        status: library_status(
            definition.revision,
            saved_revision,
            enabled,
            problems,
            monitor,
            last,
        ),
        target: target_name(definition.target),
        dpi: definition.target.captured_dpi,
        last_validation: validation_text(problems),
        last_run: match last {
            Some(outcome) => stop_text(outcome.reason),
            None => "No completed run"@,
        },
    }
}

/// An outcome that may be missing, by its contents.
pub open spec fn outcome_option(outcome: Option<&StopOutcome>) -> Option<StopOutcomeView> {
    match outcome {
        Some(outcome) => Some(outcome@),
        None => None,
    }
}

pub fn project_definition(
    definition: &MacroDefinition,
    saved_revision: Option<u64>,
    enabled: bool,
    problems: &[ValidationProblem],
    monitor: &MonitorProjection,
    last_completion: Option<&StopOutcome>,
) -> (row: MacroLibraryRow)
    ensures
        row@ == library_row(
            definition@,
            saved_revision,
            enabled,
            problems@.len(),
            monitor@,
            outcome_option(last_completion),
        ),
{
    let running = match monitor.status {
        RunStatus::Running => true,
        RunStatus::Paused => true,
        RunStatus::Stopping => true,
        _ => false,
    };
    let failed = match last_completion {
        Some(outcome) => outcome.is_error(),
        None => false,
    };
    let saved = match saved_revision {
        Some(revision) => revision == definition.revision,
        None => false,
    };
    let status = if !enabled {
        MacroLibraryStatus::Disabled
    } else if running && monitor.running_revision.is_some() {
        MacroLibraryStatus::Running
    } else if monitor.error.is_some() || failed {
        MacroLibraryStatus::StoppedWithError
    } else if problems.len() > 0 {
        MacroLibraryStatus::NeedsRevalidation
    } else if !saved {
        MacroLibraryStatus::Draft
    } else {
        MacroLibraryStatus::Ready
    };
    let target = if is_blank(definition.target.title_contains.as_str()) {
        definition.target.window_class.clone()
    } else {
        definition.target.title_contains.clone()
    };
    let last_validation = if problems.len() == 0 {
        "Valid".to_owned()
    } else {
        let mut text = decimal_text(problems.len() as u64);
        text.append(" issues");
        text
    };
    let last_run = match last_completion {
        Some(outcome) => outcome.label(),
        None => "No completed run".to_owned(),
    };
    MacroLibraryRow {
        id: definition.id.clone(),
        name: definition.name.clone(),
        revision: definition.revision,
        status,
        target,
        dpi: definition.target.captured_dpi,
        last_validation,
        last_run,
    }
}

/// A row is found by a search: by its name or by the word for its status. A blank search finds
/// every row.
pub open spec fn row_found(row: LibraryRowView, search: Seq<char>) -> bool {
    let query = trimmed(search);
    query.len() == 0 || holds_text(row.name, query) || holds_text(status_word(row.status), query)
}

/// The rows that a search finds, in their order.
pub open spec fn rows_found(rows: Seq<LibraryRowView>, search: Seq<char>) -> Seq<LibraryRowView>
    decreases rows.len(),
{
    if rows.len() == 0 {
        Seq::empty()
    } else {
        let rest = rows_found(rows.drop_last(), search);
        if row_found(rows.last(), search) {
            rest.push(rows.last())
        } else {
            rest
        }
    }
}

/// The rows that a search finds.
pub fn search_rows(rows: &Vec<MacroLibraryRow>, search: &str) -> (found: Vec<MacroLibraryRow>)
    ensures
        views(found@) == rows_found(views(rows@), search@),
{
    let query = trim_text(search);
    let ghost all = views(rows@);
    let mut found: Vec<MacroLibraryRow> = Vec::new();
    let mut i: usize = 0;
    assert(views(found@) =~= rows_found(all.take(0), search@));
    while i < rows.len()
        invariant
            i <= rows@.len(),
            all == views(rows@),
            query@ == trimmed(search@),
            views(found@) == rows_found(all.take(i as int), search@),
        decreases rows@.len() - i,
    {
        let row = &rows[i];
        let ghost before = views(found@);
        proof {
            assert(all.take(i + 1).drop_last() =~= all.take(i as int));
            assert(all.take(i + 1).last() == row@);
        }
        if query.as_str().unicode_len() == 0 || contains_text(row.name.as_str(), query.as_str())
            || contains_text(row.status.label(), query.as_str()) {
            found.push(row.clone());
            assert(views(found@) =~= before.push(row@));
        }
        i += 1;
    }
    assert(all.take(i as int) =~= all);
    found
}

} // verus!
