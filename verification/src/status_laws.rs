//! What holds of what the page tells of a macro and of its runs.
use crate::canvas_model::SelectionView;
use crate::conversion::may_confirm;
use crate::intents::SavedView;
use crate::library::library_row;
use crate::macro_engine::{F32Bits, MacroDefinitionView};
use crate::monitor::{elapsed_text, stop_text, three_digits, two_digits, MonitorView, StopOutcomeView};
use crate::page::{mutations_allowed, saved_opened, PageView};
use crate::page_edit::{conversion_confirmed, dispatched, selection_of};
use crate::page_status::{
    display_text, may_save, panes, revisions_text, row_of, shown_rows, target_title, validity,
};
use crate::places::lane_located;
use crate::run_events::StopReasonView;
use crate::text::{decimal, lemma_decimal_reads_back, numeral_value};
use crate::tree::{first_index, lemma_first_index};
use crate::wizard::AuthoringSessionId;
use vstd::prelude::*;

verus! {

/// A macro can be saved exactly where its draft can be edited, was validated since its last change,
/// and has no problems.
pub proof fn saving_needs_a_valid_draft(page: PageView, problems: nat)
    ensures
        may_save(page, problems) <==> mutations_allowed(page) && problems == 0 && page.draft is Some
            && page.draft->0.status is Ready,
        page.draft is None ==> validity(page, problems) == "No definition"@,
        page.draft is Some && problems == 0 && page.draft->0.status is Ready ==> validity(
            page,
            problems,
        ) == "Valid"@,
        page.draft is Some && (problems > 0 || page.draft->0.status is NeedsValidation) ==> validity(
            page,
            problems,
        ) == "Needs revalidation"@,
{
}

/// The page tells the revision of the draft, the one that is saved and the one that runs, each by its
/// number or as missing, and the window and the resolution that the draft is for.
pub proof fn page_tells_the_revisions(page: PageView, monitor: MonitorView)
    ensures
        ({
            let told = |revision: Option<u64>|
                if revision is Some {
                    decimal(revision->0 as nat)
                } else {
                    "--"@
                };
            let draft = if page.draft is Some {
                Some(page.draft->0.definition.revision)
            } else {
                None
            };
            revisions_text(page, monitor) == "draft "@ + told(draft) + " | saved "@ + told(
                page.saved_revision,
            ) + " | running "@ + told(monitor.running_revision)
        }),
        page.draft is Some && page.draft->0.definition.target.title_contains.len() > 0
            ==> target_title(page) == page.draft->0.definition.target.title_contains,
        page.draft is None || page.draft->0.definition.target.title_contains.len() == 0
            ==> target_title(page) == "No target selected"@,
        page.draft is Some ==> display_text(page) == decimal(
            page.draft->0.definition.target.captured_client_width as nat,
        ) + "x"@ + decimal(page.draft->0.definition.target.captured_client_height as nat) + " | "@
            + decimal(page.draft->0.definition.target.captured_dpi as nat) + " DPI"@,
{
}

/// Where the draft is that of the selected macro, its row in the library is told by the draft, in the
/// place of the row that it has or else behind all; the other rows stay. Otherwise all rows stay.
pub proof fn own_row_is_told_by_the_draft(
    page: PageView,
    monitor: MonitorView,
    problems: nat,
    last: Option<StopOutcomeView>,
)
    ensures
        ({
            let rows = page.library_rows;
            let now = shown_rows(page, monitor, problems, last);
            let own = page.draft is Some && page.selected_saved is Some
                && page.draft->0.definition.id == page.selected_saved->0.macro_id
                && page.saved_revision == Some(page.selected_saved->0.revision);
            let row = library_row(
                page.draft->0.definition,
                page.saved_revision,
                page.enabled,
                problems,
                monitor,
                last,
            );
            &&& !own ==> now == rows
            &&& own ==> now.contains(row)
            &&& own && (forall|i: int| 0 <= i < rows.len() ==> (#[trigger] rows[i]).id != row.id)
                ==> now == rows.push(row)
            &&& own && (exists|i: int| 0 <= i < rows.len() && (#[trigger] rows[i]).id == row.id)
                ==> now.len() == rows.len()
            &&& forall|i: int|
                0 <= i < rows.len() && (#[trigger] rows[i]).id != row.id ==> i < now.len() && now[i]
                    == rows[i]
        }),
{
    let rows = page.library_rows;
    let now = shown_rows(page, monitor, problems, last);
    let row = library_row(
        page.draft->0.definition,
        page.saved_revision,
        page.enabled,
        problems,
        monitor,
        last,
    );
    lemma_first_index(rows, row_of(row.id));
    match first_index(rows, row_of(row.id)) {
        Some(i) => {
            assert(rows[i].id == row.id);
            assert(rows.update(i, row)[i] == row);
        },
        None => {
            assert(rows.push(row)[rows.len() as int] == row);
            assert forall|i: int| 0 <= i < rows.len() implies (#[trigger] rows[i]).id != row.id by {
                assert(!row_of(row.id)(rows[i]));
            }
        },
    }
}

/// How a run ended is told in words, together with what it says of an error, a failure, a limit or a
/// block.
pub proof fn ends_are_told_in_words(reason: StopReasonView)
    ensures
        match reason {
            StopReasonView::Completed => stop_text(reason) == "Macro completed"@,
            StopReasonView::StopSuccess => stop_text(reason) == "Stopped successfully"@,
            StopReasonView::StopError { message } => stop_text(reason) == "Stopped with error: "@
                + message,
            StopReasonView::UserStopped => stop_text(reason) == "User stopped"@,
            StopReasonView::EmergencyStopped => stop_text(reason) == "Emergency stop"@,
            StopReasonView::TechnicalFailure { message } => stop_text(reason)
                == "Technical failure: "@ + message,
            StopReasonView::SafetyLimit { message } => stop_text(reason) == "Safety limit: "@
                + message,
            StopReasonView::UnsupportedBlock { block_id } => stop_text(reason)
                == "Unsupported block: "@ + block_id,
        },
{
}

proof fn lemma_leading_zero(text: Seq<char>)
    ensures
        numeral_value("0"@ + text) == numeral_value(text),
    decreases text.len(),
{
    reveal_strlit("0");
    if text.len() == 0 {
        reveal_with_fuel(numeral_value, 2);
        assert(("0"@ + text).drop_last() =~= Seq::empty());
    } else {
        assert(("0"@ + text).drop_last() =~= "0"@ + text.drop_last());
        lemma_leading_zero(text.drop_last());
    }
}

proof fn lemma_padded(value: nat)
    ensures
        numeral_value(two_digits(value)) == value,
        two_digits(value).len() >= 2,
        value < 100 ==> two_digits(value).len() == 2,
        value < 1000 ==> numeral_value(three_digits(value)) == value && three_digits(value).len()
            == 3,
{
    reveal_strlit("0");
    reveal_with_fuel(decimal, 3);
    lemma_decimal_reads_back(value);
    lemma_leading_zero(decimal(value));
    lemma_leading_zero(two_digits(value));
    if value >= 10 {
        lemma_decimal_reads_back(value / 10);
    }
}

/// The time of a run is told in minutes, seconds and milliseconds, which together are that time; there
/// are less than sixty of the seconds, in two digits, and less than a thousand of the milliseconds,
/// in three.
pub proof fn times_are_told_in_full(elapsed_ms: u64)
    ensures
        exists|minutes: Seq<char>, seconds: Seq<char>, rest: Seq<char>|
            #![trigger numeral_value(minutes), numeral_value(seconds), numeral_value(rest)]
            elapsed_text(elapsed_ms) == minutes + ":"@ + seconds + "."@ + rest && numeral_value(
                minutes,
            ) * 60000 + numeral_value(seconds) * 1000 + numeral_value(rest) == elapsed_ms
                && minutes.len() >= 2 && seconds.len() == 2 && rest.len() == 3 && numeral_value(
                seconds,
            ) < 60,
{
    let minutes = (elapsed_ms / 1000 / 60) as nat;
    let seconds = (elapsed_ms / 1000 % 60) as nat;
    let rest = (elapsed_ms % 1000) as nat;
    lemma_padded(minutes);
    lemma_padded(seconds);
    lemma_padded(rest);
    assert(numeral_value(two_digits(minutes)) == minutes);
    assert(numeral_value(two_digits(seconds)) == seconds);
    assert(numeral_value(three_digits(rest)) == rest);
}

/// A wider page never has fewer panes: three from its full width on, three narrow ones from its
/// compact width on, and drawers below.
pub proof fn wider_pages_have_no_fewer_panes(a: F32Bits, b: F32Bits)
    requires
        a.0 <= b.0 <= 0x7F80_0000,
    ensures
        panes(a) is ThreePane ==> panes(b) is ThreePane,
        panes(a) is ThreePaneCompact ==> panes(b) !is CanvasWithDrawers,
        a.0 == 0 ==> panes(a) is CanvasWithDrawers,
        b.0 == 0x7F80_0000 ==> panes(b) is ThreePane,
        0x4489_8000 <= b.0 <==> panes(b) is ThreePane,
        0x4434_0000 <= b.0 < 0x4489_8000 <==> panes(b) is ThreePaneCompact,
{
}

/// A saved macro that is opened is the draft, as it was saved, with nothing to undo and nothing
/// selected; it is the selected macro, in its saved revision, in a session of its own.
pub proof fn opened_macro_is_the_draft(
    page: PageView,
    definition: MacroDefinitionView,
    saved: SavedView,
)
    ensures
        ({
            let after = saved_opened(page, definition, saved);
            &&& after.draft is Some && after.draft->0.definition == definition
            &&& after.draft->0.status is Ready && after.draft->0.editability is Editable
            &&& after.draft->0.undo.len() == 0 && after.draft->0.redo.len() == 0
            &&& after.draft->0.failures.len() == 0 && after.draft->0.invalidated == Set::<
                Seq<char>,
            >::empty()
            &&& after.selected_saved == Some(saved) && after.saved_revision == Some(saved.revision)
            &&& after.selected_block_id is None && after.selected_canvas is None
            &&& after.history.undo.len() == 0 && after.history.redo.len() == 0
            &&& after.active_editor_request is None
            &&& after.draft_session == Some(AuthoringSessionId(page.next_authoring_session_id))
            &&& page.next_authoring_session_id < u64::MAX ==> after.next_authoring_session_id
                > page.next_authoring_session_id
        }),
{
}

/// A conversion is done exactly where one waits for it and its values hold; it is then gone. Otherwise
/// it is refused and the work stays as it is.
pub proof fn confirmed_conversions_are_done(page: PageView)
    ensures
        ({
            let (after, answer) = conversion_confirmed(page);
            let sensible = page.pending_conversion is Some && page.draft is Some && may_confirm(
                page.draft->0,
                page.pending_conversion->0.command,
            );
            &&& !sensible ==> answer is Err && after.draft == page.draft
                && after.pending_conversion == page.pending_conversion
            &&& sensible ==> after.pending_conversion is None && answer == dispatched(
                PageView { pending_conversion: None, ..page },
                page.pending_conversion->0.command,
            ).1
        }),
{
}

/// What counts as selected is the block with the selected identity, or the lane where it is one, and
/// what is selected on the canvas where no identity is.
pub proof fn selection_is_the_block_or_the_lane(page: PageView)
    ensures
        page.selected_block_id is None ==> selection_of(page) == page.selected_canvas,
        page.selected_block_id is Some && page.draft is Some ==> selection_of(page) == Some(
            match lane_located(page.draft->0.definition.blocks, page.selected_block_id->0) {
                Some((group, _, _)) => SelectionView::Lane {
                    group_id: group,
                    lane_id: page.selected_block_id->0,
                },
                None => SelectionView::Block(page.selected_block_id->0),
            },
        ),
{
}

} // verus!
