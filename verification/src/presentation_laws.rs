//! What holds of how blocks are told: each by what it is.
use crate::macro_engine::{ActionView, ConditionView, HeadView, Limit, MouseButton};
use crate::presentation::{category, duration_text, limit_text, summary_text, title_text};
use crate::text::decimal;
use vstd::prelude::*;

verus! {

/// What observes is told as observing, what decides as deciding, what repeats as repeating, and all
/// else as acting.
pub proof fn blocks_are_told_by_their_kind(head: HeadView)
    ensures
        category(head) is Observe <==> head is Observe || head is WatchGroup,
        category(head) is Decide <==> head is If,
        category(head) is Repeat <==> head is RepeatN || head is RepeatUntil || head is Continuous,
        category(head) is Act <==> head is Action || head is Wait || head is StopSuccess
            || head is StopError || head is Comment,
{
}

/// An observation is told by what it looks for and how it waits: a text or an image that is checked,
/// waited for, or waited for until it is gone; its summary names the rule.
pub proof fn observations_are_told_by_what_they_look_for(condition: ConditionView, lanes: nat)
    ensures
        ({
            let head = HeadView::Observe { condition };
            let text = condition.family is Text;
            &&& condition.wait is CheckNow ==> title_text(head) == (if text {
                "Check text"@
            } else {
                "Check image"@
            }) && summary_text(head, lanes) == (if text {
                "Check"@ + " text | "@
            } else {
                "Check"@ + " image | "@
            }) + condition.rule
            &&& condition.wait is WaitForTrue ==> title_text(head) == (if text {
                "Wait for text"@
            } else {
                "Wait for image"@
            }) && summary_text(head, lanes) == (if text {
                "Wait for"@ + " text | "@
            } else {
                "Wait for"@ + " image | "@
            }) + condition.rule
            &&& condition.wait is WaitForFalse ==> title_text(head) == (if text {
                "Wait until text is absent"@
            } else {
                "Wait until image is absent"@
            }) && summary_text(head, lanes) == (if text {
                "Wait until absent"@ + " text | "@
            } else {
                "Wait until absent"@ + " image | "@
            }) + condition.rule
            &&& summary_text(HeadView::If { condition }, lanes) == summary_text(head, lanes)
        }),
{
}

/// A click is told by its button and by what it goes to: a match of a text or an image, or a point or
/// a region by its name.
pub proof fn clicks_are_told_by_where_they_go(
    source: Seq<char>,
    place: Seq<char>,
    button: MouseButton,
    lanes: nat,
)
    ensures
        ({
            let word = if button is Left {
                "Left"@
            } else {
                "Right"@
            };
            let on_text = HeadView::Action { action: ActionView::ClickTextMatch { source, button } };
            let on_image = HeadView::Action {
                action: ActionView::ClickImageMatch { source, button },
            };
            let on_point = HeadView::Action {
                action: ActionView::ClickPoint { point_id: place, button },
            };
            let on_region = HeadView::Action {
                action: ActionView::ClickRegion { region_id: place, button },
            };
            &&& title_text(on_text) == word + "-click text match"@
            &&& title_text(on_image) == word + "-click image match"@
            &&& title_text(on_point) == word + "-click point | "@ + place
            &&& title_text(on_region) == word + "-click region | "@ + place
            &&& summary_text(on_text, lanes) == title_text(on_text)
            &&& summary_text(on_image, lanes) == title_text(on_image)
            &&& summary_text(on_point, lanes) == title_text(on_point)
            &&& summary_text(on_region, lanes) == title_text(on_region)
        }),
{
}

/// The summary of any other block tells what is set on it: how often it repeats, how long it waits,
/// how many lanes it has, or what it says.
pub proof fn summaries_tell_the_settings(head: HeadView, lanes: nat)
    ensures
        match head {
            HeadView::RepeatN { count } => title_text(head) == "Repeat"@ && summary_text(head, lanes)
                == decimal(count as nat) + " iterations"@,
            HeadView::RepeatUntil { condition, max_iterations } => title_text(head)
                == "Repeat Until"@ && summary_text(head, lanes) == summary_text(
                HeadView::Observe { condition },
                lanes,
            ) + " | "@ + limit_text(max_iterations) + " iterations"@,
            HeadView::Continuous => title_text(head) == "Continuous Loop"@ && summary_text(
                head,
                lanes,
            ) == "Until stopped"@,
            HeadView::WatchGroup { timeout_ms, .. } => title_text(head) == "Watch Group"@
                && summary_text(head, lanes) == decimal(lanes) + " lanes | "@ + limit_text(
                timeout_ms,
            ) + " timeout"@,
            HeadView::Wait { duration_ms } => title_text(head) == "Wait"@ && summary_text(
                head,
                lanes,
            ) == duration_text(duration_ms),
            HeadView::StopError { message } => title_text(head) == "Stop Error"@ && summary_text(
                head,
                lanes,
            ) == message,
            HeadView::StopSuccess => title_text(head) == "Stop"@ && summary_text(head, lanes)
                == "Complete successfully"@,
            HeadView::Comment { text } => title_text(head) == "Note"@ && summary_text(head, lanes)
                == text,
            _ => true,
        },
{
}

/// A duration is told in seconds exactly where it is a whole number of them and not none, and in
/// milliseconds otherwise; a limit is told by its number.
pub proof fn numbers_are_told_as_they_are(duration_ms: u64, limit: Limit<u64>)
    ensures
        forall|seconds: u64|
            1 <= seconds && seconds * 1000 == duration_ms ==> duration_text(duration_ms)
                == #[trigger] decimal(seconds as nat) + " seconds"@,
        (forall|seconds: u64| 1 <= seconds ==> #[trigger] (seconds * 1000) != duration_ms)
            ==> duration_text(duration_ms) == decimal(duration_ms as nat) + " ms"@,
        limit is Unlimited ==> limit_text(limit) == "Unlimited"@,
        limit is Finite ==> limit_text(limit) == decimal(limit->Finite_0 as nat),
{
    if duration_ms >= 1000 && duration_ms % 1000 == 0 {
        let seconds = (duration_ms / 1000) as u64;
        assert(seconds * 1000 == duration_ms);
    }
}

} // verus!
