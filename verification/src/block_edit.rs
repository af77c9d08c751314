//! Edits of a single block.
use crate::command_view::{ConversionTargetView, ModeView};
use crate::editor_types::{
    BlockFamily, ConversionPreview, ConversionPreviewView, ConversionTarget, EditorError,
};
use crate::macro_engine::{
    blocks_view, condition_bodies, condition_view, kind_bodies, lanes_view, mode_bodies,
    outcome_bodies, wait_view, Action, ActionView, Block, BlockKind, BlockView, BodyView, Condition,
    ConditionView, DetectorFamily, HeadView, ObserveMode,
};
use vstd::prelude::*;

verus! {

broadcast use crate::macro_engine::group_block_views;

/// The condition that a block observes itself.
pub open spec fn head_condition(head: HeadView) -> Option<ConditionView> {
    match head {
        HeadView::Observe { condition } => Some(condition),
        HeadView::If { condition } => Some(condition),
        HeadView::RepeatUntil { condition, .. } => Some(condition),
        _ => None,
    }
}

/// What a block is, observing another condition.
pub open spec fn with_condition(head: HeadView, condition: ConditionView) -> HeadView {
    match head {
        HeadView::Observe { .. } => HeadView::Observe { condition },
        HeadView::If { .. } => HeadView::If { condition },
        HeadView::RepeatUntil { max_iterations, .. } => HeadView::RepeatUntil {
            condition,
            max_iterations,
        },
        _ => head,
    }
}

/// The bodies that a block owns apart from its condition's timeout body.
pub open spec fn plain_bodies(block: BlockView) -> Seq<BodyView> {
    match block.head {
        HeadView::Observe { .. } => Seq::empty(),
        HeadView::If { .. } => block.bodies.take(2),
        HeadView::RepeatUntil { .. } => block.bodies.take(1),
        _ => block.bodies,
    }
}

/// A block whose condition waits in another way, which brings its own timeout body.
pub open spec fn with_mode(block: BlockView, mode: ModeView) -> BlockView {
    BlockView {
        head: with_condition(
            block.head,
            ConditionView { wait: mode.wait, ..head_condition(block.head)->0 },
        ),
        bodies: plain_bodies(block) + mode.bodies,
        ..block
    }
}

/// A block converted to a target within its family; nothing outside it.
pub open spec fn converted(block: BlockView, target: ConversionTargetView) -> Option<BlockView> {
    match target {
        ConversionTargetView::TextObservation { mode } => match block.head {
            HeadView::Observe { condition } if condition.family is Text => Some(
                with_mode(block, mode),
            ),
            _ => None,
        },
        ConversionTargetView::ImageObservation { mode } => match block.head {
            HeadView::Observe { condition } if condition.family is Image => Some(
                with_mode(block, mode),
            ),
            _ => None,
        },
        ConversionTargetView::ClickTextMatch { button } => match block.head {
            HeadView::Action { action: ActionView::ClickTextMatch { source, .. } } => Some(
                BlockView {
                    head: HeadView::Action { action: ActionView::ClickTextMatch { source, button } },
                    ..block
                },
            ),
            _ => None,
        },
        ConversionTargetView::ClickImageMatch { button } => match block.head {
            HeadView::Action { action: ActionView::ClickImageMatch { source, .. } } => Some(
                BlockView {
                    head: HeadView::Action { action: ActionView::ClickImageMatch { source, button } },
                    ..block
                },
            ),
            _ => None,
        },
        ConversionTargetView::ClickPoint { point_id, button } => if saved_location(block.head) {
            Some(
                BlockView {
                    head: HeadView::Action {
                        action: ActionView::ClickPoint { point_id, button },
                    },
                    ..block
                },
            )
        } else {
            None
        },
        ConversionTargetView::ClickRegion { region_id, button } => if saved_location(block.head) {
            Some(
                BlockView {
                    head: HeadView::Action {
                        action: ActionView::ClickRegion { region_id, button },
                    },
                    ..block
                },
            )
        } else {
            None
        },
        ConversionTargetView::RepeatUntil { condition, max_iterations } => if block.head is RepeatN {
            Some(
                BlockView {
                    head: HeadView::RepeatUntil {
                        condition: condition.condition,
                        max_iterations,
                    },
                    bodies: block.bodies + condition.bodies,
                    ..block
                },
            )
        } else {
            None
        },
        ConversionTargetView::RepeatN { count } => if block.head is RepeatUntil {
            Some(
                BlockView {
                    head: HeadView::RepeatN { count },
                    bodies: block.bodies.take(1),
                    ..block
                },
            )
        } else {
            None
        },
    }
}

/// The block clicks a saved point or region.
pub open spec fn saved_location(head: HeadView) -> bool {
    match head {
        HeadView::Action { action: ActionView::ClickPoint { .. } } => true,
        HeadView::Action { action: ActionView::ClickRegion { .. } } => true,
        _ => false,
    }
}

fn set_condition_mode(condition: &mut Condition, mode: ObserveMode)
    ensures
        condition_view(*final(condition)) == (ConditionView {
            wait: wait_view(mode),
            ..condition_view(*old(condition))
        }),
        condition_bodies(*final(condition)) == mode_bodies(mode),
{
    match condition {
        Condition::Text { mode: current, .. } => {
            *current = mode;
        },
        Condition::Image { mode: current, .. } => {
            *current = mode;
        },
    }
}

/// Moves the blocks out of a list.
pub fn take_blocks(list: &mut Vec<Block>) -> (taken: Vec<Block>)
    ensures
        taken@ == old(list)@,
        final(list)@ == Seq::<Block>::empty(),
{
    let mut taken: Vec<Block> = Vec::new();
    std::mem::swap(&mut taken, list);
    taken
}

/// Makes a block's condition wait in another way.
pub fn set_mode(block: &mut Block, mode: ObserveMode) -> (result: Result<(), EditorError>)
    ensures
        match result {
            Ok(()) => head_condition(old(block)@.head) is Some && final(block)@ == with_mode(old(block)@, mode@),
            Err(error) => head_condition(old(block)@.head) is None && error
                == EditorError::IncompatibleConversion && *final(block) == *old(block),
        },
{
    let ghost before = *block;
    match &mut block.kind {
        BlockKind::Observe { condition } => {
            set_condition_mode(condition, mode);
        },
        BlockKind::If { condition, .. } => {
            set_condition_mode(condition, mode);
        },
        BlockKind::RepeatUntil { condition, .. } => {
            set_condition_mode(condition, mode);
        },
        _ => return Err(EditorError::IncompatibleConversion),
    }
    proof {
        assert(before@.bodies == kind_bodies(before.kind));
        assert(block@.bodies == kind_bodies(block.kind));
        assert(block@.bodies =~= plain_bodies(before@) + mode_bodies(mode));
        assert(block@ =~= with_mode(before@, mode@));
    }
    Ok(())
}

/// Converts a block within its family.
pub fn convert_block(block: &mut Block, target: ConversionTarget) -> (result: Result<
    (),
    EditorError,
>)
    ensures
        match result {
            Ok(()) => converted(old(block)@, target@) == Some(final(block)@),
            Err(error) => converted(old(block)@, target@) is None && error
                == EditorError::IncompatibleConversion && *final(block) == *old(block),
        },
{
    let ghost before = *block;
    proof {
        assert(before@.bodies == kind_bodies(before.kind));
    }
    match target {
        ConversionTarget::TextObservation { mode } => {
            match &block.kind {
                BlockKind::Observe { condition: Condition::Text { .. } } => set_mode(block, mode),
                _ => Err(EditorError::IncompatibleConversion),
            }
        },
        ConversionTarget::ImageObservation { mode } => {
            match &block.kind {
                BlockKind::Observe { condition: Condition::Image { .. } } => set_mode(block, mode),
                _ => Err(EditorError::IncompatibleConversion),
            }
        },
        ConversionTarget::ClickTextMatch { button } => {
            match &mut block.kind {
                BlockKind::Action { action: Action::ClickTextMatch { button: current, .. } } => {
                    *current = button;
                },
                _ => return Err(EditorError::IncompatibleConversion),
            }
            assert(converted(before@, target@)->0 =~= block@);
            Ok(())
        },
        ConversionTarget::ClickImageMatch { button } => {
            match &mut block.kind {
                BlockKind::Action { action: Action::ClickImageMatch { button: current, .. } } => {
                    *current = button;
                },
                _ => return Err(EditorError::IncompatibleConversion),
            }
            assert(converted(before@, target@)->0 =~= block@);
            Ok(())
        },
        ConversionTarget::ClickPoint { point_id, button } => {
            match &block.kind {
                BlockKind::Action { action: Action::ClickPoint { .. } } => {},
                BlockKind::Action { action: Action::ClickRegion { .. } } => {},
                _ => return Err(EditorError::IncompatibleConversion),
            }
            block.kind = BlockKind::Action { action: Action::ClickPoint { point_id, button } };
            assert(converted(before@, target@)->0 =~= block@);
            Ok(())
        },
        ConversionTarget::ClickRegion { region_id, button } => {
            match &block.kind {
                BlockKind::Action { action: Action::ClickPoint { .. } } => {},
                BlockKind::Action { action: Action::ClickRegion { .. } } => {},
                _ => return Err(EditorError::IncompatibleConversion),
            }
            block.kind = BlockKind::Action { action: Action::ClickRegion { region_id, button } };
            assert(converted(before@, target@)->0 =~= block@);
            Ok(())
        },
        ConversionTarget::RepeatUntil { condition, max_iterations } => {
            let body = match &mut block.kind {
                BlockKind::RepeatN { body, .. } => take_blocks(body),
                _ => return Err(EditorError::IncompatibleConversion),
            };
            block.kind = BlockKind::RepeatUntil { condition, max_iterations, body };
            proof {
                assert(block@.bodies == kind_bodies(block.kind));
                assert(converted(before@, target@)->0 =~= block@);
            }
            Ok(())
        },
        ConversionTarget::RepeatN { count } => {
            let body = match &mut block.kind {
                BlockKind::RepeatUntil { body, .. } => take_blocks(body),
                _ => return Err(EditorError::IncompatibleConversion),
            };
            block.kind = BlockKind::RepeatN { count, body };
            proof {
                assert(block@.bodies == kind_bodies(block.kind));
                assert(block@.bodies =~= before@.bodies.take(1));
                assert(converted(before@, target@)->0 =~= block@);
            }
            Ok(())
        },
    }
}

/// The family that a block belongs to.
pub open spec fn family(head: HeadView) -> BlockFamily {
    match head {
        HeadView::Observe { condition } => match condition.family {
            DetectorFamily::Text => BlockFamily::TextObservation,
            DetectorFamily::Image => BlockFamily::ImageObservation,
        },
        HeadView::Action { action } => match action {
            ActionView::ClickTextMatch { .. } => BlockFamily::TextMatchedClick,
            ActionView::ClickImageMatch { .. } => BlockFamily::ImageMatchedClick,
            ActionView::ClickPoint { .. } => BlockFamily::SavedLocationClick,
            ActionView::ClickRegion { .. } => BlockFamily::SavedLocationClick,
            ActionView::MoveOnly { .. } => BlockFamily::Other,
        },
        HeadView::RepeatN { .. } => BlockFamily::Loop,
        HeadView::RepeatUntil { .. } => BlockFamily::Loop,
        _ => BlockFamily::Other,
    }
}

/// The family that a block belongs to.
pub fn block_family(block: &Block) -> (result: BlockFamily)
    ensures
        result == family(block@.head),
{
    match &block.kind {
        BlockKind::Observe { condition: Condition::Text { .. } } => BlockFamily::TextObservation,
        BlockKind::Observe { condition: Condition::Image { .. } } => BlockFamily::ImageObservation,
        BlockKind::Action { action: Action::ClickTextMatch { .. } } => {
            BlockFamily::TextMatchedClick
        },
        BlockKind::Action { action: Action::ClickImageMatch { .. } } => {
            BlockFamily::ImageMatchedClick
        },
        BlockKind::Action { action: Action::ClickPoint { .. } } => BlockFamily::SavedLocationClick,
        BlockKind::Action { action: Action::ClickRegion { .. } } => BlockFamily::SavedLocationClick,
        BlockKind::RepeatN { .. } | BlockKind::RepeatUntil { .. } => BlockFamily::Loop,
        _ => BlockFamily::Other,
    }
}

/// What a conversion within a family keeps, needs and drops; what one out of it says.
pub open spec fn conversion_preview(from: BlockFamily, to: BlockFamily) -> ConversionPreviewView {
    if from != to {
        ConversionPreviewView::ReplaceRequired {
            from,
            to,
            reason:
                "Unrelated block families require Replace Block so removed settings are explicit."@,
        }
    } else {
        match from {
            BlockFamily::TextObservation | BlockFamily::ImageObservation => {
                ConversionPreviewView::Compatible {
                    preserved_fields: seq!["source"@, "rule"@, "timeout policy"@],
                    required_fields: seq![],
                    removed_fields: seq!["incompatible wait mode fields"@],
                }
            },
            BlockFamily::TextMatchedClick | BlockFamily::ImageMatchedClick => {
                ConversionPreviewView::Compatible {
                    preserved_fields: seq!["matched source"@],
                    required_fields: seq![],
                    removed_fields: seq!["mouse button"@],
                }
            },
            BlockFamily::SavedLocationClick => ConversionPreviewView::Compatible {
                preserved_fields: seq!["mouse button"@],
                required_fields: seq!["saved point or region"@],
                removed_fields: seq!["previous saved target"@],
            },
            BlockFamily::Loop => ConversionPreviewView::Compatible {
                preserved_fields: seq!["complete child body"@],
                required_fields: seq!["count or until condition"@],
                removed_fields: seq!["previous loop limit"@],
            },
            BlockFamily::Other => ConversionPreviewView::Compatible {
                preserved_fields: seq![],
                required_fields: seq![],
                removed_fields: seq![],
            },
        }
    }
}

/// Says what converting a block to a family would keep, need and drop.
pub fn preview_conversion(block: &Block, target: BlockFamily) -> (preview: ConversionPreview)
    ensures
        preview@ == conversion_preview(family(block@.head), target),
{
    let from = block_family(block);
    if from != target {
        return ConversionPreview::ReplaceRequired {
            from,
            to: target,
            reason:
                "Unrelated block families require Replace Block so removed settings are explicit.",
        };
    }
    let mut preserved_fields: Vec<&'static str> = Vec::new();
    let mut required_fields: Vec<&'static str> = Vec::new();
    let mut removed_fields: Vec<&'static str> = Vec::new();
    match from {
        BlockFamily::TextObservation | BlockFamily::ImageObservation => {
            preserved_fields.push("source");
            preserved_fields.push("rule");
            preserved_fields.push("timeout policy");
            removed_fields.push("incompatible wait mode fields");
        },
        BlockFamily::TextMatchedClick | BlockFamily::ImageMatchedClick => {
            preserved_fields.push("matched source");
            removed_fields.push("mouse button");
        },
        BlockFamily::SavedLocationClick => {
            preserved_fields.push("mouse button");
            required_fields.push("saved point or region");
            removed_fields.push("previous saved target");
        },
        BlockFamily::Loop => {
            preserved_fields.push("complete child body");
            required_fields.push("count or until condition");
            removed_fields.push("previous loop limit");
        },
        BlockFamily::Other => {},
    }
    let preview = ConversionPreview::Compatible {
        preserved_fields,
        required_fields,
        removed_fields,
    };
    assert(preview@ =~~= conversion_preview(family(block@.head), target));
    preview
}

/// The blocks of a list of lanes, one lane after the other.
pub open spec fn lane_contents(bodies: Seq<BodyView>) -> Seq<BlockView>
    decreases bodies.len(),
{
    if bodies.len() == 0 {
        Seq::empty()
    } else if bodies.last().role is Lane {
        lane_contents(bodies.drop_last()) + bodies.last().blocks
    } else {
        lane_contents(bodies.drop_last())
    }
}

/// The blocks that a block keeps for its place when it is replaced: both branches, the loop body,
/// or the lanes in turn. A timeout body is not among them.
pub open spec fn kept_contents(block: BlockView) -> Seq<BlockView> {
    match block.head {
        HeadView::If { .. } => block.bodies[0].blocks + block.bodies[1].blocks,
        HeadView::RepeatN { .. } => block.bodies[0].blocks,
        HeadView::RepeatUntil { .. } => block.bodies[0].blocks,
        HeadView::Continuous => block.bodies[0].blocks,
        HeadView::WatchGroup { .. } => lane_contents(block.bodies),
        _ => Seq::empty(),
    }
}

/// Takes a block apart into the blocks it keeps for its place.
pub fn owned_contents(block: Block) -> (blocks: Vec<Block>)
    ensures
        blocks_view(blocks@) == kept_contents(block@),
{
    let ghost view = block@;
    assert(view.bodies == kind_bodies(block.kind));
    match block.kind {
        BlockKind::If { then_body, else_body, .. } => {
            let mut blocks = then_body;
            let mut rest = else_body;
            let ghost first = blocks@;
            let ghost second = rest@;
            blocks.append(&mut rest);
            assert(blocks_view(blocks@) =~= blocks_view(first) + blocks_view(second));
            blocks
        },
        BlockKind::RepeatN { body, .. } => body,
        BlockKind::RepeatUntil { body, .. } => body,
        BlockKind::Continuous { body } => body,
        BlockKind::WatchGroup { group } => {
            let ghost lanes = lanes_view(group.lanes@);
            let ghost rest = outcome_bodies(group.timeout_outcome);
            let mut group = group;
            let mut blocks: Vec<Block> = Vec::new();
            let mut i: usize = 0;
            let ghost count = group.lanes@.len();
            assert(blocks_view(blocks@) =~= lane_contents(lanes.take(0)));
            while i < group.lanes.len()
                invariant
                    i <= group.lanes@.len(),
                    group.lanes@.len() == count,
                    lanes.len() == count,
                    forall|j: int|
                        i <= j < count ==> crate::macro_engine::lane_view(
                            #[trigger] group.lanes@[j],
                        ) == lanes[j],
                    forall|j: int| 0 <= j < count ==> (#[trigger] lanes[j]).role is Lane,
                    blocks_view(blocks@) == lane_contents(lanes.take(i as int)),
                decreases group.lanes@.len() - i,
            {
                let ghost before = group.lanes@;
                let mut body = take_blocks(&mut group.lanes[i].then_body);
                let ghost first = blocks@;
                let ghost second = body@;
                blocks.append(&mut body);
                proof {
                    assert(blocks_view(blocks@) =~= blocks_view(first) + blocks_view(second));
                    assert(lanes.take(i + 1).drop_last() =~= lanes.take(i as int));
                    assert(lanes.take(i + 1).last() == lanes[i as int]);
                    assert(crate::macro_engine::lane_view(before[i as int]) == lanes[i as int]);
                }
                i += 1;
            }
            proof {
                assert(lanes.take(i as int) =~= lanes);
                lemma_lane_contents_timeout(lanes, rest);
            }
            blocks
        },
        _ => Vec::new(),
    }
}

proof fn lemma_lane_contents_timeout(lanes: Seq<BodyView>, rest: Seq<BodyView>)
    requires
        forall|j: int| 0 <= j < rest.len() ==> !((#[trigger] rest[j]).role is Lane),
    ensures
        lane_contents(lanes + rest) == lane_contents(lanes),
    decreases rest.len(),
{
    if rest.len() == 0 {
        assert(lanes + rest =~= lanes);
    } else {
        assert((lanes + rest).drop_last() =~= lanes + rest.drop_last());
        assert(!(rest[rest.len() - 1].role is Lane));
        assert forall|j: int| 0 <= j < rest.drop_last().len() implies !((
        #[trigger] rest.drop_last()[j]).role is Lane) by {
            assert(rest.drop_last()[j] == rest[j]);
        }
        lemma_lane_contents_timeout(lanes, rest.drop_last());
    }
}

} // verus!
