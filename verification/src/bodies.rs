//! The bodies that a block owns, each with the part it plays.
use crate::container::{ContainerPath, ContainerView};
use crate::content::views;
use crate::macro_engine::{
    blocks_view, condition_bodies, kind_bodies, lane_view, lanes_view, outcome_bodies, Block,
    BlockKind, BodyView, Condition, RoleView, WatchLane,
};
use crate::tree::{condition_timeout_body, timeout_body};
use vstd::prelude::*;

verus! {

broadcast use crate::macro_engine::group_block_views;

/// The part that a body plays for the block that owns it.
pub enum Role<'a> {
    Then,
    Else,
    Loop,
    Lane(&'a WatchLane),
    Timeout,
}

/// A body that a block owns.
pub struct Body<'a> {
    pub role: Role<'a>,
    pub blocks: &'a Vec<Block>,
}

pub open spec fn role_view(role: Role) -> RoleView {
    match role {
        Role::Then => RoleView::Then,
        Role::Else => RoleView::Else,
        Role::Loop => RoleView::Loop,
        Role::Lane(lane) => lane_view(*lane).role,
        Role::Timeout => RoleView::Timeout,
    }
}

impl<'a> View for Body<'a> {
    type V = BodyView;

    open spec fn view(&self) -> BodyView {
        BodyView { role: role_view(self.role), blocks: blocks_view(self.blocks@) }
    }
}

fn push_condition_body<'a>(condition: &'a Condition, bodies: &mut Vec<Body<'a>>)
    ensures
        views(final(bodies)@) == views(old(bodies)@) + condition_bodies(*condition),
{
    let ghost before = views(bodies@);
    if let Some(blocks) = condition_timeout_body(condition) {
        bodies.push(Body { role: Role::Timeout, blocks });
    }
    assert(views(bodies@) =~= before + condition_bodies(*condition));
}

/// The bodies that a block owns, in the order of the walk.
pub fn owned_bodies<'a>(block: &'a Block) -> (bodies: Vec<Body<'a>>)
    ensures
        views(bodies@) == block@.bodies,
{
    let mut bodies: Vec<Body<'a>> = Vec::new();
    assert(block@.bodies == kind_bodies(block.kind));
    match &block.kind {
        BlockKind::If { condition, then_body, else_body } => {
            bodies.push(Body { role: Role::Then, blocks: then_body });
            bodies.push(Body { role: Role::Else, blocks: else_body });
            push_condition_body(condition, &mut bodies);
        },
        BlockKind::RepeatN { body, .. } => {
            bodies.push(Body { role: Role::Loop, blocks: body });
        },
        BlockKind::Continuous { body } => {
            bodies.push(Body { role: Role::Loop, blocks: body });
        },
        BlockKind::RepeatUntil { condition, body, .. } => {
            bodies.push(Body { role: Role::Loop, blocks: body });
            push_condition_body(condition, &mut bodies);
        },
        BlockKind::Observe { condition } => {
            push_condition_body(condition, &mut bodies);
        },
        BlockKind::WatchGroup { group } => {
            let mut i: usize = 0;
            assert(views(bodies@) =~= lanes_view(group.lanes@).take(0));
            while i < group.lanes.len()
                invariant
                    i <= group.lanes@.len(),
                    views(bodies@) == lanes_view(group.lanes@).take(i as int),
                decreases group.lanes@.len() - i,
            {
                let lane = &group.lanes[i];
                let ghost before = views(bodies@);
                bodies.push(Body { role: Role::Lane(lane), blocks: &lane.then_body });
                i += 1;
                proof {
                    assert(views(bodies@) =~= before.push(lane_view(*lane)));
                    assert(views(bodies@) =~= lanes_view(group.lanes@).take(i as int));
                }
            }
            assert(views(bodies@) =~= lanes_view(group.lanes@));
            if let Some(blocks) = timeout_body(&group.timeout_outcome) {
                bodies.push(Body { role: Role::Timeout, blocks });
            }
            assert(views(bodies@) =~= lanes_view(group.lanes@) + outcome_bodies(
                group.timeout_outcome,
            ));
        },
        _ => {},
    }
    assert(views(bodies@) =~= kind_bodies(block.kind));
    bodies
}

/// The name of the container that a body is.
pub open spec fn body_container(owner: Seq<char>, role: RoleView) -> ContainerView {
    match role {
        RoleView::Then => ContainerView::IfThen { if_id: owner },
        RoleView::Else => ContainerView::IfElse { if_id: owner },
        RoleView::Loop => ContainerView::LoopBody { loop_id: owner },
        RoleView::Lane { id, .. } => ContainerView::WatchLaneBody { watch_id: owner, lane_id: id },
        RoleView::Timeout => ContainerView::TimeoutBody { owner_id: owner },
    }
}

pub fn body_path(owner: &String, role: &Role) -> (path: ContainerPath)
    ensures
        path@ == body_container(owner@, role_view(*role)),
{
    match role {
        Role::Then => ContainerPath::IfThen { if_id: owner.clone() },
        Role::Else => ContainerPath::IfElse { if_id: owner.clone() },
        Role::Loop => ContainerPath::LoopBody { loop_id: owner.clone() },
        Role::Lane(lane) => ContainerPath::WatchLaneBody {
            watch_id: owner.clone(),
            lane_id: lane.id.clone(),
        },
        Role::Timeout => ContainerPath::TimeoutBody { owner_id: owner.clone() },
    }
}

} // verus!
