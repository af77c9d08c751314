//! Copies and equality of blocks by their contents.
use crate::content::{Content, Exact};
use crate::macro_engine::{Action, ActionTarget, PassiveCondition};
use vstd::prelude::*;

verus! {

impl Clone for ActionTarget {
    fn clone(&self) -> (copy: Self)
        ensures
            copy == *self,
    {
        match self {
            ActionTarget::TextMatch { source_block_id } => ActionTarget::TextMatch {
                source_block_id: source_block_id.clone(),
            },
            ActionTarget::ImageMatch { source_block_id } => ActionTarget::ImageMatch {
                source_block_id: source_block_id.clone(),
            },
            ActionTarget::Point { point_id } => ActionTarget::Point { point_id: point_id.clone() },
            ActionTarget::Region { region_id } => ActionTarget::Region {
                region_id: region_id.clone(),
            },
        }
    }
}

impl Exact for ActionTarget {
    fn same(&self, other: &Self) -> (equal: bool) {
        match (self, other) {
            (
                ActionTarget::TextMatch { source_block_id: left },
                ActionTarget::TextMatch { source_block_id: right },
            ) => *left == *right,
            (
                ActionTarget::ImageMatch { source_block_id: left },
                ActionTarget::ImageMatch { source_block_id: right },
            ) => *left == *right,
            (
                ActionTarget::Point { point_id: left },
                ActionTarget::Point { point_id: right },
            ) => *left == *right,
            (
                ActionTarget::Region { region_id: left },
                ActionTarget::Region { region_id: right },
            ) => *left == *right,
            _ => false,
        }
    }
}

impl Content for ActionTarget {
    fn duplicate(&self) -> (copy: Self) {
        self.clone()
    }
}

impl Clone for Action {
    fn clone(&self) -> (copy: Self)
        ensures
            copy == *self,
    {
        match self {
            Action::ClickTextMatch { source_block_id, button } => Action::ClickTextMatch {
                source_block_id: source_block_id.clone(),
                button: *button,
            },
            Action::ClickImageMatch { source_block_id, button } => Action::ClickImageMatch {
                source_block_id: source_block_id.clone(),
                button: *button,
            },
            Action::ClickPoint { point_id, button } => Action::ClickPoint {
                point_id: point_id.clone(),
                button: *button,
            },
            Action::ClickRegion { region_id, button } => Action::ClickRegion {
                region_id: region_id.clone(),
                button: *button,
            },
            Action::MoveOnly { target } => Action::MoveOnly { target: target.clone() },
        }
    }
}

impl Exact for Action {
    fn same(&self, other: &Self) -> (equal: bool) {
        match (self, other) {
            (
                Action::ClickTextMatch { source_block_id: left, button: left_button },
                Action::ClickTextMatch { source_block_id: right, button: right_button },
            ) => *left == *right && *left_button == *right_button,
            (
                Action::ClickImageMatch { source_block_id: left, button: left_button },
                Action::ClickImageMatch { source_block_id: right, button: right_button },
            ) => *left == *right && *left_button == *right_button,
            (
                Action::ClickPoint { point_id: left, button: left_button },
                Action::ClickPoint { point_id: right, button: right_button },
            ) => *left == *right && *left_button == *right_button,
            (
                Action::ClickRegion { region_id: left, button: left_button },
                Action::ClickRegion { region_id: right, button: right_button },
            ) => *left == *right && *left_button == *right_button,
            (Action::MoveOnly { target: left }, Action::MoveOnly { target: right }) => left.same(
                right,
            ),
            _ => false,
        }
    }
}

impl Content for Action {
    fn duplicate(&self) -> (copy: Self) {
        self.clone()
    }
}

impl Clone for PassiveCondition {
    fn clone(&self) -> (copy: Self)
        ensures
            copy == *self,
    {
        match self {
            PassiveCondition::Text { source_block_id, rule_id } => PassiveCondition::Text {
                source_block_id: source_block_id.clone(),
                rule_id: rule_id.clone(),
            },
            PassiveCondition::Image { source_block_id, rule_id } => PassiveCondition::Image {
                source_block_id: source_block_id.clone(),
                rule_id: rule_id.clone(),
            },
        }
    }
}

impl Exact for PassiveCondition {
    fn same(&self, other: &Self) -> (equal: bool) {
        match (self, other) {
            (
                PassiveCondition::Text { source_block_id: left, rule_id: left_rule },
                PassiveCondition::Text { source_block_id: right, rule_id: right_rule },
            ) => *left == *right && *left_rule == *right_rule,
            (
                PassiveCondition::Image { source_block_id: left, rule_id: left_rule },
                PassiveCondition::Image { source_block_id: right, rule_id: right_rule },
            ) => *left == *right && *left_rule == *right_rule,
            _ => false,
        }
    }
}

impl Content for PassiveCondition {
    fn duplicate(&self) -> (copy: Self) {
        self.clone()
    }
}

} // verus!
