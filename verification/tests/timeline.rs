//! The timeline.
use macro_ui::macro_engine::{
    Block, BlockKind, Condition, Limit, ObserveMode, PassiveCondition, TimeoutOutcome,
    WatchGroup, WatchLane,
};
use macro_ui::timeline::{TimelineSelection, project_timeline};

fn fixture_watch_group_definition() -> Vec<Block> {
    let lane = |id: &str| WatchLane {
        id: id.to_string(),
        enabled: true,
        condition: PassiveCondition::Text {
            source_block_id: format!("observe-{id}"),
            rule_id: "text-rule".to_string(),
        },
        then_body: vec![Block {
            id: format!("comment-{id}"),
            enabled: true,
            kind: BlockKind::Comment {
                text: format!("Handle {id}"),
            },
        }],
    };
    vec![Block {
        id: "watch".to_string(),
        enabled: true,
        kind: BlockKind::WatchGroup {
            group: WatchGroup {
                lanes: vec![lane("salvage"), lane("retry"), lane("stop")],
                timeout_ms: Limit::Finite(5_000),
                timeout_outcome: TimeoutOutcome::Continue,
                cooldown_ms: 100,
            },
        },
    }]
}

#[test]
fn watch_group_rows_show_lane_order_as_priority() {
    let rows = project_timeline(&fixture_watch_group_definition());

    assert_eq!(
        rows.iter()
            .filter_map(|row| row.lane_priority)
            .collect::<Vec<_>>(),
        vec![1, 2, 3]
    );
}

#[test]
fn continuous_loop_projects_a_non_editable_return_marker() {
    let rows = project_timeline(&vec![Block {
        id: "loop".to_string(),
        enabled: true,
        kind: BlockKind::Continuous {
            body: vec![Block {
                id: "inside".to_string(),
                enabled: true,
                kind: BlockKind::Comment {
                    text: "Still watching".to_string(),
                },
            }],
        },
    }]);

    let marker = rows.last().expect("loop marker");
    assert_eq!(marker.summary, "Return to loop start");
    assert!(marker.is_loop_marker);
    assert!(!marker.is_selectable);
}

#[test]
fn condition_timeout_bodies_project_as_owned_selectable_rows() {
    let condition = |owner: &str, child: &str| Condition::Text {
        source_block_id: owner.into(),
        rule_id: "rule".into(),
        mode: ObserveMode::WaitForTrue {
            timeout_ms: Limit::Finite(100),
            timeout_outcome: TimeoutOutcome::RunBody {
                body: vec![Block {
                    id: child.into(),
                    enabled: true,
                    kind: BlockKind::Comment {
                        text: "fallback".into(),
                    },
                }],
            },
        },
    };
    let rows = project_timeline(&vec![
        Block {
            id: "observe".into(),
            enabled: true,
            kind: BlockKind::Observe {
                condition: condition("observe", "observe-timeout-child"),
            },
        },
        Block {
            id: "if".into(),
            enabled: true,
            kind: BlockKind::If {
                condition: condition("observe", "if-timeout-child"),
                then_body: vec![],
                else_body: vec![],
            },
        },
        Block {
            id: "repeat".into(),
            enabled: true,
            kind: BlockKind::RepeatUntil {
                condition: condition("observe", "repeat-timeout-child"),
                max_iterations: Limit::Finite(2),
                body: vec![],
            },
        },
    ]);

    for (owner, child) in [
        ("observe", "observe-timeout-child"),
        ("if", "if-timeout-child"),
        ("repeat", "repeat-timeout-child"),
    ] {
        let marker = rows
            .iter()
            .find(|row| {
                row.selection
                    == Some(TimelineSelection::TimeoutBody {
                        owner_id: owner.into(),
                    })
            })
            .unwrap();
        assert_eq!(marker.label, "ON TIMEOUT");
        assert!(marker.is_selectable);
        let child = rows
            .iter()
            .find(|row| row.identity.as_deref() == Some(child))
            .unwrap();
        assert!(child.is_selectable);
        assert!(child.depth > marker.depth);
    }
}

#[test]
fn typed_timeout_marker_does_not_collide_with_real_suffix_identity() {
    let rows = project_timeline(&vec![
        Block {
            id: "owner".into(),
            enabled: true,
            kind: BlockKind::Observe {
                condition: Condition::Text {
                    source_block_id: "owner".into(),
                    rule_id: "rule".into(),
                    mode: ObserveMode::WaitForTrue {
                        timeout_ms: Limit::Finite(100),
                        timeout_outcome: TimeoutOutcome::RunBody { body: vec![] },
                    },
                },
            },
        },
        Block {
            id: "owner-timeout".into(),
            enabled: true,
            kind: BlockKind::Comment {
                text: "real block".into(),
            },
        },
    ]);
    assert!(rows.iter().any(|row| {
        row.selection == Some(TimelineSelection::Identity("owner-timeout".into()))
    }));
    assert!(rows.iter().any(|row| {
        row.selection
            == Some(TimelineSelection::TimeoutBody {
                owner_id: "owner".into(),
            })
    }));
}
