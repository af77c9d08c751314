//! The monitor of a run.
use macro_ui::macro_engine::{
    Action, Block, BlockKind, Condition, F64Bits, FocusLossPolicy, Limit, MACRO_SCHEMA_VERSION,
    MacroDefinition, MouseButton, ObserveMode, SafetyPolicy, TargetProfile, TimeoutOutcome,
};
use macro_ui::monitor::{
    ContextPath, MonitorProjection, RunDefinitionSnapshot, StopClassification, StopOutcome,
    action_state, classify_stop, find_block_context, project_last_completion,
    project_last_completion_with_controller_projections, project_monitor,
    project_monitor_with_controller_projections,
};
use macro_ui::run_events::{
    ActionAttemptId, ActionState, ControllerLifecycleProjection, ControllerSemanticProjection,
    DetectorEvidence, RunEvent, RunMode, RunStatus, SavedRevision, StopReason,
};

fn double(value: f64) -> F64Bits {
    F64Bits(value.to_bits())
}

fn attempt(run_id: &str, ordinal: u64) -> ActionAttemptId {
    ActionAttemptId { run_id: run_id.to_string(), ordinal }
}

fn details(entries: &[(&str, serde_json::Value)]) -> serde_json::Value {
    let mut object = serde_json::Map::new();
    for (name, value) in entries {
        object.insert(name.to_string(), value.clone());
    }
    serde_json::Value::Object(object)
}

fn definition(id: &str, revision: u64, blocks: Vec<Block>) -> MacroDefinition {
    MacroDefinition {
        schema_version: MACRO_SCHEMA_VERSION,
        id: id.to_string(),
        name: id.to_string(),
        revision,
        target: TargetProfile {
            process_path: "Diablo IV.exe".to_string(),
            window_class: "Diablo IV Main Window".to_string(),
            title_contains: "Diablo IV".to_string(),
            captured_client_width: 1920,
            captured_client_height: 1080,
            captured_dpi: 96,
        },
        regions: Vec::new(),
        points: Vec::new(),
        text_rules: Vec::new(),
        image_rules: Vec::new(),
        blocks,
        safety: SafetyPolicy {
            max_runtime_ms: Limit::Unlimited,
            max_clicks: Limit::Unlimited,
            max_observation_retries: Limit::Unlimited,
            max_observations_per_second: 10,
            minimum_click_interval_ms: 100,
            focus_loss: FocusLossPolicy::Stop,
        },
    }
}

fn started(sequence: u64, run_id: &str, macro_id: &str, revision: u64, hash: &str) -> RunEvent {
    RunEvent::RunStarted {
        sequence,
        elapsed_ms: 0,
        run_id: run_id.to_string(),
        macro_id: macro_id.to_string(),
        revision,
        definition_hash: hash.to_string(),
        mode: RunMode::DryRun,
    }
}

fn entered(sequence: u64, run_id: &str, block_id: &str) -> RunEvent {
    RunEvent::BlockEntered {
        sequence,
        elapsed_ms: sequence * 10,
        run_id: run_id.to_string(),
        block_id: block_id.to_string(),
    }
}

fn yielded(sequence: u64, run_id: &str, block_id: &str, count: u64) -> RunEvent {
    RunEvent::LoopYielded {
        sequence,
        elapsed_ms: sequence * 10,
        run_id: run_id.to_string(),
        block_id: block_id.to_string(),
        completed_iterations: count,
    }
}

fn comment(id: &str) -> Block {
    Block {
        id: id.to_string(),
        enabled: true,
        kind: BlockKind::Comment {
            text: id.to_string(),
        },
    }
}

fn continuous(id: &str, body: Vec<Block>) -> Block {
    Block {
        id: id.to_string(),
        enabled: true,
        kind: BlockKind::Continuous { body },
    }
}

fn repeat_n(id: &str, count: u32, body: Vec<Block>) -> Block {
    Block {
        id: id.to_string(),
        enabled: true,
        kind: BlockKind::RepeatN { count, body },
    }
}

fn snapshot(run_id: &str, hash: &str, definition: MacroDefinition) -> RunDefinitionSnapshot {
    RunDefinitionSnapshot::from_saved(
        run_id,
        SavedRevision {
            definition,
            definition_hash: hash.to_string(),
            pinned_assets: Vec::new(),
        },
    )
}

#[test]
fn monitor_projects_revision_observation_action_and_stop_details() {
    let events = vec![
        RunEvent::RunStarted {
            sequence: 1,
            elapsed_ms: 0,
            run_id: "run-1".to_string(),
            macro_id: "forge-loop".to_string(),
            revision: 7,
            definition_hash: "hash".to_string(),
            mode: RunMode::DryRun,
        },
        RunEvent::BlockEntered {
            sequence: 2,
            elapsed_ms: 10,
            run_id: "run-1".to_string(),
            block_id: "find-icon".to_string(),
        },
        RunEvent::ObservationCompleted {
            sequence: 3,
            elapsed_ms: 20,
            run_id: "run-1".to_string(),
            block_id: "find-icon".to_string(),
            evidence: DetectorEvidence::new(
                true,
                5,
                19,
                None,
                Some(double(0.96)),
                3,
                2,
                details(&[
                    ("runner_up_score", serde_json::Value::from(0.91)),
                    ("selected_scale_percent", serde_json::Value::from(105)),
                ]),
            ),
            token: None,
        },
        RunEvent::ActionStateChanged {
            sequence: 4,
            elapsed_ms: 25,
            run_id: "run-1".to_string(),
            block_id: "click-icon".to_string(),
            action: Action::ClickImageMatch {
                source_block_id: "find-icon".to_string(),
                button: MouseButton::Left,
            },
            attempt_id: attempt("run-1", 1),
            state: ActionState::Prepared,
        },
        RunEvent::RunStopped {
            sequence: 5,
            elapsed_ms: 30,
            run_id: "run-1".to_string(),
            status: RunStatus::Stopped,
            reason: StopReason::UserStopped,
        },
    ];

    let monitor = project_monitor(Some("forge-loop"), None, &events);

    assert_eq!(monitor.running_revision, Some(7));
    assert_eq!(monitor.active_block.as_deref(), Some("find-icon"));
    assert_eq!(monitor.candidate_count, Some(3));
    assert_eq!(monitor.runner_up_score, Some(double(0.91)));
    assert_eq!(monitor.scale_percent, Some(105));
    assert_eq!(monitor.stable_frames, Some(2));
    assert_eq!(monitor.action_state, Some(ActionState::Prepared));
    assert_eq!(
        monitor.action_attempt_id,
        Some(attempt("run-1", 1))
    );
    assert_eq!(
        monitor.stop_outcome,
        Some(StopOutcome {
            reason: StopReason::UserStopped,
            classification: StopClassification::UserStopped,
        })
    );
    assert_eq!(monitor.elapsed_ms, 30);
}

#[test]
fn action_summary_includes_a_blocked_attempt_identifier() {
    let monitor = MonitorProjection {
        action_state: Some(ActionState::Blocked),
        action_block_id: Some("repeat-click".to_string()),
        action_attempt_id: Some(attempt("run-1", 2)),
        ..MonitorProjection::default()
    };

    assert!(
        action_state(&monitor)
            .expect("blocked action must render a summary")
            .contains("ActionAttemptId")
    );
}

#[test]
fn active_block_context_reports_owning_branch_and_loop() {
    let target = Block {
        id: "target".to_string(),
        enabled: true,
        kind: BlockKind::Comment {
            text: "inside".to_string(),
        },
    };
    let blocks = vec![Block {
        id: "loop".to_string(),
        enabled: true,
        kind: BlockKind::Continuous {
            body: vec![Block {
                id: "if".to_string(),
                enabled: true,
                kind: BlockKind::If {
                    condition: Condition::Text {
                        source_block_id: "source".to_string(),
                        rule_id: "text".to_string(),
                        mode: ObserveMode::WaitForTrue {
                            timeout_ms: Limit::Finite(100),
                            timeout_outcome:
                                TimeoutOutcome::Continue,
                        },
                    },
                    then_body: Vec::new(),
                    else_body: vec![target],
                },
            }],
        },
    }];

    let context = find_block_context(&blocks, "target", &ContextPath::default()).unwrap();

    assert_eq!(context.branch.as_deref(), Some("if · ELSE"));
    assert_eq!(context.loop_id.as_deref(), Some("loop"));
}

#[test]
fn a_new_run_clears_prior_run_projection_details() {
    let events = vec![
        RunEvent::RunStarted {
            sequence: 1,
            elapsed_ms: 0,
            run_id: "old-run".to_string(),
            macro_id: "macro".to_string(),
            revision: 1,
            definition_hash: "old".to_string(),
            mode: RunMode::DryRun,
        },
        RunEvent::ObservationCompleted {
            sequence: 2,
            elapsed_ms: 500,
            run_id: "old-run".to_string(),
            block_id: "old-observation".to_string(),
            evidence: DetectorEvidence::new(
                true,
                1,
                500,
                None,
                Some(double(0.99)),
                4,
                3,
                details(&[("runner_up_score", serde_json::Value::from(0.80))]),
            ),
            token: None,
        },
        RunEvent::RunStarted {
            sequence: 1,
            elapsed_ms: 0,
            run_id: "new-run".to_string(),
            macro_id: "macro".to_string(),
            revision: 2,
            definition_hash: "new".to_string(),
            mode: RunMode::ObservationOnly,
        },
    ];

    let monitor = project_monitor(Some("macro"), None, &events);

    assert_eq!(monitor.running_revision, Some(2));
    assert_eq!(monitor.elapsed_ms, 0);
    assert_eq!(monitor.candidate_count, None);
    assert_eq!(monitor.runner_up_score, None);
    assert_eq!(monitor.stable_frames, None);
}

#[test]
fn every_stop_reason_has_a_typed_exhaustive_classification() {
    let cases = vec![
        (StopReason::Completed, StopClassification::Success),
        (StopReason::StopSuccess, StopClassification::Success),
        (
            StopReason::StopError {
                message: "failed".to_string(),
            },
            StopClassification::Error,
        ),
        (StopReason::UserStopped, StopClassification::UserStopped),
        (
            StopReason::EmergencyStopped,
            StopClassification::SafetyStopped,
        ),
        (
            StopReason::TechnicalFailure {
                message: "broken".to_string(),
            },
            StopClassification::Error,
        ),
        (
            StopReason::SafetyLimit {
                message: "limit".to_string(),
            },
            StopClassification::SafetyStopped,
        ),
        (
            StopReason::UnsupportedBlock {
                block_id: "future".to_string(),
            },
            StopClassification::Error,
        ),
    ];

    for (reason, expected) in cases {
        assert_eq!(classify_stop(&reason), expected, "{reason:?}");
    }
}

#[test]
fn selected_macro_ignores_foreign_events_and_sequence_orders_its_run() {
    let events = vec![
        started(1, "alpha-run", "alpha", 4, "alpha-hash"),
        started(1, "beta-run", "beta", 9, "beta-hash"),
        entered(2, "beta-run", "foreign"),
        entered(4, "alpha-run", "alpha-latest"),
        entered(2, "alpha-run", "alpha-earlier"),
    ];

    let monitor = project_monitor(Some("alpha"), None, &events);

    assert_eq!(monitor.run_id.as_deref(), Some("alpha-run"));
    assert_eq!(monitor.running_revision, Some(4));
    assert_eq!(monitor.active_block.as_deref(), Some("alpha-latest"));
}

#[test]
fn latest_same_macro_run_rejects_late_events_from_prior_run() {
    let events = vec![
        started(1, "old", "alpha", 1, "old-hash"),
        entered(2, "old", "old-before"),
        started(1, "new", "alpha", 2, "new-hash"),
        entered(99, "old", "old-late"),
        entered(2, "new", "new-active"),
    ];

    let monitor = project_monitor(Some("alpha"), None, &events);

    assert_eq!(monitor.run_id.as_deref(), Some("new"));
    assert_eq!(monitor.active_block.as_deref(), Some("new-active"));
    assert_eq!(monitor.running_revision, Some(2));
}

#[test]
fn previous_completion_survives_while_new_run_is_running() {
    let events = vec![
        started(1, "completed", "alpha", 1, "old-hash"),
        RunEvent::RunStopped {
            sequence: 2,
            elapsed_ms: 40,
            run_id: "completed".to_string(),
            status: RunStatus::Stopped,
            reason: StopReason::Completed,
        },
        started(1, "running", "alpha", 2, "new-hash"),
        entered(2, "running", "now"),
    ];

    let monitor = project_monitor(Some("alpha"), None, &events);
    let completion = project_last_completion(&events, "alpha").unwrap();

    assert_eq!(monitor.status, RunStatus::Running);
    assert_eq!(monitor.stop_outcome, None);
    assert_eq!(completion.reason, StopReason::Completed);
    assert_eq!(completion.classification, StopClassification::Success);
}

#[test]
fn completion_before_its_matching_start_is_not_associated() {
    let events = vec![
        RunEvent::RunStopped {
            sequence: 2,
            elapsed_ms: 40,
            run_id: "reused".to_string(),
            status: RunStatus::Stopped,
            reason: StopReason::TechnicalFailure {
                message: "foreign early stop".to_string(),
            },
        },
        started(1, "reused", "alpha", 1, "hash"),
    ];

    assert_eq!(project_last_completion(&events, "alpha"), None);
}

#[test]
fn controller_projections_preserve_terminal_outcome_after_started_event_eviction() {
    let stopped = RunEvent::RunStopped {
        sequence: 3,
        elapsed_ms: 40,
        run_id: "evicted-run".to_string(),
        status: RunStatus::Stopped,
        reason: StopReason::EmergencyStopped,
    };
    let lifecycle = ControllerLifecycleProjection {
        run_started: Some(started(1, "evicted-run", "alpha", 1, "hash")),
        run_stopped: Some(stopped.clone()),
    };
    let semantic = ControllerSemanticProjection {
        run_started: lifecycle.run_started.clone(),
        run_stopped: Some(stopped.clone()),
        status: Some(stopped.clone()),
        ..ControllerSemanticProjection::default()
    };

    let monitor = project_monitor_with_controller_projections(
        Some("alpha"),
        None,
        &[stopped],
        &lifecycle,
        &semantic,
    );
    let completion = project_last_completion_with_controller_projections(
        &[],
        "alpha",
        &lifecycle,
        &semantic,
    )
    .unwrap();

    assert_eq!(monitor.status, RunStatus::Stopped);
    assert_eq!(
        monitor.stop_outcome.as_ref().map(|outcome| &outcome.reason),
        Some(&StopReason::EmergencyStopped)
    );
    assert_eq!(completion.reason, StopReason::EmergencyStopped);
}

#[test]
fn controller_projection_keeps_newer_short_run_after_older_long_run() {
    let older_stopped = RunEvent::RunStopped {
        sequence: 100,
        elapsed_ms: 1_000,
        run_id: "older-run".to_string(),
        status: RunStatus::Stopped,
        reason: StopReason::Completed,
    };
    let newer_stopped = RunEvent::RunStopped {
        sequence: 3,
        elapsed_ms: 30,
        run_id: "newer-run".to_string(),
        status: RunStatus::Stopped,
        reason: StopReason::EmergencyStopped,
    };
    let lifecycle = ControllerLifecycleProjection {
        run_started: Some(started(1, "newer-run", "alpha", 2, "newer-hash")),
        run_stopped: Some(newer_stopped.clone()),
    };
    let semantic = ControllerSemanticProjection {
        run_started: lifecycle.run_started.clone(),
        run_stopped: Some(newer_stopped.clone()),
        status: Some(newer_stopped.clone()),
        ..ControllerSemanticProjection::default()
    };
    let replay = vec![
        started(1, "older-run", "alpha", 1, "older-hash"),
        older_stopped,
        newer_stopped,
    ];

    let monitor = project_monitor_with_controller_projections(
        Some("alpha"),
        None,
        &replay,
        &lifecycle,
        &semantic,
    );
    let completion = project_last_completion_with_controller_projections(
        &replay, "alpha", &lifecycle, &semantic,
    )
    .unwrap();

    assert_eq!(monitor.run_id.as_deref(), Some("newer-run"));
    assert_eq!(completion.reason, StopReason::EmergencyStopped);
}

#[test]
fn loop_count_belongs_to_the_active_sequential_loop() {
    let saved = definition(
        "alpha",
        7,
        vec![
            continuous("loop-a", vec![comment("a-body")]),
            continuous("loop-b", vec![comment("b-body")]),
        ],
    );
    let snapshot = snapshot("run", "hash", saved);
    let events = vec![
        started(1, "run", "alpha", 7, "hash"),
        yielded(2, "run", "loop-a", 2),
        yielded(3, "run", "loop-b", 8),
        entered(4, "run", "b-body"),
    ];

    let monitor = project_monitor(Some("alpha"), Some(&snapshot), &events);

    assert_eq!(monitor.active_loop.as_deref(), Some("loop-b"));
    assert_eq!(monitor.loop_iterations, Some(8));
}

#[test]
fn innermost_nested_loop_uses_its_own_iteration_count() {
    let saved = definition(
        "alpha",
        7,
        vec![continuous(
            "outer",
            vec![continuous("inner", vec![comment("nested-target")])],
        )],
    );
    let snapshot = snapshot("run", "hash", saved);
    let events = vec![
        started(1, "run", "alpha", 7, "hash"),
        yielded(2, "run", "outer", 3),
        yielded(3, "run", "inner", 11),
        entered(4, "run", "nested-target"),
    ];

    let monitor = project_monitor(Some("alpha"), Some(&snapshot), &events);

    assert_eq!(monitor.active_loop.as_deref(), Some("inner"));
    assert_eq!(monitor.loop_iterations, Some(11));
}

#[test]
fn top_level_block_after_loop_clears_loop_and_iteration() {
    let saved = definition(
        "alpha",
        7,
        vec![
            continuous("loop", vec![comment("body")]),
            comment("after-loop"),
        ],
    );
    let snapshot = snapshot("run", "hash", saved);
    let events = vec![
        started(1, "run", "alpha", 7, "hash"),
        yielded(2, "run", "loop", 5),
        entered(3, "run", "body"),
        entered(4, "run", "after-loop"),
    ];

    let monitor = project_monitor(Some("alpha"), Some(&snapshot), &events);

    assert_eq!(monitor.active_loop, None);
    assert_eq!(monitor.loop_iterations, None);
}

#[test]
fn active_context_uses_matching_run_snapshot_not_mutable_draft() {
    let saved = definition(
        "alpha",
        7,
        vec![continuous("saved-loop", vec![comment("active")])],
    );
    let draft = definition("alpha", 8, vec![comment("different-draft-block")]);
    let snapshot = snapshot("run", "saved-hash", saved);
    let events = vec![
        started(1, "run", "alpha", 7, "saved-hash"),
        yielded(2, "run", "saved-loop", 6),
        entered(3, "run", "active"),
    ];

    let monitor = project_monitor(Some(&draft.id), Some(&snapshot), &events);

    assert_eq!(monitor.active_loop.as_deref(), Some("saved-loop"));
    assert_eq!(monitor.loop_iterations, Some(6));
}

#[test]
fn mismatched_run_snapshot_keys_cannot_supply_active_context() {
    let saved = definition(
        "alpha",
        7,
        vec![continuous("saved-loop", vec![comment("active")])],
    );
    let events = vec![
        started(1, "run", "alpha", 7, "saved-hash"),
        entered(2, "run", "active"),
    ];
    let wrong_run = snapshot("other-run", "saved-hash", saved.clone());
    let wrong_hash = snapshot("run", "other-hash", saved.clone());
    let wrong_revision = snapshot(
        "run",
        "saved-hash",
        definition("alpha", 8, saved.blocks.clone()),
    );

    for snapshot in [&wrong_run, &wrong_hash, &wrong_revision] {
        let monitor = project_monitor(Some("alpha"), Some(snapshot), &events);
        assert_eq!(monitor.active_loop, None);
        assert_eq!(monitor.active_branch, None);
    }
}

#[test]
fn nested_loop_reentry_clears_only_that_invocations_prior_count() {
    let saved = definition(
        "alpha",
        7,
        vec![
            repeat_n("sibling", 9, vec![comment("sibling-body")]),
            continuous(
                "outer",
                vec![repeat_n("inner", 2, vec![comment("inner-body")])],
            ),
        ],
    );
    let snapshot = snapshot("run", "hash", saved);
    let before_first_new_yield = vec![
        started(1, "run", "alpha", 7, "hash"),
        yielded(2, "run", "sibling", 7),
        entered(3, "run", "outer"),
        entered(4, "run", "inner"),
        entered(5, "run", "inner-body"),
        yielded(6, "run", "inner", 2),
        yielded(7, "run", "outer", 1),
        entered(8, "run", "inner"),
        entered(9, "run", "inner-body"),
    ];

    let before = project_monitor(Some("alpha"), Some(&snapshot), &before_first_new_yield);

    assert_eq!(before.active_loop.as_deref(), Some("inner"));
    assert_eq!(before.loop_iterations, None);
    assert_eq!(before.loop_iterations_by_id.get("inner"), None);
    assert_eq!(before.loop_iterations_by_id.get("outer"), Some(&1));
    assert_eq!(before.loop_iterations_by_id.get("sibling"), Some(&7));

    let mut after_first_new_yield = before_first_new_yield;
    after_first_new_yield.push(yielded(10, "run", "inner", 1));
    let after = project_monitor(Some("alpha"), Some(&snapshot), &after_first_new_yield);

    assert_eq!(after.active_loop.as_deref(), Some("inner"));
    assert_eq!(after.loop_iterations, Some(1));
    assert_eq!(after.loop_iterations_by_id.get("inner"), Some(&1));
    assert_eq!(after.loop_iterations_by_id.get("outer"), Some(&1));
    assert_eq!(after.loop_iterations_by_id.get("sibling"), Some(&7));
}
