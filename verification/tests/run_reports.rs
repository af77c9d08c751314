//! What the monitor promises of every run, on chosen reports.
use macro_ui::macro_engine::{
    Block, BlockKind, F64Bits, FocusLossPolicy, Limit, MACRO_SCHEMA_VERSION, MacroDefinition,
    SafetyPolicy, TargetProfile,
};
use macro_ui::monitor::{
    MonitorProjection, RunDefinitionSnapshot, StopOutcome, format_elapsed, project_monitor,
    scale_stability,
};
use macro_ui::run_events::{
    DetectorEvidence, RunEvent, RunMode, RunStatus, SavedRevision, StopReason, same_event,
};
use serde_json::Value;

fn double(value: f64) -> F64Bits {
    F64Bits(value.to_bits())
}

fn details(entries: &[(&str, Value)]) -> Value {
    let mut object = serde_json::Map::new();
    for (name, value) in entries {
        object.insert(name.to_string(), value.clone());
    }
    Value::Object(object)
}

fn snapshot(run_id: &str) -> RunDefinitionSnapshot {
    let definition = MacroDefinition {
        schema_version: MACRO_SCHEMA_VERSION,
        id: "macro".into(),
        name: "Macro".into(),
        revision: 2,
        target: TargetProfile {
            process_path: "game.exe".into(),
            window_class: "window".into(),
            title_contains: "Game".into(),
            captured_client_width: 1280,
            captured_client_height: 720,
            captured_dpi: 96,
        },
        regions: vec![],
        points: vec![],
        text_rules: vec![],
        image_rules: vec![],
        blocks: vec![Block {
            id: "pause".into(),
            enabled: true,
            kind: BlockKind::Wait { duration_ms: 10 },
        }],
        safety: SafetyPolicy {
            max_runtime_ms: Limit::Unlimited,
            max_clicks: Limit::Unlimited,
            max_observation_retries: Limit::Unlimited,
            max_observations_per_second: 20,
            minimum_click_interval_ms: 100,
            focus_loss: FocusLossPolicy::Stop,
        },
    };
    RunDefinitionSnapshot::from_saved(
        run_id,
        SavedRevision { definition, definition_hash: "hash".into(), pinned_assets: vec![] },
    )
}

fn started(run_id: &str, macro_id: &str) -> RunEvent {
    RunEvent::RunStarted {
        sequence: 1,
        elapsed_ms: 0,
        run_id: run_id.into(),
        macro_id: macro_id.into(),
        revision: 2,
        definition_hash: "hash".into(),
        mode: RunMode::DryRun,
    }
}

fn entered(run_id: &str, block_id: &str) -> RunEvent {
    RunEvent::BlockEntered {
        sequence: 2,
        elapsed_ms: 10,
        run_id: run_id.into(),
        block_id: block_id.into(),
    }
}

fn observed(run_id: &str, details: Value) -> RunEvent {
    RunEvent::ObservationCompleted {
        sequence: 3,
        elapsed_ms: 20,
        run_id: run_id.into(),
        block_id: "pause".into(),
        evidence: DetectorEvidence::new(true, 1, 2, None, Some(double(0.75)), 3, 4, details),
        token: None,
    }
}

fn shown(events: &[RunEvent]) -> MonitorProjection {
    project_monitor(Some("macro"), Some(&snapshot("run")), events)
}

#[test]
fn without_a_run_the_monitor_is_idle() {
    assert_eq!(shown(&[]).status, RunStatus::Idle);
    let foreign = [started("other-run", "other"), entered("other-run", "pause")];
    assert_eq!(shown(&foreign).status, RunStatus::Idle);
    let events = [started("run", "macro"), entered("run", "pause")];
    assert_eq!(project_monitor(None, None, &events).status, RunStatus::Idle);
}

#[test]
fn reports_of_other_runs_change_nothing() {
    let alone = shown(&[started("run", "macro"), entered("run", "pause")]);
    let mixed = shown(&[
        started("run", "macro"),
        entered("elsewhere", "stranger"),
        entered("run", "pause"),
        observed("elsewhere", Value::Null),
    ]);
    assert_eq!(mixed.active_block.as_deref(), Some("pause"));
    assert_eq!(mixed.active_block, alone.active_block);
    assert_eq!(mixed.candidate_score, None);
    assert_eq!(mixed.elapsed_ms, alone.elapsed_ms);
}

#[test]
fn a_new_run_is_shown_from_its_start() {
    let events = [
        started("old", "macro"),
        entered("old", "pause"),
        observed("old", Value::Null),
        started("run", "macro"),
    ];
    let monitor = shown(&events);
    assert_eq!(monitor.run_id.as_deref(), Some("run"));
    assert_eq!(monitor.active_block, None);
    assert_eq!(monitor.candidate_score, None);
}

#[test]
fn a_run_is_shown_by_its_own_reports() {
    let entered_at = |run_id: &str, sequence: u64, block_id: &str| RunEvent::BlockEntered {
        sequence,
        elapsed_ms: 10,
        run_id: run_id.into(),
        block_id: block_id.into(),
    };
    let own = [
        started("run", "macro"),
        entered_at("run", 9, "late"),
        entered_at("run", 3, "early"),
        entered_at("run", 9, "latest"),
        entered_at("run", 5, "middle"),
    ];
    let mut events = vec![
        started("old", "macro"),
        entered_at("run", 80, "before the start"),
        entered_at("old", 90, "old"),
    ];
    for event in own.clone() {
        events.push(event);
        events.push(entered_at("old", 99, "late report of an earlier run"));
        events.push(entered_at("other", 99, "another macro"));
    }
    let monitor = shown(&events);
    assert_eq!(monitor, shown(&own));
    assert_eq!(monitor.run_id.as_deref(), Some("run"));
    assert_eq!(monitor.running_revision, Some(2));
    assert_eq!(monitor.active_block.as_deref(), Some("latest"));
}

#[test]
fn scores_and_scales_are_read_from_the_details() {
    let read = |value: Value| {
        let monitor = shown(&[started("run", "macro"), observed("run", value)]);
        (monitor.runner_up_score, monitor.scale_percent)
    };
    assert_eq!(
        read(details(&[
            ("runner_up_score", Value::from(0.5)),
            ("selected_scale_percent", Value::from(105u64)),
        ])),
        (Some(double(0.5)), Some(105))
    );
    assert_eq!(
        read(details(&[
            ("runner_up_score", Value::from(1u64)),
            ("selected_scale_percent", Value::from(-5i64)),
        ])),
        (Some(double(1.0)), None)
    );
    assert_eq!(
        read(details(&[
            ("runner_up_score", Value::from("high")),
            ("selected_scale_percent", Value::from(99.5)),
        ])),
        (None, None)
    );
    assert_eq!(read(Value::from("runner_up_score")), (None, None));
    assert_eq!(read(Value::Null), (None, None));
}

#[test]
fn reports_are_the_same_where_their_details_are() {
    let with = |score: f64| observed("run", details(&[("runner_up_score", Value::from(score))]));
    assert!(same_event(&with(0.5), &with(0.5)));
    assert!(!same_event(&with(0.5), &with(0.25)));
    assert!(!same_event(&with(0.5), &entered("run", "pause")));
    let copy = with(0.5).clone();
    assert!(same_event(&copy, &with(0.5)));
    assert_eq!(copy.sequence(), 3);
    assert_eq!(copy.elapsed_ms(), 20);
    assert_eq!(copy.run_id(), "run");
}

#[test]
fn times_and_frames_are_worded() {
    assert_eq!(format_elapsed(0), "00:00.000");
    assert_eq!(format_elapsed(61_007), "01:01.007");
    assert_eq!(format_elapsed(6_000_000), "100:00.000");
    let mut monitor = MonitorProjection::default();
    assert_eq!(scale_stability(&monitor), None);
    monitor.stable_frames = Some(2);
    assert_eq!(scale_stability(&monitor).as_deref(), Some("-- / 2 frames"));
    monitor.scale_percent = Some(95);
    assert_eq!(scale_stability(&monitor).as_deref(), Some("95% / 2 frames"));
}

#[test]
fn stop_reasons_are_worded() {
    for (reason, text) in [
        (StopReason::Completed, "Macro completed"),
        (StopReason::StopSuccess, "Stopped successfully"),
        (StopReason::StopError { message: "no match".into() }, "Stopped with error: no match"),
        (StopReason::UserStopped, "User stopped"),
        (StopReason::EmergencyStopped, "Emergency stop"),
        (StopReason::TechnicalFailure { message: "lost".into() }, "Technical failure: lost"),
        (StopReason::SafetyLimit { message: "clicks".into() }, "Safety limit: clicks"),
        (StopReason::UnsupportedBlock { block_id: "b".into() }, "Unsupported block: b"),
    ] {
        assert_eq!(StopOutcome::new(&reason).label(), text);
    }
}
