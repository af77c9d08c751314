//! The library.
use macro_ui::library::{MacroLibraryStatus, project_definition};
use macro_ui::macro_engine::{
    FocusLossPolicy, Limit, MACRO_SCHEMA_VERSION, MacroDefinition, SafetyPolicy, TargetProfile,
};
use macro_ui::monitor::{MonitorProjection, StopClassification, StopOutcome};
use macro_ui::run_events::{RunStatus, StopReason};

fn definition() -> MacroDefinition {
    MacroDefinition {
        schema_version: MACRO_SCHEMA_VERSION,
        id: "alpha".to_string(),
        name: "Alpha".to_string(),
        revision: 2,
        target: TargetProfile {
            process_path: "Diablo IV.exe".to_string(),
            window_class: "Diablo".to_string(),
            title_contains: "Diablo IV".to_string(),
            captured_client_width: 1920,
            captured_client_height: 1080,
            captured_dpi: 96,
        },
        regions: Vec::new(),
        points: Vec::new(),
        text_rules: Vec::new(),
        image_rules: Vec::new(),
        blocks: Vec::new(),
        safety: SafetyPolicy {
            max_runtime_ms: Limit::Unlimited,
            max_clicks: Limit::Unlimited,
            max_observation_retries: Limit::Unlimited,
            max_observations_per_second: 10,
            minimum_click_interval_ms: 100,
            focus_loss: FocusLossPolicy::Stop,
        },
    }
}

#[test]
fn current_running_status_keeps_previous_completed_result() {
    let mut monitor = MonitorProjection::default();
    monitor.status = RunStatus::Running;
    monitor.running_revision = Some(2);
    let completion = StopOutcome {
        reason: StopReason::Completed,
        classification: StopClassification::Success,
    };

    let row = project_definition(
        &definition(),
        Some(2),
        true,
        &[],
        &monitor,
        Some(&completion),
    );

    assert_eq!(row.status, MacroLibraryStatus::Running);
    assert_eq!(row.last_run, "Macro completed");
}

#[test]
fn typed_unsupported_block_outcome_is_an_error_without_string_matching() {
    let completion = StopOutcome {
        reason: StopReason::UnsupportedBlock {
            block_id: "future".to_string(),
        },
        classification: StopClassification::Error,
    };

    let row = project_definition(
        &definition(),
        Some(2),
        true,
        &[],
        &MonitorProjection::default(),
        Some(&completion),
    );

    assert_eq!(row.status, MacroLibraryStatus::StoppedWithError);
    assert_eq!(row.last_run, "Unsupported block: future");
}

#[test]
fn lifecycle_badges_keep_revalidation_and_prior_failure_distinct() {
    assert_ne!(
        MacroLibraryStatus::NeedsRevalidation.label(),
        MacroLibraryStatus::StoppedWithError.label()
    );
    assert!(!MacroLibraryStatus::Disabled.description().is_empty());
}
