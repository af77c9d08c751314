//! The inspector.
use macro_ui::inspector::{
    EMPTY_INSPECTOR_PROMPT, InspectorIntent, InspectorProjection, next_observe_mode, next_policy,
    next_preprocess, next_text_match_mode, observe_mode_with_timeout, problem_navigation_target,
    project_inspector, validate_image_scales,
};
use macro_ui::macro_engine::{
    Block, BlockKind, Condition, DEFAULT_MAX_SCALES, F64Bits, FocusLossPolicy, Limit,
    MACRO_SCHEMA_VERSION, MacroDefinition, MatchSelectionPolicy, ObserveMode, PassiveCondition,
    PreprocessProfile, SafetyPolicy, TargetProfile, TextMatchMode, TextRule, TimeoutOutcome,
    ValidationProblem, WatchGroup, WatchLane,
};

fn double(value: f64) -> F64Bits {
    F64Bits(value.to_bits())
}

fn definition() -> MacroDefinition {
    MacroDefinition {
        schema_version: MACRO_SCHEMA_VERSION,
        id: "m".into(),
        name: "m".into(),
        revision: 1,
        target: TargetProfile {
            process_path: "game.exe".into(),
            window_class: "d4".into(),
            title_contains: "Diablo".into(),
            captured_client_width: 1280,
            captured_client_height: 720,
            captured_dpi: 96,
        },
        regions: vec![],
        points: vec![],
        image_rules: vec![],
        text_rules: vec![TextRule {
            id: "rule".into(),
            revision: 1,
            region_id: "scan".into(),
            language: "en-US".into(),
            preprocess: PreprocessProfile::Grayscale,
            expected: "Salvage".into(),
            match_mode: TextMatchMode::Contains,
            threshold: double(0.9),
            case_sensitive: false,
            allow_cross_line: false,
            match_policy: MatchSelectionPolicy::ExactlyOne,
            poll_interval_ms: 250,
            timeout_ms: Limit::Finite(2_000),
            stable_frames: 2,
        }],
        blocks: vec![Block {
            id: "observe".into(),
            enabled: true,
            kind: BlockKind::Observe {
                condition: Condition::Text {
                    source_block_id: "observe".into(),
                    rule_id: "rule".into(),
                    mode: ObserveMode::WaitForTrue {
                        timeout_ms: Limit::Finite(2_000),
                        timeout_outcome: TimeoutOutcome::Continue,
                    },
                },
            },
        }],
        safety: SafetyPolicy {
            max_runtime_ms: Limit::Finite(10_000),
            max_clicks: Limit::Finite(2),
            max_observation_retries: Limit::Finite(2),
            max_observations_per_second: 20,
            minimum_click_interval_ms: 100,
            focus_loss: FocusLossPolicy::Stop,
        },
    }
}

#[test]
fn text_projection_exposes_detector_controls_and_safe_intents() {
    let projection = project_inspector(&definition(), "observe", &[]);
    let InspectorProjection::Text(text) = projection else {
        panic!("text inspector");
    };
    assert_eq!(text.expected, "Salvage");
    assert_eq!(text.region_id, "scan");
    assert_eq!(text.poll_interval_ms, 250);
    assert!(text.actions.contains(&InspectorIntent::TestOcr {
        block_id: "observe".into()
    }));
    assert!(text.actions.contains(&InspectorIntent::RecaptureRegion {
        region_id: "scan".into()
    }));
}

#[test]
fn problem_navigation_selects_exact_structural_owner() {
    let problems = vec![ValidationProblem {
        code: "x".into(),
        message: "fix it".into(),
        block_id: Some("observe".into()),
    }];
    assert_eq!(
        problem_navigation_target(&problems, 0).as_deref(),
        Some("observe")
    );
    assert_eq!(problem_navigation_target(&problems, 1), None);
}

#[test]
fn watch_lane_projection_exposes_persisted_priority() {
    let mut definition = definition();
    let lane = |id: &str| WatchLane {
        id: id.into(),
        enabled: true,
        condition: PassiveCondition::Text {
            source_block_id: "observe".into(),
            rule_id: "rule".into(),
        },
        then_body: vec![],
    };
    definition.blocks.push(Block {
        id: "watch".into(),
        enabled: true,
        kind: BlockKind::WatchGroup {
            group: WatchGroup {
                lanes: vec![lane("lane-1"), lane("lane-2")],
                timeout_ms: Limit::Finite(3_000),
                timeout_outcome: TimeoutOutcome::Continue,
                cooldown_ms: 125,
            },
        },
    });

    let InspectorProjection::Text(text) = project_inspector(&definition, "lane-2", &[]) else {
        panic!("text lane inspector");
    };
    assert_eq!(text.lane_priority, Some(2));
    assert!(!text.supports_observe_mode);
}

#[test]
fn flow_projection_exposes_repeat_and_watch_limits() {
    let mut definition = definition();
    definition.blocks.extend([
        Block {
            id: "repeat".into(),
            enabled: true,
            kind: BlockKind::RepeatUntil {
                condition: Condition::Text {
                    source_block_id: "observe".into(),
                    rule_id: "rule".into(),
                    mode: ObserveMode::CheckNow,
                },
                max_iterations: Limit::Finite(9),
                body: vec![],
            },
        },
        Block {
            id: "watch".into(),
            enabled: true,
            kind: BlockKind::WatchGroup {
                group: WatchGroup {
                    lanes: vec![],
                    timeout_ms: Limit::Finite(4_000),
                    timeout_outcome: TimeoutOutcome::Continue,
                    cooldown_ms: 175,
                },
            },
        },
    ]);

    let InspectorProjection::Text(repeat) = project_inspector(&definition, "repeat", &[])
    else {
        panic!("repeat detector inspector");
    };
    assert!(
        repeat
            .flow_fields
            .contains(&("Max iterations".into(), "9".into()))
    );
    let InspectorProjection::Flow(watch) = project_inspector(&definition, "watch", &[]) else {
        panic!("watch flow inspector");
    };
    assert!(watch.fields.contains(&("Timeout".into(), "4000".into())));
    assert!(watch.fields.contains(&("Cooldown".into(), "175 ms".into())));
}

#[test]
fn nested_timeout_body_is_available_to_selection() {
    let mut definition = definition();
    let BlockKind::Observe { condition } = &mut definition.blocks[0].kind else {
        panic!("observe fixture");
    };
    let Condition::Text { mode, .. } = condition else {
        panic!("text fixture");
    };
    *mode = ObserveMode::WaitForTrue {
        timeout_ms: Limit::Finite(500),
        timeout_outcome: TimeoutOutcome::RunBody {
            body: vec![Block {
                id: "timeout-child".into(),
                enabled: true,
                kind: BlockKind::Comment {
                    text: "fallback".into(),
                },
            }],
        },
    };

    assert!(matches!(
        project_inspector(&definition, "timeout-child", &[]),
        InspectorProjection::Flow(_)
    ));
}

#[test]
fn image_scale_edits_require_nonempty_unique_bounded_percentages() {
    assert_eq!(validate_image_scales(&[95, 100, 105]), Ok(()));
    assert!(validate_image_scales(&[]).is_err());
    assert!(validate_image_scales(&[100, 100]).is_err());
    assert!(validate_image_scales(&[0]).is_err());
    assert!(validate_image_scales(&vec![100; DEFAULT_MAX_SCALES + 1]).is_err());
}

#[test]
fn required_text_editor_enums_cycle_through_every_canonical_choice() {
    let mut mode = TextMatchMode::Exact;
    for expected in [
        TextMatchMode::Contains,
        TextMatchMode::Fuzzy,
        TextMatchMode::Absent,
        TextMatchMode::Exact,
    ] {
        mode = next_text_match_mode(mode);
        assert_eq!(mode, expected);
    }
    let mut profile = PreprocessProfile::Original;
    for expected in [
        PreprocessProfile::Grayscale,
        PreprocessProfile::HighContrast,
        PreprocessProfile::SmallText,
        PreprocessProfile::Original,
    ] {
        profile = next_preprocess(profile);
        assert_eq!(profile, expected);
    }
    let mut policy = MatchSelectionPolicy::ExactlyOne;
    for expected in [
        MatchSelectionPolicy::HighestScore,
        MatchSelectionPolicy::FirstReadingOrder,
        MatchSelectionPolicy::Topmost,
        MatchSelectionPolicy::Bottommost,
        MatchSelectionPolicy::ExactlyOne,
    ] {
        policy = next_policy(policy);
        assert_eq!(policy, expected);
    }
}

#[test]
fn observe_timeout_edit_preserves_timeout_outcome_body() {
    let current = ObserveMode::WaitForTrue {
        timeout_ms: Limit::Finite(100),
        timeout_outcome: TimeoutOutcome::RunBody {
            body: vec![Block {
                id: "fallback".into(),
                enabled: true,
                kind: BlockKind::Comment {
                    text: "keep".into(),
                },
            }],
        },
    };
    let edited = observe_mode_with_timeout(&current, Limit::Unlimited).unwrap();
    assert!(matches!(
        edited,
        ObserveMode::WaitForTrue {
            timeout_ms: Limit::Unlimited,
            timeout_outcome: TimeoutOutcome::RunBody { ref body },
        } if body[0].id == "fallback"
    ));
}

#[test]
fn detector_mode_cycle_preserves_wait_configuration() {
    let current = ObserveMode::WaitForTrue {
        timeout_ms: Limit::Finite(444),
        timeout_outcome: TimeoutOutcome::RunBody {
            body: vec![Block {
                id: "fallback".into(),
                enabled: true,
                kind: BlockKind::Comment {
                    text: "keep".into(),
                },
            }],
        },
    };
    let next = next_observe_mode(&current);
    assert!(matches!(
        next,
        ObserveMode::WaitForFalse {
            timeout_ms: Limit::Finite(444),
            timeout_outcome: TimeoutOutcome::RunBody { ref body },
        } if body[0].id == "fallback"
    ));
}

#[test]
fn empty_inspector_prompt_refers_to_a_canvas_block() {
    assert_eq!(EMPTY_INSPECTOR_PROMPT, "Select a canonical canvas block.");
}
