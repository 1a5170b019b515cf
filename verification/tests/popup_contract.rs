use std::collections::BTreeMap;

use yazelix_zellij_popup::popup_contract::{
    resolve_transient_toggle_plan_by_identity, select_transient_pane_by_identity,
    should_restart_popup_for_cwd, ConfiguredPopupSpecs, PopupMessageRequestError,
    TransientPaneDisplacementCandidate, TransientPaneGeometry, TransientPaneIdentityView,
    TransientPaneSnapshot, TransientPaneState, TransientPopupAction,
    TransientPopupToggleCloseBehavior, TransientTogglePlan,
};

fn config(values: &[(&str, &str)]) -> BTreeMap<String, String> {
    values
        .iter()
        .map(|(key, value)| ((*key).to_string(), (*value).to_string()))
        .collect()
}

fn transient_pane<'a>(
    pane_id: i32,
    title: &'a str,
    terminal_command: Option<&'a str>,
    is_focused: bool,
) -> TransientPaneSnapshot<'a, i32> {
    TransientPaneSnapshot {
        pane_id,
        title,
        terminal_command,
        is_plugin: false,
        exited: false,
        is_floating: true,
        is_suppressed: false,
        is_focused,
    }
}

fn suppressed_transient_pane<'a>(
    pane_id: i32,
    title: &'a str,
    terminal_command: Option<&'a str>,
) -> TransientPaneSnapshot<'a, i32> {
    TransientPaneSnapshot {
        pane_id,
        title,
        terminal_command,
        is_plugin: false,
        exited: false,
        is_floating: false,
        is_suppressed: true,
        is_focused: false,
    }
}

fn keep_alive_and_gitui_specs() -> ConfiguredPopupSpecs {
    ConfiguredPopupSpecs::from_configuration(&config(&[(
        "popups",
        r#"
            process_monitor {
                command "yzx"
                arg_1 "popup_run"
                arg_2 "btm"
                toggle_close_behavior "hide"
            }
            gitui {
                command "gitui"
            }
        "#,
    )]))
}

#[test]
fn configured_spec_builds_kdl_native_request() {
    let specs = ConfiguredPopupSpecs::from_configuration(&config(&[(
        "popup",
        r#"
                command "gitui"
                arg_1 "--watch"
                pane_title "gitui_popup"
                preserve_terminal_title true
                cwd "."
                width_percent 90
                height_percent 85
                side_margin 2
                vertical_margin 1
            "#,
    )]));

    let request = specs
        .request_from_message("toggle", None)
        .expect("configured request");

    assert_eq!(request.action, TransientPopupAction::Toggle);
    assert_eq!(request.spec.id, "default");
    assert_eq!(request.spec.command, vec!["gitui", "--watch"]);
    assert_eq!(request.spec.command_marker.as_deref(), Some("gitui"));
    assert!(request.spec.preserve_terminal_title);
    assert_eq!(
        request.spec.toggle_close_behavior,
        TransientPopupToggleCloseBehavior::Close
    );
    assert_eq!(
        request.spec.geometry(),
        Some(TransientPaneGeometry {
            width_percent: 90,
            height_percent: 85,
            side_margin: 2,
            vertical_margin: 1,
        })
    );
    assert_eq!(
        request.launch_plan("/fallback").expect("launch plan").cwd,
        "/fallback/."
    );
}

#[test]
// plugin-level geometry defaults apply to configured popup specs.
fn popup_defaults_apply_margins_to_named_popups() {
    let specs = ConfiguredPopupSpecs::from_configuration(&config(&[
        (
            "popup_defaults",
            r#"
                side_margin 1
                vertical_margin 0
            "#,
        ),
        (
            "popups",
            r#"
                gitui {
                    command "gitui"
                }
                lazygit {
                    command "lazygit"
                }
            "#,
        ),
    ]));

    for popup_id in ["gitui", "lazygit"] {
        let request = specs
            .request_from_message("toggle", Some(popup_id))
            .expect("named configured request");

        assert_eq!(
            request.spec.geometry(),
            Some(TransientPaneGeometry {
                width_percent: 90,
                height_percent: 85,
                side_margin: 1,
                vertical_margin: 0,
            })
        );
    }
}

#[test]
// per-popup geometry fields override plugin-level defaults.
fn popup_defaults_allow_per_popup_margin_overrides() {
    let specs = ConfiguredPopupSpecs::from_configuration(&config(&[
        (
            "popup_defaults",
            r#"
                side_margin 1
                vertical_margin 0
            "#,
        ),
        (
            "popups",
            r#"
                gitui {
                    command "gitui"
                    side_margin 3
                    vertical_margin 2
                }
            "#,
        ),
    ]));

    let request = specs
        .request_from_message("toggle", Some("gitui"))
        .expect("named configured request");

    assert_eq!(
        request.spec.geometry(),
        Some(TransientPaneGeometry {
            width_percent: 90,
            height_percent: 85,
            side_margin: 3,
            vertical_margin: 2,
        })
    );
}

#[test]
// plugin-level hook defaults apply to configured popup specs.
fn popup_defaults_apply_hooks_to_named_popups() {
    let specs = ConfiguredPopupSpecs::from_configuration(&config(&[
        (
            "popup_defaults",
            r#"
                on_close {
                    command "hook"
                    arg_1 "close"
                }
                on_hide {
                    command "hook"
                    arg_1 "hide"
                }
            "#,
        ),
        (
            "popups",
            r#"
                gitui {
                    command "gitui"
                }
            "#,
        ),
    ]));

    let request = specs
        .request_from_message("toggle", Some("gitui"))
        .expect("named configured request");
    let close_plan = request
        .spec
        .on_close
        .as_ref()
        .and_then(|hook| hook.launch_plan("/repo"))
        .expect("close hook plan");
    let hide_plan = request
        .spec
        .on_hide
        .as_ref()
        .and_then(|hook| hook.launch_plan("/repo"))
        .expect("hide hook plan");

    assert_eq!(close_plan.command, vec!["hook", "close"]);
    assert_eq!(hide_plan.command, vec!["hook", "hide"]);
}

#[test]
// per-popup hooks override the corresponding plugin-level hook default.
fn popup_defaults_allow_per_popup_hook_overrides() {
    let specs = ConfiguredPopupSpecs::from_configuration(&config(&[
        (
            "popup_defaults",
            r#"
                on_hide {
                    command "hook"
                    arg_1 "default"
                }
            "#,
        ),
        (
            "popups",
            r#"
                gitui {
                    command "gitui"
                    on_hide {
                        command "hook"
                        arg_1 "gitui"
                        cwd "."
                    }
                }
            "#,
        ),
    ]));

    let request = specs
        .request_from_message("toggle", Some("gitui"))
        .expect("named configured request");
    let hook_plan = request
        .spec
        .on_hide
        .as_ref()
        .and_then(|hook| hook.launch_plan("/repo"))
        .expect("hide hook plan");

    assert_eq!(hook_plan.command, vec!["hook", "gitui"]);
    assert_eq!(hook_plan.cwd, "/repo/.");
}

#[test]
fn relative_configured_cwd_resolves_against_focused_fallback() {
    let specs = ConfiguredPopupSpecs::from_configuration(&config(&[(
        "popup",
        r#"
                command "gitui"
                cwd "tools"
            "#,
    )]));

    let request = specs
        .request_from_message("toggle", None)
        .expect("configured request");

    assert_eq!(
        request.launch_plan("/repo").expect("launch plan").cwd,
        "/repo/tools"
    );
}

#[test]
fn configured_spec_without_cwd_uses_focused_fallback() {
    let specs = ConfiguredPopupSpecs::from_configuration(&config(&[(
        "popup",
        r#"
                command "gitui"
            "#,
    )]));

    let request = specs
        .request_from_message("toggle", None)
        .expect("configured request");

    assert_eq!(
        request.launch_plan("/repo").expect("launch plan").cwd,
        "/repo"
    );
}

#[test]
fn configured_focus_request_cwd_overrides_without_copying_the_spec() {
    let specs = ConfiguredPopupSpecs::from_configuration(&config(&[(
        "popups",
        r#"
            agent {
                command "codex"
                pane_title "agent_popup"
                toggle_close_behavior "hide"
            }
        "#,
    )]));

    let request = specs
        .request_from_message("focus", Some(r#"{"id":"agent","cwd":"/repo"}"#))
        .expect("configured request with explicit cwd");

    assert_eq!(request.spec.id, "agent");
    assert_eq!(request.launch_plan("/repo/docs").unwrap().cwd, "/repo");
    assert!(!should_restart_popup_for_cwd(
        true,
        Some("/repo"),
        None,
        &request.launch_plan("/repo/docs").unwrap().cwd,
    ));
    assert!(should_restart_popup_for_cwd(
        true,
        Some("/old"),
        None,
        &request.launch_plan("/repo/docs").unwrap().cwd,
    ));
}

#[test]
fn absolute_configured_cwd_is_preserved() {
    let specs = ConfiguredPopupSpecs::from_configuration(&config(&[(
        "popup",
        r#"
                command "gitui"
                cwd "/tmp/repo"
            "#,
    )]));

    let request = specs
        .request_from_message("toggle", None)
        .expect("configured request");

    assert_eq!(
        request.launch_plan("/repo").expect("launch plan").cwd,
        "/tmp/repo"
    );
}

#[test]
fn nested_popups_support_multiple_named_popups() {
    let specs = ConfiguredPopupSpecs::from_configuration(&config(&[(
        "popups",
        r#"
            gitui {
                command "gitui"
                pane_title "gitui_popup"
            }
            lazygit {
                command "lazygit"
                pane_title "lazygit_popup"
            }
        "#,
    )]));

    let request = specs
        .request_from_message("toggle", Some("lazygit"))
        .expect("named configured request");

    assert_eq!(request.spec.id, "lazygit");
    assert_eq!(request.spec.command, vec!["lazygit"]);
    assert_eq!(request.spec.pane_title, "lazygit_popup");
}

#[test]
fn configured_spec_parses_toggle_close_behavior() {
    let specs = ConfiguredPopupSpecs::from_configuration(&config(&[(
        "popups",
        r#"
            btm {
                command "btm"
                toggle_close_behavior "hide"
            }
        "#,
    )]));

    let request = specs
        .request_from_message("toggle", Some("btm"))
        .expect("named configured request");

    assert_eq!(
        request.spec.toggle_close_behavior,
        TransientPopupToggleCloseBehavior::Hide
    );
}

#[test]
fn configured_spec_parses_on_close_hook() {
    let specs = ConfiguredPopupSpecs::from_configuration(&config(&[(
        "popups",
        r#"
            lazygit {
                command "lazygit"
                on_close {
                    command "hook"
                    arg_1 "close"
                    cwd "."
                }
            }
        "#,
    )]));

    let request = specs
        .request_from_message("toggle", Some("lazygit"))
        .expect("named configured request");
    let hook_plan = request
        .spec
        .on_close
        .as_ref()
        .and_then(|hook| hook.launch_plan("/repo"))
        .expect("hook plan");

    assert_eq!(hook_plan.command, vec!["hook", "close"]);
    assert_eq!(hook_plan.cwd, "/repo/.");
}

#[test]
// per-popup on_hide uses the same argv/cwd hook shape as on_close.
fn configured_spec_parses_on_hide_hook() {
    let specs = ConfiguredPopupSpecs::from_configuration(&config(&[(
        "popups",
        r#"
            lazygit {
                command "lazygit"
                on_hide {
                    command "hook"
                    arg_1 "hide"
                    cwd "."
                }
            }
        "#,
    )]));

    let request = specs
        .request_from_message("toggle", Some("lazygit"))
        .expect("named configured request");
    let hook_plan = request
        .spec
        .on_hide
        .as_ref()
        .and_then(|hook| hook.launch_plan("/repo"))
        .expect("hook plan");

    assert_eq!(hook_plan.command, vec!["hook", "hide"]);
    assert_eq!(hook_plan.cwd, "/repo/.");
}

#[test]
fn configured_spec_rejects_invalid_on_close_hook() {
    let specs = ConfiguredPopupSpecs::from_configuration(&config(&[(
        "popups",
        r#"
            lazygit {
                command "lazygit"
                on_close {
                    arg_1 "close"
                }
            }
        "#,
    )]));

    assert_eq!(
        specs.request_from_message("toggle", Some("lazygit")),
        Err(PopupMessageRequestError::InvalidConfiguredSpec(
            "lazygit".into()
        ))
    );
}

#[test]
// invalid per-popup on_hide hooks make the configured popup invalid.
fn configured_spec_rejects_invalid_on_hide_hook() {
    let specs = ConfiguredPopupSpecs::from_configuration(&config(&[(
        "popups",
        r#"
            lazygit {
                command "lazygit"
                on_hide {
                    arg_1 "hide"
                }
            }
        "#,
    )]));

    assert_eq!(
        specs.request_from_message("toggle", Some("lazygit")),
        Err(PopupMessageRequestError::InvalidConfiguredSpec(
            "lazygit".into()
        ))
    );
}

#[test]
fn configured_spec_rejects_invalid_toggle_close_behavior() {
    let specs = ConfiguredPopupSpecs::from_configuration(&config(&[(
        "popups",
        r#"
            btm {
                command "btm"
                toggle_close_behavior "keep_alive"
            }
        "#,
    )]));

    assert_eq!(
        specs.request_from_message("toggle", Some("btm")),
        Err(PopupMessageRequestError::InvalidConfiguredSpec(
            "btm".into()
        ))
    );
}

#[test]
fn configured_spec_defaults_to_single_spec_without_payload() {
    let specs = ConfiguredPopupSpecs::from_configuration(&config(&[(
        "popups",
        r#"
            lazygit {
                command "lazygit"
            }
        "#,
    )]));

    let request = specs
        .request_from_message("open", None)
        .expect("single configured request");

    assert_eq!(request.action, TransientPopupAction::Open);
    assert_eq!(request.spec.id, "lazygit");
    assert_eq!(request.spec.pane_title, "lazygit_popup");
    assert_eq!(request.spec.width_percent, 90);
    assert_eq!(request.spec.height_percent, 85);
}

#[test]
fn configured_spec_returns_invalid_config_for_bad_percent() {
    let specs = ConfiguredPopupSpecs::from_configuration(&config(&[(
        "popups",
        r#"
            gitui {
                command "gitui"
                width_percent 101
            }
        "#,
    )]));

    assert_eq!(
        specs.request_from_message("toggle", Some("gitui")),
        Err(PopupMessageRequestError::InvalidConfiguredSpec(
            "gitui".into()
        ))
    );
}

#[test]
// invalid plugin-level defaults fail visibly instead of being ignored.
fn popup_defaults_return_invalid_config_for_bad_margin() {
    let specs = ConfiguredPopupSpecs::from_configuration(&config(&[
        (
            "popup_defaults",
            r#"
                side_margin "wide"
            "#,
        ),
        (
            "popups",
            r#"
                gitui {
                    command "gitui"
                }
            "#,
        ),
    ]));

    assert_eq!(
        specs.request_from_message("toggle", Some("gitui")),
        Err(PopupMessageRequestError::InvalidConfiguredSpec(
            "gitui".into()
        ))
    );
}

#[test]
// invalid plugin-level hook defaults fail visibly instead of being ignored.
fn popup_defaults_return_invalid_config_for_bad_hook() {
    let specs = ConfiguredPopupSpecs::from_configuration(&config(&[
        (
            "popup_defaults",
            r#"
                on_hide {
                    arg_1 "hide"
                }
            "#,
        ),
        (
            "popups",
            r#"
                gitui {
                    command "gitui"
                }
            "#,
        ),
    ]));

    assert_eq!(
        specs.request_from_message("toggle", Some("gitui")),
        Err(PopupMessageRequestError::InvalidConfiguredSpec(
            "gitui".into()
        ))
    );
}

#[test]
fn raw_json_request_still_works_for_generated_callers() {
    let specs = ConfiguredPopupSpecs::default();
    let payload = r#"{
        "action": "close",
        "spec": {
            "id": "gitui",
            "pane_title": "gitui_popup",
            "command_marker": "gitui",
            "command": ["gitui"],
            "cwd": ".",
            "on_hide": {
                "command": ["hook", "hide"]
            },
            "toggle_close_behavior": "hide",
            "width_percent": 90,
            "height_percent": 85
        }
    }"#;

    let request = specs
        .request_from_message("transient_popup", Some(payload))
        .expect("raw request");

    assert_eq!(request.action, TransientPopupAction::Close);
    assert_eq!(request.spec.id, "gitui");
    assert_eq!(
        request.spec.toggle_close_behavior,
        TransientPopupToggleCloseBehavior::Hide
    );
    assert_eq!(
        request
            .spec
            .on_hide
            .as_ref()
            .and_then(|hook| hook.launch_plan("/repo"))
            .expect("hide hook plan")
            .command,
        vec!["hook", "hide"]
    );
}

#[test]
fn toggle_plan_respects_tab_wide_floating_visibility() {
    let specs = ConfiguredPopupSpecs::from_configuration(&config(&[(
        "popups",
        r#"
            gitui {
                command "gitui"
            }
        "#,
    )]));
    let request = specs
        .request_from_message("toggle", Some("gitui"))
        .expect("request");
    let focused = [transient_pane(11, "other", Some("gitui"), true)];
    let unfocused = [transient_pane(12, "other", Some("gitui"), false)];
    let suppressed = [suppressed_transient_pane(13, "other", Some("gitui"))];

    assert_eq!(
        resolve_transient_toggle_plan_by_identity(&focused, request.spec.identity(), true),
        TransientTogglePlan::ToggleFocused(11)
    );
    assert_eq!(
        resolve_transient_toggle_plan_by_identity(&focused, request.spec.identity(), false),
        TransientTogglePlan::Focus(11),
        "a globally hidden floating layer must override the stale pane focus bit"
    );
    assert_eq!(
        resolve_transient_toggle_plan_by_identity(&unfocused, request.spec.identity(), true),
        TransientTogglePlan::Focus(12)
    );
    assert_eq!(
        resolve_transient_toggle_plan_by_identity(&suppressed, request.spec.identity(), false),
        TransientTogglePlan::Focus(13)
    );
    assert_eq!(
        resolve_transient_toggle_plan_by_identity::<i32>(&[], request.spec.identity(), false),
        TransientTogglePlan::Open
    );
    assert_eq!(
        select_transient_pane_by_identity(&focused, request.spec.identity()),
        Some(TransientPaneState {
            pane_id: 11,
            is_focused: true,
        })
    );
}

#[test]
fn keep_alive_popup_cwd_uses_launch_state_before_process_cwd() {
    assert!(
        !should_restart_popup_for_cwd(true, Some("/repo"), Some("/repo/subdir"), "/repo"),
        "application navigation does not change the popup launch cwd"
    );
    assert!(
        should_restart_popup_for_cwd(true, Some("/old"), Some("/old/subdir"), "/repo"),
        "launch cwd mismatch restarts the hidden keep-alive pane"
    );
    assert!(
        should_restart_popup_for_cwd(true, None, Some("/old"), "/repo"),
        "live process cwd remains the compatibility fallback"
    );
    assert!(
        !should_restart_popup_for_cwd(true, None, None, "/repo"),
        "unknown popup cwd keeps reuse"
    );
    assert!(
        !should_restart_popup_for_cwd(false, Some("/old"), Some("/old/subdir"), "/repo"),
        "legacy visible popups keep their focus-derived cwd"
    );
}

#[test]
// visible popup identity wins over a stale hidden candidate for the same spec.
fn transient_selection_prefers_visible_popup_over_suppressed_popup() {
    let panes = [
        suppressed_transient_pane(10, "yzx_btm", Some("yzx popup_run btm")),
        transient_pane(11, "yzx_btm", Some("yzx popup_run btm"), false),
    ];

    assert_eq!(
        select_transient_pane_by_identity(
            &panes,
            TransientPaneIdentityView {
                pane_title: "yzx_btm",
                command_marker: Some("popup_run btm"),
            }
        ),
        Some(TransientPaneState {
            pane_id: 11,
            is_focused: false,
        })
    );
}

#[test]
fn selects_displaced_configured_popup_panes_for_cleanup() {
    let specs = ConfiguredPopupSpecs::from_configuration(&config(&[(
        "popups",
        r#"
            top_popup {
                command "yzx"
                arg_1 "config"
                arg_2 "ui"
            }
            bottom_popup {
                command "lazygit"
            }
        "#,
    )]));
    let request = specs
        .request_from_message("toggle", Some("bottom_popup"))
        .expect("request");
    let panes = [
        transient_pane(11, "top_popup_popup", Some("yzx config ui"), false),
        transient_pane(22, "bottom_popup_popup", Some("lazygit"), true),
    ];

    assert_eq!(
        specs.select_other_configured_panes(&panes, request.spec.id.as_str(), Some(22)),
        vec![TransientPaneDisplacementCandidate {
            pane_id: 11,
            on_close: None,
            on_hide: None,
            toggle_close_behavior: TransientPopupToggleCloseBehavior::Close,
        }]
    );
}

#[test]
// hidden keep-alive panes are live state, not displaced visible popup clutter.
fn displaced_popup_cleanup_ignores_suppressed_popup_panes() {
    let specs = keep_alive_and_gitui_specs();
    let request = specs
        .request_from_message("toggle", Some("gitui"))
        .expect("request");
    let panes = [
        suppressed_transient_pane(10, "process_monitor_popup", Some("yzx popup_run btm")),
        transient_pane(11, "gitui_popup", Some("gitui"), true),
    ];

    assert_eq!(
        specs.select_other_configured_panes(&panes, request.spec.id.as_str(), Some(11)),
        Vec::<TransientPaneDisplacementCandidate<'_, i32>>::new()
    );
}

#[test]
// displaced keep-alive popups must hide instead of losing process state.
fn displaced_popup_cleanup_marks_visible_keep_alive_popup_for_hiding() {
    let specs = keep_alive_and_gitui_specs();
    let panes = [
        transient_pane(
            10,
            "process_monitor_popup",
            Some("yzx popup_run btm"),
            false,
        ),
        transient_pane(11, "gitui_popup", Some("gitui"), true),
    ];

    assert_eq!(
        specs.select_other_configured_panes(&panes, "gitui", Some(11)),
        vec![TransientPaneDisplacementCandidate {
            pane_id: 10,
            on_close: None,
            on_hide: None,
            toggle_close_behavior: TransientPopupToggleCloseBehavior::Hide,
        }]
    );
}

#[test]
// displaced hide-mode popups carry their on_hide hook plan.
fn displaced_keep_alive_popup_includes_on_hide_hook() {
    let specs = ConfiguredPopupSpecs::from_configuration(&config(&[(
        "popups",
        r#"
            process_monitor {
                command "btm"
                toggle_close_behavior "hide"
                on_hide {
                    command "hook"
                    arg_1 "hidden"
                }
            }
            gitui {
                command "gitui"
            }
        "#,
    )]));
    let panes = [
        transient_pane(10, "process_monitor_popup", Some("btm"), false),
        transient_pane(11, "gitui_popup", Some("gitui"), true),
    ];
    let candidates = specs.select_other_configured_panes(&panes, "gitui", Some(11));

    assert_eq!(candidates.len(), 1);
    assert_eq!(candidates[0].pane_id, 10);
    assert_eq!(
        candidates[0].toggle_close_behavior,
        TransientPopupToggleCloseBehavior::Hide
    );
    assert_eq!(
        candidates[0]
            .on_hide
            .and_then(|hook| hook.launch_plan("/repo"))
            .expect("hide hook plan")
            .command,
        vec!["hook", "hidden"]
    );
}

#[test]
fn displaced_popup_cleanup_deduplicates_overlapping_identity_matches() {
    let specs = ConfiguredPopupSpecs::from_configuration(&config(&[(
        "popups",
        r#"
            first {
                command "yzx"
                command_marker "shared"
                pane_title "shared_popup"
            }
            second {
                command "shared"
                command_marker "shared"
                pane_title "also_shared_popup"
            }
            active {
                command "lazygit"
            }
        "#,
    )]));
    let panes = [
        transient_pane(11, "shared_popup", Some("shared command"), false),
        transient_pane(22, "active_popup", Some("lazygit"), true),
    ];

    assert_eq!(
        specs.select_other_configured_panes(&panes, "active", Some(22)),
        vec![TransientPaneDisplacementCandidate {
            pane_id: 11,
            on_close: None,
            on_hide: None,
            toggle_close_behavior: TransientPopupToggleCloseBehavior::Close,
        }]
    );
}
