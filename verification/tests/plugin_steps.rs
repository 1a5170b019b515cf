use std::collections::BTreeMap;

use yazelix_zellij_popup::plugin::{
    active_tab, closed_result, displacement_action, focused_pane, live_launch_cwds,
    opened_pane_title, pane_update, popup_step, readiness, refusal_result, request_cwd,
    restart_hook, shown_popup_restarts, snapshots, terminal_panes, ActiveTab, DisplaceAction, PaneView,
    PipeResult, PopupStep, TabView, TerminalPane,
};
use yazelix_zellij_popup::popup_contract::{
    ConfiguredPopupSpecs, PopupMessageRequestError, TransientPaneDisplacementCandidate,
    TransientPopupAction,
    TransientPopupCommandHook, TransientPopupToggleCloseBehavior,
};
use yazelix_zellij_popup::PopupViewport;

fn specs() -> ConfiguredPopupSpecs {
    let mut configuration = BTreeMap::new();
    configuration.insert(
        "popups".to_string(),
        r#"
            btm {
                command "btm"
                toggle_close_behavior "hide"
            }
            gitui {
                command "gitui"
                pane_title "  gitui_popup "
            }
            plain {
                command "plain"
                preserve_terminal_title true
            }
        "#
        .to_string(),
    );
    ConfiguredPopupSpecs::from_configuration(&configuration)
}

fn pane(id: u32, title: &str, is_focused: bool, is_floating: bool, is_suppressed: bool) -> TerminalPane {
    TerminalPane {
        pane_id: id,
        title: title.to_string(),
        terminal_command: None,
        is_focused,
        is_floating,
        is_suppressed,
    }
}

#[test]
fn answers_have_their_pipe_texts() {
    assert_eq!(PipeResult::Closed.as_str(), "closed");
    assert_eq!(
        PipeResult::ClosedFloatingCleanupFailed.as_str(),
        "closed_floating_cleanup_failed"
    );
    assert_eq!(PipeResult::PermissionsDenied.as_str(), "permissions_denied");
    assert_eq!(PipeResult::Focused.as_str(), "focused");
    assert_eq!(PipeResult::Hidden.as_str(), "hidden");
    assert_eq!(PipeResult::InvalidConfig.as_str(), "invalid_config");
    assert_eq!(PipeResult::InvalidPayload.as_str(), "invalid_payload");
    assert_eq!(PipeResult::Missing.as_str(), "missing");
    assert_eq!(PipeResult::MissingConfig.as_str(), "missing_config");
    assert_eq!(PipeResult::NotReady.as_str(), "not_ready");
    assert_eq!(PipeResult::Opened.as_str(), "opened");
}

#[test]
fn refusals_are_answered_except_unknown_actions() {
    assert_eq!(refusal_result(&PopupMessageRequestError::UnknownAction), None);
    assert_eq!(
        refusal_result(&PopupMessageRequestError::InvalidPayload),
        Some(PipeResult::InvalidPayload)
    );
    assert_eq!(
        refusal_result(&PopupMessageRequestError::InvalidConfiguredSpec("x".to_string())),
        Some(PipeResult::InvalidConfig)
    );
    assert_eq!(
        refusal_result(&PopupMessageRequestError::MissingConfiguredSpec("x".to_string())),
        Some(PipeResult::MissingConfig)
    );
}

#[test]
fn the_first_active_tab_is_used() {
    let tabs = [
        TabView {
            position: 0,
            active: false,
            viewport_columns: 10,
            viewport_rows: 5,
            are_floating_panes_visible: false,
        },
        TabView {
            position: 1,
            active: true,
            viewport_columns: 80,
            viewport_rows: 24,
            are_floating_panes_visible: true,
        },
        TabView {
            position: 2,
            active: true,
            viewport_columns: 1,
            viewport_rows: 1,
            are_floating_panes_visible: false,
        },
    ];
    let tab = ActiveTab {
        position: 1,
        viewport: PopupViewport {
            columns: 80,
            rows: 24,
        },
        floating_panes_visible: true,
    };
    assert_eq!(active_tab(&tabs), Some(tab));
    assert_eq!(active_tab(&tabs[..1]), None);
    assert_eq!(readiness(true, Some(tab)), Ok(tab));
    assert_eq!(readiness(false, Some(tab)), Err(PipeResult::PermissionsDenied));
    assert_eq!(readiness(true, None), Err(PipeResult::NotReady));
}

#[test]
fn plugin_and_exited_panes_are_dropped() {
    let view = |id: u32, is_plugin: bool, exited: bool| PaneView {
        id,
        title: format!("pane {id}"),
        terminal_command: Some("cmd".to_string()),
        is_plugin,
        exited,
        is_focused: id == 3,
        is_floating: false,
        is_suppressed: false,
    };
    let panes = terminal_panes(&[view(1, true, false), view(2, false, true), view(3, false, false)]);
    assert_eq!(
        panes,
        vec![TerminalPane {
            pane_id: 3,
            title: "pane 3".to_string(),
            terminal_command: Some("cmd".to_string()),
            is_focused: true,
            is_floating: false,
            is_suppressed: false,
        }]
    );
    assert_eq!(focused_pane(&panes), Some(3));
    assert_eq!(focused_pane(&[]), None);
    let views = snapshots(&panes);
    assert_eq!(views.len(), 1);
    assert_eq!(views[0].title, "pane 3");
    assert_eq!(views[0].terminal_command, Some("cmd"));
    assert!(!views[0].is_plugin);
}

#[test]
fn toggle_steps_follow_the_popup_pane() {
    let specs = specs();
    let gitui = specs.request_from_message("toggle", Some("gitui")).unwrap();
    let btm = specs.request_from_message("toggle", Some("btm")).unwrap();

    let none: [TerminalPane; 0] = [];
    assert_eq!(popup_step(&gitui, &snapshots(&none), true), PopupStep::Open);

    let focused = [pane(7, "gitui_popup", true, true, false)];
    assert_eq!(
        popup_step(&gitui, &snapshots(&focused), true),
        PopupStep::Close { pane_id: 7 }
    );
    assert_eq!(
        popup_step(&gitui, &snapshots(&focused), false),
        PopupStep::Show {
            pane_id: 7,
            is_suppressed: false
        }
    );

    let hidden = [pane(8, "btm_popup", false, false, true)];
    assert_eq!(
        popup_step(&btm, &snapshots(&hidden), true),
        PopupStep::Show {
            pane_id: 8,
            is_suppressed: true
        }
    );
    let shown = [pane(8, "btm_popup", true, true, false)];
    assert_eq!(
        popup_step(&btm, &snapshots(&shown), true),
        PopupStep::Hide { pane_id: 8 }
    );
    assert_eq!(PopupStep::Hide { pane_id: 8 }.displacement(), Some(Some(8)));
    assert_eq!(PopupStep::Open.displacement(), Some(None));
    assert_eq!(PopupStep::Missing.displacement(), None);
}

#[test]
fn open_focus_and_close_steps() {
    let specs = specs();
    let panes = [pane(4, "gitui_popup", false, true, false)];
    let views = snapshots(&panes);
    let open = specs.request_from_message("open", Some("gitui")).unwrap();
    let focus = specs.request_from_message("focus", Some("gitui")).unwrap();
    let close = specs.request_from_message("close", Some("gitui")).unwrap();
    let close_btm = specs.request_from_message("close", Some("btm")).unwrap();
    assert_eq!(popup_step(&open, &views, true), PopupStep::Open);
    assert_eq!(
        popup_step(&focus, &views, true),
        PopupStep::Show {
            pane_id: 4,
            is_suppressed: false
        }
    );
    assert_eq!(popup_step(&close, &views, true), PopupStep::Close { pane_id: 4 });
    assert_eq!(popup_step(&close_btm, &views, true), PopupStep::Missing);
    assert_eq!(
        popup_step(
            &specs.request_from_message("focus", Some("btm")).unwrap(),
            &views,
            true
        ),
        PopupStep::Missing
    );
}

#[test]
fn launch_details_of_a_request() {
    let specs = specs();
    let gitui = specs.request_from_message("toggle", Some("gitui")).unwrap();
    let plain = specs.request_from_message("toggle", Some("plain")).unwrap();
    assert_eq!(opened_pane_title(&gitui), "gitui_popup");
    assert_eq!(opened_pane_title(&plain), "");
    assert_eq!(request_cwd(&gitui, "/repo"), "/repo");
    assert_eq!(request_cwd(&gitui, "  "), "  ");
    assert!(shown_popup_restarts(true, &gitui, Some("/old"), None, "/repo"));
    assert!(!shown_popup_restarts(false, &gitui, Some("/old"), None, "/repo"));
    let with_cwd = specs
        .request_from_message("focus", Some(r#"{"id":"gitui","cwd":"/repo"}"#))
        .unwrap();
    assert!(shown_popup_restarts(false, &with_cwd, Some("/old"), None, "/repo"));
    assert_eq!(closed_result(true), PipeResult::Closed);
    assert_eq!(closed_result(false), PipeResult::ClosedFloatingCleanupFailed);
}

#[test]
fn launch_cwds_of_gone_panes_are_forgotten() {
    let tabs = vec![
        (0, vec![pane(1, "a", false, true, false)]),
        (1, vec![]),
        (2, vec![pane(5, "b", true, false, false), pane(9, "c", false, false, true)]),
    ];
    let cwds = vec![
        (9, "/nine".to_string()),
        (2, "/two".to_string()),
        (1, "/one".to_string()),
        (7, "/seven".to_string()),
    ];
    assert_eq!(
        live_launch_cwds(&cwds, &tabs),
        vec![(9, "/nine".to_string()), (1, "/one".to_string())]
    );
    assert_eq!(live_launch_cwds(&cwds, &[]), vec![]);
}

#[test]
fn displaced_popups_close_or_hide_with_their_hook() {
    let close_hook = TransientPopupCommandHook {
        command: vec!["on_close".to_string()],
        cwd: None,
    };
    let hide_hook = TransientPopupCommandHook {
        command: vec!["on_hide".to_string()],
        cwd: None,
    };
    let closing = TransientPaneDisplacementCandidate {
        pane_id: 3u32,
        on_close: Some(&close_hook),
        on_hide: Some(&hide_hook),
        toggle_close_behavior: TransientPopupToggleCloseBehavior::Close,
    };
    let hiding = TransientPaneDisplacementCandidate {
        toggle_close_behavior: TransientPopupToggleCloseBehavior::Hide,
        ..closing
    };
    for action in [TransientPopupAction::Toggle, TransientPopupAction::Close] {
        assert_eq!(
            displacement_action(&closing, action.clone()),
            (DisplaceAction::Close, Some(&close_hook))
        );
        assert_eq!(
            displacement_action(&hiding, action),
            (DisplaceAction::Hide, Some(&hide_hook))
        );
    }
    for action in [TransientPopupAction::Open, TransientPopupAction::Focus] {
        assert_eq!(
            displacement_action(&closing, action.clone()),
            (DisplaceAction::Close, None)
        );
        assert_eq!(
            displacement_action(&hiding, action),
            (DisplaceAction::Hide, Some(&hide_hook))
        );
    }
}

#[test]
fn pane_update_keeps_live_panes_and_their_launch_cwds() {
    let view = |id: u32, exited: bool| PaneView {
        id,
        title: format!("pane {id}"),
        terminal_command: None,
        is_plugin: false,
        exited,
        is_focused: false,
        is_floating: true,
        is_suppressed: false,
    };
    let update = pane_update(
        &[(3, vec![view(1, false), view(2, true)]), (0, vec![view(4, false)])],
        &[(2, "/two".to_string()), (4, "/four".to_string()), (8, "/eight".to_string())],
    );
    assert_eq!(update.terminal_panes_by_tab.len(), 2);
    assert_eq!(update.terminal_panes_by_tab[0].0, 3);
    assert_eq!(update.terminal_panes_by_tab[0].1.len(), 1);
    assert_eq!(update.terminal_panes_by_tab[0].1[0].pane_id, 1);
    assert_eq!(update.terminal_panes_by_tab[1].0, 0);
    assert_eq!(update.terminal_panes_by_tab[1].1[0].pane_id, 4);
    assert_eq!(update.launch_cwds, vec![(4, "/four".to_string())]);
}

#[test]
fn restarting_a_popup_runs_on_close_only_for_toggle_or_close() {
    let mut configuration = BTreeMap::new();
    configuration.insert(
        "popups".to_string(),
        r#"
            gitui {
                command "gitui"
                on_close {
                    command "hook"
                }
            }
        "#
        .to_string(),
    );
    let specs = ConfiguredPopupSpecs::from_configuration(&configuration);
    for (pipe, runs) in [("toggle", true), ("close", true), ("focus", false), ("open", false)] {
        let request = specs.request_from_message(pipe, Some("gitui")).unwrap();
        assert_eq!(restart_hook(&request).is_some(), runs, "{pipe}");
        if runs {
            assert_eq!(restart_hook(&request).unwrap().command, vec!["hook"]);
        }
    }
}
