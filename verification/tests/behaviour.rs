use std::collections::BTreeMap;

use yazelix_zellij_popup::popup_contract::{
    resolve_transient_launch_plan, resolve_transient_toggle_plan_by_identity,
    select_transient_pane_by_identity, should_restart_popup_for_cwd, ConfiguredPopupSpecs,
    PopupMessageRequestError, TransientPaneGeometry, TransientPaneIdentityView,
    TransientPaneLaunchRequest, TransientPaneSnapshot, TransientPaneState, TransientPopupAction,
    TransientPopupCommandHook, TransientTogglePlan,
};
use yazelix_zellij_popup::text::{format_i64, format_usize, parse_usize, trim_str};
use yazelix_zellij_popup::{bounded_margin, floating_coordinate_values, PopupViewport};

fn settings(values: &[(&str, &str)]) -> BTreeMap<String, String> {
    values
        .iter()
        .map(|(key, value)| ((*key).to_string(), (*value).to_string()))
        .collect()
}

fn floating<'a>(
    pane_id: i32,
    title: &'a str,
    command: Option<&'a str>,
    is_focused: bool,
) -> TransientPaneSnapshot<'a, i32> {
    TransientPaneSnapshot {
        pane_id,
        title,
        terminal_command: command,
        is_plugin: false,
        exited: false,
        is_floating: true,
        is_suppressed: false,
        is_focused,
    }
}

fn two_popups() -> ConfiguredPopupSpecs {
    ConfiguredPopupSpecs::from_configuration(&settings(&[(
        "popups",
        r#"
            gitui {
                command "gitui"
            }
            lazygit {
                command "lazygit"
                width_percent 0
            }
        "#,
    )]))
}

#[test]
fn unknown_pipe_name_is_an_unknown_action() {
    let specs = two_popups();
    assert_eq!(
        specs.request_from_message("reload", Some("gitui")),
        Err(PopupMessageRequestError::UnknownAction)
    );
}

#[test]
fn unconfigured_popup_id_is_missing() {
    let specs = two_popups();
    assert_eq!(
        specs.request_from_message("toggle", Some("btm")),
        Err(PopupMessageRequestError::MissingConfiguredSpec("btm".to_string()))
    );
}

#[test]
fn invalid_popup_id_is_refused_as_invalid() {
    let specs = two_popups();
    assert_eq!(
        specs.request_from_message("open", Some("lazygit")),
        Err(PopupMessageRequestError::InvalidConfiguredSpec("lazygit".to_string()))
    );
}

#[test]
fn missing_payload_without_default_popup_is_invalid() {
    let specs = two_popups();
    assert_eq!(
        specs.request_from_message("toggle", None),
        Err(PopupMessageRequestError::InvalidPayload)
    );
    assert_eq!(
        specs.request_from_message("toggle", Some("   ")),
        Err(PopupMessageRequestError::InvalidPayload)
    );
}

#[test]
fn json_payloads_are_checked() {
    let specs = two_popups();
    for payload in [
        r#"{"id":""}"#,
        r#"{"id":"gitui","cwd":"   "}"#,
        r#"{"id":"gitui","extra":1}"#,
        r#"{"cwd":"/repo"}"#,
        r#"{"id":"gitui""#,
    ] {
        assert_eq!(
            specs.request_from_message("toggle", Some(payload)),
            Err(PopupMessageRequestError::InvalidPayload),
            "{payload}"
        );
    }
    let request = specs
        .request_from_message("close", Some(r#"  {"id":" gitui ","cwd":" /tmp "}  "#))
        .expect("json payload");
    assert_eq!(request.action, TransientPopupAction::Close);
    assert_eq!(request.spec.id, "gitui");
    assert_eq!(request.cwd.as_deref(), Some("/tmp"));
}

#[test]
fn payload_with_surrounding_whitespace_names_the_popup() {
    let specs = two_popups();
    let request = specs
        .request_from_message("focus", Some("  gitui \n"))
        .expect("named request");
    assert_eq!(request.action, TransientPopupAction::Focus);
    assert_eq!(request.spec.id, "gitui");
    assert_eq!(request.spec.pane_title, "gitui_popup");
    assert_eq!(request.spec.command_marker.as_deref(), Some("gitui"));
    assert!(request.args.is_empty());
    assert_eq!(request.cwd, None);
}

#[test]
fn default_popup_is_chosen_among_several_without_payload() {
    let specs = ConfiguredPopupSpecs::from_configuration(&settings(&[
        ("popup", r#"command "gitui""#),
        (
            "popups",
            r#"
                btm {
                    command "btm"
                }
            "#,
        ),
    ]));
    let request = specs.request_from_message("toggle", None).expect("default");
    assert_eq!(request.spec.id, "default");
    assert_eq!(request.spec.pane_title, "default_popup");
    let request = specs.request_from_message("toggle", Some("btm")).expect("btm");
    assert_eq!(request.spec.command, vec!["btm"]);
}

#[test]
fn named_default_popup_adds_to_the_popup_block() {
    let specs = ConfiguredPopupSpecs::from_configuration(&settings(&[
        ("popup", r#"command "gitui""#),
        (
            "popups",
            r#"
                default {
                    width_percent 50
                }
            "#,
        ),
    ]));
    let request = specs.request_from_message("toggle", None).expect("default");
    assert_eq!(request.spec.command, vec!["gitui"]);
    assert_eq!(request.spec.width_percent, 50);
}

#[test]
fn popup_block_that_is_not_kdl_is_invalid() {
    let specs = ConfiguredPopupSpecs::from_configuration(&settings(&[("popup", "command \"gitui")]));
    assert_eq!(
        specs.request_from_message("toggle", None),
        Err(PopupMessageRequestError::InvalidConfiguredSpec("default".to_string()))
    );
}

#[test]
fn arguments_are_ordered_by_index_and_arg_zero_is_invalid() {
    let specs = ConfiguredPopupSpecs::from_configuration(&settings(&[(
        "popups",
        r#"
            ordered {
                command "yzx"
                arg_2 "second"
                arg_1 "first"
            }
            zero {
                command "yzx"
                arg_0 "nothing"
            }
        "#,
    )]));
    let request = specs.request_from_message("toggle", Some("ordered")).expect("ordered");
    assert_eq!(request.spec.command, vec!["yzx", "first", "second"]);
    assert_eq!(
        specs.request_from_message("toggle", Some("zero")),
        Err(PopupMessageRequestError::InvalidConfiguredSpec("zero".to_string()))
    );
}

#[test]
fn raw_request_with_unknown_field_or_blank_command_is_refused() {
    let specs = ConfiguredPopupSpecs::default();
    let unknown = r#"{"action":"open","spec":{"id":"a","pane_title":"a","command":["a"],"width_percent":90,"height_percent":85,"colour":"red"}}"#;
    let blank = r#"{"action":"open","spec":{"id":"a","pane_title":"a","command":["  "],"width_percent":90,"height_percent":85}}"#;
    let fine = r#"{"action":"open","spec":{"id":"a","pane_title":"a","command":["a","-x"],"width_percent":90,"height_percent":85},"args":["b"],"cwd":"/w"}"#;
    assert_eq!(
        specs.request_from_message("transient_popup", Some(unknown)),
        Err(PopupMessageRequestError::InvalidPayload)
    );
    assert_eq!(
        specs.request_from_message("transient_popup", Some(blank)),
        Err(PopupMessageRequestError::InvalidPayload)
    );
    assert_eq!(
        specs.request_from_message("transient_popup", None),
        Err(PopupMessageRequestError::InvalidPayload)
    );
    let request = specs
        .request_from_message("transient_popup", Some(fine))
        .expect("raw request");
    let plan = request.launch_plan("/repo").expect("plan");
    assert_eq!(plan.command_path, "a");
    assert_eq!(plan.args, vec!["-x", "b"]);
    assert_eq!(plan.cwd, "/w");
}

#[test]
fn launch_needs_a_known_cwd() {
    let specs = two_popups();
    let request = specs.request_from_message("toggle", Some("gitui")).expect("gitui");
    assert_eq!(request.launch_plan("   "), None);
    let plan = request.launch_plan("  /repo/ ").expect("plan");
    assert_eq!(plan.cwd, "/repo/");
    assert_eq!(
        plan.geometry,
        TransientPaneGeometry {
            width_percent: 90,
            height_percent: 85,
            side_margin: 0,
            vertical_margin: 0,
        }
    );
}

#[test]
fn launch_request_command_path_is_trimmed() {
    let geometry = TransientPaneGeometry {
        width_percent: 50,
        height_percent: 50,
        side_margin: 0,
        vertical_margin: 0,
    };
    let plan = resolve_transient_launch_plan(TransientPaneLaunchRequest {
        command_path: "  gitui ".to_string(),
        args: vec!["--watch".to_string()],
        requested_cwd: Some(" sub ".to_string()),
        fallback_cwd: "/repo".to_string(),
        geometry,
    })
    .expect("plan");
    assert_eq!(plan.command_path, "gitui");
    assert_eq!(plan.cwd, "/repo/sub");
    assert_eq!(
        resolve_transient_launch_plan(TransientPaneLaunchRequest {
            command_path: "  ".to_string(),
            args: vec![],
            requested_cwd: None,
            fallback_cwd: "/repo".to_string(),
            geometry,
        }),
        None
    );
}

#[test]
fn hook_plan_resolves_its_cwd_and_refuses_blank_words() {
    let hook = TransientPopupCommandHook {
        command: vec!["hook".to_string(), "run".to_string()],
        cwd: Some("/abs".to_string()),
    };
    let plan = hook.launch_plan("").expect("absolute cwd needs no fallback");
    assert_eq!(plan.cwd, "/abs");
    let blank = TransientPopupCommandHook {
        command: vec!["hook".to_string(), " ".to_string()],
        cwd: None,
    };
    assert_eq!(blank.launch_plan("/repo"), None);
    let relative = TransientPopupCommandHook {
        command: vec!["hook".to_string()],
        cwd: Some("rel".to_string()),
    };
    assert_eq!(relative.launch_plan(""), None);
}

#[test]
fn toggle_opens_when_no_live_pane_carries_the_identity() {
    let identity = TransientPaneIdentityView {
        pane_title: "gitui_popup",
        command_marker: Some("gitui"),
    };
    let mut plugin = floating(1, "gitui_popup", Some("gitui"), true);
    plugin.is_plugin = true;
    let mut exited = floating(2, "gitui_popup", Some("gitui"), true);
    exited.exited = true;
    let mut tiled = floating(3, "gitui_popup", Some("gitui"), true);
    tiled.is_floating = false;
    let panes = [plugin, exited, tiled];
    assert_eq!(
        resolve_transient_toggle_plan_by_identity(&panes, identity, true),
        TransientTogglePlan::Open
    );
}

#[test]
fn selection_prefers_focus_then_the_last_of_a_tie() {
    let identity = TransientPaneIdentityView {
        pane_title: "t",
        command_marker: None,
    };
    let panes = [
        floating(1, " t ", None, false),
        floating(2, "t", None, true),
        floating(3, "t", None, false),
        floating(4, "t", None, true),
    ];
    assert_eq!(
        select_transient_pane_by_identity(&panes, identity),
        Some(TransientPaneState {
            pane_id: 4,
            is_focused: true,
        })
    );
}

#[test]
fn restart_ignores_trailing_slashes_and_whitespace() {
    assert!(!should_restart_popup_for_cwd(true, Some(" /repo/ "), None, "/repo"));
    assert!(!should_restart_popup_for_cwd(true, Some("/repo"), Some("/x"), "/repo///"));
    assert!(!should_restart_popup_for_cwd(true, Some("/old"), None, "   "));
    assert!(!should_restart_popup_for_cwd(true, Some("  "), Some("/old"), "/repo"));
}

#[test]
fn margins_are_capped_to_leave_a_cell() {
    assert_eq!(bounded_margin(99, 4), 1);
    assert_eq!(bounded_margin(99, 3), 1);
    assert_eq!(bounded_margin(2, 80), 2);
    assert_eq!(bounded_margin(5, 0), 0);
    assert_eq!(bounded_margin(5, 1), 0);
}

#[test]
fn coordinate_values_in_cells_and_percent() {
    let geometry = TransientPaneGeometry {
        width_percent: 100,
        height_percent: 100,
        side_margin: 2,
        vertical_margin: 1,
    };
    let cells = floating_coordinate_values(
        geometry,
        Some(PopupViewport {
            columns: 80,
            rows: 24,
        }),
    );
    assert_eq!(cells.x.as_deref(), Some("2"));
    assert_eq!(cells.y.as_deref(), Some("2"));
    assert_eq!(cells.width.as_deref(), Some("76"));
    assert_eq!(cells.height.as_deref(), Some("22"));
    let percent = floating_coordinate_values(geometry, None);
    assert_eq!(percent.x, None);
    assert_eq!(percent.y, None);
    assert_eq!(percent.width.as_deref(), Some("100%"));
    assert_eq!(percent.height.as_deref(), Some("100%"));
    let no_margin = floating_coordinate_values(
        TransientPaneGeometry {
            width_percent: 7,
            height_percent: 13,
            side_margin: 0,
            vertical_margin: 0,
        },
        Some(PopupViewport { columns: 10, rows: 10 }),
    );
    assert_eq!(no_margin.x, None);
    assert_eq!(no_margin.width.as_deref(), Some("7%"));
    assert_eq!(no_margin.height.as_deref(), Some("13%"));
}

#[test]
fn decimal_text_reads_back() {
    for n in [0usize, 7, 10, 99, 100, 12345, usize::MAX] {
        let text = format_usize(n);
        assert_eq!(text, n.to_string());
        assert_eq!(parse_usize(&text), Some(n));
    }
    assert_eq!(format_i64(-42), "-42");
    assert_eq!(format_i64(i64::MIN), i64::MIN.to_string());
    assert_eq!(parse_usize("+12"), Some(12));
    assert_eq!(parse_usize("1 2"), None);
    assert_eq!(parse_usize(""), None);
    assert_eq!(parse_usize("18446744073709551616"), None);
    assert_eq!(trim_str("\u{3000} a b \t"), "a b");
}

#[test]
fn popups_block_that_is_not_kdl_lists_popups_as_invalid() {
    let specs = ConfiguredPopupSpecs::from_configuration(&settings(&[("popups", "gitui {")]));
    assert_eq!(
        specs.request_from_message("toggle", Some("popups")),
        Err(PopupMessageRequestError::InvalidConfiguredSpec("popups".to_string()))
    );
    assert_eq!(
        specs.request_from_message("toggle", Some("gitui")),
        Err(PopupMessageRequestError::MissingConfiguredSpec("gitui".to_string()))
    );
}
