//! Popup specs, requests, pane selection and launch planning.
pub mod config;
pub mod configured;
pub mod laws;
pub mod launch;
pub mod raw_request;
pub mod selection;
pub mod types;

pub use configured::ConfiguredPopupSpecs;
pub use launch::{resolve_transient_launch_plan, should_restart_popup_for_cwd};
pub use selection::{
    resolve_transient_toggle_plan_by_identity, select_transient_pane_by_identity,
};
pub use types::opt_text;
pub use types::{
    PopupMessageRequestError, TransientPaneDisplacementCandidate, TransientPaneGeometry,
    TransientPaneIdentityView, TransientPaneLaunchPlan, TransientPaneLaunchRequest,
    TransientPaneSnapshot, TransientPaneState, TransientPopupAction, TransientPopupCommandHook,
    TransientPopupCommandHookPlan, TransientPopupPipeRequest, TransientPopupSpec,
    TransientPopupToggleCloseBehavior, TransientTogglePlan,
};
