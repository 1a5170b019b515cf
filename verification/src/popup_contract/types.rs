//! The data of popup requests, pane snapshots and launch plans, with their views.
use vstd::prelude::*;

verus! {

/// What a pipe message asks of a popup.
#[derive(Clone, Debug, PartialEq, Eq, Structural)]
pub enum TransientPopupAction {
    Toggle,
    Open,
    Focus,
    Close,
}

/// What toggling a focused popup does to it: close its pane, or only hide it.
#[derive(Clone, Copy, Debug, PartialEq, Eq, Structural)]
pub enum TransientPopupToggleCloseBehavior {
    Close,
    Hide,
}

impl Default for TransientPopupToggleCloseBehavior {
    fn default() -> (r: Self)
        ensures
            r == TransientPopupToggleCloseBehavior::Close,
    {
        TransientPopupToggleCloseBehavior::Close
    }
}

/// A command run on a popup event, as argv, with an optional working directory.
#[derive(Clone, Debug, PartialEq, Eq)]
pub struct TransientPopupCommandHook {
    pub command: Vec<String>,
    pub cwd: Option<String>,
}

/// A popup: the command it runs, how its pane is recognised, and how it is placed.
#[derive(Clone, Debug, PartialEq, Eq)]
pub struct TransientPopupSpec {
    pub id: String,
    pub pane_title: String,
    pub preserve_terminal_title: bool,
    pub command_marker: Option<String>,
    pub command: Vec<String>,
    pub cwd: Option<String>,
    pub on_close: Option<TransientPopupCommandHook>,
    pub on_hide: Option<TransientPopupCommandHook>,
    pub toggle_close_behavior: TransientPopupToggleCloseBehavior,
    pub width_percent: usize,
    pub height_percent: usize,
    pub side_margin: usize,
    pub vertical_margin: usize,
}

/// An action on a popup, with extra arguments and an optional working directory.
#[derive(Clone, Debug, PartialEq, Eq)]
pub struct TransientPopupPipeRequest {
    pub action: TransientPopupAction,
    pub spec: TransientPopupSpec,
    pub args: Vec<String>,
    pub cwd: Option<String>,
}

/// Why a pipe message could not be turned into a popup request.
#[derive(Clone, Debug, PartialEq, Eq)]
pub enum PopupMessageRequestError {
    UnknownAction,
    MissingConfiguredSpec(String),
    InvalidConfiguredSpec(String),
    InvalidPayload,
}

/// How a popup's pane is recognised among the panes of a tab.
#[derive(Clone, Copy, Debug, PartialEq, Eq)]
pub struct TransientPaneIdentityView<'a> {
    pub pane_title: &'a str,
    pub command_marker: Option<&'a str>,
}

/// What the plugin knows of one pane.
#[derive(Clone, Copy, Debug, PartialEq, Eq)]
pub struct TransientPaneSnapshot<'a, Id> {
    pub pane_id: Id,
    pub title: &'a str,
    pub terminal_command: Option<&'a str>,
    pub is_plugin: bool,
    pub exited: bool,
    pub is_floating: bool,
    pub is_suppressed: bool,
    pub is_focused: bool,
}

/// A pane chosen as a popup's pane.
#[derive(Clone, Copy, Debug, PartialEq, Eq)]
pub struct TransientPaneState<Id> {
    pub pane_id: Id,
    pub is_focused: bool,
}

/// The pane of another configured popup, to be closed or hidden, with its hooks.
#[derive(Clone, Copy, Debug, PartialEq, Eq)]
pub struct TransientPaneDisplacementCandidate<'a, Id> {
    pub pane_id: Id,
    pub on_close: Option<&'a TransientPopupCommandHook>,
    pub on_hide: Option<&'a TransientPopupCommandHook>,
    pub toggle_close_behavior: TransientPopupToggleCloseBehavior,
}

/// What a toggle does: open a new pane, focus an existing one, or close or hide
/// the focused one.
#[derive(Clone, Copy, Debug, PartialEq, Eq)]
pub enum TransientTogglePlan<Id> {
    Open,
    Focus(Id),
    ToggleFocused(Id),
}

/// Size of a popup in percent of the tab, and its margins in cells.
#[derive(Clone, Copy, Debug, PartialEq, Eq, Structural)]
pub struct TransientPaneGeometry {
    pub width_percent: usize,
    pub height_percent: usize,
    pub side_margin: usize,
    pub vertical_margin: usize,
}

/// What is known before a popup's launch is planned.
#[derive(Clone, Debug, PartialEq, Eq)]
pub struct TransientPaneLaunchRequest {
    pub command_path: String,
    pub args: Vec<String>,
    pub requested_cwd: Option<String>,
    pub fallback_cwd: String,
    pub geometry: TransientPaneGeometry,
}

/// A popup launch: program, arguments, working directory and geometry.
#[derive(Clone, Debug, PartialEq, Eq)]
pub struct TransientPaneLaunchPlan {
    pub command_path: String,
    pub args: Vec<String>,
    pub cwd: String,
    pub geometry: TransientPaneGeometry,
}

/// A hook launch: argv and working directory.
#[derive(Clone, Debug, PartialEq, Eq)]
pub struct TransientPopupCommandHookPlan {
    pub command: Vec<String>,
    pub cwd: String,
}

// ---- views ----

/// The characters of an optional string.
pub open spec fn opt_text(o: Option<String>) -> Option<Seq<char>> {
    match o {
        Some(s) => Some(s@),
        None => None,
    }
}

/// The characters of an optional string slice.
pub open spec fn opt_str(o: Option<&str>) -> Option<Seq<char>> {
    match o {
        Some(s) => Some(s@),
        None => None,
    }
}

/// The characters of each string of a sequence.
pub open spec fn texts(v: Seq<String>) -> Seq<Seq<char>> {
    v.map_values(|s: String| s@)
}

#[verifier::ext_equal]
pub struct HookView {
    pub command: Seq<Seq<char>>,
    pub cwd: Option<Seq<char>>,
}

impl View for TransientPopupCommandHook {
    type V = HookView;

    open spec fn view(&self) -> HookView {
        HookView { command: texts(self.command@), cwd: opt_text(self.cwd) }
    }
}

pub open spec fn opt_hook(o: Option<TransientPopupCommandHook>) -> Option<HookView> {
    match o {
        Some(h) => Some(h@),
        None => None,
    }
}

#[verifier::ext_equal]
pub struct SpecView {
    pub id: Seq<char>,
    pub pane_title: Seq<char>,
    pub preserve_terminal_title: bool,
    pub command_marker: Option<Seq<char>>,
    pub command: Seq<Seq<char>>,
    pub cwd: Option<Seq<char>>,
    pub on_close: Option<HookView>,
    pub on_hide: Option<HookView>,
    pub toggle_close_behavior: TransientPopupToggleCloseBehavior,
    pub width_percent: usize,
    pub height_percent: usize,
    pub side_margin: usize,
    pub vertical_margin: usize,
}

impl View for TransientPopupSpec {
    type V = SpecView;

    open spec fn view(&self) -> SpecView {
        SpecView {
            id: self.id@,
            pane_title: self.pane_title@,
            preserve_terminal_title: self.preserve_terminal_title,
            command_marker: opt_text(self.command_marker),
            command: texts(self.command@),
            cwd: opt_text(self.cwd),
            on_close: opt_hook(self.on_close),
            on_hide: opt_hook(self.on_hide),
            toggle_close_behavior: self.toggle_close_behavior,
            width_percent: self.width_percent,
            height_percent: self.height_percent,
            side_margin: self.side_margin,
            vertical_margin: self.vertical_margin,
        }
    }
}

#[verifier::ext_equal]
pub struct RequestView {
    pub action: TransientPopupAction,
    pub spec: SpecView,
    pub args: Seq<Seq<char>>,
    pub cwd: Option<Seq<char>>,
}

impl View for TransientPopupPipeRequest {
    type V = RequestView;

    open spec fn view(&self) -> RequestView {
        RequestView {
            action: self.action,
            spec: self.spec@,
            args: texts(self.args@),
            cwd: opt_text(self.cwd),
        }
    }
}

#[verifier::ext_equal]
pub struct LaunchPlanView {
    pub command_path: Seq<char>,
    pub args: Seq<Seq<char>>,
    pub cwd: Seq<char>,
    pub geometry: TransientPaneGeometry,
}

impl View for TransientPaneLaunchPlan {
    type V = LaunchPlanView;

    open spec fn view(&self) -> LaunchPlanView {
        LaunchPlanView {
            command_path: self.command_path@,
            args: texts(self.args@),
            cwd: self.cwd@,
            geometry: self.geometry,
        }
    }
}

#[verifier::ext_equal]
pub struct LaunchRequestView {
    pub command_path: Seq<char>,
    pub args: Seq<Seq<char>>,
    pub requested_cwd: Option<Seq<char>>,
    pub fallback_cwd: Seq<char>,
    pub geometry: TransientPaneGeometry,
}

impl View for TransientPaneLaunchRequest {
    type V = LaunchRequestView;

    open spec fn view(&self) -> LaunchRequestView {
        LaunchRequestView {
            command_path: self.command_path@,
            args: texts(self.args@),
            requested_cwd: opt_text(self.requested_cwd),
            fallback_cwd: self.fallback_cwd@,
            geometry: self.geometry,
        }
    }
}

#[verifier::ext_equal]
pub struct HookPlanView {
    pub command: Seq<Seq<char>>,
    pub cwd: Seq<char>,
}

impl View for TransientPopupCommandHookPlan {
    type V = HookPlanView;

    open spec fn view(&self) -> HookPlanView {
        HookPlanView { command: texts(self.command@), cwd: self.cwd@ }
    }
}

#[verifier::ext_equal]
pub enum MessageErrorView {
    UnknownAction,
    MissingConfiguredSpec(Seq<char>),
    InvalidConfiguredSpec(Seq<char>),
    InvalidPayload,
}

impl View for PopupMessageRequestError {
    type V = MessageErrorView;

    open spec fn view(&self) -> MessageErrorView {
        match self {
            PopupMessageRequestError::UnknownAction => MessageErrorView::UnknownAction,
            PopupMessageRequestError::MissingConfiguredSpec(id) => MessageErrorView::MissingConfiguredSpec(id@),
            PopupMessageRequestError::InvalidConfiguredSpec(id) => MessageErrorView::InvalidConfiguredSpec(id@),
            PopupMessageRequestError::InvalidPayload => MessageErrorView::InvalidPayload,
        }
    }
}

/// A request or error as plain values.
pub open spec fn result_view(r: Result<TransientPopupPipeRequest, PopupMessageRequestError>) -> Result<RequestView, MessageErrorView> {
    match r {
        Ok(request) => Ok(request@),
        Err(e) => Err(e@),
    }
}

/// The action a pipe name asks for.
pub open spec fn action_named(name: Seq<char>) -> Option<TransientPopupAction> {
    if name == "toggle"@ {
        Some(TransientPopupAction::Toggle)
    } else if name == "open"@ {
        Some(TransientPopupAction::Open)
    } else if name == "focus"@ {
        Some(TransientPopupAction::Focus)
    } else if name == "close"@ {
        Some(TransientPopupAction::Close)
    } else {
        None
    }
}

impl TransientPopupAction {
    /// The action of a pipe message named `toggle`, `open`, `focus` or `close`.
    pub fn from_pipe_name(pipe_name: &str) -> (r: Option<Self>)
        ensures
            r == action_named(pipe_name@),
    {
        if crate::text::same_text(pipe_name, "toggle") {
            Some(TransientPopupAction::Toggle)
        } else if crate::text::same_text(pipe_name, "open") {
            Some(TransientPopupAction::Open)
        } else if crate::text::same_text(pipe_name, "focus") {
            Some(TransientPopupAction::Focus)
        } else if crate::text::same_text(pipe_name, "close") {
            Some(TransientPopupAction::Close)
        } else {
            None
        }
    }
}

/// A copy of a list of strings.
pub fn copy_texts(v: &Vec<String>) -> (r: Vec<String>)
    ensures
        r@ == v@,
{
    let mut r: Vec<String> = Vec::new();
    for i in 0..v.len()
        invariant
            r@ == v@.take(i as int),
    {
        r.push(v[i].clone());
        assert(r@ =~= v@.take(i + 1));
    }
    assert(v@.take(v.len() as int) =~= v@);
    r
}

/// A copy of an optional string.
pub fn copy_opt_text(o: &Option<String>) -> (r: Option<String>)
    ensures
        r == *o,
{
    match o {
        Some(s) => Some(s.clone()),
        None => None,
    }
}

impl TransientPopupCommandHook {
    /// A copy of this hook.
    pub fn duplicate(&self) -> (r: Self)
        ensures
            r@ == self@,
    {
        TransientPopupCommandHook { command: copy_texts(&self.command), cwd: copy_opt_text(&self.cwd) }
    }
}

/// A copy of an optional hook.
pub fn copy_opt_hook(o: &Option<TransientPopupCommandHook>) -> (r: Option<TransientPopupCommandHook>)
    ensures
        opt_hook(r) == opt_hook(*o),
{
    match o {
        Some(h) => Some(h.duplicate()),
        None => None,
    }
}

impl TransientPopupSpec {
    /// A copy of this spec.
    pub fn duplicate(&self) -> (r: Self)
        ensures
            r@ == self@,
    {
        TransientPopupSpec {
            id: self.id.clone(),
            pane_title: self.pane_title.clone(),
            preserve_terminal_title: self.preserve_terminal_title,
            command_marker: copy_opt_text(&self.command_marker),
            command: copy_texts(&self.command),
            cwd: copy_opt_text(&self.cwd),
            on_close: copy_opt_hook(&self.on_close),
            on_hide: copy_opt_hook(&self.on_hide),
            toggle_close_behavior: self.toggle_close_behavior,
            width_percent: self.width_percent,
            height_percent: self.height_percent,
            side_margin: self.side_margin,
            vertical_margin: self.vertical_margin,
        }
    }
}

} // verus!
