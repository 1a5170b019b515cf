//! The decisions of the Zellij plugin: which tab and panes it works on, whether
//! it can act on a pipe message, what it does with a popup, and what it answers.
//! The plugin itself performs each step and hands the outcomes back here.
use vstd::prelude::*;

use crate::popup_contract::launch::{
    nonblank_trimmed, opt_as_str, request_launch_plan, restart_for_cwd,
};
use crate::popup_contract::selection::{
    chosen_pane, resolve_transient_toggle_plan_by_identity, select_transient_pane_by_identity,
    toggle_plan,
};
use crate::popup_contract::types::{
    opt_str, opt_text, MessageErrorView, PopupMessageRequestError, RequestView,
    TransientPaneDisplacementCandidate, TransientPaneSnapshot, TransientPopupCommandHook, TransientPopupAction, TransientPopupPipeRequest,
    TransientPopupToggleCloseBehavior, TransientTogglePlan,
};
use crate::PopupViewport;

verus! {

/// What the plugin answers on the CLI pipe that a message came from.
#[derive(Clone, Copy, Debug, PartialEq, Eq, Structural)]
pub enum PipeResult {
    Closed,
    ClosedFloatingCleanupFailed,
    PermissionsDenied,
    Focused,
    Hidden,
    InvalidConfig,
    InvalidPayload,
    Missing,
    MissingConfig,
    NotReady,
    Opened,
}

/// The text of each answer.
pub open spec fn result_text(r: PipeResult) -> Seq<char> {
    match r {
        PipeResult::Closed => "closed"@,
        PipeResult::ClosedFloatingCleanupFailed => "closed_floating_cleanup_failed"@,
        PipeResult::PermissionsDenied => "permissions_denied"@,
        PipeResult::Focused => "focused"@,
        PipeResult::Hidden => "hidden"@,
        PipeResult::InvalidConfig => "invalid_config"@,
        PipeResult::InvalidPayload => "invalid_payload"@,
        PipeResult::Missing => "missing"@,
        PipeResult::MissingConfig => "missing_config"@,
        PipeResult::NotReady => "not_ready"@,
        PipeResult::Opened => "opened"@,
    }
}

impl PipeResult {
    /// The text sent back for this answer.
    pub fn as_str(&self) -> (r: &'static str)
        ensures
            r@ == result_text(*self),
    {
        match self {
            PipeResult::Closed => "closed",
            PipeResult::ClosedFloatingCleanupFailed => "closed_floating_cleanup_failed",
            PipeResult::PermissionsDenied => "permissions_denied",
            PipeResult::Focused => "focused",
            PipeResult::Hidden => "hidden",
            PipeResult::InvalidConfig => "invalid_config",
            PipeResult::InvalidPayload => "invalid_payload",
            PipeResult::Missing => "missing",
            PipeResult::MissingConfig => "missing_config",
            PipeResult::NotReady => "not_ready",
            PipeResult::Opened => "opened",
        }
    }
}

/// The answer to a message that asks for no popup: none for an action the
/// plugin does not know (the message is for someone else), else the kind of
/// refusal.
pub open spec fn refusal_of(e: MessageErrorView) -> Option<PipeResult> {
    match e {
        MessageErrorView::UnknownAction => None,
        MessageErrorView::InvalidPayload => Some(PipeResult::InvalidPayload),
        MessageErrorView::InvalidConfiguredSpec(_) => Some(PipeResult::InvalidConfig),
        MessageErrorView::MissingConfiguredSpec(_) => Some(PipeResult::MissingConfig),
    }
}

/// The answer to a refused message, if any.
pub fn refusal_result(e: &PopupMessageRequestError) -> (r: Option<PipeResult>)
    ensures
        r == refusal_of(e@),
{
    match e {
        PopupMessageRequestError::UnknownAction => None,
        PopupMessageRequestError::InvalidPayload => Some(PipeResult::InvalidPayload),
        PopupMessageRequestError::InvalidConfiguredSpec(_) => Some(PipeResult::InvalidConfig),
        PopupMessageRequestError::MissingConfiguredSpec(_) => Some(PipeResult::MissingConfig),
    }
}

/// A tab as Zellij reports it, with what the plugin reads of it.
#[derive(Clone, Copy, Debug, PartialEq, Eq, Structural)]
pub struct TabView {
    pub position: usize,
    pub active: bool,
    pub viewport_columns: usize,
    pub viewport_rows: usize,
    pub are_floating_panes_visible: bool,
}

/// The tab the plugin opens popups in.
#[derive(Clone, Copy, Debug, PartialEq, Eq, Structural)]
pub struct ActiveTab {
    pub position: usize,
    pub viewport: PopupViewport,
    pub floating_panes_visible: bool,
}

/// What the plugin keeps of a tab.
pub open spec fn tab_state(t: TabView) -> ActiveTab {
    ActiveTab {
        position: t.position,
        viewport: PopupViewport { columns: t.viewport_columns, rows: t.viewport_rows },
        floating_panes_visible: t.are_floating_panes_visible,
    }
}

/// The first active tab, if any.
pub open spec fn active_tab_of(tabs: Seq<TabView>) -> Option<ActiveTab>
    decreases tabs.len(),
{
    if tabs.len() == 0 {
        None
    } else if tabs[0].active {
        Some(tab_state(tabs[0]))
    } else {
        active_tab_of(tabs.drop_first())
    }
}

/// The active tab among the tabs of a tab update.
pub fn active_tab(tabs: &[TabView]) -> (r: Option<ActiveTab>)
    ensures
        r == active_tab_of(tabs@),
{
    let mut i: usize = 0;
    assert(tabs@.skip(0) =~= tabs@);
    while i < tabs.len()
        invariant
            i <= tabs@.len(),
            active_tab_of(tabs@) == active_tab_of(tabs@.skip(i as int)),
        decreases tabs.len() - i,
    {
        assert(tabs@.skip(i as int)[0] == tabs@[i as int]);
        let t = tabs[i];
        if t.active {
            return Some(
                ActiveTab {
                    position: t.position,
                    viewport: PopupViewport { columns: t.viewport_columns, rows: t.viewport_rows },
                    floating_panes_visible: t.are_floating_panes_visible,
                },
            );
        }
        assert(tabs@.skip(i as int).drop_first() =~= tabs@.skip(i + 1));
        i = i + 1;
    }
    None
}

/// Whether the plugin can act on a popup message: it needs its permissions and
/// an active tab; otherwise it answers why not.
pub fn readiness(permissions_granted: bool, active: Option<ActiveTab>) -> (r: Result<ActiveTab, PipeResult>)
    ensures
        r == if !permissions_granted {
            Err(PipeResult::PermissionsDenied)
        } else {
            match active {
                Some(tab) => Ok(tab),
                None => Err(PipeResult::NotReady),
            }
        },
{
    if !permissions_granted {
        return Err(PipeResult::PermissionsDenied);
    }
    match active {
        Some(tab) => Ok(tab),
        None => Err(PipeResult::NotReady),
    }
}

/// A pane as Zellij reports it, with what the plugin reads of it.
#[derive(Clone, Debug, PartialEq, Eq)]
pub struct PaneView {
    pub id: u32,
    pub title: String,
    pub terminal_command: Option<String>,
    pub is_plugin: bool,
    pub exited: bool,
    pub is_focused: bool,
    pub is_floating: bool,
    pub is_suppressed: bool,
}

/// A live terminal pane as the plugin keeps it.
#[derive(Clone, Debug, PartialEq, Eq)]
pub struct TerminalPane {
    pub pane_id: u32,
    pub title: String,
    pub terminal_command: Option<String>,
    pub is_focused: bool,
    pub is_floating: bool,
    pub is_suppressed: bool,
}

/// What the plugin keeps of a pane.
pub open spec fn terminal_pane_of(p: PaneView) -> TerminalPane {
    TerminalPane {
        pane_id: p.id,
        title: p.title,
        terminal_command: p.terminal_command,
        is_focused: p.is_focused,
        is_floating: p.is_floating,
        is_suppressed: p.is_suppressed,
    }
}

/// The terminal panes among `panes` that have not exited, in order.
pub open spec fn terminal_panes_of(panes: Seq<PaneView>) -> Seq<TerminalPane>
    decreases panes.len(),
{
    if panes.len() == 0 {
        Seq::empty()
    } else {
        let rest = terminal_panes_of(panes.drop_last());
        let p = panes.last();
        if !p.is_plugin && !p.exited {
            rest.push(terminal_pane_of(p))
        } else {
            rest
        }
    }
}

/// The live terminal panes of one tab of a pane update.
pub fn terminal_panes(panes: &[PaneView]) -> (r: Vec<TerminalPane>)
    ensures
        r@ == terminal_panes_of(panes@),
{
    let mut r: Vec<TerminalPane> = Vec::new();
    assert(panes@.take(0) =~= Seq::<PaneView>::empty());
    for i in 0..panes.len()
        invariant
            r@ == terminal_panes_of(panes@.take(i as int)),
    {
        assert(panes@.take(i + 1).drop_last() =~= panes@.take(i as int));
        assert(panes@.take(i + 1).last() == panes@[i as int]);
        let p = &panes[i];
        if !p.is_plugin && !p.exited {
            let title = p.title.clone();
            let terminal_command = match &p.terminal_command {
                Some(c) => Some(c.clone()),
                None => None,
            };
            r.push(
                TerminalPane {
                    pane_id: p.id,
                    title,
                    terminal_command,
                    is_focused: p.is_focused,
                    is_floating: p.is_floating,
                    is_suppressed: p.is_suppressed,
                },
            );
        }
    }
    assert(panes@.take(panes@.len() as int) =~= panes@);
    r
}

/// Whether a snapshot shows this terminal pane.
pub open spec fn shows_pane<'a>(s: TransientPaneSnapshot<'a, u32>, p: TerminalPane) -> bool {
    &&& s.pane_id == p.pane_id
    &&& s.title@ == p.title@
    &&& opt_str(s.terminal_command) == opt_text(p.terminal_command)
    &&& !s.is_plugin
    &&& !s.exited
    &&& s.is_floating == p.is_floating
    &&& s.is_suppressed == p.is_suppressed
    &&& s.is_focused == p.is_focused
}

impl TerminalPane {
    /// This pane as the popup logic sees it.
    pub fn snapshot(&self) -> (r: TransientPaneSnapshot<'_, u32>)
        ensures
            shows_pane(r, *self),
    {
        TransientPaneSnapshot {
            pane_id: self.pane_id,
            title: self.title.as_str(),
            terminal_command: opt_as_str(&self.terminal_command),
            is_plugin: false,
            exited: false,
            is_floating: self.is_floating,
            is_suppressed: self.is_suppressed,
            is_focused: self.is_focused,
        }
    }
}

/// The panes of a tab as the popup logic sees them, in order.
pub fn snapshots(panes: &[TerminalPane]) -> (r: Vec<TransientPaneSnapshot<'_, u32>>)
    ensures
        r@.len() == panes@.len(),
        forall|i: int| 0 <= i < panes@.len() ==> shows_pane(#[trigger] r@[i], panes@[i]),
{
    let mut r: Vec<TransientPaneSnapshot<'_, u32>> = Vec::new();
    for i in 0..panes.len()
        invariant
            r@.len() == i,
            forall|k: int| 0 <= k < i ==> shows_pane(#[trigger] r@[k], panes@[k]),
    {
        r.push(panes[i].snapshot());
    }
    r
}

/// The first focused pane, if any.
pub open spec fn focused_pane_of(panes: Seq<TerminalPane>) -> Option<u32>
    decreases panes.len(),
{
    if panes.len() == 0 {
        None
    } else if panes[0].is_focused {
        Some(panes[0].pane_id)
    } else {
        focused_pane_of(panes.drop_first())
    }
}

/// The focused pane of a tab, whose cwd new popups start from.
pub fn focused_pane(panes: &[TerminalPane]) -> (r: Option<u32>)
    ensures
        r == focused_pane_of(panes@),
{
    let mut i: usize = 0;
    assert(panes@.skip(0) =~= panes@);
    while i < panes.len()
        invariant
            i <= panes@.len(),
            focused_pane_of(panes@) == focused_pane_of(panes@.skip(i as int)),
        decreases panes.len() - i,
    {
        assert(panes@.skip(i as int)[0] == panes@[i as int]);
        if panes[i].is_focused {
            return Some(panes[i].pane_id);
        }
        assert(panes@.skip(i as int).drop_first() =~= panes@.skip(i + 1));
        i = i + 1;
    }
    None
}

/// What the plugin does for a popup request on the panes of the active tab.
#[derive(Clone, Copy, Debug, PartialEq, Eq, Structural)]
pub enum PopupStep {
    /// Open a new pane for the popup.
    Open,
    /// Show and focus the popup's existing pane, which may be suppressed.
    Show { pane_id: u32, is_suppressed: bool },
    /// Close the popup's pane and run its `on_close` hook.
    Close { pane_id: u32 },
    /// Hide the popup's pane and run its `on_hide` hook.
    Hide { pane_id: u32 },
    /// Answer that the popup has no pane.
    Missing,
}

/// Whether the first snapshot of pane `id` is suppressed.
pub open spec fn suppressed_of<'a>(panes: Seq<TransientPaneSnapshot<'a, u32>>, id: u32) -> bool
    decreases panes.len(),
{
    if panes.len() == 0 {
        false
    } else if panes[0].pane_id == id {
        panes[0].is_suppressed
    } else {
        suppressed_of(panes.drop_first(), id)
    }
}

/// The step for a request: a toggle opens, shows, or closes or hides (as the
/// popup asks) its pane; an open always opens; a focus shows its pane and a close
/// closes it, when it has one.
pub open spec fn popup_step_of<'a>(
    r: RequestView,
    panes: Seq<TransientPaneSnapshot<'a, u32>>,
    floating_panes_visible: bool,
) -> PopupStep {
    let chosen = chosen_pane(panes, r.spec.pane_title, nonblank_trimmed(r.spec.command_marker), false);
    match r.action {
        TransientPopupAction::Toggle => match toggle_plan(chosen, floating_panes_visible) {
            TransientTogglePlan::Open => PopupStep::Open,
            TransientTogglePlan::Focus(id) => PopupStep::Show {
                pane_id: id,
                is_suppressed: suppressed_of(panes, id),
            },
            TransientTogglePlan::ToggleFocused(id) => match r.spec.toggle_close_behavior {
                TransientPopupToggleCloseBehavior::Close => PopupStep::Close { pane_id: id },
                TransientPopupToggleCloseBehavior::Hide => PopupStep::Hide { pane_id: id },
            },
        },
        TransientPopupAction::Open => PopupStep::Open,
        TransientPopupAction::Focus => match chosen {
            Some(p) => PopupStep::Show { pane_id: p.pane_id, is_suppressed: suppressed_of(panes, p.pane_id) },
            None => PopupStep::Missing,
        },
        TransientPopupAction::Close => match chosen {
            Some(p) => PopupStep::Close { pane_id: p.pane_id },
            None => PopupStep::Missing,
        },
    }
}

/// Whether the first pane with this id is suppressed.
fn pane_is_suppressed(panes: &[TransientPaneSnapshot<'_, u32>], id: u32) -> (r: bool)
    ensures
        r == suppressed_of(panes@, id),
{
    let mut i: usize = 0;
    assert(panes@.skip(0) =~= panes@);
    while i < panes.len()
        invariant
            i <= panes@.len(),
            suppressed_of(panes@, id) == suppressed_of(panes@.skip(i as int), id),
        decreases panes.len() - i,
    {
        assert(panes@.skip(i as int)[0] == panes@[i as int]);
        if panes[i].pane_id == id {
            return panes[i].is_suppressed;
        }
        assert(panes@.skip(i as int).drop_first() =~= panes@.skip(i + 1));
        i = i + 1;
    }
    false
}

/// What to do for a popup request, given the panes of the active tab and
/// whether it shows its floating panes.
pub fn popup_step(
    request: &TransientPopupPipeRequest,
    panes: &[TransientPaneSnapshot<'_, u32>],
    floating_panes_visible: bool,
) -> (r: PopupStep)
    ensures
        r == popup_step_of(request@, panes@, floating_panes_visible),
{
    let identity = request.spec.identity();
    match request.action {
        TransientPopupAction::Toggle => match resolve_transient_toggle_plan_by_identity(
            panes,
            identity,
            floating_panes_visible,
        ) {
            TransientTogglePlan::Open => PopupStep::Open,
            TransientTogglePlan::Focus(id) => PopupStep::Show {
                pane_id: id,
                is_suppressed: pane_is_suppressed(panes, id),
            },
            TransientTogglePlan::ToggleFocused(id) => match request.spec.toggle_close_behavior {
                TransientPopupToggleCloseBehavior::Close => PopupStep::Close { pane_id: id },
                TransientPopupToggleCloseBehavior::Hide => PopupStep::Hide { pane_id: id },
            },
        },
        TransientPopupAction::Open => PopupStep::Open,
        TransientPopupAction::Focus => match select_transient_pane_by_identity(panes, identity) {
            Some(p) => PopupStep::Show { pane_id: p.pane_id, is_suppressed: pane_is_suppressed(panes, p.pane_id) },
            None => PopupStep::Missing,
        },
        TransientPopupAction::Close => match select_transient_pane_by_identity(panes, identity) {
            Some(p) => PopupStep::Close { pane_id: p.pane_id },
            None => PopupStep::Missing,
        },
    }
}

/// Whether the other configured popups are cleared away before a step, and
/// which pane is spared: none for an opening, the popup's own pane when it
/// has one; nothing is cleared when the popup has no pane to act on.
pub open spec fn displacement_of(step: PopupStep) -> Option<Option<u32>> {
    match step {
        PopupStep::Open => Some(None),
        PopupStep::Show { pane_id, .. } => Some(Some(pane_id)),
        PopupStep::Close { pane_id } => Some(Some(pane_id)),
        PopupStep::Hide { pane_id } => Some(Some(pane_id)),
        PopupStep::Missing => None,
    }
}

impl PopupStep {
    /// See `displacement_of`.
    pub fn displacement(&self) -> (r: Option<Option<u32>>)
        ensures
            r == displacement_of(*self),
    {
        match self {
            PopupStep::Open => Some(None),
            PopupStep::Show { pane_id, .. } => Some(Some(*pane_id)),
            PopupStep::Close { pane_id } => Some(Some(*pane_id)),
            PopupStep::Hide { pane_id } => Some(Some(*pane_id)),
            PopupStep::Missing => None,
        }
    }
}

/// The cwd a fresh launch of the request would get: that of its launch plan,
/// else the fallback.
pub open spec fn request_cwd_of(r: RequestView, fallback: Seq<char>) -> Seq<char> {
    match request_launch_plan(r, fallback) {
        Some(plan) => plan.cwd,
        None => fallback,
    }
}

/// The cwd a fresh launch of the request would get.
pub fn request_cwd(request: &TransientPopupPipeRequest, fallback_cwd: &str) -> (r: String)
    ensures
        r@ == request_cwd_of(request@, fallback_cwd@),
{
    match request.launch_plan(fallback_cwd) {
        Some(plan) => plan.cwd,
        None => fallback_cwd.to_owned(),
    }
}

/// Whether an existing pane that is to be shown is replaced by a fresh launch:
/// a suppressed pane, or any pane when the request names a cwd, must run in the
/// cwd of a fresh launch.
pub fn shown_popup_restarts(
    is_suppressed: bool,
    request: &TransientPopupPipeRequest,
    launch_cwd: Option<&str>,
    process_cwd: Option<&str>,
    request_cwd: &str,
) -> (r: bool)
    ensures
        r == restart_for_cwd(
            is_suppressed || request@.cwd is Some,
            opt_str(launch_cwd),
            opt_str(process_cwd),
            request_cwd@,
        ),
{
    crate::popup_contract::should_restart_popup_for_cwd(
        is_suppressed || request.cwd.is_some(),
        launch_cwd,
        process_cwd,
        request_cwd,
    )
}

/// The title given to a newly opened popup pane: none when the popup keeps
/// its terminal's title, else its pane title, trimmed.
pub fn opened_pane_title(request: &TransientPopupPipeRequest) -> (r: &str)
    ensures
        r@ == if request@.spec.preserve_terminal_title {
            Seq::<char>::empty()
        } else {
            crate::text::trim(request@.spec.pane_title)
        },
{
    if request.spec.preserve_terminal_title {
        proof {
            reveal_strlit("");
        }
        ""
    } else {
        crate::text::trim_str(request.spec.pane_title.as_str())
    }
}

/// The answer after closing a popup: whether hiding the floating layer
/// afterwards worked.
pub fn closed_result(floating_layer_hidden: bool) -> (r: PipeResult)
    ensures
        r == if floating_layer_hidden {
            PipeResult::Closed
        } else {
            PipeResult::ClosedFloatingCleanupFailed
        },
{
    if floating_layer_hidden {
        PipeResult::Closed
    } else {
        PipeResult::ClosedFloatingCleanupFailed
    }
}

/// Whether a terminal pane with this id is among the panes of any tab.
pub open spec fn pane_is_live(tabs: Seq<(usize, Vec<TerminalPane>)>, id: u32) -> bool {
    exists|t: int, k: int|
        0 <= t < tabs.len() && 0 <= k < tabs[t].1@.len() && (#[trigger] tabs[t].1@[k]).pane_id == id
}

/// The remembered launch cwds of the panes that are still live, in order.
pub open spec fn live_cwds_of(cwds: Seq<(u32, String)>, tabs: Seq<(usize, Vec<TerminalPane>)>) -> Seq<(u32, String)>
    decreases cwds.len(),
{
    if cwds.len() == 0 {
        Seq::empty()
    } else {
        let rest = live_cwds_of(cwds.drop_last(), tabs);
        if pane_is_live(tabs, cwds.last().0) {
            rest.push(cwds.last())
        } else {
            rest
        }
    }
}

/// Whether a pane with this id is among the panes of any tab.
fn is_live(tabs: &[(usize, Vec<TerminalPane>)], id: u32) -> (r: bool)
    ensures
        r == pane_is_live(tabs@, id),
{
    for t in 0..tabs.len()
        invariant
            forall|a: int, k: int|
                0 <= a < t && 0 <= k < tabs@[a].1@.len() ==> (#[trigger] tabs@[a].1@[k]).pane_id != id,
    {
        let panes = &tabs[t].1;
        for k in 0..panes.len()
            invariant
                0 <= t < tabs@.len(),
                *panes == tabs@[t as int].1,
                forall|a: int, j: int|
                    0 <= a < t && 0 <= j < tabs@[a].1@.len() ==> (#[trigger] tabs@[a].1@[j]).pane_id != id,
                forall|j: int| 0 <= j < k ==> (#[trigger] panes@[j]).pane_id != id,
        {
            if panes[k].pane_id == id {
                assert(tabs@[t as int].1@[k as int].pane_id == id);
                return true;
            }
        }
    }
    false
}

/// The remembered launch cwds to keep after a pane update: exactly those of
/// the panes that are still live in some tab, in the order given.
pub fn live_launch_cwds(cwds: &[(u32, String)], tabs: &[(usize, Vec<TerminalPane>)]) -> (r: Vec<(u32, String)>)
    ensures
        r@ == live_cwds_of(cwds@, tabs@),
{
    let mut r: Vec<(u32, String)> = Vec::new();
    assert(cwds@.take(0) =~= Seq::<(u32, String)>::empty());
    for i in 0..cwds.len()
        invariant
            r@ == live_cwds_of(cwds@.take(i as int), tabs@),
    {
        assert(cwds@.take(i + 1).drop_last() =~= cwds@.take(i as int));
        assert(cwds@.take(i + 1).last() == cwds@[i as int]);
        let id = cwds[i].0;
        if is_live(tabs, id) {
            r.push((id, cwds[i].1.clone()));
        }
    }
    assert(cwds@.take(cwds@.len() as int) =~= cwds@);
    r
}

/// What the plugin keeps after a pane update: the live terminal panes of each
/// tab, and the launch cwds of the panes that are still live.
pub struct PaneUpdate {
    pub terminal_panes_by_tab: Vec<(usize, Vec<TerminalPane>)>,
    pub launch_cwds: Vec<(u32, String)>,
}

/// A pane update: each tab keeps its live terminal panes, in order, and the
/// remembered launch cwds are kept for exactly the panes still live in some tab.
pub fn pane_update(panes_by_tab: &[(usize, Vec<PaneView>)], launch_cwds: &[(u32, String)]) -> (r: PaneUpdate)
    ensures
        r.terminal_panes_by_tab@.len() == panes_by_tab@.len(),
        forall|t: int|
            0 <= t < panes_by_tab@.len() ==> (#[trigger] r.terminal_panes_by_tab@[t]).0
                == panes_by_tab@[t].0 && r.terminal_panes_by_tab@[t].1@ == terminal_panes_of(
                panes_by_tab@[t].1@,
            ),
        r.launch_cwds@ == live_cwds_of(launch_cwds@, r.terminal_panes_by_tab@),
{
    let mut tabs: Vec<(usize, Vec<TerminalPane>)> = Vec::new();
    for t in 0..panes_by_tab.len()
        invariant
            tabs@.len() == t,
            forall|a: int|
                0 <= a < t ==> (#[trigger] tabs@[a]).0 == panes_by_tab@[a].0 && tabs@[a].1@
                    == terminal_panes_of(panes_by_tab@[a].1@),
    {
        let panes = terminal_panes(panes_by_tab[t].1.as_slice());
        tabs.push((panes_by_tab[t].0, panes));
    }
    let cwds = live_launch_cwds(launch_cwds, tabs.as_slice());
    PaneUpdate { terminal_panes_by_tab: tabs, launch_cwds: cwds }
}

/// What is done with the pane of a popup that makes way for another.
#[derive(Clone, Copy, Debug, PartialEq, Eq, Structural)]
pub enum DisplaceAction {
    /// Close the pane (and forget its launch cwd).
    Close,
    /// Hide the pane, keeping its process.
    Hide,
}

/// Whether closing a pane for a request of this action runs `on_close`
/// hooks: only a `toggle` or a `close` does.
pub open spec fn runs_on_close(action: TransientPopupAction) -> bool {
    action == TransientPopupAction::Toggle || action == TransientPopupAction::Close
}

/// How a displaced popup makes way for a request of this action, and the hook
/// run afterwards: a popup that closes on toggle is closed, running its
/// `on_close` hook only for a `toggle` or `close`; one that hides is hidden and
/// runs its `on_hide` hook.
pub fn displacement_action<'a, Id>(
    candidate: &TransientPaneDisplacementCandidate<'a, Id>,
    action: TransientPopupAction,
) -> (r: (DisplaceAction, Option<&'a TransientPopupCommandHook>))
    ensures
        r == match candidate.toggle_close_behavior {
            TransientPopupToggleCloseBehavior::Close => (
                DisplaceAction::Close,
                if runs_on_close(action) {
                    candidate.on_close
                } else {
                    None
                },
            ),
            TransientPopupToggleCloseBehavior::Hide => (DisplaceAction::Hide, candidate.on_hide),
        },
{
    let closes_with_hook = match action {
        TransientPopupAction::Toggle => true,
        TransientPopupAction::Close => true,
        _ => false,
    };
    match candidate.toggle_close_behavior {
        TransientPopupToggleCloseBehavior::Close => (
            DisplaceAction::Close,
            if closes_with_hook {
                candidate.on_close
            } else {
                None
            },
        ),
        TransientPopupToggleCloseBehavior::Hide => (DisplaceAction::Hide, candidate.on_hide),
    }
}

/// The hook run when a shown popup is closed to be launched afresh in another
/// cwd: its own `on_close` for a `toggle`, none for a `focus` or any other action.
pub fn restart_hook(request: &TransientPopupPipeRequest) -> (r: Option<&TransientPopupCommandHook>)
    ensures
        crate::popup_contract::configured::opt_hook_ref(r) == if runs_on_close(request@.action) {
            request@.spec.on_close
        } else {
            None
        },
{
    let closes_with_hook = match request.action {
        TransientPopupAction::Toggle => true,
        TransientPopupAction::Close => true,
        _ => false,
    };
    if closes_with_hook {
        match &request.spec.on_close {
            Some(h) => Some(h),
            None => None,
        }
    } else {
        None
    }
}

} // verus!
