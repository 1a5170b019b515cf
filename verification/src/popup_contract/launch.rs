//! Launchability of popup specs and hooks, and the planning of their launches.
use vstd::prelude::*;

use crate::popup_contract::types::{
    copy_texts, opt_str, opt_text, texts, HookPlanView, HookView, LaunchPlanView,
    LaunchRequestView, RequestView, SpecView, TransientPaneGeometry, TransientPaneIdentityView,
    TransientPaneLaunchPlan, TransientPaneLaunchRequest, TransientPopupCommandHook,
    TransientPopupCommandHookPlan, TransientPopupPipeRequest, TransientPopupSpec,
};
use crate::text::{
    blank, chars_of, is_blank, string_of, trim, trim_end_char, trim_str, trimmed,
    trimmed_end_char,
};

verus! {

/// An optional value, trimmed, and dropped when nothing but whitespace is left.
pub open spec fn nonblank_trimmed(o: Option<Seq<char>>) -> Option<Seq<char>> {
    match o {
        Some(text) => if is_blank(text) {
            None
        } else {
            Some(trim(text))
        },
        None => None,
    }
}

/// Whether a size in percent is one the plugin places: 1 to 100.
pub open spec fn is_percent(p: usize) -> bool {
    1 <= p <= 100
}

/// The geometry of a spec, when both its percentages are in 1..=100.
pub open spec fn geometry_of(s: SpecView) -> Option<TransientPaneGeometry> {
    if is_percent(s.width_percent) && is_percent(s.height_percent) {
        Some(
            TransientPaneGeometry {
                width_percent: s.width_percent,
                height_percent: s.height_percent,
                side_margin: s.side_margin,
                vertical_margin: s.vertical_margin,
            },
        )
    } else {
        None
    }
}

/// An argv that can be run: one or more words, none of them blank.
pub open spec fn is_runnable_argv(command: Seq<Seq<char>>) -> bool {
    command.len() > 0 && forall|i: int| 0 <= i < command.len() ==> !is_blank(#[trigger] command[i])
}

/// A working directory that is absent or not blank.
pub open spec fn is_usable_cwd(cwd: Option<Seq<char>>) -> bool {
    cwd matches Some(c) ==> !is_blank(c)
}

/// Whether a hook can be run.
pub open spec fn hook_is_launchable(h: HookView) -> bool {
    is_runnable_argv(h.command) && is_usable_cwd(h.cwd)
}

/// Whether an optional hook is absent or can be run.
pub open spec fn opt_hook_is_launchable(h: Option<HookView>) -> bool {
    h matches Some(hook) ==> hook_is_launchable(hook)
}

/// Whether a popup spec can be opened: it has an id and a pane title, a valid
/// geometry, a non-blank command marker if any, a runnable command, a usable
/// cwd, and runnable hooks.
pub open spec fn spec_is_launchable(s: SpecView) -> bool {
    &&& !is_blank(s.id)
    &&& !is_blank(s.pane_title)
    &&& geometry_of(s) is Some
    &&& (s.command_marker matches Some(m) ==> !is_blank(m))
    &&& is_runnable_argv(s.command)
    &&& is_usable_cwd(s.cwd)
    &&& opt_hook_is_launchable(s.on_close)
    &&& opt_hook_is_launchable(s.on_hide)
}

/// A Unix path is absolute when it starts at the root.
pub open spec fn is_absolute_path(p: Seq<char>) -> bool {
    p.len() > 0 && p[0] == '/'
}

/// `Path::new(base).join(rel)` for a relative `rel` on Unix: one separator is
/// put between them unless `base` is empty or already ends with one.
pub open spec fn join_path(base: Seq<char>, rel: Seq<char>) -> Seq<char> {
    if base.len() > 0 && base.last() != '/' {
        base + seq!['/'] + rel
    } else {
        base + rel
    }
}

/// The working directory of a launch: an absolute request as it is, a relative
/// one under the fallback, and the fallback when nothing is requested. There is
/// none when the fallback is needed and empty.
pub open spec fn launch_cwd(requested: Option<Seq<char>>, fallback: Seq<char>) -> Option<
    Seq<char>,
> {
    match requested {
        Some(cwd) => if is_absolute_path(cwd) {
            Some(cwd)
        } else if fallback.len() == 0 {
            None
        } else {
            Some(join_path(fallback, cwd))
        },
        None => if fallback.len() == 0 {
            None
        } else {
            Some(fallback)
        },
    }
}

/// The launch plan of a launch request.
pub open spec fn launch_plan_of(r: LaunchRequestView) -> Option<LaunchPlanView> {
    if is_blank(r.command_path) {
        None
    } else {
        match launch_cwd(nonblank_trimmed(r.requested_cwd), trim(r.fallback_cwd)) {
            Some(cwd) => if cwd.len() == 0 {
                None
            } else {
                Some(
                    LaunchPlanView {
                        command_path: trim(r.command_path),
                        args: r.args,
                        cwd,
                        geometry: r.geometry,
                    },
                )
            },
            None => None,
        }
    }
}

/// The launch plan of a hook, with `fallback` for its working directory.
pub open spec fn hook_plan_of(h: HookView, fallback: Seq<char>) -> Option<HookPlanView> {
    if !hook_is_launchable(h) {
        None
    } else {
        match launch_cwd(nonblank_trimmed(h.cwd), trim(fallback)) {
            Some(cwd) => Some(HookPlanView { command: h.command, cwd }),
            None => None,
        }
    }
}

/// The launch request of a pipe request: the spec's command with the request's
/// arguments after its own, and the request's cwd before the spec's.
pub open spec fn request_launch_request(r: RequestView, fallback: Seq<char>) -> Option<
    LaunchRequestView,
> {
    if is_blank(r.spec.id) || is_blank(r.spec.pane_title) || r.spec.command.len() == 0 {
        None
    } else {
        match geometry_of(r.spec) {
            Some(geometry) => Some(
                LaunchRequestView {
                    command_path: r.spec.command[0],
                    args: r.spec.command.skip(1) + r.args,
                    requested_cwd: if r.cwd is Some {
                        r.cwd
                    } else {
                        r.spec.cwd
                    },
                    fallback_cwd: fallback,
                    geometry,
                },
            ),
            None => None,
        }
    }
}

/// The launch plan of a pipe request.
pub open spec fn request_launch_plan(r: RequestView, fallback: Seq<char>) -> Option<
    LaunchPlanView,
> {
    match request_launch_request(r, fallback) {
        Some(launch) => launch_plan_of(launch),
        None => None,
    }
}

/// Whether a popup that must run in the effective cwd is to be restarted: it
/// is when the cwd it was launched in (or, failing a record of that, the cwd of
/// its process) is known and differs from the effective one, trailing slashes
/// aside. An unknown popup cwd or a blank effective cwd never restarts it.
pub open spec fn restart_for_cwd(
    cwd_must_match: bool,
    launch_cwd: Option<Seq<char>>,
    process_cwd: Option<Seq<char>>,
    effective_cwd: Seq<char>,
) -> bool {
    let known = if launch_cwd is Some {
        launch_cwd
    } else {
        process_cwd
    };
    if !cwd_must_match {
        false
    } else {
        match nonblank_trimmed(known) {
            None => false,
            Some(popup_cwd) => !is_blank(effective_cwd) && trim_end_char(popup_cwd, '/')
                != trim_end_char(trim(effective_cwd), '/'),
        }
    }
}

/// Trims an optional string and drops it when it is blank.
pub fn trim_nonblank<'a>(o: Option<&'a str>) -> (r: Option<&'a str>)
    ensures
        opt_str(r) == nonblank_trimmed(opt_str(o)),
{
    match o {
        Some(text) => {
            let t = trim_str(text);
            if t.is_empty() {
                None
            } else {
                Some(t)
            }
        },
        None => None,
    }
}

/// The slice of an optional string.
pub fn opt_as_str(o: &Option<String>) -> (r: Option<&str>)
    ensures
        opt_str(r) == opt_text(*o),
{
    match o {
        Some(s) => Some(s.as_str()),
        None => None,
    }
}

/// Whether every string of `v` has a non-whitespace character, and there is one.
pub fn all_nonblank(v: &Vec<String>) -> (r: bool)
    ensures
        r == is_runnable_argv(texts(v@)),
{
    if v.len() == 0 {
        return false;
    }
    for i in 0..v.len()
        invariant
            forall|k: int| 0 <= k < i ==> !is_blank(#[trigger] texts(v@)[k]),
    {
        if blank(v[i].as_str()) {
            assert(is_blank(texts(v@)[i as int]));
            return false;
        }
    }
    true
}

/// Whether an optional cwd is absent or not blank.
pub fn usable_cwd(cwd: &Option<String>) -> (r: bool)
    ensures
        r == is_usable_cwd(opt_text(*cwd)),
{
    match cwd {
        Some(c) => !blank(c.as_str()),
        None => true,
    }
}

/// `launch_cwd` for plain strings.
pub fn resolve_launch_cwd(requested_cwd: Option<&str>, fallback_cwd: &str) -> (r: Option<String>)
    ensures
        opt_text(r) == launch_cwd(opt_str(requested_cwd), fallback_cwd@),
{
    match requested_cwd {
        Some(cwd) => {
            let cs = chars_of(cwd);
            if cs.len() > 0 && cs[0] == '/' {
                return Some(cwd.to_owned());
            }
            if fallback_cwd.is_empty() {
                return None;
            }
            let fs = chars_of(fallback_cwd);
            let mut joined = fallback_cwd.to_owned();
            if fs[fs.len() - 1] != '/' {
                joined.append("/");
                proof {
                    reveal_strlit("/");
                }
            }
            joined.append(cwd);
            assert(joined@ =~= join_path(fallback_cwd@, cwd@));
            Some(joined)
        },
        None => {
            if fallback_cwd.is_empty() {
                None
            } else {
                Some(fallback_cwd.to_owned())
            }
        },
    }
}

impl TransientPopupCommandHook {
    /// Whether this hook can be run.
    pub fn is_launchable(&self) -> (r: bool)
        ensures
            r == hook_is_launchable(self@),
    {
        all_nonblank(&self.command) && usable_cwd(&self.cwd)
    }

    /// The argv and working directory to run this hook with, `fallback_cwd`
    /// standing in for a missing or relative cwd.
    pub fn launch_plan(&self, fallback_cwd: &str) -> (r: Option<TransientPopupCommandHookPlan>)
        ensures
            match r {
                Some(plan) => hook_plan_of(self@, fallback_cwd@) == Some(plan@),
                None => hook_plan_of(self@, fallback_cwd@) is None,
            },
    {
        if !self.is_launchable() {
            return None;
        }
        let requested = trim_nonblank(opt_as_str(&self.cwd));
        match resolve_launch_cwd(requested, trim_str(fallback_cwd)) {
            Some(cwd) => Some(TransientPopupCommandHookPlan { command: copy_texts(&self.command), cwd }),
            None => None,
        }
    }
}

impl TransientPopupSpec {
    /// How this popup's pane is recognised: by its pane title, or by its
    /// command marker, trimmed, when that is not blank.
    pub fn identity(&self) -> (r: TransientPaneIdentityView<'_>)
        ensures
            r.pane_title@ == self.pane_title@,
            opt_str(r.command_marker) == nonblank_trimmed(opt_text(self.command_marker)),
    {
        TransientPaneIdentityView {
            pane_title: self.pane_title.as_str(),
            command_marker: trim_nonblank(opt_as_str(&self.command_marker)),
        }
    }

    /// The geometry of this popup, when its sizes are percentages from 1 to 100.
    pub fn geometry(&self) -> (r: Option<TransientPaneGeometry>)
        ensures
            r == geometry_of(self@),
    {
        if !(1 <= self.width_percent && self.width_percent <= 100) || !(1 <= self.height_percent
            && self.height_percent <= 100) {
            return None;
        }
        Some(
            TransientPaneGeometry {
                width_percent: self.width_percent,
                height_percent: self.height_percent,
                side_margin: self.side_margin,
                vertical_margin: self.vertical_margin,
            },
        )
    }

    /// Whether this popup can be opened.
    pub fn is_launchable(&self) -> (r: bool)
        ensures
            r == spec_is_launchable(self@),
    {
        if blank(self.id.as_str()) || blank(self.pane_title.as_str()) || self.geometry().is_none() {
            return false;
        }
        let marker_ok = match &self.command_marker {
            Some(marker) => !blank(marker.as_str()),
            None => true,
        };
        if !marker_ok {
            return false;
        }
        let on_close_ok = match &self.on_close {
            Some(hook) => hook.is_launchable(),
            None => true,
        };
        let on_hide_ok = match &self.on_hide {
            Some(hook) => hook.is_launchable(),
            None => true,
        };
        all_nonblank(&self.command) && usable_cwd(&self.cwd) && on_close_ok && on_hide_ok
    }
}

impl TransientPopupPipeRequest {
    /// Whether the spec of this request can be opened.
    pub fn is_launchable_spec(&self) -> (r: bool)
        ensures
            r == spec_is_launchable(self.spec@),
    {
        self.spec.is_launchable()
    }

    /// The launch of this request's popup: the spec's command and arguments
    /// followed by the request's, in the request's cwd, else the spec's, else
    /// `fallback_cwd`.
    pub fn launch_plan(&self, fallback_cwd: &str) -> (r: Option<TransientPaneLaunchPlan>)
        ensures
            match r {
                Some(plan) => request_launch_plan(self@, fallback_cwd@) == Some(plan@),
                None => request_launch_plan(self@, fallback_cwd@) is None,
            },
    {
        if blank(self.spec.id.as_str()) || blank(self.spec.pane_title.as_str()) || self.spec.command.len() == 0 {
            return None;
        }
        let geometry = match self.spec.geometry() {
            Some(g) => g,
            None => return None,
        };
        let command_path = self.spec.command[0].clone();
        let mut args: Vec<String> = Vec::new();
        let n = self.spec.command.len();
        for i in 1..n
            invariant
                n == self.spec.command@.len(),
                args@ =~= self.spec.command@.subrange(1, i as int),
        {
            args.push(self.spec.command[i].clone());
        }
        for i in 0..self.args.len()
            invariant
                args@ =~= self.spec.command@.skip(1) + self.args@.take(i as int),
        {
            args.push(self.args[i].clone());
        }
        assert(self.args@.take(self.args@.len() as int) =~= self.args@);
        assert(texts(args@) =~= texts(self.spec.command@).skip(1) + texts(self.args@));
        let requested_cwd = match &self.cwd {
            Some(c) => Some(c.clone()),
            None => match &self.spec.cwd {
                Some(c) => Some(c.clone()),
                None => None,
            },
        };
        resolve_transient_launch_plan(
            TransientPaneLaunchRequest {
                command_path,
                args,
                requested_cwd,
                fallback_cwd: fallback_cwd.to_owned(),
                geometry,
            },
        )
    }
}

/// Plans a popup launch: the trimmed program, the arguments as given, and the
/// working directory resolved against the trimmed fallback. There is no plan
/// when the program is blank or no working directory results.
pub fn resolve_transient_launch_plan(request: TransientPaneLaunchRequest) -> (r: Option<
    TransientPaneLaunchPlan,
>)
    ensures
        match r {
            Some(plan) => launch_plan_of(request@) == Some(plan@),
            None => launch_plan_of(request@) is None,
        },
{
    let command_path = trim_str(request.command_path.as_str());
    if command_path.is_empty() {
        return None;
    }
    let requested = trim_nonblank(opt_as_str(&request.requested_cwd));
    let cwd = match resolve_launch_cwd(requested, trim_str(request.fallback_cwd.as_str())) {
        Some(cwd) => cwd,
        None => return None,
    };
    if cwd.as_str().is_empty() {
        return None;
    }
    Some(
        TransientPaneLaunchPlan {
            command_path: command_path.to_owned(),
            args: request.args,
            cwd,
            geometry: request.geometry,
        },
    )
}

/// Popups whose cwd must match should restart when their remembered launch cwd differs
/// from the effective cwd of a fresh launch. The live process cwd is a compatibility
/// fallback for panes opened before launch tracking was available.
pub fn should_restart_popup_for_cwd(
    cwd_must_match: bool,
    launch_cwd: Option<&str>,
    process_cwd: Option<&str>,
    effective_cwd: &str,
) -> (r: bool)
    ensures
        r == restart_for_cwd(cwd_must_match, opt_str(launch_cwd), opt_str(process_cwd), effective_cwd@),
{
    if !cwd_must_match {
        return false;
    }
    let known = match launch_cwd {
        Some(c) => Some(c),
        None => process_cwd,
    };
    let popup_cwd = match trim_nonblank(known) {
        Some(c) => c,
        None => return false,
    };
    let effective = trim_str(effective_cwd);
    if effective.is_empty() {
        return false;
    }
    let a = trimmed_end_char(popup_cwd, '/');
    let b = trimmed_end_char(effective, '/');
    let ca = chars_of(a.as_str());
    let cb = chars_of(b.as_str());
    !crate::text::chars_equal(ca.as_slice(), cb.as_slice())
}

} // verus!
