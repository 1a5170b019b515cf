//! Reading popup specs from the plugin's KDL configuration: drafts that collect
//! the fields of each popup, plugin-wide defaults, and the specs built from them.
use vstd::prelude::*;

use crate::kdl_source::{KdlEntry, KdlNode};
use crate::popup_contract::launch::{nonblank_trimmed, trim_nonblank};
use crate::popup_contract::types::{
    copy_opt_hook, opt_hook, opt_str, opt_text, HookView, SpecView, TransientPopupCommandHook,
    TransientPopupSpec, TransientPopupToggleCloseBehavior,
};
use crate::text::{
    format_i64, is_blank, parse_usize, parse_usize_spec, same_text, signed_decimal,
    strip_prefix, strip_prefix_seq, trim, trim_str,
};

verus! {

// ---- drafts ----

/// The fields of a hook as configured, before they are checked.
pub struct PopupCommandHookDraft {
    pub command: Option<String>,
    pub args: Vec<(usize, String)>,
    pub cwd: Option<String>,
    pub invalid: bool,
}

/// The fields of a popup as configured, before they are checked.
pub struct PopupSpecDraft {
    pub command: Option<String>,
    pub args: Vec<(usize, String)>,
    pub pane_title: Option<String>,
    pub preserve_terminal_title: Option<String>,
    pub command_marker: Option<String>,
    pub cwd: Option<String>,
    pub on_close: Option<PopupCommandHookDraft>,
    pub on_hide: Option<PopupCommandHookDraft>,
    pub toggle_close_behavior: Option<String>,
    pub width_percent: Option<String>,
    pub height_percent: Option<String>,
    pub side_margin: Option<String>,
    pub vertical_margin: Option<String>,
    pub invalid: bool,
}

/// Plugin-wide defaults of configured popups.
pub struct PopupSpecDefaults {
    pub side_margin: usize,
    pub vertical_margin: usize,
    pub on_close: Option<TransientPopupCommandHook>,
    pub on_hide: Option<TransientPopupCommandHook>,
    pub invalid: bool,
}

/// Numbered arguments, by number.
pub open spec fn args_view(args: Seq<(usize, String)>) -> Seq<(usize, Seq<char>)> {
    args.map_values(|a: (usize, String)| (a.0, a.1@))
}

#[verifier::ext_equal]
pub struct HookDraftView {
    pub command: Option<Seq<char>>,
    pub args: Seq<(usize, Seq<char>)>,
    pub cwd: Option<Seq<char>>,
    pub invalid: bool,
}

impl View for PopupCommandHookDraft {
    type V = HookDraftView;

    open spec fn view(&self) -> HookDraftView {
        HookDraftView {
            command: opt_text(self.command),
            args: args_view(self.args@),
            cwd: opt_text(self.cwd),
            invalid: self.invalid,
        }
    }
}

pub open spec fn opt_hook_draft(o: Option<PopupCommandHookDraft>) -> Option<HookDraftView> {
    match o {
        Some(h) => Some(h@),
        None => None,
    }
}

#[verifier::ext_equal]
pub struct DraftView {
    pub command: Option<Seq<char>>,
    pub args: Seq<(usize, Seq<char>)>,
    pub pane_title: Option<Seq<char>>,
    pub preserve_terminal_title: Option<Seq<char>>,
    pub command_marker: Option<Seq<char>>,
    pub cwd: Option<Seq<char>>,
    pub on_close: Option<HookDraftView>,
    pub on_hide: Option<HookDraftView>,
    pub toggle_close_behavior: Option<Seq<char>>,
    pub width_percent: Option<Seq<char>>,
    pub height_percent: Option<Seq<char>>,
    pub side_margin: Option<Seq<char>>,
    pub vertical_margin: Option<Seq<char>>,
    pub invalid: bool,
}

impl View for PopupSpecDraft {
    type V = DraftView;

    open spec fn view(&self) -> DraftView {
        DraftView {
            command: opt_text(self.command),
            args: args_view(self.args@),
            pane_title: opt_text(self.pane_title),
            preserve_terminal_title: opt_text(self.preserve_terminal_title),
            command_marker: opt_text(self.command_marker),
            cwd: opt_text(self.cwd),
            on_close: opt_hook_draft(self.on_close),
            on_hide: opt_hook_draft(self.on_hide),
            toggle_close_behavior: opt_text(self.toggle_close_behavior),
            width_percent: opt_text(self.width_percent),
            height_percent: opt_text(self.height_percent),
            side_margin: opt_text(self.side_margin),
            vertical_margin: opt_text(self.vertical_margin),
            invalid: self.invalid,
        }
    }
}

#[verifier::ext_equal]
pub struct DefaultsView {
    pub side_margin: usize,
    pub vertical_margin: usize,
    pub on_close: Option<HookView>,
    pub on_hide: Option<HookView>,
    pub invalid: bool,
}

impl View for PopupSpecDefaults {
    type V = DefaultsView;

    open spec fn view(&self) -> DefaultsView {
        DefaultsView {
            side_margin: self.side_margin,
            vertical_margin: self.vertical_margin,
            on_close: opt_hook(self.on_close),
            on_hide: opt_hook(self.on_hide),
            invalid: self.invalid,
        }
    }
}

pub open spec fn empty_hook_draft() -> HookDraftView {
    HookDraftView { command: None, args: Seq::empty(), cwd: None, invalid: false }
}

pub open spec fn empty_draft() -> DraftView {
    DraftView {
        command: None,
        args: Seq::empty(),
        pane_title: None,
        preserve_terminal_title: None,
        command_marker: None,
        cwd: None,
        on_close: None,
        on_hide: None,
        toggle_close_behavior: None,
        width_percent: None,
        height_percent: None,
        side_margin: None,
        vertical_margin: None,
        invalid: false,
    }
}

/// Defaults when the configuration sets none: no margins and no hooks.
pub open spec fn base_defaults() -> DefaultsView {
    DefaultsView { side_margin: 0, vertical_margin: 0, on_close: None, on_hide: None, invalid: false }
}

/// Numbered arguments after setting argument `index` to `value`: a later value
/// for a number replaces the earlier one, and numbers stay in increasing order.
pub open spec fn args_insert(args: Seq<(usize, Seq<char>)>, index: usize, value: Seq<char>) -> Seq<
    (usize, Seq<char>),
>
    decreases args.len(),
{
    if args.len() == 0 {
        seq![(index, value)]
    } else if args[0].0 == index {
        args.update(0, (index, value))
    } else if index < args[0].0 {
        seq![(index, value)] + args
    } else {
        seq![args[0]] + args_insert(args.drop_first(), index, value)
    }
}

/// Numbered arguments kept in strictly increasing order of number, as a map
/// ordered by number keeps them.
pub open spec fn args_ascending(args: Seq<(usize, Seq<char>)>) -> bool {
    forall|i: int, j: int| 0 <= i < j < args.len() ==> (#[trigger] args[i]).0 < (#[trigger] args[j]).0
}

/// A hook draft whose arguments are in order.
pub open spec fn hook_draft_wf(h: HookDraftView) -> bool {
    args_ascending(h.args)
}

/// A popup draft whose arguments, and those of its hooks, are in order.
pub open spec fn draft_wf(d: DraftView) -> bool {
    &&& args_ascending(d.args)
    &&& (d.on_close matches Some(h) ==> hook_draft_wf(h))
    &&& (d.on_hide matches Some(h) ==> hook_draft_wf(h))
}

proof fn lemma_args_insert_above(args: Seq<(usize, Seq<char>)>, index: usize, value: Seq<char>, b: int)
    requires
        forall|j: int| 0 <= j < args.len() ==> (#[trigger] args[j]).0 > b,
        index > b,
    ensures
        forall|k: int|
            0 <= k < args_insert(args, index, value).len() ==> (#[trigger] args_insert(
                args,
                index,
                value,
            )[k]).0 > b,
    decreases args.len(),
{
    if args.len() > 0 && args[0].0 != index && index >= args[0].0 {
        let rest = args.drop_first();
        assert forall|j: int| 0 <= j < rest.len() implies (#[trigger] rest[j]).0 > b by {
            assert(rest[j] == args[j + 1]);
        }
        lemma_args_insert_above(rest, index, value, b);
        let r = args_insert(args, index, value);
        assert forall|k: int| 0 <= k < r.len() implies (#[trigger] r[k]).0 > b by {
            if k > 0 {
                assert(r[k] == args_insert(rest, index, value)[k - 1]);
            }
        }
    } else if args.len() > 0 && args[0].0 == index {
        let r = args_insert(args, index, value);
        assert forall|k: int| 0 <= k < r.len() implies (#[trigger] r[k]).0 > b by {
            if k > 0 {
                assert(r[k] == args[k]);
            }
        }
    } else if args.len() > 0 {
        let r = args_insert(args, index, value);
        assert forall|k: int| 0 <= k < r.len() implies (#[trigger] r[k]).0 > b by {
            if k > 0 {
                assert(r[k] == args[k - 1]);
            }
        }
    }
}

/// Setting a numbered argument keeps the arguments in order.
pub proof fn lemma_args_insert_ascending(args: Seq<(usize, Seq<char>)>, index: usize, value: Seq<char>)
    requires
        args_ascending(args),
    ensures
        args_ascending(args_insert(args, index, value)),
    decreases args.len(),
{
    let r = args_insert(args, index, value);
    if args.len() == 0 {
    } else if args[0].0 == index {
        assert forall|i: int, j: int| 0 <= i < j < r.len() implies (#[trigger] r[i]).0 < (
        #[trigger] r[j]).0 by {
            assert(r[j] == args[j]);
            if i > 0 {
                assert(r[i] == args[i]);
            }
        }
    } else if index < args[0].0 {
        assert forall|i: int, j: int| 0 <= i < j < r.len() implies (#[trigger] r[i]).0 < (
        #[trigger] r[j]).0 by {
            assert(r[j] == args[j - 1]);
            if i > 0 {
                assert(r[i] == args[i - 1]);
            } else if j - 1 > 0 {
                assert(args[0].0 < args[j - 1].0);
            }
        }
    } else {
        let rest = args.drop_first();
        assert forall|i: int, j: int| 0 <= i < j < rest.len() implies (#[trigger] rest[i]).0 < (
        #[trigger] rest[j]).0 by {
            assert(rest[i] == args[i + 1] && rest[j] == args[j + 1]);
        }
        assert forall|j: int| 0 <= j < rest.len() implies (#[trigger] rest[j]).0 > args[0].0 by {
            assert(rest[j] == args[j + 1]);
        }
        lemma_args_insert_ascending(rest, index, value);
        lemma_args_insert_above(rest, index, value, args[0].0 as int);
        let t = args_insert(rest, index, value);
        assert forall|i: int, j: int| 0 <= i < j < r.len() implies (#[trigger] r[i]).0 < (
        #[trigger] r[j]).0 by {
            assert(r[j] == t[j - 1]);
            if i > 0 {
                assert(r[i] == t[i - 1]);
            }
        }
    }
}

proof fn lemma_hook_fields_wf(h: HookDraftView, nodes: Seq<KdlNode>)
    requires
        hook_draft_wf(h),
    ensures
        hook_draft_wf(hook_fields(h, nodes)),
    decreases nodes.len(),
{
    if nodes.len() > 0 {
        let before = hook_fields(h, nodes.drop_last());
        lemma_hook_fields_wf(h, nodes.drop_last());
        let node = nodes.last();
        match hook_field(node.name@) {
            Some(PopupCommandHookField::Arg(index)) => match field_value(node) {
                Some(value) => lemma_args_insert_ascending(before.args, index, value),
                None => {},
            },
            _ => {},
        }
    }
}

/// Reading a hook node keeps its draft's arguments in order.
pub proof fn lemma_hook_node_wf(h: HookDraftView, node: KdlNode)
    requires
        hook_draft_wf(h),
    ensures
        hook_draft_wf(hook_node_into(h, node)),
{
    match node.children {
        Some(block) => lemma_hook_fields_wf(h, block@),
        None => {},
    }
}

/// Reading the nodes of a popup block keeps its draft's arguments in order.
pub proof fn lemma_popup_fields_wf(d: DraftView, nodes: Seq<KdlNode>)
    requires
        draft_wf(d),
    ensures
        draft_wf(popup_fields(d, nodes)),
    decreases nodes.len(),
{
    if nodes.len() > 0 {
        let before = popup_fields(d, nodes.drop_last());
        lemma_popup_fields_wf(d, nodes.drop_last());
        let node = nodes.last();
        lemma_hook_node_wf(hook_or_empty(before.on_close), node);
        lemma_hook_node_wf(hook_or_empty(before.on_hide), node);
        match config_field(node.name@) {
            Some(PopupConfigField::Arg(index)) => match field_value(node) {
                Some(value) => lemma_args_insert_ascending(before.args, index, value),
                None => {},
            },
            _ => {},
        }
    }
}

/// Reading the defaults block keeps the arguments of its hook drafts in order.
proof fn lemma_defaults_fields_wf(p: DefaultsProgressView, nodes: Seq<KdlNode>)
    requires
        p.on_close matches Some(h) ==> hook_draft_wf(h),
        p.on_hide matches Some(h) ==> hook_draft_wf(h),
    ensures
        defaults_fields(p, nodes).on_close matches Some(h) ==> hook_draft_wf(h),
        defaults_fields(p, nodes).on_hide matches Some(h) ==> hook_draft_wf(h),
    decreases nodes.len(),
{
    if nodes.len() > 0 {
        let before = defaults_fields(p, nodes.drop_last());
        lemma_defaults_fields_wf(p, nodes.drop_last());
        let node = nodes.last();
        lemma_hook_node_wf(hook_or_empty(before.on_close), node);
        lemma_hook_node_wf(hook_or_empty(before.on_hide), node);
    }
}

// ---- fields ----

/// The fields a popup block may set.
#[derive(Clone, Copy, Debug, PartialEq, Eq, Structural)]
pub enum PopupConfigField {
    Command,
    PaneTitle,
    PreserveTerminalTitle,
    CommandMarker,
    Cwd,
    ToggleCloseBehavior,
    WidthPercent,
    HeightPercent,
    SideMargin,
    VerticalMargin,
    Arg(usize),
}

/// The fields a hook block may set.
#[derive(Clone, Copy, Debug, PartialEq, Eq, Structural)]
pub enum PopupCommandHookField {
    Command,
    Cwd,
    Arg(usize),
}

/// The argument number of an `arg_N` key, `None` for a key without that prefix,
/// `Some(None)` for one whose number does not read.
pub open spec fn arg_key(key: Seq<char>) -> Option<Option<usize>> {
    match strip_prefix_seq(key, "arg_"@) {
        Some(rest) => Some(parse_usize_spec(rest)),
        None => None,
    }
}

/// The popup field a key names.
pub open spec fn config_field(key: Seq<char>) -> Option<PopupConfigField> {
    match arg_key(key) {
        Some(Some(index)) => Some(PopupConfigField::Arg(index)),
        Some(None) => None,
        None => if key == "command"@ {
            Some(PopupConfigField::Command)
        } else if key == "pane_title"@ {
            Some(PopupConfigField::PaneTitle)
        } else if key == "preserve_terminal_title"@ {
            Some(PopupConfigField::PreserveTerminalTitle)
        } else if key == "command_marker"@ {
            Some(PopupConfigField::CommandMarker)
        } else if key == "cwd"@ {
            Some(PopupConfigField::Cwd)
        } else if key == "toggle_close_behavior"@ {
            Some(PopupConfigField::ToggleCloseBehavior)
        } else if key == "width_percent"@ {
            Some(PopupConfigField::WidthPercent)
        } else if key == "height_percent"@ {
            Some(PopupConfigField::HeightPercent)
        } else if key == "side_margin"@ {
            Some(PopupConfigField::SideMargin)
        } else if key == "vertical_margin"@ {
            Some(PopupConfigField::VerticalMargin)
        } else {
            None
        },
    }
}

/// The hook field a key names.
pub open spec fn hook_field(key: Seq<char>) -> Option<PopupCommandHookField> {
    match arg_key(key) {
        Some(Some(index)) => Some(PopupCommandHookField::Arg(index)),
        Some(None) => None,
        None => if key == "command"@ {
            Some(PopupCommandHookField::Command)
        } else if key == "cwd"@ {
            Some(PopupCommandHookField::Cwd)
        } else {
            None
        },
    }
}

/// The first positional argument among a node's entries.
pub open spec fn first_argument(entries: Seq<KdlEntry>) -> Option<KdlEntry>
    decreases entries.len(),
{
    if entries.len() == 0 {
        None
    } else if !entries[0].is_property {
        Some(entries[0])
    } else {
        first_argument(entries.drop_first())
    }
}

/// The text of a KDL value: a string as it is, an integer in decimal, a boolean
/// as `true` or `false`; other values have none.
pub open spec fn scalar_text(e: KdlEntry) -> Option<Seq<char>> {
    match e.text {
        Some(t) => Some(t@),
        None => match e.integer {
            Some(n) => Some(signed_decimal(n as int)),
            None => match e.boolean {
                Some(b) => Some(
                    if b {
                        "true"@
                    } else {
                        "false"@
                    },
                ),
                None => None,
            },
        },
    }
}

/// The value a field node sets: the text of its first positional argument.
pub open spec fn field_value(node: KdlNode) -> Option<Seq<char>> {
    match first_argument(node.entries@) {
        Some(entry) => scalar_text(entry),
        None => None,
    }
}

/// A popup draft after a field is set.
pub open spec fn apply_field(d: DraftView, field: PopupConfigField, value: Seq<char>) -> DraftView {
    match field {
        PopupConfigField::Command => DraftView { command: Some(value), ..d },
        PopupConfigField::PaneTitle => DraftView { pane_title: Some(value), ..d },
        PopupConfigField::PreserveTerminalTitle => DraftView {
            preserve_terminal_title: Some(value),
            ..d
        },
        PopupConfigField::CommandMarker => DraftView { command_marker: Some(value), ..d },
        PopupConfigField::Cwd => DraftView { cwd: Some(value), ..d },
        PopupConfigField::ToggleCloseBehavior => DraftView {
            toggle_close_behavior: Some(value),
            ..d
        },
        PopupConfigField::WidthPercent => DraftView { width_percent: Some(value), ..d },
        PopupConfigField::HeightPercent => DraftView { height_percent: Some(value), ..d },
        PopupConfigField::SideMargin => DraftView { side_margin: Some(value), ..d },
        PopupConfigField::VerticalMargin => DraftView { vertical_margin: Some(value), ..d },
        PopupConfigField::Arg(index) => if index == 0 {
            DraftView { invalid: true, ..d }
        } else {
            DraftView { args: args_insert(d.args, index, value), ..d }
        },
    }
}

/// A hook draft after a field is set.
pub open spec fn apply_hook_field(h: HookDraftView, field: PopupCommandHookField, value: Seq<char>) -> HookDraftView {
    match field {
        PopupCommandHookField::Command => HookDraftView { command: Some(value), ..h },
        PopupCommandHookField::Cwd => HookDraftView { cwd: Some(value), ..h },
        PopupCommandHookField::Arg(index) => if index == 0 {
            HookDraftView { invalid: true, ..h }
        } else {
            HookDraftView { args: args_insert(h.args, index, value), ..h }
        },
    }
}

/// A hook draft after one field node of a hook block.
pub open spec fn hook_field_step(h: HookDraftView, node: KdlNode) -> HookDraftView {
    match hook_field(node.name@) {
        None => HookDraftView { invalid: true, ..h },
        Some(field) => match field_value(node) {
            None => HookDraftView { invalid: true, ..h },
            Some(value) => apply_hook_field(h, field, value),
        },
    }
}

/// A hook draft after the field nodes of a hook block, in order.
pub open spec fn hook_fields(h: HookDraftView, nodes: Seq<KdlNode>) -> HookDraftView
    decreases nodes.len(),
{
    if nodes.len() == 0 {
        h
    } else {
        hook_field_step(hook_fields(h, nodes.drop_last()), nodes.last())
    }
}

/// A hook draft after a hook node: its block's fields, and invalid without a block.
pub open spec fn hook_node_into(h: HookDraftView, node: KdlNode) -> HookDraftView {
    match node.children {
        Some(block) => hook_fields(h, block@),
        None => HookDraftView { invalid: true, ..h },
    }
}

/// The draft of a hook named `on_close` or `on_hide`, empty when not yet set.
pub open spec fn hook_or_empty(h: Option<HookDraftView>) -> HookDraftView {
    match h {
        Some(hook) => hook,
        None => empty_hook_draft(),
    }
}

/// A popup draft after one node of its block.
pub open spec fn popup_field_step(d: DraftView, node: KdlNode) -> DraftView {
    if node.name@ == "on_close"@ {
        DraftView { on_close: Some(hook_node_into(hook_or_empty(d.on_close), node)), ..d }
    } else if node.name@ == "on_hide"@ {
        DraftView { on_hide: Some(hook_node_into(hook_or_empty(d.on_hide), node)), ..d }
    } else {
        match config_field(node.name@) {
            None => DraftView { invalid: true, ..d },
            Some(field) => match field_value(node) {
                None => DraftView { invalid: true, ..d },
                Some(value) => apply_field(d, field, value),
            },
        }
    }
}

/// A popup draft after the nodes of its block, in order.
pub open spec fn popup_fields(d: DraftView, nodes: Seq<KdlNode>) -> DraftView
    decreases nodes.len(),
{
    if nodes.len() == 0 {
        d
    } else {
        popup_field_step(popup_fields(d, nodes.drop_last()), nodes.last())
    }
}

// ---- checks ----

/// The trimmed, non-blank values of numbered arguments in order, or `None` when
/// one is blank.
pub open spec fn required_args(args: Seq<(usize, Seq<char>)>) -> Option<Seq<Seq<char>>>
    decreases args.len(),
{
    if args.len() == 0 {
        Some(Seq::empty())
    } else {
        match required_args(args.drop_last()) {
            Some(done) => if is_blank(args.last().1) {
                None
            } else {
                Some(done.push(trim(args.last().1)))
            },
            None => None,
        }
    }
}

/// The hook a hook draft describes: its command and arguments trimmed and
/// non-blank, its cwd trimmed or dropped when blank.
pub open spec fn build_hook(h: HookDraftView) -> Option<HookView> {
    if h.invalid {
        None
    } else {
        match nonblank_trimmed(h.command) {
            None => None,
            Some(path) => match required_args(h.args) {
                None => None,
                Some(rest) => Some(HookView { command: seq![path] + rest, cwd: nonblank_trimmed(h.cwd) }),
            },
        }
    }
}

/// `toggle_close_behavior`: `close` (the default) or `hide`.
pub open spec fn parse_toggle_close_behavior(value: Option<Seq<char>>) -> Option<TransientPopupToggleCloseBehavior> {
    match nonblank_trimmed(value) {
        None => Some(TransientPopupToggleCloseBehavior::Close),
        Some(v) => if v == "close"@ {
            Some(TransientPopupToggleCloseBehavior::Close)
        } else if v == "hide"@ {
            Some(TransientPopupToggleCloseBehavior::Hide)
        } else {
            None
        },
    }
}

/// A boolean field: `true`, `false`, or the default when absent or blank.
pub open spec fn parse_flag(value: Option<Seq<char>>, default: bool) -> Option<bool> {
    match nonblank_trimmed(value) {
        None => Some(default),
        Some(v) => if v == "true"@ {
            Some(true)
        } else if v == "false"@ {
            Some(false)
        } else {
            None
        },
    }
}

/// A percentage field: an integer from 1 to 100, or the default when absent.
pub open spec fn parse_percent(value: Option<Seq<char>>, default: usize) -> Option<usize> {
    match value {
        Some(v) => match parse_usize_spec(trim(v)) {
            Some(p) => if 1 <= p <= 100 {
                Some(p)
            } else {
                None
            },
            None => None,
        },
        None => Some(default),
    }
}

/// A margin field: a non-negative integer, or the default when absent.
pub open spec fn parse_margin(value: Option<Seq<char>>, default: usize) -> Option<usize> {
    match value {
        Some(v) => parse_usize_spec(trim(v)),
        None => Some(default),
    }
}

/// The hook of a popup: its own, when its block sets one, else the default one.
pub open spec fn popup_hook(own: Option<HookDraftView>, default: Option<HookView>) -> Option<Option<HookView>> {
    match own {
        Some(h) => match build_hook(h) {
            Some(hook) => Some(Some(hook)),
            None => None,
        },
        None => Some(default),
    }
}

/// The spec a popup draft describes, or `None` when a field is wrong or the
/// defaults are invalid. The pane title defaults to `<id>_popup`, the command
/// marker to the command, sizes to 90 by 85 percent, margins to the defaults'.
pub open spec fn build_spec(id: Seq<char>, d: DraftView, defaults: DefaultsView) -> Option<SpecView> {
    if is_blank(id) || d.invalid || defaults.invalid {
        None
    } else {
        let command_path = nonblank_trimmed(d.command);
        let rest = required_args(d.args);
        let preserve = parse_flag(d.preserve_terminal_title, false);
        let on_close = popup_hook(d.on_close, defaults.on_close);
        let on_hide = popup_hook(d.on_hide, defaults.on_hide);
        let toggle = parse_toggle_close_behavior(d.toggle_close_behavior);
        let width = parse_percent(d.width_percent, 90);
        let height = parse_percent(d.height_percent, 85);
        let side = parse_margin(d.side_margin, defaults.side_margin);
        let vertical = parse_margin(d.vertical_margin, defaults.vertical_margin);
        if command_path is None || rest is None || preserve is None || on_close is None
            || on_hide is None || toggle is None || width is None || height is None || side is None
            || vertical is None {
            None
        } else {
            let path = command_path->0;
            Some(
                SpecView {
                    id: trim(id),
                    pane_title: match nonblank_trimmed(d.pane_title) {
                        Some(title) => title,
                        None => id + "_popup"@,
                    },
                    preserve_terminal_title: preserve->0,
                    command_marker: match nonblank_trimmed(d.command_marker) {
                        Some(marker) => Some(marker),
                        None => Some(path),
                    },
                    command: seq![path] + rest->0,
                    cwd: nonblank_trimmed(d.cwd),
                    on_close: on_close->0,
                    on_hide: on_hide->0,
                    toggle_close_behavior: toggle->0,
                    width_percent: width->0,
                    height_percent: height->0,
                    side_margin: side->0,
                    vertical_margin: vertical->0,
                },
            )
        }
    }
}


// ---- defaults ----

/// Plugin-wide defaults while their block is read.
pub struct DefaultsInProgress {
    pub side_margin: usize,
    pub vertical_margin: usize,
    pub on_close: Option<PopupCommandHookDraft>,
    pub on_hide: Option<PopupCommandHookDraft>,
    pub invalid: bool,
}

#[verifier::ext_equal]
pub struct DefaultsProgressView {
    pub side_margin: usize,
    pub vertical_margin: usize,
    pub on_close: Option<HookDraftView>,
    pub on_hide: Option<HookDraftView>,
    pub invalid: bool,
}

impl View for DefaultsInProgress {
    type V = DefaultsProgressView;

    open spec fn view(&self) -> DefaultsProgressView {
        DefaultsProgressView {
            side_margin: self.side_margin,
            vertical_margin: self.vertical_margin,
            on_close: opt_hook_draft(self.on_close),
            on_hide: opt_hook_draft(self.on_hide),
            invalid: self.invalid,
        }
    }
}

/// Defaults after one node of the defaults block: a hook block, or a margin.
pub open spec fn defaults_step(p: DefaultsProgressView, node: KdlNode) -> DefaultsProgressView {
    if node.name@ == "on_close"@ {
        DefaultsProgressView { on_close: Some(hook_node_into(hook_or_empty(p.on_close), node)), ..p }
    } else if node.name@ == "on_hide"@ {
        DefaultsProgressView { on_hide: Some(hook_node_into(hook_or_empty(p.on_hide), node)), ..p }
    } else {
        match field_value(node) {
            None => DefaultsProgressView { invalid: true, ..p },
            Some(value) => if node.name@ == "side_margin"@ {
                match parse_margin(Some(value), 0) {
                    Some(m) => DefaultsProgressView { side_margin: m, ..p },
                    None => DefaultsProgressView { invalid: true, ..p },
                }
            } else if node.name@ == "vertical_margin"@ {
                match parse_margin(Some(value), 0) {
                    Some(m) => DefaultsProgressView { vertical_margin: m, ..p },
                    None => DefaultsProgressView { invalid: true, ..p },
                }
            } else {
                DefaultsProgressView { invalid: true, ..p }
            },
        }
    }
}

/// Defaults after the nodes of the defaults block, in order.
pub open spec fn defaults_fields(p: DefaultsProgressView, nodes: Seq<KdlNode>) -> DefaultsProgressView
    decreases nodes.len(),
{
    if nodes.len() == 0 {
        p
    } else {
        defaults_step(defaults_fields(p, nodes.drop_last()), nodes.last())
    }
}

/// The defaults once their block is read: a hook that does not build makes them invalid.
pub open spec fn finish_defaults(p: DefaultsProgressView) -> DefaultsView {
    let close = match p.on_close {
        Some(h) => build_hook(h),
        None => None,
    };
    let hide = match p.on_hide {
        Some(h) => build_hook(h),
        None => None,
    };
    DefaultsView {
        side_margin: p.side_margin,
        vertical_margin: p.vertical_margin,
        on_close: close,
        on_hide: hide,
        invalid: p.invalid || (p.on_close is Some && close is None) || (p.on_hide is Some
            && hide is None),
    }
}

/// The defaults that a parsed `popup_defaults` block gives (`None` when it did not parse).
pub open spec fn defaults_of_document(nodes: Option<Seq<KdlNode>>) -> DefaultsView {
    match nodes {
        None => DefaultsView { invalid: true, ..base_defaults() },
        Some(nodes) => finish_defaults(
            defaults_fields(
                DefaultsProgressView {
                    side_margin: 0,
                    vertical_margin: 0,
                    on_close: None,
                    on_hide: None,
                    invalid: false,
                },
                nodes,
            ),
        ),
    }
}

// ---- executable ----

/// An empty hook draft.
pub fn new_hook_draft() -> (r: PopupCommandHookDraft)
    ensures
        r@ == empty_hook_draft(),
{
    let r = PopupCommandHookDraft { command: None, args: Vec::new(), cwd: None, invalid: false };
    assert(r@ =~= empty_hook_draft());
    r
}

/// An empty popup draft.
pub fn new_draft() -> (r: PopupSpecDraft)
    ensures
        r@ == empty_draft(),
{
    let r = PopupSpecDraft {
        command: None,
        args: Vec::new(),
        pane_title: None,
        preserve_terminal_title: None,
        command_marker: None,
        cwd: None,
        on_close: None,
        on_hide: None,
        toggle_close_behavior: None,
        width_percent: None,
        height_percent: None,
        side_margin: None,
        vertical_margin: None,
        invalid: false,
    };
    assert(r@ =~= empty_draft());
    r
}

/// Sets numbered argument `index` to `value`.
pub fn insert_arg(args: Vec<(usize, String)>, index: usize, value: String) -> (r: Vec<(usize, String)>)
    ensures
        args_view(r@) == args_insert(args_view(args@), index, value@),
{
    let mut args = args;
    let ghost a0 = args_view(args@);
    let mut i: usize = 0;
    assert(a0.skip(0) =~= a0);
    assert(a0.take(0) + args_insert(a0, index, value@) =~= args_insert(a0, index, value@));
    while i < args.len() && args[i].0 < index
        invariant
            i <= args@.len(),
            args_view(args@) == a0,
            args_insert(a0, index, value@) == a0.take(i as int) + args_insert(a0.skip(i as int), index, value@),
        decreases args.len() - i,
    {
        proof {
            let rest = a0.skip(i as int);
            assert(rest[0] == a0[i as int]);
            assert(rest.drop_first() =~= a0.skip(i + 1));
            assert(a0.take(i + 1) =~= a0.take(i as int).push(a0[i as int]));
            assert(args_insert(rest, index, value@) == seq![rest[0]] + args_insert(rest.drop_first(), index, value@));
            assert(a0.take(i as int) + (seq![a0[i as int]] + args_insert(a0.skip(i + 1), index, value@)) =~= a0.take(i + 1) + args_insert(a0.skip(i + 1), index, value@));
        }
        i = i + 1;
    }
    proof {
        assert(a0.take(i as int) + a0.skip(i as int) =~= a0);
    }
    if i < args.len() && args[i].0 == index {
        args.set(i, (index, value));
        proof {
            let rest = a0.skip(i as int);
            assert(rest[0].0 == index);
            assert(args_view(args@) =~= a0.take(i as int) + rest.update(0, (index, value@)));
        }
    } else {
        args.insert(i, (index, value));
        proof {
            let rest = a0.skip(i as int);
            if i < a0.len() {
                assert(rest[0] == a0[i as int]);
            } else {
                assert(rest.len() == 0);
            }
            assert(args_insert(rest, index, value@) =~= seq![(index, value@)] + rest);
            assert(args_view(args@) =~= a0.take(i as int) + (seq![(index, value@)] + rest));
        }
    }
    args
}

/// The argument number of an `arg_N` key.
fn arg_key_of(key: &str) -> (r: Option<Option<usize>>)
    ensures
        r == arg_key(key@),
{
    match strip_prefix(key, "arg_") {
        Some(rest) => Some(parse_usize(rest.as_str())),
        None => None,
    }
}

/// The popup field a key names.
pub fn popup_config_field(key: &str) -> (r: Option<PopupConfigField>)
    ensures
        r == config_field(key@),
{
    match arg_key_of(key) {
        Some(Some(index)) => Some(PopupConfigField::Arg(index)),
        Some(None) => None,
        None => if same_text(key, "command") {
            Some(PopupConfigField::Command)
        } else if same_text(key, "pane_title") {
            Some(PopupConfigField::PaneTitle)
        } else if same_text(key, "preserve_terminal_title") {
            Some(PopupConfigField::PreserveTerminalTitle)
        } else if same_text(key, "command_marker") {
            Some(PopupConfigField::CommandMarker)
        } else if same_text(key, "cwd") {
            Some(PopupConfigField::Cwd)
        } else if same_text(key, "toggle_close_behavior") {
            Some(PopupConfigField::ToggleCloseBehavior)
        } else if same_text(key, "width_percent") {
            Some(PopupConfigField::WidthPercent)
        } else if same_text(key, "height_percent") {
            Some(PopupConfigField::HeightPercent)
        } else if same_text(key, "side_margin") {
            Some(PopupConfigField::SideMargin)
        } else if same_text(key, "vertical_margin") {
            Some(PopupConfigField::VerticalMargin)
        } else {
            None
        },
    }
}

/// The hook field a key names.
pub fn hook_config_field(key: &str) -> (r: Option<PopupCommandHookField>)
    ensures
        r == hook_field(key@),
{
    match arg_key_of(key) {
        Some(Some(index)) => Some(PopupCommandHookField::Arg(index)),
        Some(None) => None,
        None => if same_text(key, "command") {
            Some(PopupCommandHookField::Command)
        } else if same_text(key, "cwd") {
            Some(PopupCommandHookField::Cwd)
        } else {
            None
        },
    }
}

/// The text of a KDL value.
pub fn kdl_value_to_string(entry: &KdlEntry) -> (r: Option<String>)
    ensures
        opt_text(r) == scalar_text(*entry),
{
    match &entry.text {
        Some(t) => Some(t.clone()),
        None => match entry.integer {
            Some(n) => Some(format_i64(n)),
            None => match entry.boolean {
                Some(b) => if b {
                    Some("true".to_owned())
                } else {
                    Some("false".to_owned())
                },
                None => None,
            },
        },
    }
}

/// The value a field node sets.
pub fn popup_field_value(node: &KdlNode) -> (r: Option<String>)
    ensures
        opt_text(r) == field_value(*node),
{
    let entries = &node.entries;
    let mut i: usize = 0;
    assert(entries@.skip(0) =~= entries@);
    while i < entries.len()
        invariant
            i <= entries@.len(),
            entries@ == node.entries@,
            first_argument(entries@) == first_argument(entries@.skip(i as int)),
        decreases entries.len() - i,
    {
        if !entries[i].is_property {
            let ghost rest = entries@.skip(i as int);
            assert(rest.len() > 0 && rest[0] == entries@[i as int]);
            assert(first_argument(rest) == Some(entries@[i as int]));
            return kdl_value_to_string(&entries[i]);
        }
        assert(entries@.skip(i as int).drop_first() =~= entries@.skip(i + 1));
        i = i + 1;
    }
    None
}


/// Sets a field of a popup draft.
pub fn apply_config_field(draft: PopupSpecDraft, field: PopupConfigField, value: String) -> (r: PopupSpecDraft)
    ensures
        r@ == apply_field(draft@, field, value@),
{
    match field {
        PopupConfigField::Command => PopupSpecDraft { command: Some(value), ..draft },
        PopupConfigField::PaneTitle => PopupSpecDraft { pane_title: Some(value), ..draft },
        PopupConfigField::PreserveTerminalTitle => PopupSpecDraft {
            preserve_terminal_title: Some(value),
            ..draft
        },
        PopupConfigField::CommandMarker => PopupSpecDraft { command_marker: Some(value), ..draft },
        PopupConfigField::Cwd => PopupSpecDraft { cwd: Some(value), ..draft },
        PopupConfigField::ToggleCloseBehavior => PopupSpecDraft {
            toggle_close_behavior: Some(value),
            ..draft
        },
        PopupConfigField::WidthPercent => PopupSpecDraft { width_percent: Some(value), ..draft },
        PopupConfigField::HeightPercent => PopupSpecDraft { height_percent: Some(value), ..draft },
        PopupConfigField::SideMargin => PopupSpecDraft { side_margin: Some(value), ..draft },
        PopupConfigField::VerticalMargin => PopupSpecDraft { vertical_margin: Some(value), ..draft },
        PopupConfigField::Arg(index) => if index == 0 {
            PopupSpecDraft { invalid: true, ..draft }
        } else {
            let args = insert_arg(draft.args, index, value);
            PopupSpecDraft { args, ..draft }
        },
    }
}

/// Sets a field of a hook draft.
pub fn apply_hook_config_field(draft: PopupCommandHookDraft, field: PopupCommandHookField, value: String) -> (r: PopupCommandHookDraft)
    ensures
        r@ == apply_hook_field(draft@, field, value@),
{
    match field {
        PopupCommandHookField::Command => PopupCommandHookDraft { command: Some(value), ..draft },
        PopupCommandHookField::Cwd => PopupCommandHookDraft { cwd: Some(value), ..draft },
        PopupCommandHookField::Arg(index) => if index == 0 {
            PopupCommandHookDraft { invalid: true, ..draft }
        } else {
            let args = insert_arg(draft.args, index, value);
            PopupCommandHookDraft { args, ..draft }
        },
    }
}

/// Reads the fields of a hook node's block into a hook draft.
pub fn parse_hook_node_into(node: &KdlNode, draft: PopupCommandHookDraft) -> (r: PopupCommandHookDraft)
    ensures
        r@ == hook_node_into(draft@, *node),
{
    let block = match &node.children {
        Some(block) => block,
        None => return PopupCommandHookDraft { invalid: true, ..draft },
    };
    let mut draft = draft;
    let ghost h0 = draft@;
    assert(block@.take(0) =~= Seq::<KdlNode>::empty());
    for i in 0..block.len()
        invariant
            node.children == Some(*block),
            draft@ == hook_fields(h0, block@.take(i as int)),
    {
        let field_node = &block[i];
        assert(block@.take(i + 1).drop_last() =~= block@.take(i as int));
        assert(block@.take(i + 1).last() == block@[i as int]);
        draft = match hook_config_field(field_node.name.as_str()) {
            None => PopupCommandHookDraft { invalid: true, ..draft },
            Some(field) => match popup_field_value(field_node) {
                None => PopupCommandHookDraft { invalid: true, ..draft },
                Some(value) => apply_hook_config_field(draft, field, value),
            },
        };
    }
    assert(block@.take(block@.len() as int) =~= block@);
    draft
}

/// Reads the nodes of a popup block into a popup draft.
pub fn parse_popup_fields_document_into(nodes: &Vec<KdlNode>, draft: PopupSpecDraft) -> (r: PopupSpecDraft)
    ensures
        r@ == popup_fields(draft@, nodes@),
{
    let mut draft = draft;
    let ghost d0 = draft@;
    assert(nodes@.take(0) =~= Seq::<KdlNode>::empty());
    for i in 0..nodes.len()
        invariant
            draft@ == popup_fields(d0, nodes@.take(i as int)),
    {
        let field_node = &nodes[i];
        assert(nodes@.take(i + 1).drop_last() =~= nodes@.take(i as int));
        assert(nodes@.take(i + 1).last() == nodes@[i as int]);
        let name = field_node.name.as_str();
        if same_text(name, "on_close") {
            let hook = match draft.on_close {
                Some(h) => h,
                None => new_hook_draft(),
            };
            let hook = parse_hook_node_into(field_node, hook);
            draft = PopupSpecDraft { on_close: Some(hook), ..draft };
        } else if same_text(name, "on_hide") {
            let hook = match draft.on_hide {
                Some(h) => h,
                None => new_hook_draft(),
            };
            let hook = parse_hook_node_into(field_node, hook);
            draft = PopupSpecDraft { on_hide: Some(hook), ..draft };
        } else {
            draft = match popup_config_field(name) {
                None => PopupSpecDraft { invalid: true, ..draft },
                Some(field) => match popup_field_value(field_node) {
                    None => PopupSpecDraft { invalid: true, ..draft },
                    Some(value) => apply_config_field(draft, field, value),
                },
            };
        }
    }
    assert(nodes@.take(nodes@.len() as int) =~= nodes@);
    draft
}

/// An optional value, trimmed, dropped when blank.
pub fn trim_optional(value: &Option<String>) -> (r: Option<String>)
    ensures
        opt_text(r) == nonblank_trimmed(opt_text(*value)),
{
    match value {
        Some(v) => {
            let t = trim_str(v.as_str());
            if t.is_empty() {
                None
            } else {
                Some(t.to_owned())
            }
        },
        None => None,
    }
}

/// The trimmed values of numbered arguments, or `None` when one is blank.
pub fn trim_required_args(args: &Vec<(usize, String)>) -> (r: Option<Vec<String>>)
    ensures
        match r {
            Some(v) => required_args(args_view(args@)) == Some(crate::popup_contract::types::texts(v@)),
            None => required_args(args_view(args@)) is None,
        },
{
    let mut out: Vec<String> = Vec::new();
    let ghost a = args_view(args@);
    assert(a.take(0) =~= Seq::<(usize, Seq<char>)>::empty());
    assert(crate::popup_contract::types::texts(out@) =~= Seq::<Seq<char>>::empty());
    for i in 0..args.len()
        invariant
            a == args_view(args@),
            required_args(a.take(i as int)) == Some(crate::popup_contract::types::texts(out@)),
    {
        assert(a.take(i + 1).drop_last() =~= a.take(i as int));
        assert(a.take(i + 1).last() == a[i as int]);
        match trim_optional(&Some(args[i].1.clone())) {
            Some(t) => {
                out.push(t);
                assert(crate::popup_contract::types::texts(out@) =~= crate::popup_contract::types::texts(out@).drop_last().push(out@.last()@));
            },
            None => {
                assert(required_args(a.take(i + 1)) is None);
                proof {
                    lemma_required_args_none_extends(a, i + 1);
                }
                return None;
            },
        }
    }
    assert(a.take(a.len() as int) =~= a);
    Some(out)
}

proof fn lemma_required_args_none_extends(a: Seq<(usize, Seq<char>)>, k: int)
    requires
        0 <= k <= a.len(),
        required_args(a.take(k)) is None,
    ensures
        required_args(a) is None,
    decreases a.len() - k,
{
    if k < a.len() {
        assert(a.take(k + 1).drop_last() =~= a.take(k));
        lemma_required_args_none_extends(a, k + 1);
    } else {
        assert(a.take(k) =~= a);
    }
}

/// The hook a hook draft describes.
pub fn build_configured_hook(draft: &PopupCommandHookDraft) -> (r: Option<TransientPopupCommandHook>)
    requires
        hook_draft_wf(draft@),
    ensures
        opt_hook(r) == build_hook(draft@),
{
    if draft.invalid {
        return None;
    }
    let path = match trim_optional(&draft.command) {
        Some(p) => p,
        None => return None,
    };
    let rest = match trim_required_args(&draft.args) {
        Some(r) => r,
        None => return None,
    };
    let mut command: Vec<String> = Vec::new();
    command.push(path);
    let mut rest = rest;
    command.append(&mut rest);
    let hook = TransientPopupCommandHook { command, cwd: trim_optional(&draft.cwd) };
    assert(hook@.command =~= seq![hook@.command[0]] + crate::popup_contract::types::texts(rest@).subrange(0, 0) + hook@.command.skip(1));
    Some(hook)
}


/// Reads `toggle_close_behavior`.
pub fn parse_toggle_close_behavior_field(value: &Option<String>) -> (r: Option<TransientPopupToggleCloseBehavior>)
    ensures
        r == parse_toggle_close_behavior(opt_text(*value)),
{
    match trim_optional(value) {
        None => Some(TransientPopupToggleCloseBehavior::Close),
        Some(v) => if same_text(v.as_str(), "close") {
            Some(TransientPopupToggleCloseBehavior::Close)
        } else if same_text(v.as_str(), "hide") {
            Some(TransientPopupToggleCloseBehavior::Hide)
        } else {
            None
        },
    }
}

/// Reads a boolean field.
pub fn parse_bool_field(value: &Option<String>, default: bool) -> (r: Option<bool>)
    ensures
        r == parse_flag(opt_text(*value), default),
{
    match trim_optional(value) {
        None => Some(default),
        Some(v) => if same_text(v.as_str(), "true") {
            Some(true)
        } else if same_text(v.as_str(), "false") {
            Some(false)
        } else {
            None
        },
    }
}

/// Reads a percentage field.
pub fn parse_percent_field(value: &Option<String>, default: usize) -> (r: Option<usize>)
    ensures
        r == parse_percent(opt_text(*value), default),
{
    match value {
        Some(v) => match parse_usize(trim_str(v.as_str())) {
            Some(p) => if 1 <= p && p <= 100 {
                Some(p)
            } else {
                None
            },
            None => None,
        },
        None => Some(default),
    }
}

/// Reads a margin field.
pub fn parse_margin_field(value: &Option<String>, default: usize) -> (r: Option<usize>)
    ensures
        r == parse_margin(opt_text(*value), default),
{
    match value {
        Some(v) => parse_usize(trim_str(v.as_str())),
        None => Some(default),
    }
}

/// The hook of a popup: its own when set, else the default one.
fn configured_hook(own: &Option<PopupCommandHookDraft>, default: &Option<TransientPopupCommandHook>) -> (r: Option<Option<TransientPopupCommandHook>>)
    requires
        opt_hook_draft(*own) matches Some(h) ==> hook_draft_wf(h),
    ensures
        match r {
            Some(h) => popup_hook(opt_hook_draft(*own), opt_hook(*default)) == Some(opt_hook(h)),
            None => popup_hook(opt_hook_draft(*own), opt_hook(*default)) is None,
        },
{
    match own {
        Some(h) => match build_configured_hook(h) {
            Some(hook) => Some(Some(hook)),
            None => None,
        },
        None => Some(copy_opt_hook(default)),
    }
}

/// The spec that a popup draft describes, under `defaults`.
pub fn build_configured_spec(id: &str, draft: &PopupSpecDraft, defaults: &PopupSpecDefaults) -> (r: Option<TransientPopupSpec>)
    requires
        draft_wf(draft@),
    ensures
        match r {
            Some(spec) => build_spec(id@, draft@, defaults@) == Some(spec@),
            None => build_spec(id@, draft@, defaults@) is None,
        },
{
    if crate::text::blank(id) || draft.invalid || defaults.invalid {
        return None;
    }
    let command_path = trim_optional(&draft.command);
    let rest = trim_required_args(&draft.args);
    let preserve = parse_bool_field(&draft.preserve_terminal_title, false);
    let on_close = configured_hook(&draft.on_close, &defaults.on_close);
    let on_hide = configured_hook(&draft.on_hide, &defaults.on_hide);
    let toggle = parse_toggle_close_behavior_field(&draft.toggle_close_behavior);
    let width = parse_percent_field(&draft.width_percent, 90);
    let height = parse_percent_field(&draft.height_percent, 85);
    let side = parse_margin_field(&draft.side_margin, defaults.side_margin);
    let vertical = parse_margin_field(&draft.vertical_margin, defaults.vertical_margin);
    match (command_path, rest, preserve, on_close, on_hide, toggle, width, height, side, vertical) {
        (Some(path), Some(rest), Some(preserve), Some(on_close), Some(on_hide), Some(toggle), Some(width), Some(height), Some(side), Some(vertical)) => {
            let pane_title = match trim_optional(&draft.pane_title) {
                Some(title) => title,
                None => id.to_owned().concat("_popup"),
            };
            let command_marker = match trim_optional(&draft.command_marker) {
                Some(marker) => Some(marker),
                None => Some(path.clone()),
            };
            let mut command: Vec<String> = Vec::new();
            command.push(path);
            let mut rest = rest;
            let ghost rest_view = crate::popup_contract::types::texts(rest@);
            command.append(&mut rest);
            let spec = TransientPopupSpec {
                id: trim_str(id).to_owned(),
                pane_title,
                preserve_terminal_title: preserve,
                command_marker,
                command,
                cwd: trim_optional(&draft.cwd),
                on_close,
                on_hide,
                toggle_close_behavior: toggle,
                width_percent: width,
                height_percent: height,
                side_margin: side,
                vertical_margin: vertical,
            };
            assert(spec@.command =~= seq![spec@.command[0]] + rest_view);
            Some(spec)
        },
        _ => None,
    }
}

/// Defaults while their block is read, before any node.
fn new_defaults_in_progress() -> (r: DefaultsInProgress)
    ensures
        r@ == (DefaultsProgressView { side_margin: 0, vertical_margin: 0, on_close: None, on_hide: None, invalid: false }),
{
    DefaultsInProgress { side_margin: 0, vertical_margin: 0, on_close: None, on_hide: None, invalid: false }
}

/// Reads the `popup_defaults` block (`None` when it did not parse as KDL).
pub fn parse_popup_defaults(document: Option<&Vec<KdlNode>>) -> (r: PopupSpecDefaults)
    ensures
        r@ == defaults_of_document(match document {
            Some(nodes) => Some(nodes@),
            None => None,
        }),
{
    let nodes = match document {
        Some(nodes) => nodes,
        None => {
            let r = PopupSpecDefaults { side_margin: 0, vertical_margin: 0, on_close: None, on_hide: None, invalid: true };
            assert(r@ =~= DefaultsView { invalid: true, ..base_defaults() });
            return r;
        },
    };
    let mut p = new_defaults_in_progress();
    let ghost p0 = p@;
    assert(nodes@.take(0) =~= Seq::<KdlNode>::empty());
    for i in 0..nodes.len()
        invariant
            p@ == defaults_fields(p0, nodes@.take(i as int)),
    {
        let field_node = &nodes[i];
        assert(nodes@.take(i + 1).drop_last() =~= nodes@.take(i as int));
        assert(nodes@.take(i + 1).last() == nodes@[i as int]);
        let name = field_node.name.as_str();
        if same_text(name, "on_close") {
            let hook = match p.on_close {
                Some(h) => h,
                None => new_hook_draft(),
            };
            let hook = parse_hook_node_into(field_node, hook);
            p = DefaultsInProgress { on_close: Some(hook), ..p };
        } else if same_text(name, "on_hide") {
            let hook = match p.on_hide {
                Some(h) => h,
                None => new_hook_draft(),
            };
            let hook = parse_hook_node_into(field_node, hook);
            p = DefaultsInProgress { on_hide: Some(hook), ..p };
        } else {
            p = match popup_field_value(field_node) {
                None => DefaultsInProgress { invalid: true, ..p },
                Some(value) => {
                    let value = Some(value);
                    if same_text(name, "side_margin") {
                        match parse_margin_field(&value, 0) {
                            Some(m) => DefaultsInProgress { side_margin: m, ..p },
                            None => DefaultsInProgress { invalid: true, ..p },
                        }
                    } else if same_text(name, "vertical_margin") {
                        match parse_margin_field(&value, 0) {
                            Some(m) => DefaultsInProgress { vertical_margin: m, ..p },
                            None => DefaultsInProgress { invalid: true, ..p },
                        }
                    } else {
                        DefaultsInProgress { invalid: true, ..p }
                    }
                },
            };
        }
    }
    assert(nodes@.take(nodes@.len() as int) =~= nodes@);
    proof {
        lemma_defaults_fields_wf(p0, nodes@);
    }
    let mut invalid = p.invalid;
    let on_close = match &p.on_close {
        Some(h) => {
            let built = build_configured_hook(h);
            if built.is_none() {
                invalid = true;
            }
            built
        },
        None => None,
    };
    let on_hide = match &p.on_hide {
        Some(h) => {
            let built = build_configured_hook(h);
            if built.is_none() {
                invalid = true;
            }
            built
        },
        None => None,
    };
    let r = PopupSpecDefaults {
        side_margin: p.side_margin,
        vertical_margin: p.vertical_margin,
        on_close,
        on_hide,
        invalid,
    };
    assert(r@ =~= finish_defaults(p@));
    r
}

} // verus!
