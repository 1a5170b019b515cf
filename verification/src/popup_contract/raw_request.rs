//! Decoding popup requests from JSON: the request shape that generated callers
//! send, and the `{"id": .., "cwd": ..}` payload of configured popups.
//!
//! A struct is read as serde's derived `Deserialize` reads it from a
//! `serde_json::Value` with `deny_unknown_fields`: an object with known member
//! names only, or an array of the fields in order; a field with a default may be
//! left out, others may not.
use vstd::prelude::*;

use crate::json_source::JsonValue;
use crate::popup_contract::types::{
    opt_text, texts, HookView, RequestView, SpecView, TransientPopupAction,
    TransientPopupCommandHook, TransientPopupPipeRequest, TransientPopupSpec,
    TransientPopupToggleCloseBehavior,
};
use crate::text::same_text;

verus! {

/// The characters of each name.
pub open spec fn names_view(names: Seq<&str>) -> Seq<Seq<char>> {
    names.map_values(|s: &str| s@)
}

/// The value of the first member named `name`.
pub open spec fn member(members: Seq<(String, JsonValue)>, name: Seq<char>) -> Option<JsonValue>
    decreases members.len(),
{
    if members.len() == 0 {
        None
    } else if members[0].0@ == name {
        Some(members[0].1)
    } else {
        member(members.drop_first(), name)
    }
}

/// Whether every member has one of the names.
pub open spec fn known_members(members: Seq<(String, JsonValue)>, names: Seq<Seq<char>>) -> bool {
    forall|j: int| 0 <= j < members.len() ==> names.contains(#[trigger] members[j].0@)
}

/// Whether `v` can hold a struct with fields `names`: an object whose members
/// all have such names, or an array with no more elements than fields.
pub open spec fn struct_shape(v: JsonValue, names: Seq<Seq<char>>) -> bool {
    match v {
        JsonValue::Object(members) => known_members(members@, names),
        JsonValue::Array(items) => items@.len() <= names.len(),
        _ => false,
    }
}

/// The value given for field `i` of a struct, if any.
pub open spec fn struct_slot(v: JsonValue, names: Seq<Seq<char>>, i: int) -> Option<JsonValue> {
    match v {
        JsonValue::Object(members) => member(members@, names[i]),
        JsonValue::Array(items) => if i < items@.len() {
            Some(items@[i])
        } else {
            None
        },
        _ => None,
    }
}

pub open spec fn json_text(v: JsonValue) -> Option<Seq<char>> {
    match v {
        JsonValue::Text(s) => Some(s@),
        _ => None,
    }
}

pub open spec fn text_of(v: JsonValue) -> Seq<char> {
    match v {
        JsonValue::Text(s) => s@,
        _ => Seq::empty(),
    }
}

/// A list of strings.
pub open spec fn json_texts(v: JsonValue) -> Option<Seq<Seq<char>>> {
    match v {
        JsonValue::Array(items) => if forall|i: int| 0 <= i < items@.len() ==> (#[trigger] items@[i]) is Text {
            Some(items@.map_values(|item: JsonValue| text_of(item)))
        } else {
            None
        },
        _ => None,
    }
}

pub open spec fn json_flag(v: JsonValue) -> Option<bool> {
    match v {
        JsonValue::Boolean(b) => Some(b),
        _ => None,
    }
}

/// A `usize`: a non-negative integer no larger than `usize::MAX`.
pub open spec fn json_size(v: JsonValue) -> Option<usize> {
    match v {
        JsonValue::Number(Some(n)) => if n <= usize::MAX {
            Some(n as usize)
        } else {
            None
        },
        _ => None,
    }
}

/// The name of a unit variant: a string, or an object of one member whose value is null.
pub open spec fn json_unit_variant(v: JsonValue) -> Option<Seq<char>> {
    match v {
        JsonValue::Text(s) => Some(s@),
        JsonValue::Object(members) => if members@.len() == 1 && members@[0].1 is Null {
            Some(members@[0].0@)
        } else {
            None
        },
        _ => None,
    }
}

pub open spec fn json_action(v: JsonValue) -> Option<TransientPopupAction> {
    match json_unit_variant(v) {
        Some(name) => if name == "toggle"@ {
            Some(TransientPopupAction::Toggle)
        } else if name == "open"@ {
            Some(TransientPopupAction::Open)
        } else if name == "focus"@ {
            Some(TransientPopupAction::Focus)
        } else if name == "close"@ {
            Some(TransientPopupAction::Close)
        } else {
            None
        },
        None => None,
    }
}

pub open spec fn json_behavior(v: JsonValue) -> Option<TransientPopupToggleCloseBehavior> {
    match json_unit_variant(v) {
        Some(name) => if name == "close"@ {
            Some(TransientPopupToggleCloseBehavior::Close)
        } else if name == "hide"@ {
            Some(TransientPopupToggleCloseBehavior::Hide)
        } else {
            None
        },
        None => None,
    }
}

/// An optional string: null or a string.
pub open spec fn json_opt_text(v: JsonValue) -> Option<Option<Seq<char>>> {
    match v {
        JsonValue::Null => Some(None),
        JsonValue::Text(s) => Some(Some(s@)),
        _ => None,
    }
}

pub open spec fn hook_names() -> Seq<Seq<char>> {
    seq!["command"@, "cwd"@]
}

pub open spec fn spec_names() -> Seq<Seq<char>> {
    seq![
        "id"@,
        "pane_title"@,
        "preserve_terminal_title"@,
        "command_marker"@,
        "command"@,
        "cwd"@,
        "on_close"@,
        "on_hide"@,
        "toggle_close_behavior"@,
        "width_percent"@,
        "height_percent"@,
        "side_margin"@,
        "vertical_margin"@,
    ]
}

pub open spec fn request_names() -> Seq<Seq<char>> {
    seq!["action"@, "spec"@, "args"@, "cwd"@]
}

pub open spec fn configured_request_names() -> Seq<Seq<char>> {
    seq!["id"@, "cwd"@]
}

// A field's decoded value, `None` when it is wrong or a required field is missing.

pub open spec fn slot_text(slot: Option<JsonValue>) -> Option<Seq<char>> {
    match slot {
        Some(v) => json_text(v),
        None => None,
    }
}

pub open spec fn slot_opt_text(slot: Option<JsonValue>) -> Option<Option<Seq<char>>> {
    match slot {
        Some(v) => json_opt_text(v),
        None => Some(None),
    }
}

pub open spec fn slot_texts(slot: Option<JsonValue>, required: bool) -> Option<Seq<Seq<char>>> {
    match slot {
        Some(v) => json_texts(v),
        None => if required {
            None
        } else {
            Some(Seq::empty())
        },
    }
}

pub open spec fn slot_flag(slot: Option<JsonValue>) -> Option<bool> {
    match slot {
        Some(v) => json_flag(v),
        None => Some(false),
    }
}

pub open spec fn slot_size(slot: Option<JsonValue>, required: bool) -> Option<usize> {
    match slot {
        Some(v) => json_size(v),
        None => if required {
            None
        } else {
            Some(0)
        },
    }
}

pub open spec fn slot_behavior(slot: Option<JsonValue>) -> Option<TransientPopupToggleCloseBehavior> {
    match slot {
        Some(v) => json_behavior(v),
        None => Some(TransientPopupToggleCloseBehavior::Close),
    }
}

pub open spec fn slot_action(slot: Option<JsonValue>) -> Option<TransientPopupAction> {
    match slot {
        Some(v) => json_action(v),
        None => None,
    }
}

/// A hook: `command` (required) and `cwd`.
pub open spec fn decode_hook(v: JsonValue) -> Option<HookView> {
    let names = hook_names();
    if !struct_shape(v, names) {
        None
    } else {
        match (slot_texts(struct_slot(v, names, 0), true), slot_opt_text(struct_slot(v, names, 1))) {
            (Some(command), Some(cwd)) => Some(HookView { command, cwd }),
            _ => None,
        }
    }
}

/// An optional hook: null or a hook.
pub open spec fn slot_hook(slot: Option<JsonValue>) -> Option<Option<HookView>> {
    match slot {
        Some(JsonValue::Null) => Some(None),
        Some(v) => match decode_hook(v) {
            Some(h) => Some(Some(h)),
            None => None,
        },
        None => Some(None),
    }
}

/// A popup spec: `id`, `pane_title`, `command`, `width_percent` and
/// `height_percent` required, the other fields defaulted.
pub open spec fn decode_spec(v: JsonValue) -> Option<SpecView> {
    let names = spec_names();
    if !struct_shape(v, names) {
        None
    } else {
        let id = slot_text(struct_slot(v, names, 0));
        let pane_title = slot_text(struct_slot(v, names, 1));
        let preserve = slot_flag(struct_slot(v, names, 2));
        let marker = slot_opt_text(struct_slot(v, names, 3));
        let command = slot_texts(struct_slot(v, names, 4), true);
        let cwd = slot_opt_text(struct_slot(v, names, 5));
        let on_close = slot_hook(struct_slot(v, names, 6));
        let on_hide = slot_hook(struct_slot(v, names, 7));
        let behavior = slot_behavior(struct_slot(v, names, 8));
        let width = slot_size(struct_slot(v, names, 9), true);
        let height = slot_size(struct_slot(v, names, 10), true);
        let side = slot_size(struct_slot(v, names, 11), false);
        let vertical = slot_size(struct_slot(v, names, 12), false);
        if id is None || pane_title is None || preserve is None || marker is None || command is None
            || cwd is None || on_close is None || on_hide is None || behavior is None || width is None
            || height is None || side is None || vertical is None {
            None
        } else {
            Some(
                SpecView {
                    id: id->0,
                    pane_title: pane_title->0,
                    preserve_terminal_title: preserve->0,
                    command_marker: marker->0,
                    command: command->0,
                    cwd: cwd->0,
                    on_close: on_close->0,
                    on_hide: on_hide->0,
                    toggle_close_behavior: behavior->0,
                    width_percent: width->0,
                    height_percent: height->0,
                    side_margin: side->0,
                    vertical_margin: vertical->0,
                },
            )
        }
    }
}

pub open spec fn slot_spec(slot: Option<JsonValue>) -> Option<SpecView> {
    match slot {
        Some(v) => decode_spec(v),
        None => None,
    }
}

/// A pipe request: `action` and `spec` required, `args` and `cwd` defaulted.
pub open spec fn decode_request(v: JsonValue) -> Option<RequestView> {
    let names = request_names();
    if !struct_shape(v, names) {
        None
    } else {
        match (
            slot_action(struct_slot(v, names, 0)),
            slot_spec(struct_slot(v, names, 1)),
            slot_texts(struct_slot(v, names, 2), false),
            slot_opt_text(struct_slot(v, names, 3)),
        ) {
            (Some(action), Some(spec), Some(args), Some(cwd)) => Some(RequestView { action, spec, args, cwd }),
            _ => None,
        }
    }
}

/// A configured request payload: `id` required, `cwd` defaulted.
pub open spec fn decode_configured_request(v: JsonValue) -> Option<(Seq<char>, Option<Seq<char>>)> {
    let names = configured_request_names();
    if !struct_shape(v, names) {
        None
    } else {
        match (slot_text(struct_slot(v, names, 0)), slot_opt_text(struct_slot(v, names, 1))) {
            (Some(id), Some(cwd)) => Some((id, cwd)),
            _ => None,
        }
    }
}

pub open spec fn opt_deref(r: Option<&JsonValue>) -> Option<JsonValue> {
    match r {
        Some(v) => Some(*v),
        None => None,
    }
}


/// The value of the first member named `name`.
fn member_of<'a>(members: &'a Vec<(String, JsonValue)>, name: &str) -> (r: Option<&'a JsonValue>)
    ensures
        opt_deref(r) == member(members@, name@),
{
    let mut i: usize = 0;
    assert(members@.skip(0) =~= members@);
    while i < members.len()
        invariant
            i <= members@.len(),
            member(members@, name@) == member(members@.skip(i as int), name@),
        decreases members.len() - i,
    {
        assert(members@.skip(i as int)[0] == members@[i as int]);
        if same_text(members[i].0.as_str(), name) {
            return Some(&members[i].1);
        }
        assert(members@.skip(i as int).drop_first() =~= members@.skip(i + 1));
        i = i + 1;
    }
    None
}

/// Whether `name` is one of `names`.
fn names_contain(names: &Vec<&str>, name: &str) -> (r: bool)
    ensures
        r == names_view(names@).contains(name@),
{
    for i in 0..names.len()
        invariant
            forall|k: int| 0 <= k < i ==> names_view(names@)[k] != name@,
    {
        if same_text(names[i], name) {
            assert(names_view(names@)[i as int] == name@);
            return true;
        }
    }
    false
}

/// Whether `v` can hold a struct with fields `names`.
fn struct_shape_of(v: &JsonValue, names: &Vec<&str>) -> (r: bool)
    ensures
        r == struct_shape(*v, names_view(names@)),
{
    match v {
        JsonValue::Object(members) => {
            for j in 0..members.len()
                invariant
                    *v == JsonValue::Object(*members),
                    forall|k: int| 0 <= k < j ==> names_view(names@).contains(#[trigger] members@[k].0@),
            {
                if !names_contain(names, members[j].0.as_str()) {
                    assert(!names_view(names@).contains(members@[j as int].0@));
                    return false;
                }
            }
            true
        },
        JsonValue::Array(items) => items.len() <= names.len(),
        _ => false,
    }
}

/// The value given for field `i` of a struct.
fn struct_slot_of<'a>(v: &'a JsonValue, names: &Vec<&str>, i: usize) -> (r: Option<&'a JsonValue>)
    requires
        i < names@.len(),
    ensures
        opt_deref(r) == struct_slot(*v, names_view(names@), i as int),
{
    match v {
        JsonValue::Object(members) => member_of(members, names[i]),
        JsonValue::Array(items) => if i < items.len() {
            Some(&items[i])
        } else {
            None
        },
        _ => None,
    }
}

fn decode_text(slot: Option<&JsonValue>) -> (r: Option<String>)
    ensures
        opt_text(r) == slot_text(opt_deref(slot)),
{
    match slot {
        Some(JsonValue::Text(s)) => Some(s.clone()),
        _ => None,
    }
}

fn decode_opt_text(slot: Option<&JsonValue>) -> (r: Option<Option<String>>)
    ensures
        match r {
            Some(o) => slot_opt_text(opt_deref(slot)) == Some(opt_text(o)),
            None => slot_opt_text(opt_deref(slot)) is None,
        },
{
    match slot {
        Some(JsonValue::Null) => Some(None),
        Some(JsonValue::Text(s)) => Some(Some(s.clone())),
        Some(_) => None,
        None => Some(None),
    }
}

fn decode_texts(slot: Option<&JsonValue>, required: bool) -> (r: Option<Vec<String>>)
    ensures
        match r {
            Some(v) => slot_texts(opt_deref(slot), required) == Some(texts(v@)),
            None => slot_texts(opt_deref(slot), required) is None,
        },
{
    match slot {
        Some(JsonValue::Array(items)) => {
            let mut out: Vec<String> = Vec::new();
            for i in 0..items.len()
                invariant
                    opt_deref(slot) == Some(JsonValue::Array(*items)),
                    out@.len() == i,
                    forall|k: int| 0 <= k < i ==> (#[trigger] items@[k]) is Text,
                    forall|k: int| 0 <= k < i ==> #[trigger] out@[k]@ == text_of(items@[k]),
            {
                match &items[i] {
                    JsonValue::Text(s) => {
                        out.push(s.clone());
                    },
                    _ => {
                        assert(!(items@[i as int] is Text));
                        return None;
                    },
                }
            }
            assert(texts(out@) =~= items@.map_values(|item: JsonValue| text_of(item)));
            Some(out)
        },
        Some(_) => None,
        None => if required {
            None
        } else {
            let out: Vec<String> = Vec::new();
            assert(texts(out@) =~= Seq::<Seq<char>>::empty());
            Some(out)
        },
    }
}

fn decode_flag(slot: Option<&JsonValue>) -> (r: Option<bool>)
    ensures
        r == slot_flag(opt_deref(slot)),
{
    match slot {
        Some(JsonValue::Boolean(b)) => Some(*b),
        Some(_) => None,
        None => Some(false),
    }
}

fn decode_size(slot: Option<&JsonValue>, required: bool) -> (r: Option<usize>)
    ensures
        r == slot_size(opt_deref(slot), required),
{
    match slot {
        Some(JsonValue::Number(Some(n))) => if *n <= usize::MAX as u64 {
            Some(*n as usize)
        } else {
            None
        },
        Some(_) => None,
        None => if required {
            None
        } else {
            Some(0)
        },
    }
}

/// The name of a unit variant.
fn unit_variant_of(v: &JsonValue) -> (r: Option<&str>)
    ensures
        match r {
            Some(name) => json_unit_variant(*v) == Some(name@),
            None => json_unit_variant(*v) is None,
        },
{
    match v {
        JsonValue::Text(s) => Some(s.as_str()),
        JsonValue::Object(members) => if members.len() == 1 {
            match &members[0].1 {
                JsonValue::Null => Some(members[0].0.as_str()),
                _ => None,
            }
        } else {
            None
        },
        _ => None,
    }
}

fn decode_behavior(slot: Option<&JsonValue>) -> (r: Option<TransientPopupToggleCloseBehavior>)
    ensures
        r == slot_behavior(opt_deref(slot)),
{
    match slot {
        Some(v) => match unit_variant_of(v) {
            Some(name) => if same_text(name, "close") {
                Some(TransientPopupToggleCloseBehavior::Close)
            } else if same_text(name, "hide") {
                Some(TransientPopupToggleCloseBehavior::Hide)
            } else {
                None
            },
            None => None,
        },
        None => Some(TransientPopupToggleCloseBehavior::Close),
    }
}

fn decode_action(slot: Option<&JsonValue>) -> (r: Option<TransientPopupAction>)
    ensures
        r == slot_action(opt_deref(slot)),
{
    match slot {
        Some(v) => match unit_variant_of(v) {
            Some(name) => if same_text(name, "toggle") {
                Some(TransientPopupAction::Toggle)
            } else if same_text(name, "open") {
                Some(TransientPopupAction::Open)
            } else if same_text(name, "focus") {
                Some(TransientPopupAction::Focus)
            } else if same_text(name, "close") {
                Some(TransientPopupAction::Close)
            } else {
                None
            },
            None => None,
        },
        None => None,
    }
}

fn hook_field_names() -> (r: Vec<&'static str>)
    ensures
        names_view(r@) == hook_names(),
        r@.len() == 2,
{
    let r = vec!["command", "cwd"];
    assert(names_view(r@) =~= hook_names());
    r
}

/// Decodes a hook.
fn decode_hook_value(v: &JsonValue) -> (r: Option<TransientPopupCommandHook>)
    ensures
        crate::popup_contract::types::opt_hook(r) == decode_hook(*v),
{
    let names = hook_field_names();
    if !struct_shape_of(v, &names) {
        return None;
    }
    let command = decode_texts(struct_slot_of(v, &names, 0), true);
    let cwd = decode_opt_text(struct_slot_of(v, &names, 1));
    match (command, cwd) {
        (Some(command), Some(cwd)) => Some(TransientPopupCommandHook { command, cwd }),
        _ => None,
    }
}


fn decode_opt_hook(slot: Option<&JsonValue>) -> (r: Option<Option<TransientPopupCommandHook>>)
    ensures
        match r {
            Some(h) => slot_hook(opt_deref(slot)) == Some(crate::popup_contract::types::opt_hook(h)),
            None => slot_hook(opt_deref(slot)) is None,
        },
{
    match slot {
        Some(JsonValue::Null) => Some(None),
        Some(v) => match decode_hook_value(v) {
            Some(h) => Some(Some(h)),
            None => None,
        },
        None => Some(None),
    }
}

fn spec_field_names() -> (r: Vec<&'static str>)
    ensures
        names_view(r@) == spec_names(),
        r@.len() == 13,
{
    let r = vec![
        "id",
        "pane_title",
        "preserve_terminal_title",
        "command_marker",
        "command",
        "cwd",
        "on_close",
        "on_hide",
        "toggle_close_behavior",
        "width_percent",
        "height_percent",
        "side_margin",
        "vertical_margin",
    ];
    assert(names_view(r@) =~= spec_names());
    r
}

/// Decodes a popup spec.
fn decode_spec_value(v: &JsonValue) -> (r: Option<TransientPopupSpec>)
    ensures
        match r {
            Some(spec) => decode_spec(*v) == Some(spec@),
            None => decode_spec(*v) is None,
        },
{
    let names = spec_field_names();
    if !struct_shape_of(v, &names) {
        return None;
    }
    let id = decode_text(struct_slot_of(v, &names, 0));
    let pane_title = decode_text(struct_slot_of(v, &names, 1));
    let preserve = decode_flag(struct_slot_of(v, &names, 2));
    let marker = decode_opt_text(struct_slot_of(v, &names, 3));
    let command = decode_texts(struct_slot_of(v, &names, 4), true);
    let cwd = decode_opt_text(struct_slot_of(v, &names, 5));
    let on_close = decode_opt_hook(struct_slot_of(v, &names, 6));
    let on_hide = decode_opt_hook(struct_slot_of(v, &names, 7));
    let behavior = decode_behavior(struct_slot_of(v, &names, 8));
    let width = decode_size(struct_slot_of(v, &names, 9), true);
    let height = decode_size(struct_slot_of(v, &names, 10), true);
    let side = decode_size(struct_slot_of(v, &names, 11), false);
    let vertical = decode_size(struct_slot_of(v, &names, 12), false);
    match (id, pane_title, preserve, marker, command, cwd, on_close, on_hide, behavior, width, height, side, vertical) {
        (Some(id), Some(pane_title), Some(preserve), Some(marker), Some(command), Some(cwd), Some(on_close), Some(on_hide), Some(behavior), Some(width), Some(height), Some(side), Some(vertical)) => {
            let spec = TransientPopupSpec {
                id,
                pane_title,
                preserve_terminal_title: preserve,
                command_marker: marker,
                command,
                cwd,
                on_close,
                on_hide,
                toggle_close_behavior: behavior,
                width_percent: width,
                height_percent: height,
                side_margin: side,
                vertical_margin: vertical,
            };
            Some(spec)
        },
        _ => None,
    }
}

fn request_field_names() -> (r: Vec<&'static str>)
    ensures
        names_view(r@) == request_names(),
        r@.len() == 4,
{
    let r = vec!["action", "spec", "args", "cwd"];
    assert(names_view(r@) =~= request_names());
    r
}

/// Decodes a pipe request from JSON as serde's derived `Deserialize` reads
/// `TransientPopupPipeRequest`.
pub fn decode_pipe_request(v: &JsonValue) -> (r: Option<TransientPopupPipeRequest>)
    ensures
        match r {
            Some(request) => decode_request(*v) == Some(request@),
            None => decode_request(*v) is None,
        },
{
    let names = request_field_names();
    if !struct_shape_of(v, &names) {
        return None;
    }
    let action = decode_action(struct_slot_of(v, &names, 0));
    let spec = match struct_slot_of(v, &names, 1) {
        Some(s) => decode_spec_value(s),
        None => None,
    };
    let args = decode_texts(struct_slot_of(v, &names, 2), false);
    let cwd = decode_opt_text(struct_slot_of(v, &names, 3));
    match (action, spec, args, cwd) {
        (Some(action), Some(spec), Some(args), Some(cwd)) => Some(TransientPopupPipeRequest { action, spec, args, cwd }),
        _ => None,
    }
}

fn configured_request_field_names() -> (r: Vec<&'static str>)
    ensures
        names_view(r@) == configured_request_names(),
        r@.len() == 2,
{
    let r = vec!["id", "cwd"];
    assert(names_view(r@) =~= configured_request_names());
    r
}

/// Decodes the `{"id": .., "cwd": ..}` payload of a configured popup request.
pub fn decode_configured_request_value(v: &JsonValue) -> (r: Option<(String, Option<String>)>)
    ensures
        match r {
            Some(pair) => decode_configured_request(*v) == Some((pair.0@, opt_text(pair.1))),
            None => decode_configured_request(*v) is None,
        },
{
    let names = configured_request_field_names();
    if !struct_shape_of(v, &names) {
        return None;
    }
    let id = decode_text(struct_slot_of(v, &names, 0));
    let cwd = decode_opt_text(struct_slot_of(v, &names, 1));
    match (id, cwd) {
        (Some(id), Some(cwd)) => Some((id, cwd)),
        _ => None,
    }
}

} // verus!
