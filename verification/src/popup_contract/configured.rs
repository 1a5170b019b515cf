//! The popups of the plugin's configuration, and the requests that pipe messages
//! make of them.
use std::collections::BTreeMap;
use vstd::prelude::*;

use crate::json_source::{json_document, parse_json_value, JsonValue};
use crate::kdl_source::{kdl_document, parse_kdl_document, KdlNode};
use crate::popup_contract::config::{
    base_defaults, build_configured_spec, build_spec, defaults_of_document, draft_wf, empty_draft,
    lemma_popup_fields_wf,
    new_draft, parse_popup_defaults, parse_popup_fields_document_into, popup_fields, DefaultsView,
    DraftView, PopupSpecDefaults, PopupSpecDraft,
};
use crate::popup_contract::launch::spec_is_launchable;
use crate::popup_contract::launch::{nonblank_trimmed, trim_nonblank};
use crate::popup_contract::raw_request::{
    decode_configured_request, decode_configured_request_value, decode_pipe_request,
    decode_request,
};
use crate::popup_contract::selection::{chosen_pane, select_visible_transient_pane_by_identity};
use crate::popup_contract::types::{
    action_named, opt_hook, opt_str, result_view, HookView, MessageErrorView, PopupMessageRequestError,
    RequestView, SpecView, TransientPaneDisplacementCandidate, TransientPaneSnapshot,
    TransientPopupAction, TransientPopupCommandHook, TransientPopupPipeRequest, TransientPopupSpec,
    TransientPopupToggleCloseBehavior,
};
use vstd::std_specs::cmp::PartialEqSpec;
use crate::text::{is_blank, less_text, same_text, text_less, trim, trim_str};

verus! {

/// The value of `key` in a configuration, as `BTreeMap::get` finds it.
pub open spec fn config_value(configuration: Map<String, String>, key: Seq<char>) -> Option<
    Seq<char>,
> {
    if exists|k: String| configuration.contains_key(k) && k@ == key {
        let k = choose|k: String| configuration.contains_key(k) && k@ == key;
        Some(configuration[k]@)
    } else {
        None
    }
}

/// Looks a key up in the plugin configuration with `BTreeMap::get`. vstd
/// specifies `get` only for keys whose `Ord` it models, which `String` is not;
/// this states that the result is the value of the key that holds the same
/// characters as `key`, and that there is none when no key does.
#[verifier::external_body]
fn configuration_value<'a>(configuration: &'a BTreeMap<String, String>, key: &str) -> (r: Option<
    &'a String,
>)
    ensures
        match r {
            Some(v) => config_value(configuration@, key@) == Some(v@),
            None => config_value(configuration@, key@) is None,
        },
{
    configuration.get(key)
}

/// A configuration value parsed as KDL: absent, not KDL, or its nodes.
pub open spec fn parsed_source(raw: Option<Seq<char>>) -> Option<Option<Seq<KdlNode>>> {
    match raw {
        Some(text) => Some(kdl_document(text)),
        None => None,
    }
}

/// The nodes of an optional parsed document.
pub open spec fn document_view(doc: Option<Option<Vec<KdlNode>>>) -> Option<Option<Seq<KdlNode>>> {
    match doc {
        Some(Some(nodes)) => Some(Some(nodes@)),
        Some(None) => Some(None),
        None => None,
    }
}

// ---- drafts by popup id ----

/// Where `id` is, or would go, among drafts ordered by id.
pub open spec fn entry_index(d: Seq<(Seq<char>, DraftView)>, id: Seq<char>) -> int
    decreases d.len(),
{
    if d.len() == 0 {
        0
    } else if text_less(d[0].0, id) {
        1 + entry_index(d.drop_first(), id)
    } else {
        0
    }
}

/// Whether the drafts hold one for `id`.
pub open spec fn has_entry(d: Seq<(Seq<char>, DraftView)>, id: Seq<char>) -> bool {
    let i = entry_index(d, id);
    0 <= i < d.len() && d[i].0 == id
}

/// The draft for `id`, empty when there is none yet.
pub open spec fn entry_draft(d: Seq<(Seq<char>, DraftView)>, id: Seq<char>) -> DraftView {
    if has_entry(d, id) {
        d[entry_index(d, id)].1
    } else {
        empty_draft()
    }
}

/// The drafts with the one for `id` set to `draft`, added in order if new.
pub open spec fn set_entry(d: Seq<(Seq<char>, DraftView)>, id: Seq<char>, draft: DraftView) -> Seq<
    (Seq<char>, DraftView),
> {
    if has_entry(d, id) {
        d.update(entry_index(d, id), (id, draft))
    } else {
        d.insert(entry_index(d, id), (id, draft))
    }
}

/// A draft marked invalid.
pub open spec fn invalidated(d: DraftView) -> DraftView {
    DraftView { invalid: true, ..d }
}

/// The drafts after one node of the `popups` block: a popup named by the node,
/// whose fields are the node's block.
pub open spec fn named_popup_step(d: Seq<(Seq<char>, DraftView)>, node: KdlNode) -> Seq<
    (Seq<char>, DraftView),
> {
    let id = trim(node.name@);
    let draft = entry_draft(d, id);
    if id.len() == 0 {
        set_entry(d, id, invalidated(draft))
    } else {
        match node.children {
            Some(block) => set_entry(d, id, popup_fields(draft, block@)),
            None => set_entry(d, id, invalidated(draft)),
        }
    }
}

/// The drafts after the nodes of the `popups` block, in order.
pub open spec fn named_popups(d: Seq<(Seq<char>, DraftView)>, nodes: Seq<KdlNode>) -> Seq<
    (Seq<char>, DraftView),
>
    decreases nodes.len(),
{
    if nodes.len() == 0 {
        d
    } else {
        named_popup_step(named_popups(d, nodes.drop_last()), nodes.last())
    }
}

/// The drafts after the `popups` block; when it is not KDL, a draft named
/// `popups` is marked invalid.
pub open spec fn named_popups_source(d: Seq<(Seq<char>, DraftView)>, parsed: Option<Seq<KdlNode>>) -> Seq<
    (Seq<char>, DraftView),
> {
    match parsed {
        Some(nodes) => named_popups(d, nodes),
        None => set_entry(d, "popups"@, invalidated(entry_draft(d, "popups"@))),
    }
}

/// The draft of the popup with id `id` whose fields are a whole document.
pub open spec fn popup_document_draft(id: Seq<char>, draft: DraftView, parsed: Option<Seq<KdlNode>>) -> DraftView {
    if is_blank(id) {
        invalidated(draft)
    } else {
        match parsed {
            Some(nodes) => popup_fields(draft, nodes),
            None => invalidated(draft),
        }
    }
}

/// The drafts of a configuration: the `popup` block as the popup `default`,
/// then the popups of the `popups` block.
pub open spec fn drafts_of(
    popup: Option<Option<Seq<KdlNode>>>,
    popups: Option<Option<Seq<KdlNode>>>,
) -> Seq<(Seq<char>, DraftView)> {
    let d0 = Seq::<(Seq<char>, DraftView)>::empty();
    let d1 = match popup {
        Some(parsed) => set_entry(
            d0,
            "default"@,
            popup_document_draft("default"@, entry_draft(d0, "default"@), parsed),
        ),
        None => d0,
    };
    match popups {
        Some(parsed) => named_popups_source(d1, parsed),
        None => d1,
    }
}

// ---- configured specs ----

/// Configured popups: the valid ones by id, and the ids of the invalid ones,
/// each in id order.
#[verifier::ext_equal]
pub struct ConfiguredView {
    pub specs: Seq<(Seq<char>, SpecView)>,
    pub invalid_ids: Seq<Seq<char>>,
}

/// The drafts sorted into the specs they build (when launchable) and the ids of
/// the others.
pub open spec fn partition_specs(drafts: Seq<(Seq<char>, DraftView)>, defaults: DefaultsView) -> ConfiguredView
    decreases drafts.len(),
{
    if drafts.len() == 0 {
        ConfiguredView { specs: Seq::empty(), invalid_ids: Seq::empty() }
    } else {
        let done = partition_specs(drafts.drop_last(), defaults);
        let (id, draft) = drafts.last();
        match build_spec(id, draft, defaults) {
            Some(spec) => if spec_is_launchable(spec) {
                ConfiguredView { specs: done.specs.push((id, spec)), ..done }
            } else {
                ConfiguredView { invalid_ids: done.invalid_ids.push(id), ..done }
            },
            None => ConfiguredView { invalid_ids: done.invalid_ids.push(id), ..done },
        }
    }
}

/// The defaults a configuration sets: none when `popup_defaults` is absent.
pub open spec fn configured_defaults(parsed: Option<Option<Seq<KdlNode>>>) -> DefaultsView {
    match parsed {
        Some(doc) => defaults_of_document(doc),
        None => base_defaults(),
    }
}

/// The configured popups of the three KDL blocks of a configuration.
pub open spec fn configured_model(
    popup_defaults: Option<Option<Seq<KdlNode>>>,
    popup: Option<Option<Seq<KdlNode>>>,
    popups: Option<Option<Seq<KdlNode>>>,
) -> ConfiguredView {
    partition_specs(drafts_of(popup, popups), configured_defaults(popup_defaults))
}

/// The popups of a plugin configuration, each either valid or known to be invalid.
#[derive(Debug)]
pub struct ConfiguredPopupSpecs {
    specs: Vec<(String, TransientPopupSpec)>,
    invalid_spec_ids: Vec<String>,
}

impl View for ConfiguredPopupSpecs {
    type V = ConfiguredView;

    closed spec fn view(&self) -> ConfiguredView {
        ConfiguredView {
            specs: self.specs@.map_values(|e: (String, TransientPopupSpec)| (e.0@, e.1@)),
            invalid_ids: self.invalid_spec_ids@.map_values(|s: String| s@),
        }
    }
}

impl Default for ConfiguredPopupSpecs {
    fn default() -> (r: Self)
        ensures
            r@ == (ConfiguredView { specs: Seq::empty(), invalid_ids: Seq::empty() }),
    {
        let r = ConfiguredPopupSpecs { specs: Vec::new(), invalid_spec_ids: Vec::new() };
        assert(r@ =~= ConfiguredView { specs: Seq::empty(), invalid_ids: Seq::empty() });
        r
    }
}

/// The view of drafts by id.
pub open spec fn drafts_view(d: Seq<(String, PopupSpecDraft)>) -> Seq<(Seq<char>, DraftView)> {
    d.map_values(|e: (String, PopupSpecDraft)| (e.0@, e.1@))
}

/// The index of `id` among drafts ordered by id, and whether it is there.
fn entry_position(drafts: &Vec<(String, PopupSpecDraft)>, id: &str) -> (r: (usize, bool))
    ensures
        r.0 == entry_index(drafts_view(drafts@), id@),
        r.1 == has_entry(drafts_view(drafts@), id@),
        r.0 <= drafts@.len(),
{
    let ghost d = drafts_view(drafts@);
    let mut i: usize = 0;
    assert(d.skip(0) =~= d);
    while i < drafts.len() && less_text(drafts[i].0.as_str(), id)
        invariant
            i <= drafts@.len(),
            d == drafts_view(drafts@),
            entry_index(d, id@) == i + entry_index(d.skip(i as int), id@),
        decreases drafts.len() - i,
    {
        assert(d.skip(i as int).drop_first() =~= d.skip(i + 1));
        assert(d.skip(i as int)[0] == d[i as int]);
        i = i + 1;
    }
    if i < drafts.len() {
        assert(d.skip(i as int)[0] == d[i as int]);
    }
    let found = i < drafts.len() && same_text(drafts[i].0.as_str(), id);
    (i, found)
}

/// Takes the draft for `id` out of the drafts (an empty one when there is none),
/// with the index to put it back at.
fn take_entry(drafts: &mut Vec<(String, PopupSpecDraft)>, id: &str) -> (r: (usize, PopupSpecDraft))
    ensures
        r.0 == entry_index(drafts_view(old(drafts)@), id@),
        r.1@ == entry_draft(drafts_view(old(drafts)@), id@),
        drafts_view(final(drafts)@) == if has_entry(drafts_view(old(drafts)@), id@) {
            drafts_view(old(drafts)@).remove(r.0 as int)
        } else {
            drafts_view(old(drafts)@)
        },
{
    let (i, found) = entry_position(drafts, id);
    if found {
        let ghost before = drafts_view(drafts@);
        let (_, draft) = drafts.remove(i);
        assert(drafts_view(drafts@) =~= before.remove(i as int));
        (i, draft)
    } else {
        (i, new_draft())
    }
}

/// Puts the draft for `id` back at the index `take_entry` gave.
fn put_entry(
    drafts: &mut Vec<(String, PopupSpecDraft)>,
    index: usize,
    id: &str,
    draft: PopupSpecDraft,
    Ghost(before): Ghost<Seq<(Seq<char>, DraftView)>>,
)
    requires
        index == entry_index(before, id@),
        drafts_view(old(drafts)@) == if has_entry(before, id@) {
            before.remove(index as int)
        } else {
            before
        },
    ensures
        drafts_view(final(drafts)@) == set_entry(before, id@, draft@),
{
    proof {
        lemma_entry_index_bound(before, id@);
        assert(drafts_view(drafts@).len() == drafts@.len());
    }
    let ghost mid = drafts_view(drafts@);
    drafts.insert(index, (id.to_owned(), draft));
    assert(drafts_view(drafts@) =~= mid.insert(index as int, (id@, draft@)));
    proof {
        if has_entry(before, id@) {
            assert(drafts_view(drafts@) =~= before.update(index as int, (id@, draft@)));
        } else {
            assert(drafts_view(drafts@) =~= before.insert(index as int, (id@, draft@)));
        }
    }
}

pub proof fn lemma_entry_index_bound(d: Seq<(Seq<char>, DraftView)>, id: Seq<char>)
    ensures
        0 <= entry_index(d, id) <= d.len(),
    decreases d.len(),
{
    if d.len() > 0 {
        lemma_entry_index_bound(d.drop_first(), id);
    }
}


/// Drafts whose arguments are all in order.
pub open spec fn drafts_wf(d: Seq<(Seq<char>, DraftView)>) -> bool {
    forall|k: int| 0 <= k < d.len() ==> draft_wf((#[trigger] d[k]).1)
}

proof fn lemma_set_entry_wf(d: Seq<(Seq<char>, DraftView)>, id: Seq<char>, draft: DraftView)
    requires
        drafts_wf(d),
        draft_wf(draft),
    ensures
        drafts_wf(set_entry(d, id, draft)),
{
    lemma_entry_index_bound(d, id);
    let i = entry_index(d, id);
    let e = set_entry(d, id, draft);
    assert forall|k: int| 0 <= k < e.len() implies draft_wf((#[trigger] e[k]).1) by {
        if has_entry(d, id) {
            if k != i {
                assert(e[k] == d[k]);
            }
        } else if k < i {
            assert(e[k] == d[k]);
        } else if k > i {
            assert(e[k] == d[k - 1]);
        }
    }
}

proof fn lemma_entry_draft_wf(d: Seq<(Seq<char>, DraftView)>, id: Seq<char>)
    requires
        drafts_wf(d),
    ensures
        draft_wf(entry_draft(d, id)),
{
    if has_entry(d, id) {
        assert(draft_wf(d[entry_index(d, id)].1));
    }
}

proof fn lemma_named_popups_wf(d: Seq<(Seq<char>, DraftView)>, nodes: Seq<KdlNode>)
    requires
        drafts_wf(d),
    ensures
        drafts_wf(named_popups(d, nodes)),
    decreases nodes.len(),
{
    if nodes.len() > 0 {
        let before = named_popups(d, nodes.drop_last());
        lemma_named_popups_wf(d, nodes.drop_last());
        let node = nodes.last();
        let id = trim(node.name@);
        let draft = entry_draft(before, id);
        lemma_entry_draft_wf(before, id);
        lemma_set_entry_wf(before, id, invalidated(draft));
        match node.children {
            Some(block) => {
                lemma_popup_fields_wf(draft, block@);
                lemma_set_entry_wf(before, id, popup_fields(draft, block@));
            },
            None => {},
        }
    }
}

/// Every draft of a configuration keeps its arguments in order.
proof fn lemma_drafts_of_wf(popup: Option<Option<Seq<KdlNode>>>, popups: Option<Option<Seq<KdlNode>>>)
    ensures
        drafts_wf(drafts_of(popup, popups)),
{
    let d0 = Seq::<(Seq<char>, DraftView)>::empty();
    let d1 = match popup {
        Some(parsed) => set_entry(
            d0,
            "default"@,
            popup_document_draft("default"@, entry_draft(d0, "default"@), parsed),
        ),
        None => d0,
    };
    match popup {
        Some(parsed) => {
            lemma_entry_draft_wf(d0, "default"@);
            match parsed {
                Some(nodes) => lemma_popup_fields_wf(entry_draft(d0, "default"@), nodes),
                None => {},
            }
            lemma_set_entry_wf(
                d0,
                "default"@,
                popup_document_draft("default"@, entry_draft(d0, "default"@), parsed),
            );
        },
        None => {},
    }
    match popups {
        Some(Some(nodes)) => lemma_named_popups_wf(d1, nodes),
        Some(None) => {
            lemma_entry_draft_wf(d1, "popups"@);
            lemma_set_entry_wf(d1, "popups"@, invalidated(entry_draft(d1, "popups"@)));
        },
        None => {},
    }
}

/// The plugin-wide defaults when the configuration sets none.
fn no_defaults() -> (r: PopupSpecDefaults)
    ensures
        r@ == base_defaults(),
{
    let r = PopupSpecDefaults { side_margin: 0, vertical_margin: 0, on_close: None, on_hide: None, invalid: false };
    assert(r@ =~= base_defaults());
    r
}

/// Reads a whole document of popup fields into the draft of popup `id`.
fn parse_popup_fields_into(id: &str, document: Option<&Vec<KdlNode>>, draft: PopupSpecDraft) -> (r: PopupSpecDraft)
    ensures
        r@ == popup_document_draft(id@, draft@, match document {
            Some(nodes) => Some(nodes@),
            None => None,
        }),
{
    if crate::text::blank(id) {
        return PopupSpecDraft { invalid: true, ..draft };
    }
    match document {
        Some(nodes) => parse_popup_fields_document_into(nodes, draft),
        None => PopupSpecDraft { invalid: true, ..draft },
    }
}

/// Reads the `popups` block into the drafts.
fn parse_named_popups_into(document: Option<&Vec<KdlNode>>, drafts: &mut Vec<(String, PopupSpecDraft)>)
    ensures
        drafts_view(final(drafts)@) == named_popups_source(drafts_view(old(drafts)@), match document {
            Some(nodes) => Some(nodes@),
            None => None,
        }),
{
    let nodes = match document {
        Some(nodes) => nodes,
        None => {
            let ghost before = drafts_view(drafts@);
            let (i, draft) = take_entry(drafts, "popups");
            put_entry(drafts, i, "popups", PopupSpecDraft { invalid: true, ..draft }, Ghost(before));
            return;
        },
    };
    let ghost d0 = drafts_view(drafts@);
    assert(nodes@.take(0) =~= Seq::<KdlNode>::empty());
    for n in 0..nodes.len()
        invariant
            drafts_view(drafts@) == named_popups(d0, nodes@.take(n as int)),
    {
        assert(nodes@.take(n + 1).drop_last() =~= nodes@.take(n as int));
        assert(nodes@.take(n + 1).last() == nodes@[n as int]);
        let popup_node = &nodes[n];
        let id = trim_str(popup_node.name.as_str());
        let ghost before = drafts_view(drafts@);
        let (i, draft) = take_entry(drafts, id);
        let draft = if id.is_empty() {
            PopupSpecDraft { invalid: true, ..draft }
        } else {
            match &popup_node.children {
                Some(block) => parse_popup_fields_document_into(block, draft),
                None => PopupSpecDraft { invalid: true, ..draft },
            }
        };
        put_entry(drafts, i, id, draft, Ghost(before));
    }
    assert(nodes@.take(nodes@.len() as int) =~= nodes@);
}

impl ConfiguredPopupSpecs {
    /// The popups of a configuration whose three KDL blocks are given parsed:
    /// each is absent (`None`), not KDL (`Some(None)`) or its nodes. The block
    /// `popup` is the popup `default`; `popups` names a popup by each node;
    /// `popup_defaults` sets margins and hooks for all of them.
    pub fn from_configuration_documents(
        popup_defaults: Option<Option<Vec<KdlNode>>>,
        popup: Option<Option<Vec<KdlNode>>>,
        popups: Option<Option<Vec<KdlNode>>>,
    ) -> (r: Self)
        ensures
            r@ == configured_model(
                document_view(popup_defaults),
                document_view(popup),
                document_view(popups),
            ),
    {
        let defaults = match &popup_defaults {
            Some(doc) => parse_popup_defaults(doc.as_ref()),
            None => no_defaults(),
        };
        let mut drafts: Vec<(String, PopupSpecDraft)> = Vec::new();
        assert(drafts_view(drafts@) =~= Seq::<(Seq<char>, DraftView)>::empty());
        match &popup {
            Some(doc) => {
                let ghost before = drafts_view(drafts@);
                let (i, draft) = take_entry(&mut drafts, "default");
                let draft = parse_popup_fields_into("default", doc.as_ref(), draft);
                put_entry(&mut drafts, i, "default", draft, Ghost(before));
            },
            None => {},
        }
        match &popups {
            Some(doc) => parse_named_popups_into(doc.as_ref(), &mut drafts),
            None => {},
        }
        let ghost all = drafts_view(drafts@);
        assert(all == drafts_of(document_view(popup), document_view(popups)));
        proof {
            lemma_drafts_of_wf(document_view(popup), document_view(popups));
        }
        let mut specs: Vec<(String, TransientPopupSpec)> = Vec::new();
        let mut invalid_spec_ids: Vec<String> = Vec::new();
        let ghost dv = defaults@;
        assert(all.take(0) =~= Seq::<(Seq<char>, DraftView)>::empty());
        proof {
            let r0 = ConfiguredPopupSpecs { specs, invalid_spec_ids };
            assert(r0@ =~= partition_specs(all.take(0), dv));
        }
        for k in 0..drafts.len()
            invariant
                all == drafts_view(drafts@),
                drafts_wf(all),
                dv == defaults@,
                (ConfiguredPopupSpecs { specs, invalid_spec_ids })@ == partition_specs(all.take(k as int), dv),
        {
            assert(all.take(k + 1).drop_last() =~= all.take(k as int));
            assert(all.take(k + 1).last() == all[k as int]);
            let ghost before = ConfiguredPopupSpecs { specs, invalid_spec_ids }@;
            assert(all[k as int].1 == drafts[k as int].1@);
            assert(draft_wf(all[k as int].1));
            let id = &drafts[k].0;
            match build_configured_spec(id.as_str(), &drafts[k].1, &defaults) {
                Some(spec) => {
                    if spec.is_launchable() {
                        specs.push((id.clone(), spec));
                        proof {
                            let now = ConfiguredPopupSpecs { specs, invalid_spec_ids }@;
                            assert(now.specs =~= before.specs.push((id@, spec@)));
                            assert(now.invalid_ids =~= before.invalid_ids);
                        }
                    } else {
                        invalid_spec_ids.push(id.clone());
                        proof {
                            let now = ConfiguredPopupSpecs { specs, invalid_spec_ids }@;
                            assert(now.specs =~= before.specs);
                            assert(now.invalid_ids =~= before.invalid_ids.push(id@));
                        }
                    }
                },
                None => {
                    invalid_spec_ids.push(id.clone());
                    proof {
                        let now = ConfiguredPopupSpecs { specs, invalid_spec_ids }@;
                        assert(now.specs =~= before.specs);
                        assert(now.invalid_ids =~= before.invalid_ids.push(id@));
                    }
                },
            }
        }
        assert(all.take(all.len() as int) =~= all);
        ConfiguredPopupSpecs { specs, invalid_spec_ids }
    }

    /// The popups of a plugin configuration: the KDL blocks `popup_defaults`,
    /// `popup` and `popups`, each parsed with the `kdl` crate.
    pub fn from_configuration(configuration: &BTreeMap<String, String>) -> (r: Self)
        ensures
            r@ == configured_model(
                parsed_source(config_value(configuration@, "popup_defaults"@)),
                parsed_source(config_value(configuration@, "popup"@)),
                parsed_source(config_value(configuration@, "popups"@)),
            ),
    {
        let popup_defaults = match configuration_value(configuration, "popup_defaults") {
            Some(raw) => Some(parse_kdl_document(raw.as_str())),
            None => None,
        };
        let popup = match configuration_value(configuration, "popup") {
            Some(raw) => Some(parse_kdl_document(raw.as_str())),
            None => None,
        };
        let popups = match configuration_value(configuration, "popups") {
            Some(raw) => Some(parse_kdl_document(raw.as_str())),
            None => None,
        };
        Self::from_configuration_documents(popup_defaults, popup, popups)
    }
}


// ---- displaced popups ----

/// A displaced popup pane as plain values.
#[verifier::ext_equal]
pub struct CandidateView<Id> {
    pub pane_id: Id,
    pub on_close: Option<HookView>,
    pub on_hide: Option<HookView>,
    pub toggle_close_behavior: TransientPopupToggleCloseBehavior,
}

/// The hook behind an optional reference.
pub open spec fn opt_hook_ref(h: Option<&TransientPopupCommandHook>) -> Option<HookView> {
    match h {
        Some(hook) => Some(hook@),
        None => None,
    }
}

pub open spec fn candidate_view<Id>(c: TransientPaneDisplacementCandidate<'_, Id>) -> CandidateView<Id> {
    CandidateView {
        pane_id: c.pane_id,
        on_close: opt_hook_ref(c.on_close),
        on_hide: opt_hook_ref(c.on_hide),
        toggle_close_behavior: c.toggle_close_behavior,
    }
}

pub open spec fn candidates_view<Id>(c: Seq<TransientPaneDisplacementCandidate<'_, Id>>) -> Seq<CandidateView<Id>> {
    c.map_values(|x: TransientPaneDisplacementCandidate<'_, Id>| candidate_view(x))
}

/// Whether a pane id is already among the candidates, by `Id`'s `==`.
pub open spec fn listed_pane<Id: PartialEq>(cands: Seq<CandidateView<Id>>, id: Id) -> bool {
    exists|k: int| 0 <= k < cands.len() && (#[trigger] cands[k]).pane_id.eq_spec(&id)
}

/// The candidates after looking at one configured popup: unless it is the
/// current popup, its visible pane is displaced, when it is not the current pane
/// and not already listed.
pub open spec fn displacement_step<'a, Id: PartialEq>(
    cands: Seq<CandidateView<Id>>,
    entry: (Seq<char>, SpecView),
    panes: Seq<TransientPaneSnapshot<'a, Id>>,
    current_spec_id: Seq<char>,
    current_pane_id: Option<Id>,
) -> Seq<CandidateView<Id>> {
    if entry.0 == current_spec_id {
        cands
    } else {
        match chosen_pane(panes, entry.1.pane_title, nonblank_trimmed(entry.1.command_marker), true) {
            None => cands,
            Some(pane) => if (current_pane_id matches Some(c) && c.eq_spec(&pane.pane_id))
                || listed_pane(cands, pane.pane_id) {
                cands
            } else {
                cands.push(
                    CandidateView {
                        pane_id: pane.pane_id,
                        on_close: entry.1.on_close,
                        on_hide: entry.1.on_hide,
                        toggle_close_behavior: entry.1.toggle_close_behavior,
                    },
                )
            },
        }
    }
}

/// The panes of other configured popups to clean up, in id order.
pub open spec fn displaced_panes<'a, Id: PartialEq>(
    specs: Seq<(Seq<char>, SpecView)>,
    panes: Seq<TransientPaneSnapshot<'a, Id>>,
    current_spec_id: Seq<char>,
    current_pane_id: Option<Id>,
) -> Seq<CandidateView<Id>>
    decreases specs.len(),
{
    if specs.len() == 0 {
        Seq::empty()
    } else {
        displacement_step(
            displaced_panes(specs.drop_last(), panes, current_spec_id, current_pane_id),
            specs.last(),
            panes,
            current_spec_id,
            current_pane_id,
        )
    }
}

impl ConfiguredPopupSpecs {
    /// The visible panes of the other configured popups, to be closed or hidden
    /// before the current popup is shown: for each configured popup in id order
    /// but `current_spec_id`, its visible pane, unless that is `current_pane_id`
    /// or already listed. What `Id`'s `==` does is stated where vstd specifies it.
    pub fn select_other_configured_panes<'a, Id: Copy + PartialEq>(
        &'a self,
        panes: &[TransientPaneSnapshot<'_, Id>],
        current_spec_id: &str,
        current_pane_id: Option<Id>,
    ) -> (r: Vec<TransientPaneDisplacementCandidate<'a, Id>>)
        ensures
            Id::obeys_eq_spec() ==> candidates_view(r@) == displaced_panes(
                self@.specs,
                panes@,
                current_spec_id@,
                current_pane_id,
            ),
    {
        let mut candidates: Vec<TransientPaneDisplacementCandidate<'a, Id>> = Vec::new();
        let ghost specs = self@.specs;
        assert(specs.take(0) =~= Seq::<(Seq<char>, SpecView)>::empty());
        assert(candidates_view(candidates@) =~= Seq::<CandidateView<Id>>::empty());
        for k in 0..self.specs.len()
            invariant
                specs == self@.specs,
                specs.len() == self.specs@.len(),
                Id::obeys_eq_spec() ==> candidates_view(candidates@) == displaced_panes(
                    specs.take(k as int),
                    panes@,
                    current_spec_id@,
                    current_pane_id,
                ),
        {
            assert(specs.take(k + 1).drop_last() =~= specs.take(k as int));
            assert(specs.take(k + 1).last() == specs[k as int]);
            let ghost before = candidates_view(candidates@);
            let entry = &self.specs[k];
            assert(specs[k as int] == (entry.0@, entry.1@));
            if !same_text(entry.0.as_str(), current_spec_id) {
                match select_visible_transient_pane_by_identity(panes, entry.1.identity()) {
                    Some(pane) => {
                        let is_current = match current_pane_id {
                            Some(current) => current == pane.pane_id,
                            None => false,
                        };
                        if !is_current {
                            let mut listed = false;
                            for j in 0..candidates.len()
                                invariant
                                    before == candidates_view(candidates@),
                                    Id::obeys_eq_spec() ==> (listed == exists|i: int|
                                        0 <= i < j && (#[trigger] before[i]).pane_id.eq_spec(
                                            &pane.pane_id,
                                        )),
                            {
                                assert(before[j as int].pane_id == candidates@[j as int].pane_id);
                                if candidates[j].pane_id == pane.pane_id {
                                    listed = true;
                                }
                            }
                            if !listed {
                                let on_close = match &entry.1.on_close {
                                    Some(h) => Some(h),
                                    None => None,
                                };
                                let on_hide = match &entry.1.on_hide {
                                    Some(h) => Some(h),
                                    None => None,
                                };
                                candidates.push(
                                    TransientPaneDisplacementCandidate {
                                        pane_id: pane.pane_id,
                                        on_close,
                                        on_hide,
                                        toggle_close_behavior: entry.1.toggle_close_behavior,
                                    },
                                );
                                assert(candidates_view(candidates@) =~= before.push(
                                    candidate_view(candidates@.last()),
                                ));
                            }
                        }
                    },
                    None => {},
                }
            }
        }
        assert(specs.take(specs.len() as int) =~= specs);
        candidates
    }
}


// ---- requests from pipe messages ----

/// The request of a raw pipe message: the payload's JSON, decoded, with a
/// launchable spec.
pub open spec fn raw_request_model(payload: Option<Seq<char>>, parsed: Option<JsonValue>) -> Result<RequestView, MessageErrorView> {
    match (payload, parsed) {
        (Some(_), Some(v)) => match decode_request(v) {
            Some(request) => if spec_is_launchable(request.spec) {
                Ok(request)
            } else {
                Err(MessageErrorView::InvalidPayload)
            },
            None => Err(MessageErrorView::InvalidPayload),
        },
        _ => Err(MessageErrorView::InvalidPayload),
    }
}

/// Whether a valid popup has this id.
pub open spec fn has_spec(specs: Seq<(Seq<char>, SpecView)>, id: Seq<char>) -> bool {
    exists|i: int| 0 <= i < specs.len() && (#[trigger] specs[i]).0 == id
}

/// The first valid popup with this id.
pub open spec fn spec_for(specs: Seq<(Seq<char>, SpecView)>, id: Seq<char>) -> Option<SpecView>
    decreases specs.len(),
{
    if specs.len() == 0 {
        None
    } else if specs[0].0 == id {
        Some(specs[0].1)
    } else {
        spec_for(specs.drop_first(), id)
    }
}

/// The popup a message without payload is for: `default` when configured
/// (valid or not), else the only popup when there is exactly one and no invalid one.
pub open spec fn default_spec_id(c: ConfiguredView) -> Option<Seq<char>> {
    if has_spec(c.specs, "default"@) || c.invalid_ids.contains("default"@) {
        Some("default"@)
    } else if c.specs.len() == 1 && c.invalid_ids.len() == 0 {
        Some(c.specs[0].0)
    } else {
        None
    }
}

/// The popup id and cwd a configured message asks for: from no payload, the
/// default popup; from a payload that does not start with `{`, the trimmed
/// payload as id; from a JSON payload, its trimmed `id` and trimmed `cwd`, where
/// an empty id or a blank cwd is refused.
pub open spec fn configured_target(c: ConfiguredView, payload: Option<Seq<char>>, parsed: Option<JsonValue>) -> Result<
    (Seq<char>, Option<Seq<char>>),
    MessageErrorView,
> {
    match nonblank_trimmed(payload) {
        None => match default_spec_id(c) {
            Some(id) => Ok((id, None)),
            None => Err(MessageErrorView::InvalidPayload),
        },
        Some(p) => if p[0] != '{' {
            Ok((p, None))
        } else {
            match parsed {
                None => Err(MessageErrorView::InvalidPayload),
                Some(v) => match decode_configured_request(v) {
                    None => Err(MessageErrorView::InvalidPayload),
                    Some((id, cwd)) => if trim(id).len() == 0 || (cwd is Some && nonblank_trimmed(cwd) is None) {
                        Err(MessageErrorView::InvalidPayload)
                    } else {
                        Ok((trim(id), nonblank_trimmed(cwd)))
                    },
                },
            }
        },
    }
}

/// What a pipe message asks, given the JSON its payload parses to (when it does
/// and is read): the raw pipe `transient_popup` carries a whole request; the
/// pipes `toggle`, `open`, `focus` and `close` name a configured popup.
pub open spec fn message_model(
    c: ConfiguredView,
    pipe_name: Seq<char>,
    payload: Option<Seq<char>>,
    parsed: Option<JsonValue>,
) -> Result<RequestView, MessageErrorView> {
    if pipe_name == "transient_popup"@ {
        raw_request_model(payload, parsed)
    } else {
        match action_named(pipe_name) {
            None => Err(MessageErrorView::UnknownAction),
            Some(action) => match configured_target(c, payload, parsed) {
                Err(e) => Err(e),
                Ok((id, cwd)) => if c.invalid_ids.contains(id) {
                    Err(MessageErrorView::InvalidConfiguredSpec(id))
                } else {
                    match spec_for(c.specs, id) {
                        None => Err(MessageErrorView::MissingConfiguredSpec(id)),
                        Some(spec) => Ok(RequestView { action, spec, args: Seq::empty(), cwd }),
                    }
                },
            },
        }
    }
}

/// The JSON a message's payload is read as: the whole payload of the raw pipe,
/// the trimmed payload of a configured message when it starts with `{`.
pub open spec fn message_json(pipe_name: Seq<char>, payload: Option<Seq<char>>) -> Option<JsonValue> {
    match payload {
        Some(p) => if pipe_name == "transient_popup"@ {
            json_document(p)
        } else if trim(p).len() > 0 && trim(p)[0] == '{' {
            json_document(trim(p))
        } else {
            None
        },
        None => None,
    }
}

impl ConfiguredPopupSpecs {
    /// Whether `id` is a configured popup that is invalid.
    fn is_invalid_id(&self, id: &str) -> (r: bool)
        ensures
            r == self@.invalid_ids.contains(id@),
    {
        for i in 0..self.invalid_spec_ids.len()
            invariant
                forall|k: int| 0 <= k < i ==> self@.invalid_ids[k] != id@,
        {
            if same_text(self.invalid_spec_ids[i].as_str(), id) {
                assert(self@.invalid_ids[i as int] == id@);
                return true;
            }
        }
        false
    }

    /// The index of the first valid popup with id `id`.
    fn spec_index(&self, id: &str) -> (r: Option<usize>)
        ensures
            match r {
                Some(i) => i < self.specs@.len() && spec_for(self@.specs, id@) == Some(self.specs@[i as int].1@),
                None => spec_for(self@.specs, id@) is None,
            },
    {
        let ghost s = self@.specs;
        assert(s.skip(0) =~= s);
        let mut i: usize = 0;
        while i < self.specs.len()
            invariant
                s == self@.specs,
                s.len() == self.specs@.len(),
                i <= s.len(),
                spec_for(s, id@) == spec_for(s.skip(i as int), id@),
            decreases self.specs.len() - i,
        {
            assert(s.skip(i as int)[0] == s[i as int]);
            if same_text(self.specs[i].0.as_str(), id) {
                return Some(i);
            }
            assert(s.skip(i as int).drop_first() =~= s.skip(i + 1));
            i = i + 1;
        }
        None
    }

    /// The popup a message without payload is for.
    fn default_target(&self) -> (r: Option<String>)
        ensures
            opt_text_of(r) == default_spec_id(self@),
    {
        let has_default = match self.spec_index("default") {
            Some(_) => true,
            None => false,
        };
        proof {
            lemma_spec_for_has_spec(self@.specs, "default"@);
        }
        if has_default || self.is_invalid_id("default") {
            Some("default".to_owned())
        } else if self.specs.len() == 1 && self.invalid_spec_ids.len() == 0 {
            Some(self.specs[0].0.clone())
        } else {
            None
        }
    }

    /// The popup id and cwd that a configured message asks for.
    fn resolve_configured_request(&self, payload: Option<&str>, parsed: Option<JsonValue>) -> (r: Result<(String, Option<String>), PopupMessageRequestError>)
        ensures
            match r {
                Ok(target) => configured_target(self@, opt_str(payload), parsed) == Ok::<(Seq<char>, Option<Seq<char>>), MessageErrorView>((target.0@, crate::popup_contract::types::opt_text(target.1))),
                Err(e) => configured_target(self@, opt_str(payload), parsed) == Err::<(Seq<char>, Option<Seq<char>>), MessageErrorView>(e@),
            },
    {
        let payload = match trim_nonblank(payload) {
            Some(p) => p,
            None => {
                return match self.default_target() {
                    Some(id) => Ok((id, None)),
                    None => Err(PopupMessageRequestError::InvalidPayload),
                };
            },
        };
        if !crate::text::starts_with_char(payload, '{') {
            return Ok((payload.to_owned(), None));
        }
        let value = match parsed {
            Some(v) => v,
            None => return Err(PopupMessageRequestError::InvalidPayload),
        };
        let (id, cwd) = match decode_configured_request_value(&value) {
            Some(pair) => pair,
            None => return Err(PopupMessageRequestError::InvalidPayload),
        };
        let id = trim_str(id.as_str());
        let has_cwd = cwd.is_some();
        let cwd = crate::popup_contract::config::trim_optional(&cwd);
        if id.is_empty() || (has_cwd && cwd.is_none()) {
            return Err(PopupMessageRequestError::InvalidPayload);
        }
        Ok((id.to_owned(), cwd))
    }

    /// The request that a pipe message makes, given the JSON its payload parses
    /// to where it is read (see `message_json`).
    pub fn request_from_parsed_message(&self, pipe_name: &str, payload: Option<&str>, parsed: Option<JsonValue>) -> (r: Result<TransientPopupPipeRequest, PopupMessageRequestError>)
        ensures
            result_view(r) == message_model(self@, pipe_name@, opt_str(payload), parsed),
    {
        if same_text(pipe_name, "transient_popup") {
            return match (payload, parsed) {
                (Some(_), Some(v)) => match decode_pipe_request(&v) {
                    Some(request) => if request.is_launchable_spec() {
                        Ok(request)
                    } else {
                        Err(PopupMessageRequestError::InvalidPayload)
                    },
                    None => Err(PopupMessageRequestError::InvalidPayload),
                },
                _ => Err(PopupMessageRequestError::InvalidPayload),
            };
        }
        let action = match TransientPopupAction::from_pipe_name(pipe_name) {
            Some(action) => action,
            None => return Err(PopupMessageRequestError::UnknownAction),
        };
        let (spec_id, cwd) = match self.resolve_configured_request(payload, parsed) {
            Ok(target) => target,
            Err(e) => return Err(e),
        };
        if self.is_invalid_id(spec_id.as_str()) {
            return Err(PopupMessageRequestError::InvalidConfiguredSpec(spec_id));
        }
        let spec = match self.spec_index(spec_id.as_str()) {
            Some(i) => self.specs[i].1.duplicate(),
            None => return Err(PopupMessageRequestError::MissingConfiguredSpec(spec_id)),
        };
        let request = TransientPopupPipeRequest { action, spec, args: Vec::new(), cwd };
        assert(request@.args =~= Seq::<Seq<char>>::empty());
        Ok(request)
    }

    /// The request that a pipe message makes: a whole request for the pipe
    /// `transient_popup`, a configured popup for `toggle`, `open`, `focus` and
    /// `close`, or the reason there is none.
    pub fn request_from_message(&self, pipe_name: &str, payload: Option<&str>) -> (r: Result<TransientPopupPipeRequest, PopupMessageRequestError>)
        ensures
            result_view(r) == message_model(self@, pipe_name@, opt_str(payload), message_json(pipe_name@, opt_str(payload))),
    {
        let parsed = match payload {
            Some(p) => if same_text(pipe_name, "transient_popup") {
                parse_json_value(p)
            } else {
                let trimmed = trim_str(p);
                if crate::text::starts_with_char(trimmed, '{') {
                    parse_json_value(trimmed)
                } else {
                    None
                }
            },
            None => None,
        };
        self.request_from_parsed_message(pipe_name, payload, parsed)
    }
}

/// The characters of an optional string.
pub open spec fn opt_text_of(o: Option<String>) -> Option<Seq<char>> {
    crate::popup_contract::types::opt_text(o)
}

proof fn lemma_spec_for_has_spec(specs: Seq<(Seq<char>, SpecView)>, id: Seq<char>)
    ensures
        (spec_for(specs, id) is Some) == has_spec(specs, id),
    decreases specs.len(),
{
    if specs.len() > 0 {
        let rest = specs.drop_first();
        lemma_spec_for_has_spec(rest, id);
        if specs[0].0 == id {
            assert(has_spec(specs, id));
        } else {
            if has_spec(rest, id) {
                let i = choose|i: int| 0 <= i < rest.len() && (#[trigger] rest[i]).0 == id;
                assert(specs[i + 1] == rest[i]);
                assert(has_spec(specs, id));
            }
            if has_spec(specs, id) {
                let i = choose|i: int| 0 <= i < specs.len() && (#[trigger] specs[i]).0 == id;
                assert(rest[i - 1] == specs[i]);
                assert(has_spec(rest, id));
            }
        }
    }
}

} // verus!
