//! What holds of the configured popups, the requests, the pane choice and the
//! launches as a whole, whatever the configuration and the panes.
use vstd::prelude::*;

use crate::popup_contract::config::{build_spec, DefaultsView, DraftView};
use crate::popup_contract::configured::{
    configured_model, drafts_of, entry_index, has_entry, named_popup_step, named_popups,
    named_popups_source, partition_specs, set_entry, ConfiguredView,
};
use crate::popup_contract::configured::{
    candidate_view, displaced_panes, displacement_step, listed_pane, message_model, spec_for,
    CandidateView,
};
use crate::popup_contract::launch::{
    geometry_of, hook_is_launchable, hook_plan_of, request_launch_plan, restart_for_cwd,
    spec_is_launchable,
};
use crate::popup_contract::selection::{chosen_pane, is_candidate, is_chosen_within, pane_rank, toggle_plan};
use crate::popup_contract::types::{
    action_named, HookView, MessageErrorView, RequestView, TransientPaneSnapshot,
    TransientPopupAction, TransientPopupToggleCloseBehavior, TransientTogglePlan,
};
use crate::plugin::{displacement_of, popup_step_of, runs_on_close, PopupStep};
use crate::kdl_source::KdlNode;
use crate::text::{
    is_blank, lemma_text_less_irreflexive, lemma_text_less_total, lemma_text_less_transitive,
    text_less, trim, trim_end_char,
};
use vstd::std_specs::cmp::PartialEqSpec;

verus! {

/// Drafts in strictly increasing order of id.
pub open spec fn drafts_ordered(d: Seq<(Seq<char>, DraftView)>) -> bool {
    forall|i: int, j: int| 0 <= i < j < d.len() ==> text_less(#[trigger] d[i].0, #[trigger] d[j].0)
}

/// Texts in strictly increasing order.
pub open spec fn texts_ordered(s: Seq<Seq<char>>) -> bool {
    forall|i: int, j: int| 0 <= i < j < s.len() ==> text_less(#[trigger] s[i], #[trigger] s[j])
}

/// What every set of configured popups is: each valid popup has a non-blank id,
/// which is the id of its spec, and can be launched; valid and invalid ids are each in increasing order, so
/// none comes twice; and no id is both valid and invalid.
pub open spec fn configured_wf(c: ConfiguredView) -> bool {
    &&& forall|i: int|
        0 <= i < c.specs.len() ==> spec_is_launchable((#[trigger] c.specs[i]).1) && !is_blank(
            c.specs[i].0,
        ) && c.specs[i].1.id == c.specs[i].0
    &&& forall|i: int, j: int|
        0 <= i < j < c.specs.len() ==> text_less(#[trigger] c.specs[i].0, #[trigger] c.specs[j].0)
    &&& texts_ordered(c.invalid_ids)
    &&& forall|i: int, j: int|
        0 <= i < c.specs.len() && 0 <= j < c.invalid_ids.len() ==> #[trigger] c.specs[i].0
            != #[trigger] c.invalid_ids[j]
}

proof fn lemma_entry_index_split(d: Seq<(Seq<char>, DraftView)>, id: Seq<char>)
    ensures
        0 <= entry_index(d, id) <= d.len(),
        forall|k: int| 0 <= k < entry_index(d, id) ==> text_less(#[trigger] d[k].0, id),
        entry_index(d, id) < d.len() ==> !text_less(d[entry_index(d, id)].0, id),
    decreases d.len(),
{
    if d.len() > 0 && text_less(d[0].0, id) {
        let rest = d.drop_first();
        lemma_entry_index_split(rest, id);
        assert forall|k: int| 0 <= k < entry_index(d, id) implies text_less(#[trigger] d[k].0, id) by {
            if k > 0 {
                assert(d[k] == rest[k - 1]);
            }
        }
        if entry_index(d, id) < d.len() {
            assert(d[entry_index(d, id)] == rest[entry_index(rest, id)]);
        }
    }
}

proof fn lemma_set_entry_ordered(d: Seq<(Seq<char>, DraftView)>, id: Seq<char>, draft: DraftView)
    requires
        drafts_ordered(d),
    ensures
        drafts_ordered(set_entry(d, id, draft)),
{
    lemma_entry_index_split(d, id);
    let i = entry_index(d, id);
    if has_entry(d, id) {
        let e = d.update(i, (id, draft));
        assert forall|a: int, b: int| 0 <= a < b < e.len() implies text_less(
            #[trigger] e[a].0,
            #[trigger] e[b].0,
        ) by {
            assert(e[a].0 == d[a].0);
            assert(e[b].0 == d[b].0);
        }
    } else {
        let e = d.insert(i, (id, draft));
        if i < d.len() {
            lemma_text_less_total(d[i].0, id);
        }
        assert forall|a: int, b: int| 0 <= a < b < e.len() implies text_less(
            #[trigger] e[a].0,
            #[trigger] e[b].0,
        ) by {
            if b < i {
                assert(e[a] == d[a] && e[b] == d[b]);
            } else if b == i {
                assert(e[a] == d[a]);
            } else if a == i {
                assert(e[b] == d[b - 1]);
                if b - 1 > i {
                    lemma_text_less_transitive(id, d[i].0, d[b - 1].0);
                }
            } else if a < i {
                assert(e[a] == d[a] && e[b] == d[b - 1]);
            } else {
                assert(e[a] == d[a - 1] && e[b] == d[b - 1]);
            }
        }
    }
}

proof fn lemma_named_popups_ordered(d: Seq<(Seq<char>, DraftView)>, nodes: Seq<KdlNode>)
    requires
        drafts_ordered(d),
    ensures
        drafts_ordered(named_popups(d, nodes)),
    decreases nodes.len(),
{
    if nodes.len() > 0 {
        let before = named_popups(d, nodes.drop_last());
        lemma_named_popups_ordered(d, nodes.drop_last());
        let node = nodes.last();
        let id = crate::text::trim(node.name@);
        let draft = crate::popup_contract::configured::entry_draft(before, id);
        lemma_set_entry_ordered(before, id, crate::popup_contract::configured::invalidated(draft));
        match node.children {
            Some(block) => lemma_set_entry_ordered(
                before,
                id,
                crate::popup_contract::config::popup_fields(draft, block@),
            ),
            None => {},
        }
        assert(named_popups(d, nodes) == named_popup_step(before, node));
    }
}

proof fn lemma_drafts_of_ordered(
    popup: Option<Option<Seq<KdlNode>>>,
    popups: Option<Option<Seq<KdlNode>>>,
)
    ensures
        drafts_ordered(drafts_of(popup, popups)),
{
    let d0 = Seq::<(Seq<char>, DraftView)>::empty();
    let d1 = match popup {
        Some(parsed) => set_entry(
            d0,
            "default"@,
            crate::popup_contract::configured::popup_document_draft(
                "default"@,
                crate::popup_contract::configured::entry_draft(d0, "default"@),
                parsed,
            ),
        ),
        None => d0,
    };
    match popup {
        Some(parsed) => lemma_set_entry_ordered(
            d0,
            "default"@,
            crate::popup_contract::configured::popup_document_draft(
                "default"@,
                crate::popup_contract::configured::entry_draft(d0, "default"@),
                parsed,
            ),
        ),
        None => {},
    }
    match popups {
        Some(Some(nodes)) => lemma_named_popups_ordered(d1, nodes),
        Some(None) => lemma_set_entry_ordered(
            d1,
            "popups"@,
            crate::popup_contract::configured::invalidated(
                crate::popup_contract::configured::entry_draft(d1, "popups"@),
            ),
        ),
        None => {},
    }
}

/// Drafts whose ids are all trimmed.
pub open spec fn draft_ids_trimmed(d: Seq<(Seq<char>, DraftView)>) -> bool {
    forall|k: int| 0 <= k < d.len() ==> trim((#[trigger] d[k]).0) == d[k].0
}

proof fn lemma_set_entry_trimmed(d: Seq<(Seq<char>, DraftView)>, id: Seq<char>, draft: DraftView)
    requires
        draft_ids_trimmed(d),
        trim(id) == id,
    ensures
        draft_ids_trimmed(set_entry(d, id, draft)),
{
    let e = set_entry(d, id, draft);
    assert forall|k: int| 0 <= k < e.len() implies trim((#[trigger] e[k]).0) == e[k].0 by {
        let y = e[k].0;
        lemma_set_entry_ids(d, id, draft, y);
        assert(has_draft_id(e, y));
        if has_draft_id(d, y) {
            let j = choose|j: int| 0 <= j < d.len() && (#[trigger] d[j]).0 == y;
            assert(trim(d[j].0) == d[j].0);
        }
    }
}

proof fn lemma_named_popups_trimmed(d: Seq<(Seq<char>, DraftView)>, nodes: Seq<KdlNode>)
    requires
        draft_ids_trimmed(d),
    ensures
        draft_ids_trimmed(named_popups(d, nodes)),
    decreases nodes.len(),
{
    if nodes.len() > 0 {
        let before = named_popups(d, nodes.drop_last());
        lemma_named_popups_trimmed(d, nodes.drop_last());
        let node = nodes.last();
        let id = trim(node.name@);
        crate::text::lemma_trim_idempotent(node.name@);
        let draft = crate::popup_contract::configured::entry_draft(before, id);
        lemma_set_entry_trimmed(before, id, crate::popup_contract::configured::invalidated(draft));
        match node.children {
            Some(block) => lemma_set_entry_trimmed(
                before,
                id,
                crate::popup_contract::config::popup_fields(draft, block@),
            ),
            None => {},
        }
        assert(named_popups(d, nodes) == named_popup_step(before, node));
    }
}

proof fn lemma_trim_literals()
    ensures
        trim("default"@) == "default"@,
        trim("popups"@) == "popups"@,
{
    reveal_strlit("default");
    reveal_strlit("popups");
    assert(crate::text::trim_start("default"@) == "default"@);
    assert(crate::text::trim_end("default"@) == "default"@);
    assert(crate::text::trim_start("popups"@) == "popups"@);
    assert(crate::text::trim_end("popups"@) == "popups"@);
}

proof fn lemma_drafts_of_trimmed(
    popup: Option<Option<Seq<KdlNode>>>,
    popups: Option<Option<Seq<KdlNode>>>,
)
    ensures
        draft_ids_trimmed(drafts_of(popup, popups)),
{
    lemma_trim_literals();
    let d0 = Seq::<(Seq<char>, DraftView)>::empty();
    let d1 = match popup {
        Some(parsed) => set_entry(
            d0,
            "default"@,
            crate::popup_contract::configured::popup_document_draft(
                "default"@,
                crate::popup_contract::configured::entry_draft(d0, "default"@),
                parsed,
            ),
        ),
        None => d0,
    };
    match popup {
        Some(parsed) => lemma_set_entry_trimmed(
            d0,
            "default"@,
            crate::popup_contract::configured::popup_document_draft(
                "default"@,
                crate::popup_contract::configured::entry_draft(d0, "default"@),
                parsed,
            ),
        ),
        None => {},
    }
    match popups {
        Some(Some(nodes)) => lemma_named_popups_trimmed(d1, nodes),
        Some(None) => lemma_set_entry_trimmed(
            d1,
            "popups"@,
            crate::popup_contract::configured::invalidated(
                crate::popup_contract::configured::entry_draft(d1, "popups"@),
            ),
        ),
        None => {},
    }
}

proof fn lemma_partition_wf(drafts: Seq<(Seq<char>, DraftView)>, defaults: DefaultsView)
    requires
        drafts_ordered(drafts),
        draft_ids_trimmed(drafts),
    ensures
        configured_wf(partition_specs(drafts, defaults)),
        forall|i: int|
            0 <= i < partition_specs(drafts, defaults).specs.len() ==> exists|k: int|
                0 <= k < drafts.len() && #[trigger] drafts[k].0 == (
                #[trigger] partition_specs(drafts, defaults).specs[i]).0,
        forall|i: int|
            0 <= i < partition_specs(drafts, defaults).invalid_ids.len() ==> exists|k: int|
                0 <= k < drafts.len() && #[trigger] drafts[k].0 == #[trigger] partition_specs(
                    drafts,
                    defaults,
                ).invalid_ids[i],
    decreases drafts.len(),
{
    if drafts.len() > 0 {
        let prev = drafts.drop_last();
        assert forall|i: int, j: int| 0 <= i < j < prev.len() implies text_less(
            #[trigger] prev[i].0,
            #[trigger] prev[j].0,
        ) by {
            assert(prev[i] == drafts[i] && prev[j] == drafts[j]);
        }
        assert forall|k: int| 0 <= k < prev.len() implies trim((#[trigger] prev[k]).0) == prev[k].0 by {
            assert(prev[k] == drafts[k]);
        }
        lemma_partition_wf(prev, defaults);
        let done = partition_specs(prev, defaults);
        let last = drafts.len() - 1;
        let (id, draft) = drafts.last();
        assert forall|i: int| 0 <= i < done.specs.len() implies text_less(
            #[trigger] done.specs[i].0,
            id,
        ) by {
            let k = choose|k: int| 0 <= k < prev.len() && #[trigger] prev[k].0 == done.specs[i].0;
            assert(prev[k] == drafts[k]);
            assert(text_less(drafts[k].0, drafts[last].0));
        }
        assert forall|i: int| 0 <= i < done.invalid_ids.len() implies text_less(
            #[trigger] done.invalid_ids[i],
            id,
        ) by {
            let k = choose|k: int| 0 <= k < prev.len() && #[trigger] prev[k].0 == done.invalid_ids[i];
            assert(prev[k] == drafts[k]);
            assert(text_less(drafts[k].0, drafts[last].0));
        }
        lemma_text_less_irreflexive(id);
        let r = partition_specs(drafts, defaults);
        assert forall|i: int| 0 <= i < r.specs.len() implies exists|k: int|
            0 <= k < drafts.len() && #[trigger] drafts[k].0 == (#[trigger] r.specs[i]).0 by {
            if i < done.specs.len() {
                assert(r.specs[i] == done.specs[i]);
                let k = choose|k: int| 0 <= k < prev.len() && #[trigger] prev[k].0 == done.specs[i].0;
                assert(prev[k] == drafts[k]);
            } else {
                assert(drafts[last].0 == r.specs[i].0);
            }
        }
        assert forall|i: int| 0 <= i < r.invalid_ids.len() implies exists|k: int|
            0 <= k < drafts.len() && #[trigger] drafts[k].0 == #[trigger] r.invalid_ids[i] by {
            if i < done.invalid_ids.len() {
                assert(r.invalid_ids[i] == done.invalid_ids[i]);
                let k = choose|k: int| 0 <= k < prev.len() && #[trigger] prev[k].0 == done.invalid_ids[i];
                assert(prev[k] == drafts[k]);
            } else {
                assert(drafts[last].0 == r.invalid_ids[i]);
            }
        }
        assert forall|i: int, j: int|
            0 <= i < r.specs.len() && 0 <= j < r.invalid_ids.len() implies #[trigger] r.specs[i].0
            != #[trigger] r.invalid_ids[j] by {
            if i < done.specs.len() && j < done.invalid_ids.len() {
                assert(r.specs[i] == done.specs[i] && r.invalid_ids[j] == done.invalid_ids[j]);
            } else if i < done.specs.len() {
                assert(r.specs[i] == done.specs[i]);
            } else {
                assert(r.invalid_ids[j] == done.invalid_ids[j]);
            }
        }
        assert forall|i: int, j: int| 0 <= i < j < r.specs.len() implies text_less(
            #[trigger] r.specs[i].0,
            #[trigger] r.specs[j].0,
        ) by {
            assert(r.specs[i] == done.specs[i]);
            if j < done.specs.len() {
                assert(r.specs[j] == done.specs[j]);
            }
        }
        assert forall|i: int, j: int| 0 <= i < j < r.invalid_ids.len() implies text_less(
            #[trigger] r.invalid_ids[i],
            #[trigger] r.invalid_ids[j],
        ) by {
            assert(r.invalid_ids[i] == done.invalid_ids[i]);
            if j < done.invalid_ids.len() {
                assert(r.invalid_ids[j] == done.invalid_ids[j]);
            }
        }
        assert(trim(drafts[last].0) == drafts[last].0);
        assert forall|i: int| 0 <= i < r.specs.len() implies spec_is_launchable(
            (#[trigger] r.specs[i]).1,
        ) && !is_blank(r.specs[i].0) && r.specs[i].1.id == r.specs[i].0 by {
            if i < done.specs.len() {
                assert(r.specs[i] == done.specs[i]);
            }
        }
    }
}

/// Whether some draft has this id.
pub open spec fn has_draft_id(d: Seq<(Seq<char>, DraftView)>, id: Seq<char>) -> bool {
    exists|k: int| 0 <= k < d.len() && (#[trigger] d[k]).0 == id
}

proof fn lemma_set_entry_ids(d: Seq<(Seq<char>, DraftView)>, id: Seq<char>, draft: DraftView, y: Seq<char>)
    ensures
        has_draft_id(set_entry(d, id, draft), y) <==> (has_draft_id(d, y) || y == id),
{
    crate::popup_contract::configured::lemma_entry_index_bound(d, id);
    let i = entry_index(d, id);
    let e = set_entry(d, id, draft);
    if has_entry(d, id) {
        assert(e == d.update(i, (id, draft)));
        if has_draft_id(e, y) {
            let k = choose|k: int| 0 <= k < e.len() && (#[trigger] e[k]).0 == y;
            if k != i {
                assert(e[k] == d[k]);
            }
        }
        if has_draft_id(d, y) {
            let k = choose|k: int| 0 <= k < d.len() && (#[trigger] d[k]).0 == y;
            if k == i {
                assert(e[k].0 == y);
            } else {
                assert(e[k] == d[k]);
            }
        }
        if y == id {
            assert(e[i].0 == y);
        }
    } else {
        assert(e == d.insert(i, (id, draft)));
        if has_draft_id(e, y) {
            let k = choose|k: int| 0 <= k < e.len() && (#[trigger] e[k]).0 == y;
            if k < i {
                assert(e[k] == d[k]);
            } else if k > i {
                assert(e[k] == d[k - 1]);
            }
        }
        if has_draft_id(d, y) {
            let k = choose|k: int| 0 <= k < d.len() && (#[trigger] d[k]).0 == y;
            if k < i {
                assert(e[k] == d[k]);
            } else {
                assert(e[k + 1] == d[k]);
            }
        }
        if y == id {
            assert(e[i].0 == y);
        }
    }
}

/// Whether a node of `nodes` is named `id`, trimmed.
pub open spec fn names_node(nodes: Seq<KdlNode>, id: Seq<char>) -> bool {
    exists|j: int| 0 <= j < nodes.len() && trim((#[trigger] nodes[j]).name@) == id
}

proof fn lemma_named_popups_ids(d: Seq<(Seq<char>, DraftView)>, nodes: Seq<KdlNode>, y: Seq<char>)
    ensures
        has_draft_id(named_popups(d, nodes), y) <==> (has_draft_id(d, y) || names_node(nodes, y)),
    decreases nodes.len(),
{
    if nodes.len() > 0 {
        let prev = nodes.drop_last();
        lemma_named_popups_ids(d, prev, y);
        let before = named_popups(d, prev);
        let node = nodes.last();
        let id = trim(node.name@);
        let draft = crate::popup_contract::configured::entry_draft(before, id);
        assert(named_popups(d, nodes) == named_popup_step(before, node));
        lemma_set_entry_ids(before, id, crate::popup_contract::configured::invalidated(draft), y);
        match node.children {
            Some(block) => lemma_set_entry_ids(
                before,
                id,
                crate::popup_contract::config::popup_fields(draft, block@),
                y,
            ),
            None => {},
        }
        if names_node(nodes, y) {
            let j = choose|j: int| 0 <= j < nodes.len() && trim((#[trigger] nodes[j]).name@) == y;
            if j < nodes.len() - 1 {
                assert(prev[j] == nodes[j]);
            }
        }
        if names_node(prev, y) {
            let j = choose|j: int| 0 <= j < prev.len() && trim((#[trigger] prev[j]).name@) == y;
            assert(prev[j] == nodes[j]);
        }
        if y == id {
            assert(nodes[nodes.len() - 1] == node);
        }
    }
}

proof fn lemma_partition_ids(drafts: Seq<(Seq<char>, DraftView)>, defaults: DefaultsView, y: Seq<char>)
    ensures
        has_draft_id(drafts, y) <==> (crate::popup_contract::configured::has_spec(
            partition_specs(drafts, defaults).specs,
            y,
        ) || partition_specs(drafts, defaults).invalid_ids.contains(y)),
    decreases drafts.len(),
{
    if drafts.len() > 0 {
        let prev = drafts.drop_last();
        lemma_partition_ids(prev, defaults, y);
        let done = partition_specs(prev, defaults);
        let r = partition_specs(drafts, defaults);
        let last = drafts.len() - 1;
        if has_draft_id(drafts, y) {
            let k = choose|k: int| 0 <= k < drafts.len() && (#[trigger] drafts[k]).0 == y;
            if k < last {
                assert(prev[k] == drafts[k]);
                assert(has_draft_id(prev, y));
                if crate::popup_contract::configured::has_spec(done.specs, y) {
                    let i = choose|i: int| 0 <= i < done.specs.len() && (#[trigger] done.specs[i]).0 == y;
                    assert(r.specs[i] == done.specs[i]);
                } else {
                    let i = choose|i: int| 0 <= i < done.invalid_ids.len() && done.invalid_ids[i] == y;
                    assert(r.invalid_ids[i] == done.invalid_ids[i]);
                }
            } else {
                if r.specs.len() > done.specs.len() {
                    assert(r.specs[done.specs.len() as int].0 == y);
                } else {
                    assert(r.invalid_ids[done.invalid_ids.len() as int] == y);
                }
            }
        }
        if crate::popup_contract::configured::has_spec(r.specs, y) {
            let i = choose|i: int| 0 <= i < r.specs.len() && (#[trigger] r.specs[i]).0 == y;
            if i < done.specs.len() {
                assert(r.specs[i] == done.specs[i]);
                assert(crate::popup_contract::configured::has_spec(done.specs, y));
                let k = choose|k: int| 0 <= k < prev.len() && (#[trigger] prev[k]).0 == y;
                assert(prev[k] == drafts[k]);
            } else {
                assert(drafts[last].0 == y);
            }
        }
        if r.invalid_ids.contains(y) {
            let i = choose|i: int| 0 <= i < r.invalid_ids.len() && r.invalid_ids[i] == y;
            if i < done.invalid_ids.len() {
                assert(r.invalid_ids[i] == done.invalid_ids[i]);
                assert(done.invalid_ids.contains(y));
                let k = choose|k: int| 0 <= k < prev.len() && (#[trigger] prev[k]).0 == y;
                assert(prev[k] == drafts[k]);
            } else {
                assert(drafts[last].0 == y);
            }
        }
    }
}

/// The ids a configuration names: `default` when it has a `popup` block, the
/// trimmed name of each node of its `popups` block, and `popups` itself when
/// that block is not KDL.
pub open spec fn configured_id(
    popup: Option<Option<Seq<KdlNode>>>,
    popups: Option<Option<Seq<KdlNode>>>,
    id: Seq<char>,
) -> bool {
    ||| (popup is Some && id == "default"@)
    ||| (popups matches Some(Some(nodes)) && names_node(nodes, id))
    ||| (popups matches Some(None) && id == "popups"@)
}

/// Every id that a configuration names is listed once among its popups, as
/// valid or as invalid, and no other id is.
pub proof fn law_configured_ids_are_listed(
    popup_defaults: Option<Option<Seq<KdlNode>>>,
    popup: Option<Option<Seq<KdlNode>>>,
    popups: Option<Option<Seq<KdlNode>>>,
    id: Seq<char>,
)
    ensures
        ({
            let c = configured_model(popup_defaults, popup, popups);
            (crate::popup_contract::configured::has_spec(c.specs, id) || c.invalid_ids.contains(id))
                <==> configured_id(popup, popups, id)
        }),
{
    let d0 = Seq::<(Seq<char>, DraftView)>::empty();
    let d1 = match popup {
        Some(parsed) => set_entry(
            d0,
            "default"@,
            crate::popup_contract::configured::popup_document_draft(
                "default"@,
                crate::popup_contract::configured::entry_draft(d0, "default"@),
                parsed,
            ),
        ),
        None => d0,
    };
    match popup {
        Some(parsed) => lemma_set_entry_ids(
            d0,
            "default"@,
            crate::popup_contract::configured::popup_document_draft(
                "default"@,
                crate::popup_contract::configured::entry_draft(d0, "default"@),
                parsed,
            ),
            id,
        ),
        None => {},
    }
    match popups {
        Some(Some(nodes)) => lemma_named_popups_ids(d1, nodes, id),
        Some(None) => lemma_set_entry_ids(
            d1,
            "popups"@,
            crate::popup_contract::configured::invalidated(
                crate::popup_contract::configured::entry_draft(d1, "popups"@),
            ),
            id,
        ),
        None => {},
    }
    lemma_partition_ids(
        drafts_of(popup, popups),
        crate::popup_contract::configured::configured_defaults(popup_defaults),
        id,
    );
}

/// The popups of any configuration are well formed (see `configured_wf`):
/// every valid popup can be launched and has its id as the id of its spec, and
/// each id is listed once, as valid or as invalid.
pub proof fn law_configured_popups_well_formed(
    popup_defaults: Option<Option<Seq<KdlNode>>>,
    popup: Option<Option<Seq<KdlNode>>>,
    popups: Option<Option<Seq<KdlNode>>>,
)
    ensures
        configured_wf(configured_model(popup_defaults, popup, popups)),
{
    lemma_drafts_of_ordered(popup, popups);
    lemma_drafts_of_trimmed(popup, popups);
    lemma_partition_wf(
        drafts_of(popup, popups),
        crate::popup_contract::configured::configured_defaults(popup_defaults),
    );
}


proof fn lemma_spec_for_launchable(specs: Seq<(Seq<char>, crate::popup_contract::types::SpecView)>, id: Seq<char>)
    requires
        forall|i: int| 0 <= i < specs.len() ==> spec_is_launchable(#[trigger] specs[i].1),
    ensures
        spec_for(specs, id) matches Some(s) ==> spec_is_launchable(s),
    decreases specs.len(),
{
    if specs.len() > 0 && specs[0].0 != id {
        let rest = specs.drop_first();
        assert forall|i: int| 0 <= i < rest.len() implies spec_is_launchable(#[trigger] rest[i].1) by {
            assert(rest[i] == specs[i + 1]);
        }
        lemma_spec_for_launchable(rest, id);
    }
}

proof fn lemma_spec_for_ordered(specs: Seq<(Seq<char>, crate::popup_contract::types::SpecView)>, i: int)
    requires
        0 <= i < specs.len(),
        forall|a: int, b: int|
            0 <= a < b < specs.len() ==> text_less(#[trigger] specs[a].0, #[trigger] specs[b].0),
    ensures
        spec_for(specs, specs[i].0) == Some(specs[i].1),
    decreases i,
{
    if i > 0 {
        let rest = specs.drop_first();
        lemma_text_less_irreflexive(specs[i].0);
        assert(text_less(specs[0].0, specs[i].0));
        assert forall|a: int, b: int| 0 <= a < b < rest.len() implies text_less(
            #[trigger] rest[a].0,
            #[trigger] rest[b].0,
        ) by {
            assert(rest[a] == specs[a + 1] && rest[b] == specs[b + 1]);
        }
        assert(rest[i - 1] == specs[i]);
        lemma_spec_for_ordered(rest, i - 1);
    }
}

proof fn lemma_pipe_names()
    ensures
        action_named("transient_popup"@) is None,
{
    reveal_strlit("transient_popup");
    reveal_strlit("toggle");
    reveal_strlit("open");
    reveal_strlit("focus");
    reveal_strlit("close");
    assert("transient_popup"@ != "toggle"@) by {
        assert("transient_popup"@.len() != "toggle"@.len());
    }
    assert("transient_popup"@ != "open"@) by {
        assert("transient_popup"@.len() != "open"@.len());
    }
    assert("transient_popup"@ != "focus"@) by {
        assert("transient_popup"@.len() != "focus"@.len());
    }
    assert("transient_popup"@ != "close"@) by {
        assert("transient_popup"@.len() != "close"@.len());
    }
}

/// Every request that a pipe message is answered with, raw or configured,
/// carries a popup spec that can be launched.
pub proof fn law_accepted_request_is_launchable(
    c: ConfiguredView,
    pipe_name: Seq<char>,
    payload: Option<Seq<char>>,
    parsed: Option<crate::json_source::JsonValue>,
)
    requires
        configured_wf(c),
    ensures
        message_model(c, pipe_name, payload, parsed) matches Ok(r) ==> spec_is_launchable(r.spec),
{
    assert forall|i: int| 0 <= i < c.specs.len() implies spec_is_launchable(#[trigger] c.specs[i].1) by {
        let e = c.specs[i];
    }
    lemma_spec_for_launchable(c.specs, "default"@);
    match crate::popup_contract::configured::configured_target(c, payload, parsed) {
        Ok((id, cwd)) => lemma_spec_for_launchable(c.specs, id),
        Err(_) => {},
    }
}

/// A message to `toggle`, `open`, `focus` or `close` whose payload is the id of
/// a valid popup (around whitespace aside) asks for that popup, with no
/// arguments and no cwd of its own.
pub proof fn law_named_popup_is_requested(
    c: ConfiguredView,
    pipe_name: Seq<char>,
    payload: Seq<char>,
    parsed: Option<crate::json_source::JsonValue>,
    i: int,
)
    requires
        configured_wf(c),
        0 <= i < c.specs.len(),
        action_named(pipe_name) is Some,
        trim(payload) == c.specs[i].0,
        c.specs[i].0[0] != '{',
    ensures
        message_model(c, pipe_name, Some(payload), parsed) == Ok::<RequestView, MessageErrorView>(
            RequestView {
                action: action_named(pipe_name)->0,
                spec: c.specs[i].1,
                args: Seq::empty(),
                cwd: None,
            },
        ),
{
    lemma_pipe_names();
    let id = c.specs[i].0;
    assert(spec_is_launchable(c.specs[i].1) && !is_blank(id));
    assert(!is_blank(payload));
    lemma_spec_for_ordered(c.specs, i);
    if c.invalid_ids.contains(id) {
        let j = choose|j: int| 0 <= j < c.invalid_ids.len() && c.invalid_ids[j] == id;
        assert(c.specs[i].0 != c.invalid_ids[j]);
    }
}

/// A message to `toggle`, `open`, `focus` or `close` without a payload asks for
/// the popup `default` when it is valid, and for the only popup when exactly one
/// is configured.
pub proof fn law_default_popup_needs_no_payload(
    c: ConfiguredView,
    pipe_name: Seq<char>,
    parsed: Option<crate::json_source::JsonValue>,
    i: int,
)
    requires
        configured_wf(c),
        0 <= i < c.specs.len(),
        action_named(pipe_name) is Some,
        c.specs[i].0 == "default"@ || (c.specs.len() == 1 && c.invalid_ids.len() == 0),
    ensures
        message_model(c, pipe_name, None, parsed) == Ok::<RequestView, MessageErrorView>(
            RequestView {
                action: action_named(pipe_name)->0,
                spec: c.specs[i].1,
                args: Seq::empty(),
                cwd: None,
            },
        ),
{
    lemma_pipe_names();
    lemma_spec_for_ordered(c.specs, i);
    if crate::popup_contract::configured::has_spec(c.specs, "default"@) {
        let k = choose|k: int| 0 <= k < c.specs.len() && (#[trigger] c.specs[k]).0 == "default"@;
        lemma_spec_for_ordered(c.specs, k);
        if k != i {
            if k < i {
                assert(text_less(c.specs[k].0, c.specs[i].0));
            } else {
                assert(text_less(c.specs[i].0, c.specs[k].0));
            }
            lemma_text_less_irreflexive(c.specs[k].0);
        }
        if c.invalid_ids.contains("default"@) {
            let j = choose|j: int| 0 <= j < c.invalid_ids.len() && c.invalid_ids[j] == "default"@;
            assert(c.specs[k].0 != c.invalid_ids[j]);
        }
    } else {
        assert(c.specs[i].0 != "default"@);
        if c.invalid_ids.contains("default"@) {
            let j = choose|j: int| 0 <= j < c.invalid_ids.len() && c.invalid_ids[j] == "default"@;
            assert(c.invalid_ids[j] == "default"@);
        }
        assert(i == 0);
    }
}

/// A message to `toggle`, `open`, `focus` or `close` whose payload is the id of
/// an invalid popup is refused as naming an invalid popup.
pub proof fn law_invalid_popup_is_refused(
    c: ConfiguredView,
    pipe_name: Seq<char>,
    payload: Seq<char>,
    parsed: Option<crate::json_source::JsonValue>,
    j: int,
)
    requires
        0 <= j < c.invalid_ids.len(),
        action_named(pipe_name) is Some,
        trim(payload) == c.invalid_ids[j],
        c.invalid_ids[j].len() > 0,
        c.invalid_ids[j][0] != '{',
    ensures
        message_model(c, pipe_name, Some(payload), parsed) == Err::<RequestView, MessageErrorView>(
            MessageErrorView::InvalidConfiguredSpec(c.invalid_ids[j]),
        ),
{
    lemma_pipe_names();
    assert(c.invalid_ids.contains(c.invalid_ids[j]));
}

/// A request whose spec can be launched has a launch plan whenever the
/// focused pane's cwd is known: the spec's command path, its other words and
/// then the request's arguments, a non-empty cwd, and the spec's geometry.
pub proof fn law_launchable_request_has_launch_plan(r: RequestView, fallback: Seq<char>)
    requires
        spec_is_launchable(r.spec),
        !is_blank(fallback),
    ensures
        request_launch_plan(r, fallback) matches Some(plan) && plan.command_path == trim(
            r.spec.command[0],
        ) && plan.args == r.spec.command.skip(1) + r.args && plan.cwd.len() > 0 && geometry_of(
            r.spec,
        ) == Some(plan.geometry),
{
    assert(!is_blank(r.spec.command[0]));
}

/// A hook that can be run has a plan whenever the fallback cwd is known: its
/// own command and a non-empty cwd.
pub proof fn law_launchable_hook_has_plan(h: HookView, fallback: Seq<char>)
    requires
        hook_is_launchable(h),
        !is_blank(fallback),
    ensures
        hook_plan_of(h, fallback) matches Some(plan) && plan.command == h.command && plan.cwd.len()
            > 0,
{
}

proof fn lemma_chosen_exists<'a, Id>(
    panes: Seq<TransientPaneSnapshot<'a, Id>>,
    title: Seq<char>,
    marker: Option<Seq<char>>,
    visible_only: bool,
    n: int,
)
    requires
        0 <= n <= panes.len(),
        exists|k: int| 0 <= k < n && is_candidate(#[trigger] panes[k], title, marker, visible_only),
    ensures
        exists|j: int| is_chosen_within(panes, title, marker, visible_only, n, j),
    decreases n,
{
    let m = n - 1;
    if exists|k: int| 0 <= k < m && is_candidate(#[trigger] panes[k], title, marker, visible_only) {
        lemma_chosen_exists(panes, title, marker, visible_only, m);
        let j = choose|j: int| is_chosen_within(panes, title, marker, visible_only, m, j);
        if is_candidate(panes[m], title, marker, visible_only) && pane_rank(panes[m], visible_only)
            >= pane_rank(panes[j], visible_only) {
            assert(is_chosen_within(panes, title, marker, visible_only, n, m));
        } else {
            assert(is_chosen_within(panes, title, marker, visible_only, n, j));
        }
    } else {
        assert(is_candidate(panes[m], title, marker, visible_only));
        assert(is_chosen_within(panes, title, marker, visible_only, n, m));
    }
}

proof fn lemma_chosen_is_candidate<'a, Id>(
    panes: Seq<TransientPaneSnapshot<'a, Id>>,
    title: Seq<char>,
    marker: Option<Seq<char>>,
    visible_only: bool,
)
    ensures
        chosen_pane(panes, title, marker, visible_only) matches Some(p) ==> exists|k: int|
            0 <= k < panes.len() && is_candidate(#[trigger] panes[k], title, marker, visible_only)
                && panes[k].pane_id == p.pane_id && panes[k].is_focused == p.is_focused,
        (chosen_pane(panes, title, marker, visible_only) is None) <==> forall|k: int|
            0 <= k < panes.len() ==> !is_candidate(#[trigger] panes[k], title, marker, visible_only),
{
    if exists|k: int| 0 <= k < panes.len() && is_candidate(#[trigger] panes[k], title, marker, visible_only) {
        lemma_chosen_exists(panes, title, marker, visible_only, panes.len() as int);
        let j = choose|j: int| is_chosen_within(panes, title, marker, visible_only, panes.len() as int, j);
        assert(is_candidate(panes[j], title, marker, visible_only));
    }
}

/// A toggle opens a new pane exactly when no floating or suppressed pane
/// carries the popup's identity; otherwise it acts on such a pane, and it
/// closes or hides that pane only when the pane is focused and the tab shows
/// its floating panes.
pub proof fn law_toggle_acts_on_the_popup_pane<'a, Id>(
    panes: Seq<TransientPaneSnapshot<'a, Id>>,
    title: Seq<char>,
    marker: Option<Seq<char>>,
    floating_panes_visible: bool,
)
    ensures
        ({
            let plan = toggle_plan(chosen_pane(panes, title, marker, false), floating_panes_visible);
            &&& (plan is Open) <==> forall|k: int|
                0 <= k < panes.len() ==> !is_candidate(#[trigger] panes[k], title, marker, false)
            &&& plan matches TransientTogglePlan::Focus(id) ==> exists|k: int|
                0 <= k < panes.len() && is_candidate(#[trigger] panes[k], title, marker, false)
                    && panes[k].pane_id == id
            &&& plan matches TransientTogglePlan::ToggleFocused(id) ==> floating_panes_visible
                && exists|k: int|
                0 <= k < panes.len() && is_candidate(#[trigger] panes[k], title, marker, false)
                    && panes[k].pane_id == id && panes[k].is_focused
        }),
{
    lemma_chosen_is_candidate(panes, title, marker, false);
}

/// The step taken for a request shows, closes or hides only a pane that
/// carries the popup's identity; an `open` always opens, a `focus` only shows,
/// and a `close` never merely hides, so a popup's own pane is closed (and its
/// `on_close` hook run) only for a `toggle` or a `close`; a pane is hidden only by a toggle of a popup that asks to hide,
/// while the tab shows its floating panes; and the popup is reported missing
/// exactly when a `focus` or `close` finds no pane of it.
pub proof fn law_popup_step_acts_on_the_popup_pane<'a>(
    r: RequestView,
    panes: Seq<TransientPaneSnapshot<'a, u32>>,
    floating_panes_visible: bool,
)
    ensures
        ({
            let title = r.spec.pane_title;
            let marker = crate::popup_contract::launch::nonblank_trimmed(r.spec.command_marker);
            let step = popup_step_of(r, panes, floating_panes_visible);
            &&& displacement_of(step) matches Some(Some(id)) ==> exists|k: int|
                0 <= k < panes.len() && is_candidate(#[trigger] panes[k], title, marker, false)
                    && panes[k].pane_id == id
            &&& r.action == TransientPopupAction::Open ==> step == PopupStep::Open
            &&& r.action == TransientPopupAction::Close ==> (step is Close || step is Missing)
            &&& r.action == TransientPopupAction::Focus ==> (step is Show || step is Missing)
            &&& step is Close ==> runs_on_close(r.action)
            &&& step is Hide ==> r.action == TransientPopupAction::Toggle
                && r.spec.toggle_close_behavior == TransientPopupToggleCloseBehavior::Hide
                && floating_panes_visible
            &&& (step is Missing) <==> ((r.action == TransientPopupAction::Focus || r.action
                == TransientPopupAction::Close) && forall|k: int|
                0 <= k < panes.len() ==> !is_candidate(#[trigger] panes[k], title, marker, false))
        }),
{
    lemma_chosen_is_candidate(
        panes,
        r.spec.pane_title,
        crate::popup_contract::launch::nonblank_trimmed(r.spec.command_marker),
        false,
    );
}

/// The panes displaced for another popup never include the current pane,
/// never list a pane twice, and are each a floating, unsuppressed pane of the tab.
pub proof fn law_displaced_panes_are_other_visible_panes<'a, Id: PartialEq>(
    specs: Seq<(Seq<char>, crate::popup_contract::types::SpecView)>,
    panes: Seq<TransientPaneSnapshot<'a, Id>>,
    current_spec_id: Seq<char>,
    current_pane_id: Option<Id>,
)
    ensures
        ({
            let cands = displaced_panes(specs, panes, current_spec_id, current_pane_id);
            &&& forall|k: int|
                0 <= k < cands.len() ==> !(current_pane_id matches Some(c) && c.eq_spec(
                    &(#[trigger] cands[k]).pane_id,
                ))
            &&& forall|i: int, j: int|
                0 <= i < j < cands.len() ==> !(#[trigger] cands[i]).pane_id.eq_spec(
                    &(#[trigger] cands[j]).pane_id,
                )
            &&& forall|k: int|
                0 <= k < cands.len() ==> exists|p: int|
                    0 <= p < panes.len() && (#[trigger] panes[p]).pane_id == (
                    #[trigger] cands[k]).pane_id && panes[p].is_floating && !panes[p].is_suppressed
        }),
    decreases specs.len(),
{
    if specs.len() > 0 {
        law_displaced_panes_are_other_visible_panes(specs.drop_last(), panes, current_spec_id, current_pane_id);
        let before = displaced_panes(specs.drop_last(), panes, current_spec_id, current_pane_id);
        let entry = specs.last();
        let cands = displaced_panes(specs, panes, current_spec_id, current_pane_id);
        assert(cands == displacement_step(before, entry, panes, current_spec_id, current_pane_id));
        let chosen = chosen_pane(
            panes,
            entry.1.pane_title,
            crate::popup_contract::launch::nonblank_trimmed(entry.1.command_marker),
            true,
        );
        lemma_chosen_is_candidate(
            panes,
            entry.1.pane_title,
            crate::popup_contract::launch::nonblank_trimmed(entry.1.command_marker),
            true,
        );
        if cands.len() > before.len() {
            let pane = chosen->0;
            assert(!listed_pane(before, pane.pane_id));
            assert forall|k: int| 0 <= k < cands.len() implies exists|p: int|
                0 <= p < panes.len() && (#[trigger] panes[p]).pane_id == (
                #[trigger] cands[k]).pane_id && panes[p].is_floating && !panes[p].is_suppressed by {
                if k < before.len() {
                    assert(cands[k] == before[k]);
                } else {
                    assert(cands[k].pane_id == pane.pane_id);
                }
            }
            assert forall|i: int, j: int| 0 <= i < j < cands.len() implies !(
            #[trigger] cands[i]).pane_id.eq_spec(&(#[trigger] cands[j]).pane_id) by {
                assert(cands[i] == before[i]);
                if j < before.len() {
                    assert(cands[j] == before[j]);
                } else {
                    assert(cands[j].pane_id == pane.pane_id);
                }
            }
            assert forall|k: int| 0 <= k < cands.len() implies !(current_pane_id matches Some(c)
                && c.eq_spec(&(#[trigger] cands[k]).pane_id)) by {
                if k < before.len() {
                    assert(cands[k] == before[k]);
                }
            }
        }
    }
}

/// Whether a popup is restarted for its cwd depends on its launch cwd once that
/// is known, never on the cwd of its process; a popup launched in the effective
/// cwd (surrounding whitespace and trailing slashes aside) is kept; and a popup
/// whose cwd need not match is never restarted.
pub proof fn law_restart_follows_launch_cwd(
    cwd_must_match: bool,
    launch: Seq<char>,
    process_a: Option<Seq<char>>,
    process_b: Option<Seq<char>>,
    effective: Seq<char>,
)
    ensures
        restart_for_cwd(cwd_must_match, Some(launch), process_a, effective) == restart_for_cwd(
            cwd_must_match,
            Some(launch),
            process_b,
            effective,
        ),
        trim_end_char(trim(launch), '/') == trim_end_char(trim(effective), '/') ==> !restart_for_cwd(
            cwd_must_match,
            Some(launch),
            process_a,
            effective,
        ),
        !cwd_must_match ==> !restart_for_cwd(cwd_must_match, Some(launch), process_a, effective),
{
}

/// A capped margin is never more than the margin asked for, and two of them
/// leave at least one cell of a non-empty span.
pub proof fn law_bounded_margins_leave_a_cell(margin: usize, size: usize)
    requires
        size >= 1,
    ensures
        crate::bounded_margin_of(margin, size) <= margin,
        2 * crate::bounded_margin_of(margin, size) + 1 <= size,
{
}

/// Whether a displaced pane is that of this configured popup: the popup is not
/// the current one, the pane is a floating, unsuppressed pane carrying the
/// popup's identity, and the candidate carries the popup's hooks and close
/// behaviour.
pub open spec fn displaced_from<'a, Id>(
    c: CandidateView<Id>,
    entry: (Seq<char>, crate::popup_contract::types::SpecView),
    panes: Seq<TransientPaneSnapshot<'a, Id>>,
    current_spec_id: Seq<char>,
) -> bool {
    &&& entry.0 != current_spec_id
    &&& c.on_close == entry.1.on_close
    &&& c.on_hide == entry.1.on_hide
    &&& c.toggle_close_behavior == entry.1.toggle_close_behavior
    &&& exists|p: int|
        0 <= p < panes.len() && (#[trigger] panes[p]).pane_id == c.pane_id && is_candidate(
            panes[p],
            entry.1.pane_title,
            crate::popup_contract::launch::nonblank_trimmed(entry.1.command_marker),
            true,
        )
}

/// Each displaced pane is the visible pane of another configured popup, and it
/// carries that popup's `on_close` and `on_hide` hooks and its close behaviour.
pub proof fn law_displaced_panes_carry_their_popup<'a, Id: PartialEq>(
    specs: Seq<(Seq<char>, crate::popup_contract::types::SpecView)>,
    panes: Seq<TransientPaneSnapshot<'a, Id>>,
    current_spec_id: Seq<char>,
    current_pane_id: Option<Id>,
)
    ensures
        ({
            let cands = displaced_panes(specs, panes, current_spec_id, current_pane_id);
            forall|k: int|
                0 <= k < cands.len() ==> exists|i: int|
                    0 <= i < specs.len() && displaced_from(
                        #[trigger] cands[k],
                        #[trigger] specs[i],
                        panes,
                        current_spec_id,
                    )
        }),
    decreases specs.len(),
{
    if specs.len() > 0 {
        let prev = specs.drop_last();
        law_displaced_panes_carry_their_popup(prev, panes, current_spec_id, current_pane_id);
        let before = displaced_panes(prev, panes, current_spec_id, current_pane_id);
        let entry = specs.last();
        let cands = displaced_panes(specs, panes, current_spec_id, current_pane_id);
        assert(cands == displacement_step(before, entry, panes, current_spec_id, current_pane_id));
        let marker = crate::popup_contract::launch::nonblank_trimmed(entry.1.command_marker);
        lemma_chosen_is_candidate(panes, entry.1.pane_title, marker, true);
        assert forall|k: int| 0 <= k < cands.len() implies exists|i: int|
            0 <= i < specs.len() && displaced_from(
                #[trigger] cands[k],
                #[trigger] specs[i],
                panes,
                current_spec_id,
            ) by {
            if k < before.len() {
                assert(cands[k] == before[k]);
                let i = choose|i: int|
                    0 <= i < prev.len() && displaced_from(
                        #[trigger] before[k],
                        #[trigger] prev[i],
                        panes,
                        current_spec_id,
                    );
                assert(prev[i] == specs[i]);
            } else {
                let pane = chosen_pane(panes, entry.1.pane_title, marker, true)->0;
                assert(cands[k].pane_id == pane.pane_id);
                assert(specs[specs.len() - 1] == entry);
                assert(displaced_from(cands[k], specs[specs.len() - 1], panes, current_spec_id));
            }
        }
    }
}

/// A live terminal pane carries an identity exactly when its trimmed title is
/// the identity's pane title, or its command contains the identity's command
/// marker somewhere, at any position.
pub proof fn law_pane_matches_title_or_marker_anywhere<'a, Id>(
    pane: TransientPaneSnapshot<'a, Id>,
    title: Seq<char>,
    marker: Option<Seq<char>>,
)
    ensures
        crate::popup_contract::selection::pane_matches(pane, title, marker) <==> (!pane.is_plugin
            && !pane.exited && (trim(pane.title@) == title || (marker matches Some(m)
            && pane.terminal_command matches Some(command) && exists|i: int|
            0 <= i && i + m.len() <= command@.len() && #[trigger] command@.subrange(i, i + m.len())
                == m))),
{
}

/// With the cwd required to match, a known popup cwd and a known effective cwd,
/// the popup is restarted exactly when the two differ once surrounding
/// whitespace and trailing slashes are set aside.
pub proof fn law_restart_exactly_when_cwds_differ(
    launch: Option<Seq<char>>,
    process: Option<Seq<char>>,
    popup_cwd: Seq<char>,
    effective: Seq<char>,
)
    requires
        launch == Some(popup_cwd) || (launch is None && process == Some(popup_cwd)),
        !is_blank(popup_cwd),
        !is_blank(effective),
    ensures
        restart_for_cwd(true, launch, process, effective) == (trim_end_char(trim(popup_cwd), '/')
            != trim_end_char(trim(effective), '/')),
{
}

/// A `toggle_close_behavior` value reads, once trimmed, as `close` or `hide`;
/// absent or blank it is `close`; anything else is refused.
pub proof fn law_toggle_close_behavior_values(v: Seq<char>)
    ensures
        crate::popup_contract::config::parse_toggle_close_behavior(None) == Some(
            TransientPopupToggleCloseBehavior::Close,
        ),
        trim(v) == "close"@ ==> crate::popup_contract::config::parse_toggle_close_behavior(Some(v))
            == Some(TransientPopupToggleCloseBehavior::Close),
        trim(v) == "hide"@ ==> crate::popup_contract::config::parse_toggle_close_behavior(Some(v))
            == Some(TransientPopupToggleCloseBehavior::Hide),
        is_blank(v) ==> crate::popup_contract::config::parse_toggle_close_behavior(Some(v)) == Some(
            TransientPopupToggleCloseBehavior::Close,
        ),
        !is_blank(v) && trim(v) != "close"@ && trim(v) != "hide"@
            ==> crate::popup_contract::config::parse_toggle_close_behavior(Some(v)) is None,
{
    reveal_strlit("close");
    reveal_strlit("hide");
}

/// Setting `toggle_close_behavior "close"` on a popup changes nothing: it is
/// valid, with the same spec, exactly when it is without the field; setting
/// `"hide"` gives the same spec but for hiding on toggle.
pub proof fn law_close_behavior_is_the_default(
    id: Seq<char>,
    d: DraftView,
    defaults: DefaultsView,
    v: Seq<char>,
)
    ensures
        trim(v) == "close"@ ==> build_spec(id, (DraftView { toggle_close_behavior: Some(v), ..d }), defaults)
            == build_spec(id, (DraftView { toggle_close_behavior: None, ..d }), defaults),
        trim(v) == "hide"@ ==> match build_spec(id, (DraftView { toggle_close_behavior: None, ..d }), defaults) {
            Some(spec) => build_spec(id, (DraftView { toggle_close_behavior: Some(v), ..d }), defaults)
                == Some(
                (crate::popup_contract::types::SpecView {
                    toggle_close_behavior: TransientPopupToggleCloseBehavior::Hide,
                    ..spec
                }),
            ),
            None => build_spec(id, (DraftView { toggle_close_behavior: Some(v), ..d }), defaults) is None,
        },
{
    law_toggle_close_behavior_values(v);
}

/// With a known viewport and a margin on either axis, the popup is placed in
/// cells: at the capped side margin, one row below the capped vertical margin,
/// and as wide and tall as the viewport less twice each capped margin. With no
/// margin, or no viewport, it is sized in percent and left unplaced.
pub proof fn law_margins_place_the_popup_in_cells(
    g: crate::popup_contract::types::TransientPaneGeometry,
    v: crate::PopupViewport,
)
    ensures
        (g.side_margin > 0 || g.vertical_margin > 0) ==> ({
            let side = crate::bounded_margin_of(g.side_margin, v.columns);
            let vertical = crate::bounded_margin_of(g.vertical_margin, v.rows);
            let c = crate::coordinates_of(g, Some(v));
            &&& c.x == Some(crate::text::decimal(side as nat))
            &&& c.y == Some(crate::text::decimal((vertical + 1) as nat))
            &&& c.width == Some(crate::text::decimal((v.columns - 2 * side) as nat))
            &&& c.height == Some(crate::text::decimal((v.rows - 2 * vertical) as nat))
        }),
        (g.side_margin == 0 && g.vertical_margin == 0) ==> crate::coordinates_of(g, Some(v)).x is None
            && crate::coordinates_of(g, Some(v)).y is None && crate::coordinates_of(g, Some(v)).width
            == Some(crate::text::decimal(g.width_percent as nat) + seq!['%']),
        crate::coordinates_of(g, None).x is None,
        crate::coordinates_of(g, None).y is None,
        crate::coordinates_of(g, None).width == Some(crate::text::decimal(g.width_percent as nat) + seq!['%']),
        crate::coordinates_of(g, None).height == Some(crate::text::decimal(g.height_percent as nat) + seq!['%']),
{
}

} // verus!
