//! Finding a popup's pane among the panes of a tab, and deciding what a toggle does.
use vstd::prelude::*;

use crate::popup_contract::types::{
    opt_str, TransientPaneIdentityView, TransientPaneSnapshot, TransientPaneState,
    TransientTogglePlan,
};
use crate::text::{contains_seq, contains_text, same_text, trim, trim_str};

verus! {

/// Whether a pane is a live terminal pane that carries the identity: its trimmed
/// title is the identity's pane title, or its command contains the identity's
/// command marker.
pub open spec fn pane_matches<Id>(
    pane: TransientPaneSnapshot<'_, Id>,
    title: Seq<char>,
    command_marker: Option<Seq<char>>,
) -> bool {
    &&& !pane.is_plugin
    &&& !pane.exited
    &&& {
        ||| trim(pane.title@) == title
        ||| (command_marker matches Some(marker) && opt_str(
            pane.terminal_command,
        ) matches Some(command) && contains_seq(command, marker))
    }
}

/// Whether a pane can be chosen for the identity: a matching pane that is
/// floating or suppressed, or, for `visible_only`, floating and not suppressed.
pub open spec fn is_candidate<Id>(
    pane: TransientPaneSnapshot<'_, Id>,
    title: Seq<char>,
    command_marker: Option<Seq<char>>,
    visible_only: bool,
) -> bool {
    &&& pane_matches(pane, title, command_marker)
    &&& if visible_only {
        pane.is_floating && !pane.is_suppressed
    } else {
        pane.is_floating || pane.is_suppressed
    }
}

/// How strongly a candidate is preferred: focused first, then (unless
/// `visible_only`) not suppressed.
pub open spec fn pane_rank<Id>(pane: TransientPaneSnapshot<'_, Id>, visible_only: bool) -> int {
    if visible_only {
        if pane.is_focused {
            1
        } else {
            0
        }
    } else {
        (if pane.is_focused {
            2int
        } else {
            0int
        }) + (if !pane.is_suppressed {
            1int
        } else {
            0int
        })
    }
}

/// Whether `j` is the chosen candidate among the first `n` panes: a candidate
/// of the highest rank, and the last one of that rank.
pub open spec fn is_chosen_within<Id>(
    panes: Seq<TransientPaneSnapshot<'_, Id>>,
    title: Seq<char>,
    command_marker: Option<Seq<char>>,
    visible_only: bool,
    n: int,
    j: int,
) -> bool {
    &&& 0 <= j < n <= panes.len()
    &&& is_candidate(panes[j], title, command_marker, visible_only)
    &&& forall|i: int|
        0 <= i < n && is_candidate(#[trigger] panes[i], title, command_marker, visible_only) ==> pane_rank(
            panes[i],
            visible_only,
        ) <= pane_rank(panes[j], visible_only)
    &&& forall|i: int|
        j < i < n && is_candidate(#[trigger] panes[i], title, command_marker, visible_only) ==> pane_rank(
            panes[i],
            visible_only,
        ) < pane_rank(panes[j], visible_only)
}

/// The pane chosen for the identity, if any pane is a candidate.
pub open spec fn chosen_pane<'a, Id>(
    panes: Seq<TransientPaneSnapshot<'a, Id>>,
    title: Seq<char>,
    command_marker: Option<Seq<char>>,
    visible_only: bool,
) -> Option<TransientPaneState<Id>> {
    if exists|j: int| is_chosen_within(panes, title, command_marker, visible_only, panes.len() as int, j) {
        let j = choose|j: int| is_chosen_within(panes, title, command_marker, visible_only, panes.len() as int, j);
        Some(TransientPaneState { pane_id: panes[j].pane_id, is_focused: panes[j].is_focused })
    } else {
        None
    }
}

/// What a toggle does with the chosen pane: close or hide it when it is focused
/// and floating panes are shown, focus it otherwise, and open a new pane when
/// there is none.
pub open spec fn toggle_plan<Id>(chosen: Option<TransientPaneState<Id>>, floating_panes_visible: bool) -> TransientTogglePlan<Id> {
    match chosen {
        Some(pane) => if pane.is_focused && floating_panes_visible {
            TransientTogglePlan::ToggleFocused(pane.pane_id)
        } else {
            TransientTogglePlan::Focus(pane.pane_id)
        },
        None => TransientTogglePlan::Open,
    }
}

/// At most one pane is chosen.
pub proof fn lemma_chosen_unique<Id>(
    panes: Seq<TransientPaneSnapshot<'_, Id>>,
    title: Seq<char>,
    command_marker: Option<Seq<char>>,
    visible_only: bool,
    n: int,
    j1: int,
    j2: int,
)
    requires
        is_chosen_within(panes, title, command_marker, visible_only, n, j1),
        is_chosen_within(panes, title, command_marker, visible_only, n, j2),
    ensures
        j1 == j2,
{
    if j1 < j2 {
        assert(is_candidate(panes[j2], title, command_marker, visible_only));
        assert(is_candidate(panes[j1], title, command_marker, visible_only));
    } else if j2 < j1 {
        assert(is_candidate(panes[j2], title, command_marker, visible_only));
        assert(is_candidate(panes[j1], title, command_marker, visible_only));
    }
}

/// Whether a pane matches an identity.
pub fn pane_matches_identity<Id>(
    pane: &TransientPaneSnapshot<'_, Id>,
    identity: TransientPaneIdentityView<'_>,
) -> (r: bool)
    ensures
        r == pane_matches(*pane, identity.pane_title@, opt_str(identity.command_marker)),
{
    if pane.is_plugin || pane.exited {
        return false;
    }
    if same_text(trim_str(pane.title), identity.pane_title) {
        return true;
    }
    match identity.command_marker {
        Some(marker) => match pane.terminal_command {
            Some(command) => contains_text(command, marker),
            None => false,
        },
        None => false,
    }
}

/// The chosen pane among `panes`, for either kind of choice.
fn choose_pane<Id: Copy>(
    panes: &[TransientPaneSnapshot<'_, Id>],
    identity: TransientPaneIdentityView<'_>,
    visible_only: bool,
) -> (r: Option<TransientPaneState<Id>>)
    ensures
        r == chosen_pane(panes@, identity.pane_title@, opt_str(identity.command_marker), visible_only),
{
    let ghost title = identity.pane_title@;
    let ghost marker = opt_str(identity.command_marker);
    let mut best: Option<usize> = None;
    let mut best_rank: u8 = 0;
    for i in 0..panes.len()
        invariant
            match best {
                Some(j) => is_chosen_within(panes@, title, marker, visible_only, i as int, j as int)
                    && best_rank == pane_rank(panes@[j as int], visible_only),
                None => forall|k: int|
                    0 <= k < i ==> !is_candidate(#[trigger] panes@[k], title, marker, visible_only),
            },
            title == identity.pane_title@,
            marker == opt_str(identity.command_marker),
    {
        let pane = &panes[i];
        let candidate = pane_matches_identity(pane, identity) && if visible_only {
            pane.is_floating && !pane.is_suppressed
        } else {
            pane.is_floating || pane.is_suppressed
        };
        if candidate {
            let rank: u8 = if visible_only {
                if pane.is_focused {
                    1
                } else {
                    0
                }
            } else {
                (if pane.is_focused {
                    2
                } else {
                    0
                }) + (if !pane.is_suppressed {
                    1
                } else {
                    0
                })
            };
            assert(rank == pane_rank(panes@[i as int], visible_only));
            let take = match best {
                Some(_) => rank >= best_rank,
                None => true,
            };
            if take {
                best = Some(i);
                best_rank = rank;
            }
        }
    }
    match best {
        Some(j) => {
            proof {
                assert(is_chosen_within(panes@, title, marker, visible_only, panes@.len() as int, j as int));
                let k = choose|k: int|
                    is_chosen_within(panes@, title, marker, visible_only, panes@.len() as int, k);
                lemma_chosen_unique(panes@, title, marker, visible_only, panes@.len() as int, j as int, k);
            }
            Some(TransientPaneState { pane_id: panes[j].pane_id, is_focused: panes[j].is_focused })
        },
        None => {
            assert(forall|j: int|
                !is_chosen_within(panes@, title, marker, visible_only, panes@.len() as int, j));
            None
        },
    }
}

/// The pane of a popup with this identity: among the matching floating or
/// suppressed panes, a focused one before others and a visible one before a
/// suppressed one, the last such when several tie.
pub fn select_transient_pane_by_identity<Id: Copy>(
    panes: &[TransientPaneSnapshot<'_, Id>],
    identity: TransientPaneIdentityView<'_>,
) -> (r: Option<TransientPaneState<Id>>)
    ensures
        r == chosen_pane(panes@, identity.pane_title@, opt_str(identity.command_marker), false),
{
    choose_pane(panes, identity, false)
}

/// The visible pane of a popup with this identity: among the matching floating,
/// unsuppressed panes, a focused one before others, the last such when several tie.
pub fn select_visible_transient_pane_by_identity<Id: Copy>(
    panes: &[TransientPaneSnapshot<'_, Id>],
    identity: TransientPaneIdentityView<'_>,
) -> (r: Option<TransientPaneState<Id>>)
    ensures
        r == chosen_pane(panes@, identity.pane_title@, opt_str(identity.command_marker), true),
{
    choose_pane(panes, identity, true)
}

/// What toggling the popup with this identity does, given whether the tab shows
/// its floating panes.
pub fn resolve_transient_toggle_plan_by_identity<Id: Copy>(
    panes: &[TransientPaneSnapshot<'_, Id>],
    identity: TransientPaneIdentityView<'_>,
    floating_panes_visible: bool,
) -> (r: TransientTogglePlan<Id>)
    ensures
        r == toggle_plan(chosen_pane(panes@, identity.pane_title@, opt_str(identity.command_marker), false), floating_panes_visible),
{
    match select_transient_pane_by_identity(panes, identity) {
        Some(pane) => if pane.is_focused && floating_panes_visible {
            TransientTogglePlan::ToggleFocused(pane.pane_id)
        } else {
            TransientTogglePlan::Focus(pane.pane_id)
        },
        None => TransientTogglePlan::Open,
    }
}

} // verus!
