//! Floating popups for Zellij: popup specs from the plugin configuration, the
//! requests that pipe messages make of them, which pane a popup is, and how it
//! is launched and placed.
pub mod json_source;
pub mod kdl_source;
pub mod plugin;
pub mod popup_contract;
pub mod text;

use popup_contract::TransientPaneGeometry;
use text::{decimal, format_usize, is_ascii_text};
use vstd::prelude::*;
use zellij_tile::prelude::FloatingPaneCoordinates;

verus! {

/// Width and height of the tab area that floating popups are placed in, in cells.
#[derive(Clone, Copy, Debug, PartialEq, Eq, Structural)]
pub struct PopupViewport {
    pub columns: usize,
    pub rows: usize,
}

/// `a.saturating_sub(b)`.
pub open spec fn saturating_sub(a: int, b: int) -> int {
    if a >= b {
        a - b
    } else {
        0
    }
}

/// A margin no larger than half of what is left of `size` after one cell.
pub open spec fn bounded_margin_of(margin: usize, size: usize) -> usize {
    let half = (saturating_sub(size as int, 1) / 2) as usize;
    if margin <= half {
        margin
    } else {
        half
    }
}

/// Caps a margin so that at least one cell stays between two opposite margins.
pub fn bounded_margin(margin: usize, size: usize) -> (r: usize)
    ensures
        r == bounded_margin_of(margin, size),
{
    let half = size.saturating_sub(1) / 2;
    if margin <= half {
        margin
    } else {
        half
    }
}

/// The four strings that place a floating popup: column and row of its corner,
/// and its width and height, each in cells or as `N%`.
#[derive(Clone, Debug, PartialEq, Eq)]
pub struct FloatingCoordinateValues {
    pub x: Option<String>,
    pub y: Option<String>,
    pub width: Option<String>,
    pub height: Option<String>,
}

#[verifier::ext_equal]
pub struct CoordinateView {
    pub x: Option<Seq<char>>,
    pub y: Option<Seq<char>>,
    pub width: Option<Seq<char>>,
    pub height: Option<Seq<char>>,
}

impl View for FloatingCoordinateValues {
    type V = CoordinateView;

    open spec fn view(&self) -> CoordinateView {
        CoordinateView {
            x: popup_contract::opt_text(self.x),
            y: popup_contract::opt_text(self.y),
            width: popup_contract::opt_text(self.width),
            height: popup_contract::opt_text(self.height),
        }
    }
}

/// Where a popup goes. With a margin and a known viewport, in fixed cells: the
/// margins, capped so that the pane keeps at least one cell, around a pane that
/// fills the rest (the row is one lower, below the tab bar). Otherwise in
/// percent, left for Zellij to centre.
pub open spec fn coordinates_of(geometry: TransientPaneGeometry, viewport: Option<PopupViewport>) -> CoordinateView {
    match viewport {
        Some(v) => if geometry.side_margin > 0 || geometry.vertical_margin > 0 {
            let side = bounded_margin_of(geometry.side_margin, v.columns);
            let vertical = bounded_margin_of(geometry.vertical_margin, v.rows);
            CoordinateView {
                x: Some(decimal(side as nat)),
                y: Some(decimal((vertical + 1) as nat)),
                width: Some(decimal(saturating_sub(v.columns as int, side * 2) as nat)),
                height: Some(decimal(saturating_sub(v.rows as int, vertical * 2) as nat)),
            }
        } else {
            percent_coordinates(geometry)
        },
        None => percent_coordinates(geometry),
    }
}

/// A popup sized in percent of the tab, with no position.
pub open spec fn percent_coordinates(geometry: TransientPaneGeometry) -> CoordinateView {
    CoordinateView {
        x: None,
        y: None,
        width: Some(decimal(geometry.width_percent as nat) + seq!['%']),
        height: Some(decimal(geometry.height_percent as nat) + seq!['%']),
    }
}

/// `format!("{}%", n)`.
fn percent_text(n: usize) -> (r: String)
    ensures
        r@ == decimal(n as nat) + seq!['%'],
{
    let mut r = format_usize(n);
    r.append("%");
    proof {
        reveal_strlit("%");
    }
    r
}

/// The strings that place a popup of this geometry in this viewport.
pub fn floating_coordinate_values(geometry: TransientPaneGeometry, viewport: Option<PopupViewport>) -> (r: FloatingCoordinateValues)
    ensures
        r@ == coordinates_of(geometry, viewport),
{
    match viewport {
        Some(v) => if geometry.side_margin > 0 || geometry.vertical_margin > 0 {
            let side = bounded_margin(geometry.side_margin, v.columns);
            let vertical = bounded_margin(geometry.vertical_margin, v.rows);
            return FloatingCoordinateValues {
                x: Some(format_usize(side)),
                y: Some(format_usize(vertical + 1)),
                width: Some(format_usize(v.columns.saturating_sub(side * 2))),
                height: Some(format_usize(v.rows.saturating_sub(vertical * 2))),
            };
        },
        None => {},
    }
    FloatingCoordinateValues {
        x: None,
        y: None,
        width: Some(percent_text(geometry.width_percent)),
        height: Some(percent_text(geometry.height_percent)),
    }
}

#[verifier::external_type_specification]
#[verifier::external_body]
pub struct ExFloatingPaneCoordinates(FloatingPaneCoordinates);

/// What `FloatingPaneCoordinates::new` makes of four coordinate strings, with
/// no pinning or border setting: each string read as `N%` (N at most 100) or as
/// `N` cells, a width or height of zero dropped, and no coordinates at all when
/// nothing is left. The call depends on its arguments alone.
pub uninterp spec fn zellij_floating_coordinates(values: CoordinateView) -> Option<FloatingPaneCoordinates>;

/// Whether each of the four coordinate strings that is there is ASCII.
pub open spec fn ascii_coordinates(v: CoordinateView) -> bool {
    &&& (v.x matches Some(t) ==> is_ascii_text(t))
    &&& (v.y matches Some(t) ==> is_ascii_text(t))
    &&& (v.width matches Some(t) ==> is_ascii_text(t))
    &&& (v.height matches Some(t) ==> is_ascii_text(t))
}

/// Calls `FloatingPaneCoordinates::new` with no pinning or border setting; its
/// result is `zellij_floating_coordinates` of the four strings. Nothing more is
/// stated of it: the type is opaque here. The strings must be ASCII: a string
/// ending in `%` is cut at its character count taken as a byte index, which
/// panics inside a multi-byte character.
#[verifier::external_body]
fn new_floating_pane_coordinates(values: FloatingCoordinateValues) -> (r: Option<FloatingPaneCoordinates>)
    requires
        ascii_coordinates(values@),
    ensures
        r == zellij_floating_coordinates(values@),
{
    FloatingPaneCoordinates::new(values.x, values.y, values.width, values.height, None, None)
}

/// Zellij coordinates for a popup of this geometry in this viewport: those of
/// `floating_coordinate_values`, as `FloatingPaneCoordinates::new` reads them.
pub fn floating_coordinates(geometry: TransientPaneGeometry, viewport: Option<PopupViewport>) -> (r: Option<FloatingPaneCoordinates>)
    ensures
        r == zellij_floating_coordinates(coordinates_of(geometry, viewport)),
{
    let values = floating_coordinate_values(geometry, viewport);
    proof {
        lemma_coordinates_ascii(geometry, viewport);
    }
    new_floating_pane_coordinates(values)
}

/// The strings that place a popup are ASCII.
proof fn lemma_coordinates_ascii(geometry: TransientPaneGeometry, viewport: Option<PopupViewport>)
    ensures
        ascii_coordinates(coordinates_of(geometry, viewport)),
{
    text::lemma_decimal_ascii(geometry.width_percent as nat);
    text::lemma_decimal_ascii(geometry.height_percent as nat);
    match viewport {
        Some(v) => {
            let side = bounded_margin_of(geometry.side_margin, v.columns);
            let vertical = bounded_margin_of(geometry.vertical_margin, v.rows);
            text::lemma_decimal_ascii(side as nat);
            text::lemma_decimal_ascii((vertical + 1) as nat);
            text::lemma_decimal_ascii(saturating_sub(v.columns as int, side * 2) as nat);
            text::lemma_decimal_ascii(saturating_sub(v.rows as int, vertical * 2) as nat);
        },
        None => {},
    }
}

} // verus!
