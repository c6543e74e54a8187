//! Screen layout: the viewport rectangle that the last render occupied, the
//! mapping from a mouse click to a row index, and the text of each rendered
//! row.

use vstd::prelude::*;
use vstd::string::StringExecFns;
use crate::menu::MenuState;

verus! {

/// The screen-space bounding box of the rendered list, in terminal cells.
/// Overwritten on every frame; consumed only by mouse hit-testing.
#[derive(Clone, Copy, PartialEq, Eq, Structural, Debug)]
pub struct Rect {
    pub x: u16,
    pub y: u16,
    pub width: u16,
    pub height: u16,
}

/// The row index that a click at `(x, y)` addresses: the point must lie
/// within the rectangle, and the top border row consumes one line, so row
/// `y - area.y - 1` is addressed only when `y` is strictly below the top
/// edge. A click outside the rectangle, or on its top border row, addresses
/// no row.
pub open spec fn spec_hit_row(area: Rect, x: u16, y: u16) -> Option<int> {
    if area.x <= x < area.x + area.width && area.y < y < area.y + area.height {
        Some(y - area.y - 1)
    } else {
        None
    }
}

/// Maps a click at `(x, y)` to the row index it addresses, if any.
pub fn hit_row(area: Rect, x: u16, y: u16) -> (r: Option<usize>)
    ensures
        r is Some <==> spec_hit_row(area, x, y) is Some,
        r matches Some(i) ==> spec_hit_row(area, x, y) == Some(i as int),
{
    let xi = x as usize;
    let yi = y as usize;
    let left = area.x as usize;
    let top = area.y as usize;
    if left <= xi && xi < left + area.width as usize && top < yi && yi < top + area.height as usize {
        Some(yi - top - 1)
    } else {
        None
    }
}

/// One rendered row: the cursor row carries the marker `"> "`, every other
/// row the neutral padding `"  "`, followed by the entry's label.
pub fn row_label(label: &String, selected: bool) -> (r: String)
    ensures
        selected ==> r@ == "> "@ + label@,
        !selected ==> r@ == "  "@ + label@,
{
    let mut r = if selected {
        String::from_str("> ")
    } else {
        String::from_str("  ")
    };
    r.append(label.as_str());
    r
}

/// The full list of rendered rows: one per entry, in order, with exactly the
/// cursor row marked.
#[verifier::loop_isolation(false)]
pub fn render_rows(state: &MenuState) -> (rows: Vec<String>)
    requires
        state.wf(),
    ensures
        rows@.len() == state.entries@.len(),
        forall|i: int|
            0 <= i < rows@.len() ==> rows@[i]@ == (if i == state.cursor as int {
                "> "@
            } else {
                "  "@
            }) + state.labels()[i],
{
    let mut rows: Vec<String> = Vec::new();
    let mut i: usize = 0;
    while i < state.entries.len()
        invariant
            i <= state.entries.len(),
            rows@.len() == i,
            forall|j: int|
                0 <= j < i as int ==> rows@[j]@ == (if j == state.cursor as int {
                    "> "@
                } else {
                    "  "@
                }) + state.labels()[j],
        decreases state.entries.len() - i,
    {
        proof {
            assert(state.labels()[i as int] == state.entries@[i as int]@);
        }
        let r = row_label(&state.entries[i], i == state.cursor);
        rows.push(r);
        i = i + 1;
    }
    rows
}

} // verus!
