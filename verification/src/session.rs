//! The interaction loop's decisions: applying one input event to the menu
//! (Browsing stays or turns into Committed), the fixed option list, and what
//! a committed label asks the launcher to do.

use vstd::prelude::*;
use vstd::string::StringExecFns;
use crate::layout::{Rect, spec_hit_row, hit_row};
use crate::menu::{MenuState, has_selectable, is_sep, up_step, down_step};

verus! {

/// One resolved input event. Keys other than Up, Down, Enter and Escape, and
/// mouse events other than a button press, arrive as `Other` and are ignored.
#[derive(Clone, Copy, PartialEq, Eq, Structural, Debug)]
pub enum InputEvent {
    Up,
    Down,
    Enter,
    Esc,
    Click { x: u16, y: u16 },
    Other,
}

/// The entry that a click at `(x, y)` selects, if any: the addressed row
/// must exist and must not be a separator.
pub open spec fn click_selects(labels: Seq<Seq<char>>, area: Rect, x: u16, y: u16) -> Option<
    int,
> {
    match spec_hit_row(area, x, y) {
        Some(i) => if 0 <= i < labels.len() && !is_sep(labels[i]) {
            Some(i)
        } else {
            None
        },
        None => None,
    }
}

/// Applies one input event while browsing. Returns true exactly when the
/// event commits the selection: Enter and Escape commit the cursor's entry
/// unchanged, a click commits the entry it selects, arrow keys move the
/// cursor, and everything else is ignored.
pub fn apply_event(state: &mut MenuState, area: Rect, ev: InputEvent) -> (commit: bool)
    requires
        old(state).wf(),
    ensures
        final(state).wf(),
        final(state).entries@ == old(state).entries@,
        ev is Up ==> !commit && (exists|k: int|
            up_step(old(state).labels(), old(state).cursor as int, final(state).cursor as int, k)),
        ev is Down ==> !commit && (exists|k: int|
            down_step(
                old(state).labels(),
                old(state).cursor as int,
                final(state).cursor as int,
                k,
            )),
        ev is Enter || ev is Esc ==> commit && *final(state) == *old(state),
        ev is Other ==> !commit && *final(state) == *old(state),
        ev matches InputEvent::Click { x, y } ==> match click_selects(
            old(state).labels(),
            area,
            x,
            y,
        ) {
            Some(i) => commit && final(state).cursor as int == i,
            None => !commit && *final(state) == *old(state),
        },
{
    proof {
        assert(has_selectable(old(state).labels())) by {
            assert(!is_sep(old(state).labels()[old(state).cursor as int]));
        }
    }
    match ev {
        InputEvent::Up => {
            state.move_up();
            false
        },
        InputEvent::Down => {
            state.move_down();
            false
        },
        InputEvent::Enter => true,
        InputEvent::Esc => true,
        InputEvent::Click { x, y } => {
            match hit_row(area, x, y) {
                Some(i) => state.select_at(i),
                None => false,
            }
        },
        InputEvent::Other => false,
    }
}

/// The fixed option list: four tools, one blank separator, and the `"quit"`
/// sentinel.
pub fn default_options() -> (opts: Vec<String>)
    ensures
        opts@.len() == 6,
        opts@[0]@ == "vim"@,
        opts@[1]@ == "fmtui"@,
        opts@[2]@ == "btop"@,
        opts@[3]@ == "nmtui"@,
        opts@[4]@ == ""@,
        opts@[5]@ == "quit"@,
        !is_sep(opts@[0]@),
        !is_sep(opts@[1]@),
        !is_sep(opts@[2]@),
        !is_sep(opts@[3]@),
        is_sep(opts@[4]@),
        !is_sep(opts@[5]@),
{
    proof {
        reveal_strlit("vim");
        reveal_strlit("fmtui");
        reveal_strlit("btop");
        reveal_strlit("nmtui");
        reveal_strlit("");
        reveal_strlit("quit");
    }
    let mut opts: Vec<String> = Vec::new();
    opts.push(String::from_str("vim"));
    opts.push(String::from_str("fmtui"));
    opts.push(String::from_str("btop"));
    opts.push(String::from_str("nmtui"));
    opts.push(String::from_str(""));
    opts.push(String::from_str("quit"));
    opts
}

/// What the launcher is asked to do once a label is committed.
#[derive(Clone, Copy, PartialEq, Eq, Structural, Debug)]
pub enum LaunchAction {
    /// The `"quit"` sentinel: end the whole process loop.
    Quit,
    /// A known tool: spawn the program named by the label, once, and return
    /// to browsing when it exits.
    Launch,
    /// An unknown label: do nothing and return to browsing.
    Stay,
}

/// The label names one of the known external tools.
pub open spec fn is_known_tool(label: Seq<char>) -> bool {
    ||| label == "vim"@
    ||| label == "fmtui"@
    ||| label == "btop"@
    ||| label == "nmtui"@
}

/// Decides what a committed label means: `"quit"` ends the process loop, a
/// known tool is launched exactly once, and any other label is a no-op.
pub fn launch_decision(label: &String) -> (a: LaunchAction)
    ensures
        a == (if label@ == "quit"@ {
            LaunchAction::Quit
        } else if is_known_tool(label@) {
            LaunchAction::Launch
        } else {
            LaunchAction::Stay
        }),
{
    if *label == String::from_str("quit") {
        LaunchAction::Quit
    } else if *label == String::from_str("vim") || *label == String::from_str("fmtui") || *label
        == String::from_str("btop") || *label == String::from_str("nmtui") {
        LaunchAction::Launch
    } else {
        LaunchAction::Stay
    }
}

} // verus!

