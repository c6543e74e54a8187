//! A terminal menu over a fixed list of labelled entries, some of which are
//! blank separators. The cursor always rests on a selectable entry; arrow
//! moves wrap around the list and skip separators, mouse clicks are mapped
//! through the last rendered viewport rectangle, and Enter or Escape commits
//! the current selection.

pub mod layout;
pub mod menu;
pub mod session;

pub use layout::Rect;
pub use menu::MenuState;
pub use session::{InputEvent, LaunchAction, apply_event, default_options, launch_decision};
