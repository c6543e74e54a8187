use tuibian::layout::{hit_row, render_rows, row_label};
use tuibian::menu::is_sep_entry;
use tuibian::session::{apply_event, default_options, launch_decision};
use tuibian::{InputEvent, LaunchAction, MenuState, Rect};

fn state_of(labels: &[&str], cursor: usize) -> MenuState {
    let entries: Vec<String> = labels.iter().map(|s| s.to_string()).collect();
    assert!(!entries[cursor].is_empty(), "cursor must start on a selectable entry");
    MenuState { entries, cursor }
}

fn default_state() -> MenuState {
    MenuState::new(default_options())
}

#[test]
fn default_options_contents() {
    let opts = default_options();
    assert_eq!(opts, vec!["vim", "fmtui", "btop", "nmtui", "", "quit"]);
    assert!(is_sep_entry(&opts[4]));
    assert!(!is_sep_entry(&opts[0]));
    assert!(!is_sep_entry(&opts[5]));
}

#[test]
fn new_starts_at_first_entry() {
    let s = default_state();
    assert_eq!(s.cursor, 0);
    assert_eq!(s.committed_label(), "vim");
}

#[test]
fn move_down_steps_to_next_entry() {
    let mut s = default_state();
    s.move_down();
    assert_eq!(s.cursor, 1);
    s.move_down();
    assert_eq!(s.cursor, 2);
}

#[test]
fn move_down_skips_separator() {
    let mut s = default_state();
    s.cursor = 3;
    s.move_down();
    assert_eq!(s.cursor, 5, "the blank entry at index 4 is skipped");
    assert_eq!(s.committed_label(), "quit");
}

#[test]
fn move_up_wraps_from_first_index() {
    let mut s = default_state();
    s.move_up();
    assert_eq!(s.cursor, 5, "moving up from index 0 wraps to the last index");
}

#[test]
fn move_down_wraps_from_last_index() {
    let mut s = default_state();
    s.cursor = 5;
    s.move_down();
    assert_eq!(s.cursor, 0, "moving down from the last index wraps to index 0");
}

#[test]
fn move_up_skips_separator() {
    let mut s = default_state();
    s.cursor = 5;
    s.move_up();
    assert_eq!(s.cursor, 3, "the blank entry at index 4 is skipped");
}

#[test]
fn moves_never_land_on_separator() {
    let labels = ["a", "", "", "b", ""];
    for start in [0usize, 3] {
        let mut s = state_of(&labels, start);
        for _ in 0..7 {
            s.move_down();
            assert!(!s.entries[s.cursor].is_empty());
        }
        let mut s = state_of(&labels, start);
        for _ in 0..7 {
            s.move_up();
            assert!(!s.entries[s.cursor].is_empty());
        }
    }
}

#[test]
fn moves_recover_from_separator_start() {
    // The moves ask only that some selectable entry exists, so they also
    // recover a cursor that starts on a separator.
    let entries: Vec<String> = ["", "a", ""].iter().map(|s| s.to_string()).collect();
    let mut s = MenuState { entries: entries.clone(), cursor: 2 };
    s.move_down();
    assert_eq!(s.cursor, 1);
    let mut s = MenuState { entries, cursor: 0 };
    s.move_up();
    assert_eq!(s.cursor, 1);
}

#[test]
fn up_then_down_round_trip() {
    let lists: [&[&str]; 3] = [
        &["vim", "fmtui", "btop", "nmtui", "", "quit"],
        &["a", "", "", "b"],
        &["x", "y"],
    ];
    for labels in lists {
        for start in 0..labels.len() {
            if labels[start].is_empty() {
                continue;
            }
            let mut s = state_of(labels, start);
            s.move_up();
            s.move_down();
            assert_eq!(s.cursor, start, "up then down returns to the start");
            s.move_down();
            s.move_up();
            assert_eq!(s.cursor, start, "down then up returns to the start");
        }
    }
}

#[test]
fn hit_row_maps_interior_points() {
    let area = Rect { x: 0, y: 0, width: 20, height: 8 };
    assert_eq!(hit_row(area, 5, 2), Some(1));
    assert_eq!(hit_row(area, 5, 5), Some(4));
    assert_eq!(hit_row(area, 0, 1), Some(0));
    assert_eq!(hit_row(area, 19, 7), Some(6));
}

#[test]
fn hit_row_ignores_points_outside() {
    let area = Rect { x: 0, y: 0, width: 20, height: 8 };
    assert_eq!(hit_row(area, 5, 8), None, "y at the bottom edge is outside");
    assert_eq!(hit_row(area, 5, 200), None);
    assert_eq!(hit_row(area, 20, 3), None, "x at the right edge is outside");
    assert_eq!(hit_row(area, 5, 0), None, "the top border row addresses no entry");
}

#[test]
fn hit_row_respects_offset_origin() {
    let area = Rect { x: 3, y: 2, width: 10, height: 5 };
    assert_eq!(hit_row(area, 3, 3), Some(0));
    assert_eq!(hit_row(area, 12, 6), Some(3));
    assert_eq!(hit_row(area, 2, 3), None);
    assert_eq!(hit_row(area, 3, 2), None);
    assert_eq!(hit_row(area, 3, 7), None);
}

#[test]
fn click_commits_selectable_row() {
    let area = Rect { x: 0, y: 0, width: 20, height: 8 };
    let mut s = default_state();
    let commit = apply_event(&mut s, area, InputEvent::Click { x: 5, y: 2 });
    assert!(commit);
    assert_eq!(s.cursor, 1);
    assert_eq!(s.committed_label(), "fmtui");
}

#[test]
fn click_on_separator_row_is_ignored() {
    let area = Rect { x: 0, y: 0, width: 20, height: 8 };
    let mut s = default_state();
    let commit = apply_event(&mut s, area, InputEvent::Click { x: 5, y: 5 });
    assert!(!commit);
    assert_eq!(s.cursor, 0, "a click onto the blank row leaves the cursor unchanged");
}

#[test]
fn click_outside_rectangle_is_ignored() {
    let area = Rect { x: 0, y: 0, width: 20, height: 8 };
    let mut s = default_state();
    s.cursor = 2;
    for (x, y) in [(5u16, 8u16), (5, 100), (20, 3), (5, 0)] {
        let commit = apply_event(&mut s, area, InputEvent::Click { x, y });
        assert!(!commit);
        assert_eq!(s.cursor, 2);
    }
}

#[test]
fn click_below_list_rows_is_ignored() {
    // Row 6 is inside the rectangle but beyond the six entries.
    let area = Rect { x: 0, y: 0, width: 20, height: 8 };
    let mut s = default_state();
    let commit = apply_event(&mut s, area, InputEvent::Click { x: 5, y: 7 });
    assert!(!commit);
    assert_eq!(s.cursor, 0);
}

#[test]
fn down_presses_walk_the_default_list() {
    let area = Rect { x: 0, y: 0, width: 20, height: 8 };
    let mut s = default_state();
    for _ in 0..3 {
        let commit = apply_event(&mut s, area, InputEvent::Down);
        assert!(!commit);
    }
    assert_eq!(s.cursor, 3);
    assert_eq!(s.committed_label(), "nmtui");
    let commit = apply_event(&mut s, area, InputEvent::Down);
    assert!(!commit);
    assert_eq!(s.cursor, 5, "the fourth press skips the blank entry straight to quit");
    assert_eq!(s.committed_label(), "quit");
}

#[test]
fn enter_commits_current_cursor() {
    let area = Rect { x: 0, y: 0, width: 20, height: 8 };
    for idx in [0usize, 1, 2, 3, 5] {
        let mut s = default_state();
        assert!(s.select_at(idx));
        let label_before = s.committed_label().clone();
        let commit = apply_event(&mut s, area, InputEvent::Enter);
        assert!(commit);
        assert_eq!(s.cursor, idx);
        assert_eq!(*s.committed_label(), label_before);
    }
}

#[test]
fn escape_commits_like_enter() {
    let area = Rect { x: 0, y: 0, width: 20, height: 8 };
    let mut s = default_state();
    s.select_at(2);
    let commit = apply_event(&mut s, area, InputEvent::Esc);
    assert!(commit);
    assert_eq!(s.committed_label(), "btop");
}

#[test]
fn other_events_are_ignored() {
    let area = Rect { x: 0, y: 0, width: 20, height: 8 };
    let mut s = default_state();
    let commit = apply_event(&mut s, area, InputEvent::Other);
    assert!(!commit);
    assert_eq!(s.cursor, 0);
}

#[test]
fn select_at_moves_to_selectable_entry() {
    let mut s = default_state();
    assert!(s.select_at(3));
    assert_eq!(s.cursor, 3);
}

#[test]
fn select_at_rejects_separator_and_out_of_range() {
    let mut s = default_state();
    assert!(!s.select_at(4), "the blank entry is not selectable");
    assert_eq!(s.cursor, 0);
    assert!(!s.select_at(6), "an out-of-range index is not selectable");
    assert_eq!(s.cursor, 0);
}

#[test]
fn launch_decision_dispatches_labels() {
    assert_eq!(launch_decision(&"quit".to_string()), LaunchAction::Quit);
    assert_eq!(launch_decision(&"vim".to_string()), LaunchAction::Launch);
    assert_eq!(launch_decision(&"fmtui".to_string()), LaunchAction::Launch);
    assert_eq!(launch_decision(&"btop".to_string()), LaunchAction::Launch);
    assert_eq!(launch_decision(&"nmtui".to_string()), LaunchAction::Launch);
    assert_eq!(launch_decision(&"emacs".to_string()), LaunchAction::Stay);
    assert_eq!(launch_decision(&"".to_string()), LaunchAction::Stay);
}

#[test]
fn row_label_marks_only_selected() {
    let label = "vim".to_string();
    assert_eq!(row_label(&label, true), "> vim");
    assert_eq!(row_label(&label, false), "  vim");
}

#[test]
fn render_rows_marks_exactly_cursor_row() {
    let mut s = default_state();
    s.select_at(2);
    let rows = render_rows(&s);
    assert_eq!(rows, vec!["  vim", "  fmtui", "> btop", "  nmtui", "  ", "  quit"]);
    let marked = rows.iter().filter(|r| r.starts_with("> ")).count();
    assert_eq!(marked, 1);
}
