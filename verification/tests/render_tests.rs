use daemon_console_lite::editor::{ConsoleState, KeyCode, KeyInput, KeyKind, MOD_NONE};
use daemon_console_lite::render::{
    clear_line_ops, echo_line, hint_line_ops, hint_window, visual_cursor_col, DrawOp, HintColor,
};
use daemon_console_lite::text::usize_to_string;
use daemon_console_lite::tab::{CompletionItem, MatchStrategy, TabTree};
use daemon_console_lite::utils::get_local_timestring;

fn candidates(n: usize) -> Vec<daemon_console_lite::tab::CompletionCandidate> {
    let mut tree = TabTree::new();
    let items: Vec<CompletionItem> =
        (0..n).map(|i| CompletionItem::new(&format!("c{}", i))).collect();
    tree.register_completions_advanced("", items, MatchStrategy::All);
    // A fresh registry starts with an empty cached query, so ask for
    // something non-empty.
    tree.get_candidates("x")
}

#[test]
fn hint_window_centers_selection() {
    // 12 candidates, window width 5.
    assert_eq!(hint_window(12, 0), (0, 5));
    assert_eq!(hint_window(12, 11), (7, 12));
    assert_eq!(hint_window(12, 5), (3, 8));
}

#[test]
fn hint_window_shows_all_when_few() {
    assert_eq!(hint_window(3, 1), (0, 3));
    assert_eq!(hint_window(5, 4), (0, 5));
}

#[test]
fn hint_window_clamps_near_edges() {
    assert_eq!(hint_window(12, 2), (0, 5));
    assert_eq!(hint_window(12, 10), (7, 12));
    assert_eq!(hint_window(6, 3), (1, 6));
}

#[test]
fn clear_ops_without_hints() {
    let ops = clear_line_ops(false);
    assert_eq!(ops, vec![DrawOp::MoveToColumn(0), DrawOp::ClearCurrentLine]);
}

#[test]
fn clear_ops_with_hints_erases_the_line_below() {
    let ops = clear_line_ops(true);
    assert_eq!(
        ops,
        vec![
            DrawOp::MoveToColumn(0),
            DrawOp::ClearCurrentLine,
            DrawOp::MoveDown,
            DrawOp::ClearCurrentLine,
            DrawOp::MoveUp,
            DrawOp::MoveToColumn(0),
        ]
    );
}

#[test]
fn visual_column_counts_display_widths() {
    // ASCII characters are one column each, after the two-column prompt.
    assert_eq!(visual_cursor_col("ab", 0), 2);
    assert_eq!(visual_cursor_col("ab", 2), 4);
    // A CJK character occupies two columns.
    assert_eq!(visual_cursor_col("\u{4E16}a", 1), 4);
    assert_eq!(visual_cursor_col("\u{4E16}a", 2), 5);
    // A combining accent occupies no column.
    assert_eq!(visual_cursor_col("a\u{0301}b", 3), 4);
}

#[test]
fn decimal_rendering() {
    assert_eq!(usize_to_string(0), "0");
    assert_eq!(usize_to_string(7), "7");
    assert_eq!(usize_to_string(12345), "12345");
}

#[test]
fn hint_line_structure_for_two_candidates() {
    let cs = candidates(2);
    let ops = hint_line_ops(&cs, 0);
    assert_eq!(
        ops,
        vec![
            DrawOp::SavePosition,
            DrawOp::Print("\n".to_string()),
            DrawOp::MoveToColumn(0),
            DrawOp::SetForegroundColor(HintColor::Cyan),
            DrawOp::Print("[c0]".to_string()),
            DrawOp::Print("  ".to_string()),
            DrawOp::SetForegroundColor(HintColor::DarkGrey),
            DrawOp::Print("[c1]".to_string()),
            DrawOp::ResetColor,
            DrawOp::ClearUntilNewline,
            DrawOp::RestorePosition,
        ]
    );
}

#[test]
fn hint_line_shows_description_and_selection_color() {
    let mut tree = TabTree::new();
    tree.register_completions_with_desc("", &[("go", "run it")]);
    let cs = tree.get_candidates("g");
    let ops = hint_line_ops(&cs, 0);
    assert!(ops.contains(&DrawOp::Print("[go: run it]".to_string())));
    assert!(ops.contains(&DrawOp::SetForegroundColor(HintColor::Cyan)));
}

#[test]
fn truncation_note_right_only() {
    let cs = candidates(12);
    let ops = hint_line_ops(&cs, 0);
    assert!(ops.contains(&DrawOp::Print("  (\u{2192}+7)".to_string())));
}

#[test]
fn truncation_note_left_only() {
    let cs = candidates(12);
    let ops = hint_line_ops(&cs, 11);
    assert!(ops.contains(&DrawOp::Print("  (+7\u{2190})".to_string())));
}

#[test]
fn truncation_note_both_sides() {
    let cs = candidates(12);
    let ops = hint_line_ops(&cs, 5);
    assert!(ops.contains(&DrawOp::Print("  (+3/+4)".to_string())));
}

#[test]
fn redraw_ops_hide_clear_print_and_show() {
    let mut state = ConsoleState::new();
    for (i, c) in "hi".chars().enumerate() {
        state.process_event(
            KeyInput { code: KeyCode::Char(c), modifiers: MOD_NONE, kind: KeyKind::Press },
            i as u64,
        );
    }
    let ops = state.render_input_line();
    assert_eq!(
        ops,
        vec![
            DrawOp::HideCursor,
            DrawOp::MoveToColumn(0),
            DrawOp::ClearCurrentLine,
            DrawOp::Print("> ".to_string()),
            DrawOp::Print("hi".to_string()),
            DrawOp::MoveToColumn(4),
            DrawOp::ShowCursor,
        ]
    );
}

#[test]
fn log_entry_redraws_the_edit_line_below() {
    let mut state = ConsoleState::new();
    for (i, c) in "ab".chars().enumerate() {
        state.process_event(
            KeyInput { code: KeyCode::Char(c), modifiers: MOD_NONE, kind: KeyKind::Press },
            i as u64,
        );
    }
    let ops = state.print_log_entry("something happened");
    assert_eq!(
        ops,
        vec![
            DrawOp::MoveToColumn(0),
            DrawOp::ClearCurrentLine,
            DrawOp::Print("something happened".to_string()),
            DrawOp::Print("\n".to_string()),
            DrawOp::MoveToColumn(0),
            DrawOp::HideCursor,
            DrawOp::MoveToColumn(0),
            DrawOp::Print("> ".to_string()),
            DrawOp::Print("ab".to_string()),
            DrawOp::MoveToColumn(4),
            DrawOp::ShowCursor,
        ]
    );
}

#[test]
fn clearing_after_hints_erases_two_lines() {
    let mut state = ConsoleState::new();
    state.enable_tab_completion();
    state.register_tab_completions("", &["alpha", "amber"]);
    state.process_event(
        KeyInput { code: KeyCode::Char('a'), modifiers: MOD_NONE, kind: KeyKind::Press },
        0,
    );
    // The redraw above drew a hint line, so the next clear spans two lines.
    let ops = state.clear_input_line();
    assert_eq!(ops.len(), 6);
    assert_eq!(ops[2], DrawOp::MoveDown);
}

#[test]
fn echo_line_concatenates_prefix_and_text() {
    assert_eq!(echo_line("> ", "run"), "> run");
}

#[test]
fn local_timestring_has_clock_shape() {
    let s = get_local_timestring(0);
    assert_eq!(s.chars().count(), 8);
    let cs: Vec<char> = s.chars().collect();
    assert_eq!(cs[2], ':');
    assert_eq!(cs[5], ':');
    for (i, c) in cs.iter().enumerate() {
        if i != 2 && i != 5 {
            assert!(c.is_ascii_digit());
        }
    }
    // A fixed large timestamp also formats to the clock shape.
    assert_eq!(get_local_timestring(1_700_000_000_000).chars().count(), 8);
}
