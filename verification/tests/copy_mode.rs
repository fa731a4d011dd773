use tabline::copy_mode::{
    backward_find_col, begin_copy_mode_selection, route_copy_mode_key, CopyKeyRoute, cancel_copy_mode, copy_mode_char_command,
    copy_mode_history_bottom, copy_mode_history_top, copy_mode_key_dispatch, copy_mode_line_edge,
    copy_mode_page_lines, enter_copy_mode, exit_copy_mode, forward_find_col, move_copy_cursor, scroll_copy_mode_page,
    select_copy_mode_line, CopyCommand, CopyKeyCode, CopyModeExit, CopyModeFindKind,
    CopyModeSelection, CopyModeState, CopyModeStep, CopyModeSubState, KeyDispatch, LineSelection,
    Mode, PaneRect, PaneScroll, ScrollMetrics, ScrollRestore, SelectionAnchor, TerminalCursor,
    WordMotion,
};

#[test]
fn forward_find_col_finds_after_cursor() {
    assert_eq!(forward_find_col("hello world", 0, 'h'), None); // cursor on 'h', skip self
    assert_eq!(forward_find_col("hello world", 0, 'e'), Some(1));
    assert_eq!(forward_find_col("hello world", 2, 'l'), Some(3)); // third l
    assert_eq!(forward_find_col("hello world", 0, 'w'), Some(6));
}

#[test]
fn forward_find_col_returns_none_when_not_found() {
    assert_eq!(forward_find_col("hello world", 0, 'z'), None);
    assert_eq!(forward_find_col("hello world", 0, 'h'), None); // cursor on it
}

#[test]
fn forward_find_col_handles_multibyte() {
    // "héllo" — é is 1 cell wide in unicode-width
    assert_eq!(forward_find_col("héllo", 0, 'l'), Some(2));
}

#[test]
fn backward_find_col_finds_before_cursor() {
    assert_eq!(backward_find_col("hello world", 6, 'o'), Some(4));
    assert_eq!(backward_find_col("hello world", 5, 'l'), Some(3));
    assert_eq!(backward_find_col("hello world", 1, 'h'), Some(0));
}

#[test]
fn backward_find_col_returns_none_when_not_found() {
    assert_eq!(backward_find_col("hello world", 6, 'z'), None);
    assert_eq!(backward_find_col("hello world", 6, 'w'), None); // cursor past 'w'
}

#[test]
fn backward_find_col_finds_closest_before_cursor() {
    // Multiple 'l's before cursor 5 (positions 2, 3), closest is 3
    assert_eq!(backward_find_col("hello world", 5, 'l'), Some(3));
}

#[test]
fn find_cols_count_wide_chars_as_two_cells() {
    assert_eq!(forward_find_col("中a中b", 0, 'b'), Some(5));
    assert_eq!(backward_find_col("中a中b", 5, '中'), Some(3));
    assert_eq!(backward_find_col("", 5, 'x'), None);
}

fn rect(width: u16, height: u16) -> PaneRect {
    PaneRect { x: 2, y: 1, width, height }
}

fn state(row: u16, col: u16) -> CopyModeState {
    CopyModeState {
        pane_id: 7,
        cursor_row: row,
        cursor_col: col,
        entry_offset_from_bottom: 3,
        selection: None,
        substate: CopyModeSubState::Navigate,
        find: None,
    }
}

#[test]
fn enter_uses_visible_cursor_relative_to_pane() {
    let cursor = Some(TerminalCursor { x: 5, y: 4, visible: true });
    let cm = enter_copy_mode(7, rect(10, 5), cursor, 3).unwrap();
    assert_eq!((cm.cursor_row, cm.cursor_col), (3, 3));
    assert_eq!(cm.entry_offset_from_bottom, 3);
    assert_eq!(cm.substate, CopyModeSubState::Navigate);
    assert_eq!(cm.selection, None);
}

#[test]
fn enter_clamps_and_falls_back_to_bottom_left() {
    let far = Some(TerminalCursor { x: 100, y: 100, visible: true });
    let cm = enter_copy_mode(7, rect(10, 5), far, 0).unwrap();
    assert_eq!((cm.cursor_row, cm.cursor_col), (4, 9));
    let hidden = Some(TerminalCursor { x: 5, y: 4, visible: false });
    let cm = enter_copy_mode(7, rect(10, 5), hidden, 0).unwrap();
    assert_eq!((cm.cursor_row, cm.cursor_col), (4, 0));
    let cm = enter_copy_mode(7, rect(10, 5), None, 0).unwrap();
    assert_eq!((cm.cursor_row, cm.cursor_col), (4, 0));
}

#[test]
fn enter_refuses_empty_pane() {
    assert_eq!(enter_copy_mode(7, rect(0, 5), None, 0), None);
    assert_eq!(enter_copy_mode(7, rect(5, 0), None, 0), None);
}

#[test]
fn exit_restores_entry_offset_and_mode() {
    let cm = state(1, 1);
    assert_eq!(
        exit_copy_mode(Some(cm), true, true),
        CopyModeExit {
            copy_selection: true,
            restore_scroll: Some(ScrollRestore { pane_id: 7, offset_from_bottom: 3 }),
            mode: Mode::Terminal,
        }
    );
    assert_eq!(
        cancel_copy_mode(Some(cm), false),
        CopyModeExit {
            copy_selection: false,
            restore_scroll: Some(ScrollRestore { pane_id: 7, offset_from_bottom: 3 }),
            mode: Mode::Navigate,
        }
    );
    assert_eq!(exit_copy_mode(None, false, true).restore_scroll, None);
}

#[test]
fn move_within_pane_and_past_edges() {
    let r = rect(10, 5);
    assert_eq!(
        move_copy_cursor(Some(state(2, 3)), Some(r), 1, 0),
        CopyModeStep::Update { state: state(3, 3), scroll: PaneScroll::Stay }
    );
    assert_eq!(
        move_copy_cursor(Some(state(0, 3)), Some(r), -1, 0),
        CopyModeStep::Update { state: state(0, 3), scroll: PaneScroll::Up(1) }
    );
    assert_eq!(
        move_copy_cursor(Some(state(4, 3)), Some(r), 1, 0),
        CopyModeStep::Update { state: state(4, 3), scroll: PaneScroll::Down(1) }
    );
    assert_eq!(
        move_copy_cursor(Some(state(4, 9)), Some(r), 0, 1),
        CopyModeStep::Update { state: state(4, 9), scroll: PaneScroll::Stay }
    );
    assert_eq!(
        move_copy_cursor(Some(state(4, 0)), Some(r), 0, -1),
        CopyModeStep::Update { state: state(4, 0), scroll: PaneScroll::Stay }
    );
    assert_eq!(move_copy_cursor(Some(state(4, 0)), None, 0, -1), CopyModeStep::Exit);
    assert_eq!(move_copy_cursor(None, Some(r), 0, -1), CopyModeStep::Unchanged);
}

#[test]
fn move_down_then_up_returns() {
    let r = rect(10, 5);
    let CopyModeStep::Update { state: down, scroll } = move_copy_cursor(Some(state(1, 2)), Some(r), 2, 0)
    else {
        panic!("expected a move");
    };
    assert_eq!(scroll, PaneScroll::Stay);
    assert_eq!(
        move_copy_cursor(Some(down), Some(r), -2, 0),
        CopyModeStep::Update { state: state(1, 2), scroll: PaneScroll::Stay }
    );
}

#[test]
fn page_up_and_down_with_metrics() {
    let r = rect(10, 20);
    let m = ScrollMetrics { offset_from_bottom: 5, max_offset_from_bottom: 100 };
    assert_eq!(
        scroll_copy_mode_page(Some(state(10, 0)), Some(r), Some(m), -1, false),
        CopyModeStep::Update { state: state(10, 0), scroll: PaneScroll::ToOffset(23) }
    );
    let up = ScrollMetrics { offset_from_bottom: 23, max_offset_from_bottom: 100 };
    assert_eq!(
        scroll_copy_mode_page(Some(state(10, 0)), Some(r), Some(up), 1, false),
        CopyModeStep::Update { state: state(10, 0), scroll: PaneScroll::ToOffset(5) }
    );
}

#[test]
fn page_up_clamps_at_history_top_and_moves_cursor() {
    let r = rect(10, 20);
    let m = ScrollMetrics { offset_from_bottom: 95, max_offset_from_bottom: 100 };
    // A page is 18 lines here: 5 are scrolled, the cursor moves up 13.
    assert_eq!(
        scroll_copy_mode_page(Some(state(19, 0)), Some(r), Some(m), -1, false),
        CopyModeStep::Update { state: state(6, 0), scroll: PaneScroll::ToOffset(100) }
    );
    // Half a page is 10 lines: 5 scrolled, the cursor moves up 5.
    assert_eq!(
        scroll_copy_mode_page(Some(state(19, 0)), Some(r), Some(m), -1, true),
        CopyModeStep::Update { state: state(14, 0), scroll: PaneScroll::ToOffset(100) }
    );
}

#[test]
fn page_down_clamps_at_bottom_and_moves_cursor() {
    let r = rect(10, 20);
    let m = ScrollMetrics { offset_from_bottom: 8, max_offset_from_bottom: 100 };
    assert_eq!(
        scroll_copy_mode_page(Some(state(0, 0)), Some(r), Some(m), 1, true),
        CopyModeStep::Update { state: state(2, 0), scroll: PaneScroll::ToOffset(0) }
    );
    assert_eq!(
        scroll_copy_mode_page(Some(state(18, 0)), Some(r), Some(m), 1, false),
        CopyModeStep::Update { state: state(19, 0), scroll: PaneScroll::ToOffset(0) }
    );
}

#[test]
fn page_without_metrics_scrolls_by_lines() {
    let r = rect(10, 20);
    assert_eq!(
        scroll_copy_mode_page(Some(state(3, 0)), Some(r), None, -1, false),
        CopyModeStep::Update { state: state(3, 0), scroll: PaneScroll::Up(18) }
    );
    assert_eq!(
        scroll_copy_mode_page(Some(state(3, 0)), Some(r), None, 1, true),
        CopyModeStep::Update { state: state(3, 0), scroll: PaneScroll::Down(10) }
    );
    assert_eq!(scroll_copy_mode_page(Some(state(3, 0)), None, None, 1, false), CopyModeStep::Exit);
}

#[test]
fn history_top_bottom_and_line_edges() {
    let r = rect(10, 20);
    let m = ScrollMetrics { offset_from_bottom: 8, max_offset_from_bottom: 100 };
    assert_eq!(
        copy_mode_history_top(Some(state(5, 5)), Some(m)),
        CopyModeStep::Update { state: state(0, 5), scroll: PaneScroll::ToOffset(100) }
    );
    assert_eq!(copy_mode_history_top(Some(state(5, 5)), None), CopyModeStep::Unchanged);
    assert_eq!(
        copy_mode_history_bottom(Some(state(5, 5)), Some(r)),
        CopyModeStep::Update { state: state(19, 5), scroll: PaneScroll::ToOffset(0) }
    );
    assert_eq!(
        copy_mode_line_edge(Some(state(5, 5)), Some(r), true),
        CopyModeStep::Update { state: state(5, 9), scroll: PaneScroll::Stay }
    );
    assert_eq!(
        copy_mode_line_edge(Some(state(5, 5)), Some(r), false),
        CopyModeStep::Update { state: state(5, 0), scroll: PaneScroll::Stay }
    );
    assert_eq!(copy_mode_line_edge(Some(state(5, 5)), None, false), CopyModeStep::Exit);
}

#[test]
fn selections() {
    let r = rect(10, 20);
    let (cm, anchor) = begin_copy_mode_selection(Some(state(2, 3)), Some(r), None).unwrap();
    assert_eq!(cm.selection, Some(CopyModeSelection::Character));
    assert_eq!(anchor, SelectionAnchor { pane_id: 7, row: 2, col: 3, metrics: None });
    assert_eq!(begin_copy_mode_selection(Some(state(20, 3)), Some(r), None), None);
    let (cm, line) = select_copy_mode_line(Some(state(2, 3)), Some(r), 42).unwrap();
    assert_eq!(cm.selection, Some(CopyModeSelection::Linewise { anchor_row: 42 }));
    assert_eq!(line, LineSelection { pane_id: 7, start_row: 42, end_row: 42, end_col: 9 });
    assert_eq!(select_copy_mode_line(None, Some(r), 1), None);
}

#[test]
fn key_dispatch() {
    let mut selecting = state(0, 0);
    selecting.substate = CopyModeSubState::Selecting;
    assert_eq!(
        copy_mode_key_dispatch(Some(selecting), CopyKeyCode::Esc, false),
        KeyDispatch::Done(CopyCommand::ClearSelection)
    );
    assert_eq!(
        copy_mode_key_dispatch(Some(state(0, 0)), CopyKeyCode::Esc, false),
        KeyDispatch::Done(CopyCommand::Exit { copy: false })
    );
    assert_eq!(
        copy_mode_key_dispatch(Some(state(0, 0)), CopyKeyCode::PageUp, false),
        KeyDispatch::Done(CopyCommand::Page { direction: -1, half_page: false })
    );
    assert_eq!(
        copy_mode_key_dispatch(Some(state(0, 0)), CopyKeyCode::Char('u'), true),
        KeyDispatch::Continue(Some(CopyCommand::Page { direction: -1, half_page: true }))
    );
    assert_eq!(
        copy_mode_key_dispatch(Some(state(0, 0)), CopyKeyCode::Char('u'), false),
        KeyDispatch::Continue(None)
    );
}

#[test]
fn char_commands() {
    assert_eq!(copy_mode_char_command(Some(state(0, 0)), 'q'), CopyCommand::Exit { copy: false });
    assert_eq!(copy_mode_char_command(Some(state(0, 0)), 'y'), CopyCommand::Exit { copy: true });
    assert_eq!(
        copy_mode_char_command(Some(state(0, 0)), 'w'),
        CopyCommand::Word(WordMotion::NextStart)
    );
    assert_eq!(
        copy_mode_char_command(Some(state(0, 0)), 'T'),
        CopyCommand::Find(CopyModeFindKind::TillBackward)
    );
    assert_eq!(copy_mode_char_command(Some(state(0, 0)), '}'), CopyCommand::Paragraph(1));
    assert_eq!(copy_mode_char_command(Some(state(0, 0)), 'z'), CopyCommand::Nothing);
    let mut finding = state(0, 0);
    finding.find = Some(CopyModeFindKind::Forward);
    assert_eq!(copy_mode_char_command(Some(finding), 'q'), CopyCommand::FindChar('q'));
}

#[test]
fn prefix_key_takes_priority_and_releases_are_ignored() {
    assert_eq!(route_copy_mode_key(true, true), CopyKeyRoute::Ignore);
    assert_eq!(route_copy_mode_key(true, false), CopyKeyRoute::Ignore);
    assert_eq!(route_copy_mode_key(false, true), CopyKeyRoute::Prefix);
    assert_eq!(route_copy_mode_key(false, false), CopyKeyRoute::Handle);
}

#[test]
fn page_keeps_offset_within_history() {
    let r = rect(10, 20);
    for off in 0..=12usize {
        for half in [false, true] {
            let m = ScrollMetrics { offset_from_bottom: off, max_offset_from_bottom: 12 };
            for dir in [-1i16, 1] {
                match scroll_copy_mode_page(Some(state(5, 0)), Some(r), Some(m), dir, half) {
                    CopyModeStep::Update { state, scroll: PaneScroll::ToOffset(o) } => {
                        assert!(o <= 12);
                        assert!(state.cursor_row < 20);
                    }
                    other => panic!("unexpected step: {other:?}"),
                }
            }
        }
    }
}

#[test]
fn page_lines_follow_tmux() {
    assert_eq!(copy_mode_page_lines(24, false), 22);
    assert_eq!(copy_mode_page_lines(24, true), 12);
    assert_eq!(copy_mode_page_lines(2, false), 1);
    assert_eq!(copy_mode_page_lines(1, true), 0);
}
