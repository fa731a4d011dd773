use tabline::copy_mode::{
    copy_mode_char_command, CopyCommand, CopyModeSelection, CopyModeState,
    CopyModeStep, CopyModeSubState, LineSelection, PaneRect, PaneScroll, SelectionAnchor,
    SelectionSync, WordMotion,
};
use tabline::copy_motion::{
    clear_selection_step, copy_mode_command_char, copy_mode_find, copy_mode_find_char,
    copy_mode_first_non_blank, copy_mode_paragraph, copy_mode_word_motion, is_blank_line,
    start_selecting, sync_copy_mode_selection,
};

fn at(row: u16, col: u16) -> CopyModeState {
    CopyModeState {
        pane_id: 1,
        cursor_row: row,
        cursor_col: col,
        entry_offset_from_bottom: 0,
        selection: None,
        substate: CopyModeSubState::Navigate,
        find: None,
    }
}

fn state_of(step: CopyModeStep) -> CopyModeState {
    match step {
        CopyModeStep::Update { state, scroll } => {
            assert_eq!(scroll, PaneScroll::Stay);
            state
        }
        other => panic!("unexpected step: {other:?}"),
    }
}

/// Runs a find: the find key, then its character on `line`.
fn find(cm: CopyModeState, key: char, target: char, line: &str) -> CopyModeState {
    let CopyCommand::Find(kind) = copy_mode_char_command(Some(cm), key) else {
        panic!("not a find key");
    };
    let pending = state_of(copy_mode_find(Some(cm), kind));
    assert_eq!(pending.find, Some(kind));
    assert_eq!(copy_mode_char_command(Some(pending), target), CopyCommand::FindChar(target));
    let done = state_of(copy_mode_find_char(Some(pending), line, target));
    assert_eq!(done.find, None);
    done
}

#[test]
fn f_finds_char_forward() {
    assert_eq!(find(at(0, 0), 'f', 'w', "hello world").cursor_col, 6);
}

#[test]
fn f_no_match_stays_put() {
    assert_eq!(find(at(0, 0), 'f', 'z', "hello world").cursor_col, 0);
}

#[test]
fn t_places_before_target() {
    assert_eq!(find(at(0, 0), 't', 'w', "hello world").cursor_col, 5);
}

#[test]
fn capital_f_finds_char_backward() {
    assert_eq!(find(at(0, 6), 'F', 'h', "hello world").cursor_col, 0);
}

#[test]
fn capital_t_places_after_target() {
    assert_eq!(find(at(0, 6), 'T', 'h', "hello world").cursor_col, 1);
}

#[test]
fn find_char_without_pending_find_is_unchanged() {
    assert_eq!(copy_mode_find_char(Some(at(0, 0)), "abc", 'b'), CopyModeStep::Unchanged);
}

#[test]
fn word_motions_use_row_words() {
    let line = "foo bar baz";
    let cm = state_of(copy_mode_word_motion(Some(at(0, 0)), line, WordMotion::NextStart));
    assert_eq!(cm.cursor_col, 4);
    let cm = state_of(copy_mode_word_motion(Some(cm), line, WordMotion::NextEnd));
    assert_eq!(cm.cursor_col, 6);
    let cm = state_of(copy_mode_word_motion(Some(cm), line, WordMotion::PreviousStart));
    assert_eq!(cm.cursor_col, 4);
    let cm = state_of(copy_mode_word_motion(Some(cm), line, WordMotion::PreviousStart));
    assert_eq!(cm.cursor_col, 0);
    // No word before the first one, none after the last: the cursor stays.
    let cm = state_of(copy_mode_word_motion(Some(cm), line, WordMotion::PreviousStart));
    assert_eq!(cm.cursor_col, 0);
    let last = state_of(copy_mode_word_motion(Some(at(0, 8)), line, WordMotion::NextStart));
    assert_eq!(last.cursor_col, 8);
}

#[test]
fn word_motions_count_cells() {
    let cm = state_of(copy_mode_word_motion(Some(at(0, 0)), "中文 ab", WordMotion::NextStart));
    assert_eq!(cm.cursor_col, 5);
}

#[test]
fn first_non_blank() {
    assert_eq!(state_of(copy_mode_first_non_blank(Some(at(0, 6)), "   abc")).cursor_col, 3);
    assert_eq!(state_of(copy_mode_first_non_blank(Some(at(2, 2)), "bar")).cursor_col, 0);
    assert_eq!(state_of(copy_mode_first_non_blank(Some(at(0, 2)), "   ")).cursor_col, 0);
}

fn screen() -> Vec<String> {
    ["foo", "", "bar", "", "", "baz", "qux"].iter().map(|s| s.to_string()).collect()
}

#[test]
fn shifted_punctuation_keys_drive_first_non_blank_and_paragraphs() {
    let rows = screen();
    let mut cm = at(2, 2);
    // Shift+6 is `^`.
    let ch = copy_mode_command_char('6', true, false, None).unwrap();
    assert_eq!(copy_mode_char_command(Some(cm), ch), CopyCommand::FirstNonBlank);
    cm = state_of(copy_mode_first_non_blank(Some(cm), rows[2].as_str()));
    assert_eq!(cm.cursor_col, 0);
    // Shift+] is `}`.
    let ch = copy_mode_command_char(']', true, false, None).unwrap();
    assert_eq!(copy_mode_char_command(Some(cm), ch), CopyCommand::Paragraph(1));
    cm = state_of(copy_mode_paragraph(Some(cm), &rows, 1));
    assert_eq!(cm.cursor_row, 3);
    // Shift+[ is `{`.
    let ch = copy_mode_command_char('[', true, false, None).unwrap();
    assert_eq!(copy_mode_char_command(Some(cm), ch), CopyCommand::Paragraph(-1));
    cm = state_of(copy_mode_paragraph(Some(cm), &rows, -1));
    assert_eq!(cm.cursor_row, 1);
    // The shifted character the terminal reports wins.
    let ch = copy_mode_command_char(']', true, false, Some('}')).unwrap();
    assert_eq!(ch, '}');
    cm = state_of(copy_mode_paragraph(Some(cm), &rows, 1));
    assert_eq!(cm.cursor_row, 3);
}

#[test]
fn paragraph_edges() {
    let rows = screen();
    assert_eq!(state_of(copy_mode_paragraph(Some(at(5, 0)), &rows, 1)).cursor_row, 6);
    assert_eq!(state_of(copy_mode_paragraph(Some(at(0, 0)), &rows, -1)).cursor_row, 0);
    assert_eq!(state_of(copy_mode_paragraph(Some(at(3, 0)), &rows, 1)).cursor_row, 6);
    assert_eq!(copy_mode_paragraph(Some(at(9, 0)), &rows, 1), CopyModeStep::Unchanged);
}

#[test]
fn command_chars() {
    assert_eq!(copy_mode_command_char('v', true, false, None), Some('V'));
    assert_eq!(copy_mode_command_char('v', false, false, None), Some('v'));
    assert_eq!(copy_mode_command_char('F', true, false, None), Some('F'));
    assert_eq!(copy_mode_command_char('b', false, true, None), None);
}

#[test]
fn blank_lines() {
    assert!(is_blank_line(""));
    assert!(is_blank_line(" \t "));
    assert!(!is_blank_line("  x"));
}

#[test]
fn escape_while_selecting_goes_back_to_navigate() {
    let rect = PaneRect { x: 0, y: 0, width: 10, height: 5 };
    let (selecting, anchor) = start_selecting(Some(at(1, 2)), Some(rect), None).unwrap();
    assert_eq!(selecting.substate, CopyModeSubState::Selecting);
    assert_eq!(selecting.selection, Some(CopyModeSelection::Character));
    assert_eq!(anchor, Some(SelectionAnchor { pane_id: 1, row: 1, col: 2, metrics: None }));
    let back = state_of(clear_selection_step(Some(selecting)));
    assert_eq!(back.substate, CopyModeSubState::Navigate);
    assert_eq!((back.cursor_row, back.cursor_col), (1, 2));
    assert_eq!(clear_selection_step(None), CopyModeStep::Unchanged);
}

#[test]
fn start_selecting_outside_pane_still_selects_mode() {
    let rect = PaneRect { x: 0, y: 0, width: 10, height: 5 };
    let (state, anchor) = start_selecting(Some(at(7, 2)), Some(rect), None).unwrap();
    assert_eq!(state.substate, CopyModeSubState::Selecting);
    assert_eq!(state.selection, None);
    assert_eq!(anchor, None);
    assert_eq!(start_selecting(None, Some(rect), None), None);
}

#[test]
fn selection_follows_cursor() {
    let rect = PaneRect { x: 0, y: 0, width: 10, height: 5 };
    let mut cm = at(2, 3);
    assert_eq!(sync_copy_mode_selection(Some(cm), Some(rect), 40), SelectionSync::Keep);
    cm.selection = Some(CopyModeSelection::Character);
    assert_eq!(
        sync_copy_mode_selection(Some(cm), Some(rect), 40),
        SelectionSync::ExtendTo { pane_id: 1, row: 2, col: 3 }
    );
    cm.selection = Some(CopyModeSelection::Linewise { anchor_row: 42 });
    assert_eq!(
        sync_copy_mode_selection(Some(cm), Some(rect), 40),
        SelectionSync::Lines(LineSelection { pane_id: 1, start_row: 40, end_row: 42, end_col: 9 })
    );
    assert_eq!(
        sync_copy_mode_selection(Some(cm), Some(rect), 45),
        SelectionSync::Lines(LineSelection { pane_id: 1, start_row: 42, end_row: 45, end_col: 9 })
    );
}

#[test]
fn find_kinds_reach_their_columns_with_wide_chars() {
    let line = "中a中b";
    assert_eq!(find(at(0, 0), 'f', 'b', line).cursor_col, 5);
    assert_eq!(find(at(0, 0), 't', 'b', line).cursor_col, 4);
    assert_eq!(find(at(0, 5), 'F', 'a', line).cursor_col, 2);
    assert_eq!(find(at(0, 5), 'T', 'a', line).cursor_col, 3);
}
