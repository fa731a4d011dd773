//! Copy mode: a keyboard cursor over a pane's visible rows and scrollback.
//!
//! The decisions of copy mode are functions from the copy-mode state, the
//! pane's geometry and its scroll position to the next state and the scroll
//! the pane has to perform. Running the scroll, keeping the selection in step
//! and looking panes up is left to the caller.

use vstd::prelude::*;

use crate::cursor::{cell_width, lemma_prefix_cells_monotone, prefix_cells};

verus! {

/// Whether copy mode is moving the cursor or extending a selection.
#[derive(Clone, Copy, Debug, PartialEq, Eq, Structural)]
pub enum CopyModeSubState {
    Navigate,
    Selecting,
}

/// The kind of selection copy mode has started.
#[derive(Clone, Copy, Debug, PartialEq, Eq, Structural)]
pub enum CopyModeSelection {
    /// Character-wise, from an anchor cell to the cursor.
    Character,
    /// Whole lines, from the absolute row where it started to the cursor's.
    Linewise { anchor_row: usize },
}

/// A pending find-character motion (`f`, `F`, `t`, `T`).
#[derive(Clone, Copy, Debug, PartialEq, Eq, Structural)]
pub enum CopyModeFindKind {
    Forward,
    Backward,
    TillForward,
    TillBackward,
}

/// The word motions (`w`, `b`, `e`).
#[derive(Clone, Copy, Debug, PartialEq, Eq, Structural)]
pub enum WordMotion {
    NextStart,
    PreviousStart,
    NextEnd,
}

/// The state of copy mode on one pane.
#[derive(Clone, Copy, Debug, PartialEq, Eq, Structural)]
pub struct CopyModeState {
    /// The pane copy mode was entered on.
    pub pane_id: u64,
    /// The cursor's row within the pane's visible rows.
    pub cursor_row: u16,
    /// The cursor's column within the pane.
    pub cursor_col: u16,
    /// The pane's scroll offset when copy mode was entered, restored on exit.
    pub entry_offset_from_bottom: usize,
    pub selection: Option<CopyModeSelection>,
    pub substate: CopyModeSubState,
    pub find: Option<CopyModeFindKind>,
}

/// A rectangle of terminal cells.
#[derive(Clone, Copy, Debug, PartialEq, Eq, Structural)]
pub struct PaneRect {
    pub x: u16,
    pub y: u16,
    pub width: u16,
    pub height: u16,
}

/// How far a pane is scrolled back from its live bottom, and how far it can be.
#[derive(Clone, Copy, Debug, PartialEq, Eq, Structural)]
pub struct ScrollMetrics {
    pub offset_from_bottom: usize,
    pub max_offset_from_bottom: usize,
}

/// The terminal's own cursor, in screen coordinates.
#[derive(Clone, Copy, Debug, PartialEq, Eq, Structural)]
pub struct TerminalCursor {
    pub x: u16,
    pub y: u16,
    pub visible: bool,
}

/// The input mode the application is in.
#[derive(Clone, Copy, Debug, PartialEq, Eq, Structural)]
pub enum Mode {
    Navigate,
    Terminal,
    Prefix,
    Copy,
}

/// A scroll the pane has to perform.
#[derive(Clone, Copy, Debug, PartialEq, Eq, Structural)]
pub enum PaneScroll {
    /// No scroll.
    Stay,
    /// Scroll back into history by this many lines.
    Up(usize),
    /// Scroll toward the live bottom by this many lines.
    Down(usize),
    /// Set the offset from the live bottom.
    ToOffset(usize),
}

/// The outcome of a copy-mode motion.
#[derive(Clone, Copy, Debug, PartialEq, Eq, Structural)]
pub enum CopyModeStep {
    /// Nothing changes (copy mode is off, or the motion does not apply).
    Unchanged,
    /// The pane is gone: copy mode ends without copying.
    Exit,
    /// The new state, and the scroll to perform; the selection then follows
    /// the cursor.
    Update { state: CopyModeState, scroll: PaneScroll },
}

/// What leaving copy mode does.
#[derive(Clone, Copy, Debug, PartialEq, Eq, Structural)]
pub struct CopyModeExit {
    /// Copy the selection (otherwise clear it).
    pub copy_selection: bool,
    /// The pane and offset to scroll back to.
    pub restore_scroll: Option<ScrollRestore>,
    /// The mode to return to.
    pub mode: Mode,
}

/// A pane and the offset from its live bottom to scroll it to.
#[derive(Clone, Copy, Debug, PartialEq, Eq, Structural)]
pub struct ScrollRestore {
    pub pane_id: u64,
    pub offset_from_bottom: usize,
}

/// The cell where a character-wise selection starts.
#[derive(Clone, Copy, Debug, PartialEq, Eq, Structural)]
pub struct SelectionAnchor {
    pub pane_id: u64,
    pub row: u16,
    pub col: u16,
    /// The pane's scroll position when the selection starts, which places
    /// the anchor row in the scrollback.
    pub metrics: Option<ScrollMetrics>,
}

/// How the application's selection follows the copy-mode cursor.
#[derive(Clone, Copy, Debug, PartialEq, Eq, Structural)]
pub enum SelectionSync {
    /// There is no selection to update.
    Keep,
    /// A character-wise selection now ends at this cell of the pane.
    ExtendTo { pane_id: u64, row: u16, col: u16 },
    /// A whole-line selection now covers these rows.
    Lines(LineSelection),
}

/// A whole-line selection over absolute rows.
#[derive(Clone, Copy, Debug, PartialEq, Eq, Structural)]
pub struct LineSelection {
    pub pane_id: u64,
    pub start_row: usize,
    pub end_row: usize,
    pub end_col: u16,
}

/// A key, as copy mode sees it.
#[derive(Clone, Copy, Debug, PartialEq, Eq, Structural)]
pub enum CopyKeyCode {
    Esc,
    Enter,
    Left,
    Right,
    Up,
    Down,
    PageUp,
    PageDown,
    Home,
    End,
    Char(char),
    Other,
}

/// A copy-mode command that a key stands for.
#[derive(Clone, Copy, Debug, PartialEq, Eq, Structural)]
pub enum CopyCommand {
    /// Drop the selection and go back to navigating, staying in copy mode.
    ClearSelection,
    /// Leave copy mode, copying the selection or not.
    Exit { copy: bool },
    /// Move the cursor by rows and columns.
    Move { row_delta: i16, col_delta: i16 },
    /// Scroll a page (or half a page) up (`-1`) or down (`1`).
    Page { direction: i16, half_page: bool },
    /// Go to the first or last column.
    LineEdge { end: bool },
    /// Start a character-wise selection at the cursor.
    BeginSelection,
    /// Select the cursor's line.
    SelectLine,
    HistoryTop,
    HistoryBottom,
    FirstNonBlank,
    Word(WordMotion),
    /// Wait for the character to find.
    Find(CopyModeFindKind),
    /// The character that a pending find looks for.
    FindChar(char),
    /// Move by paragraphs up (`-1`) or down (`1`).
    Paragraph(i16),
    /// The key does nothing.
    Nothing,
}

/// Where a key event goes while copy mode is active.
#[derive(Clone, Copy, Debug, PartialEq, Eq, Structural)]
pub enum CopyKeyRoute {
    /// A key release: nothing happens.
    Ignore,
    /// The prefix key: the application switches to prefix mode, copy mode
    /// stays as it is.
    Prefix,
    /// Copy mode handles the key.
    Handle,
}

/// How a key is handled before its command character is looked at.
#[derive(Clone, Copy, Debug, PartialEq, Eq, Structural)]
pub enum KeyDispatch {
    /// The key is handled by this command alone.
    Done(CopyCommand),
    /// Run this command, if any, then handle the key's command character.
    Continue(Option<CopyCommand>),
}

// ---------------------------------------------------------------------------
// Model
// ---------------------------------------------------------------------------

/// `a - b`, or zero when `b` is larger.
pub open spec fn sub_or_zero(a: int, b: int) -> int {
    if a >= b {
        a - b
    } else {
        0
    }
}

/// The smaller of two values.
pub open spec fn min_int(a: int, b: int) -> int {
    if a <= b {
        a
    } else {
        b
    }
}

/// The cursor lies on a cell of the pane.
pub open spec fn cursor_in_pane(state: CopyModeState, rect: PaneRect) -> bool {
    state.cursor_row < rect.height && state.cursor_col < rect.width
}

/// The state copy mode starts in on a pane of the given size: the terminal's
/// cursor when it is visible (clamped into the pane), else the bottom-left
/// cell.
pub open spec fn entered_state(
    pane_id: u64,
    rect: PaneRect,
    cursor: Option<TerminalCursor>,
    entry_offset: usize,
) -> CopyModeState {
    let (row, col) = match cursor {
        Some(c) => if c.visible {
            (sub_or_zero(c.y as int, rect.y as int), sub_or_zero(c.x as int, rect.x as int))
        } else {
            (sub_or_zero(rect.height as int, 1), 0)
        },
        None => (sub_or_zero(rect.height as int, 1), 0),
    };
    CopyModeState {
        pane_id,
        cursor_row: min_int(row, sub_or_zero(rect.height as int, 1)) as u16,
        cursor_col: min_int(col, sub_or_zero(rect.width as int, 1)) as u16,
        entry_offset_from_bottom: entry_offset,
        selection: None,
        substate: CopyModeSubState::Navigate,
        find: None,
    }
}

/// The cursor column after moving by `delta` columns in a pane `width` wide.
pub open spec fn col_after_move(col: int, width: int, delta: int) -> int {
    if delta < 0 {
        sub_or_zero(col, -delta)
    } else if delta > 0 {
        min_int(col + delta, sub_or_zero(width, 1))
    } else {
        col
    }
}

/// The cursor row after moving by `delta` rows in a pane `height` tall.
pub open spec fn row_after_move(row: int, height: int, delta: int) -> int {
    if delta < 0 {
        sub_or_zero(row, -delta)
    } else if delta > 0 {
        if row + delta <= sub_or_zero(height, 1) {
            row + delta
        } else {
            sub_or_zero(height, 1)
        }
    } else {
        row
    }
}

/// The scroll a row move needs: past the top or bottom row, the pane scrolls
/// by the whole move.
pub open spec fn scroll_for_move(row: int, height: int, delta: int) -> PaneScroll {
    if delta < 0 && row < -delta {
        PaneScroll::Up((-delta) as usize)
    } else if delta > 0 && row + delta > sub_or_zero(height, 1) {
        PaneScroll::Down(delta as usize)
    } else {
        PaneScroll::Stay
    }
}

/// The outcome of moving the cursor.
pub open spec fn move_step(
    copy_mode: Option<CopyModeState>,
    rect: Option<PaneRect>,
    row_delta: i16,
    col_delta: i16,
) -> CopyModeStep {
    match copy_mode {
        None => CopyModeStep::Unchanged,
        Some(cm) => match rect {
            None => CopyModeStep::Exit,
            Some(r) => CopyModeStep::Update {
                state: CopyModeState {
                    cursor_row: row_after_move(
                        cm.cursor_row as int,
                        r.height as int,
                        row_delta as int,
                    ) as u16,
                    cursor_col: col_after_move(
                        cm.cursor_col as int,
                        r.width as int,
                        col_delta as int,
                    ) as u16,
                    ..cm
                },
                scroll: scroll_for_move(cm.cursor_row as int, r.height as int, row_delta as int),
            },
        },
    }
}

/// The lines of one page scroll, as tmux pages: two rows short of the height
/// (at least one), or half the height.
pub open spec fn page_lines(height: int, half_page: bool) -> usize {
    if half_page {
        (height / 2) as usize
    } else if height > 2 {
        (height - 2) as usize
    } else {
        1
    }
}

/// The lines of one page scroll on a pane, if there is one.
pub open spec fn page_lines_for(rect: Option<PaneRect>, half_page: bool) -> usize {
    match rect {
        Some(r) => page_lines(r.height as int, half_page),
        None => 0,
    }
}

/// The outcome of scrolling `lines` lines up (`direction < 0`) or down.
/// Where the history top or the live bottom stops the scroll, the cursor
/// moves by the lines that could not be scrolled. (The offset it aims for
/// saturates at `usize::MAX`.)
pub open spec fn page_step(
    copy_mode: Option<CopyModeState>,
    rect: Option<PaneRect>,
    metrics: Option<ScrollMetrics>,
    direction: i16,
    lines: usize,
) -> CopyModeStep {
    match copy_mode {
        None => CopyModeStep::Unchanged,
        Some(cm) => match rect {
            None => CopyModeStep::Exit,
            Some(r) => match metrics {
                None => CopyModeStep::Update {
                    state: cm,
                    scroll: if direction < 0 {
                        PaneScroll::Up(lines)
                    } else {
                        PaneScroll::Down(lines)
                    },
                },
                Some(m) => {
                    let off = m.offset_from_bottom as int;
                    let max = m.max_offset_from_bottom as int;
                    let next = min_int(off + lines, usize::MAX as int);
                    if direction < 0 {
                        if next > max {
                            let cursor_lines = sub_or_zero(lines as int, sub_or_zero(max, off));
                            CopyModeStep::Update {
                                state: CopyModeState {
                                    cursor_row: sub_or_zero(
                                        cm.cursor_row as int,
                                        cursor_lines,
                                    ) as u16,
                                    ..cm
                                },
                                scroll: PaneScroll::ToOffset(m.max_offset_from_bottom),
                            }
                        } else {
                            CopyModeStep::Update {
                                state: cm,
                                scroll: PaneScroll::ToOffset(next as usize),
                            }
                        }
                    } else if off < lines {
                        let cursor_lines = lines - off;
                        CopyModeStep::Update {
                            state: CopyModeState {
                                cursor_row: min_int(
                                    cm.cursor_row + cursor_lines,
                                    sub_or_zero(r.height as int, 1),
                                ) as u16,
                                ..cm
                            },
                            scroll: PaneScroll::ToOffset(0),
                        }
                    } else {
                        CopyModeStep::Update {
                            state: cm,
                            scroll: PaneScroll::ToOffset((off - lines) as usize),
                        }
                    }
                },
            },
        },
    }
}

/// The outcome of going to the top of the scrollback.
pub open spec fn history_top_step(copy_mode: Option<CopyModeState>, metrics: Option<ScrollMetrics>) -> CopyModeStep {
    match (copy_mode, metrics) {
        (Some(cm), Some(m)) => CopyModeStep::Update {
            state: CopyModeState { cursor_row: 0, ..cm },
            scroll: PaneScroll::ToOffset(m.max_offset_from_bottom),
        },
        _ => CopyModeStep::Unchanged,
    }
}

/// The outcome of going to the live bottom.
pub open spec fn history_bottom_step(copy_mode: Option<CopyModeState>, rect: Option<PaneRect>) -> CopyModeStep {
    match (copy_mode, rect) {
        (None, _) => CopyModeStep::Unchanged,
        (Some(_), None) => CopyModeStep::Exit,
        (Some(cm), Some(r)) => CopyModeStep::Update {
            state: CopyModeState { cursor_row: sub_or_zero(r.height as int, 1) as u16, ..cm },
            scroll: PaneScroll::ToOffset(0),
        },
    }
}

/// The outcome of going to the first or last column.
pub open spec fn line_edge_step(copy_mode: Option<CopyModeState>, rect: Option<PaneRect>, end: bool) -> CopyModeStep {
    match (copy_mode, rect) {
        (None, _) => CopyModeStep::Unchanged,
        (Some(_), None) => CopyModeStep::Exit,
        (Some(cm), Some(r)) => CopyModeStep::Update {
            state: CopyModeState {
                cursor_col: if end {
                    sub_or_zero(r.width as int, 1) as u16
                } else {
                    0
                },
                ..cm
            },
            scroll: PaneScroll::Stay,
        },
    }
}

/// The outcome of leaving copy mode.
pub open spec fn exit_plan(copy_mode: Option<CopyModeState>, copy: bool, has_active_workspace: bool) -> CopyModeExit {
    CopyModeExit {
        copy_selection: copy,
        restore_scroll: match copy_mode {
            Some(cm) => Some(
                ScrollRestore { pane_id: cm.pane_id, offset_from_bottom: cm.entry_offset_from_bottom },
            ),
            None => None,
        },
        mode: if has_active_workspace {
            Mode::Terminal
        } else {
            Mode::Navigate
        },
    }
}

/// The command for a key that copy mode handles before anything else, if
/// the key is one of them.
pub open spec fn special_key_command(copy_mode: Option<CopyModeState>, code: CopyKeyCode) -> Option<
    CopyCommand,
> {
    match code {
        CopyKeyCode::Esc => match copy_mode {
            Some(cm) => if cm.substate == CopyModeSubState::Selecting {
                Some(CopyCommand::ClearSelection)
            } else {
                Some(CopyCommand::Exit { copy: false })
            },
            None => Some(CopyCommand::Exit { copy: false }),
        },
        CopyKeyCode::Enter => Some(CopyCommand::Exit { copy: true }),
        CopyKeyCode::Left => Some(CopyCommand::Move { row_delta: 0, col_delta: -1i16 }),
        CopyKeyCode::Down => Some(CopyCommand::Move { row_delta: 1, col_delta: 0 }),
        CopyKeyCode::Up => Some(CopyCommand::Move { row_delta: -1i16, col_delta: 0 }),
        CopyKeyCode::Right => Some(CopyCommand::Move { row_delta: 0, col_delta: 1 }),
        CopyKeyCode::PageUp => Some(CopyCommand::Page { direction: -1i16, half_page: false }),
        CopyKeyCode::PageDown => Some(CopyCommand::Page { direction: 1, half_page: false }),
        CopyKeyCode::Home => Some(CopyCommand::LineEdge { end: false }),
        CopyKeyCode::End => Some(CopyCommand::LineEdge { end: true }),
        _ => None,
    }
}

/// The page command of a control key (`Ctrl-b`, `Ctrl-f`, `Ctrl-u`, `Ctrl-d`).
pub open spec fn control_key_command(code: CopyKeyCode, ctrl: bool) -> Option<CopyCommand> {
    if !ctrl {
        None
    } else {
        match code {
            CopyKeyCode::Char(c) => if c == 'b' {
                Some(CopyCommand::Page { direction: -1i16, half_page: false })
            } else if c == 'f' {
                Some(CopyCommand::Page { direction: 1, half_page: false })
            } else if c == 'u' {
                Some(CopyCommand::Page { direction: -1i16, half_page: true })
            } else if c == 'd' {
                Some(CopyCommand::Page { direction: 1, half_page: true })
            } else {
                None
            },
            _ => None,
        }
    }
}

/// The command of a command character.
pub open spec fn char_command(ch: char) -> CopyCommand {
    if ch == 'q' || ch == 'A' {
        CopyCommand::Exit { copy: false }
    } else if ch == 'y' {
        CopyCommand::Exit { copy: true }
    } else if ch == 'v' || ch == ' ' {
        CopyCommand::BeginSelection
    } else if ch == 'V' {
        CopyCommand::SelectLine
    } else if ch == 'h' {
        CopyCommand::Move { row_delta: 0, col_delta: -1i16 }
    } else if ch == 'j' {
        CopyCommand::Move { row_delta: 1, col_delta: 0 }
    } else if ch == 'k' {
        CopyCommand::Move { row_delta: -1i16, col_delta: 0 }
    } else if ch == 'l' {
        CopyCommand::Move { row_delta: 0, col_delta: 1 }
    } else if ch == 'g' {
        CopyCommand::HistoryTop
    } else if ch == 'G' {
        CopyCommand::HistoryBottom
    } else if ch == '0' {
        CopyCommand::LineEdge { end: false }
    } else if ch == '$' {
        CopyCommand::LineEdge { end: true }
    } else if ch == '^' {
        CopyCommand::FirstNonBlank
    } else if ch == 'w' || ch == 'W' {
        CopyCommand::Word(WordMotion::NextStart)
    } else if ch == 'b' || ch == 'B' {
        CopyCommand::Word(WordMotion::PreviousStart)
    } else if ch == 'e' || ch == 'E' {
        CopyCommand::Word(WordMotion::NextEnd)
    } else if ch == 'f' {
        CopyCommand::Find(CopyModeFindKind::Forward)
    } else if ch == 'F' {
        CopyCommand::Find(CopyModeFindKind::Backward)
    } else if ch == 't' {
        CopyCommand::Find(CopyModeFindKind::TillForward)
    } else if ch == 'T' {
        CopyCommand::Find(CopyModeFindKind::TillBackward)
    } else if ch == '{' {
        CopyCommand::Paragraph(-1i16)
    } else if ch == '}' {
        CopyCommand::Paragraph(1)
    } else {
        CopyCommand::Nothing
    }
}


/// Scanning from index `i`, the first character that is `target` and starts
/// at a column past `cursor`.
pub open spec fn find_forward_from(s: Seq<char>, cursor: int, target: char, i: int) -> Option<int>
    decreases s.len() - i,
{
    if i < 0 || i >= s.len() {
        None
    } else if s[i] == target && prefix_cells(s, i) > cursor {
        Some(i)
    } else {
        find_forward_from(s, cursor, target, i + 1)
    }
}

/// Among the characters before index `i`, the last one that is `target` and
/// starts at a column before `cursor`.
pub open spec fn find_backward_before(s: Seq<char>, cursor: int, target: char, i: int) -> Option<
    int,
>
    decreases i,
{
    if i <= 0 || i > s.len() {
        None
    } else if s[i - 1] == target && prefix_cells(s, i - 1) < cursor {
        Some(i - 1)
    } else {
        find_backward_before(s, cursor, target, i - 1)
    }
}

/// The column of the nearest `target` to the right of column `cursor`.
pub open spec fn forward_find_column(s: Seq<char>, cursor: int, target: char) -> Option<int> {
    match find_forward_from(s, cursor, target, 0) {
        Some(k) => Some(prefix_cells(s, k) as int),
        None => None,
    }
}

/// The column of the nearest `target` to the left of column `cursor`.
pub open spec fn backward_find_column(s: Seq<char>, cursor: int, target: char) -> Option<int> {
    match find_backward_before(s, cursor, target, s.len() as int) {
        Some(k) => Some(prefix_cells(s, k) as int),
        None => None,
    }
}

/// A column as a `usize`, or `None` where it does not fit.
pub open spec fn column_in_range(col: Option<int>) -> Option<usize> {
    match col {
        Some(c) => if 0 <= c <= usize::MAX {
            Some(c as usize)
        } else {
            None
        },
        None => None,
    }
}

proof fn lemma_find_forward_from(s: Seq<char>, cursor: int, target: char, i: int)
    requires
        0 <= i,
    ensures
        find_forward_from(s, cursor, target, i) matches Some(k) ==> i <= k < s.len() && s[k]
            == target && prefix_cells(s, k) > cursor,
        forall|j: int|
            i <= j < s.len() && s[j] == target && prefix_cells(s, j) > cursor ==> (
            find_forward_from(s, cursor, target, i) matches Some(k) && k <= j),
    decreases s.len() - i,
{
    if i < s.len() && !(s[i] == target && prefix_cells(s, i) > cursor) {
        lemma_find_forward_from(s, cursor, target, i + 1);
    }
}

/// No match among indices `i..j` leaves the backward search where it was.
proof fn lemma_find_backward_skip(s: Seq<char>, cursor: int, target: char, i: int, j: int)
    requires
        0 <= i <= j <= s.len(),
        forall|k: int| i <= k < j ==> prefix_cells(s, k) >= cursor,
    ensures
        find_backward_before(s, cursor, target, j) == find_backward_before(s, cursor, target, i),
    decreases j - i,
{
    if i < j {
        lemma_find_backward_skip(s, cursor, target, i, j - 1);
    }
}

/// A forward find lands on a column past the cursor.
pub proof fn lemma_forward_find_after(s: Seq<char>, cursor: int, target: char)
    ensures
        forward_find_column(s, cursor, target) matches Some(c) ==> c > cursor,
{
    lemma_find_forward_from(s, cursor, target, 0);
}

proof fn lemma_find_backward_before(s: Seq<char>, cursor: int, target: char, i: int)
    requires
        0 <= i <= s.len(),
    ensures
        find_backward_before(s, cursor, target, i) matches Some(k) ==> 0 <= k < i && s[k]
            == target && prefix_cells(s, k) < cursor,
        forall|j: int|
            0 <= j < i && s[j] == target && prefix_cells(s, j) < cursor ==> (find_backward_before(
                s,
                cursor,
                target,
                i,
            ) matches Some(k) && j <= k),
    decreases i,
{
    if i > 0 && !(s[i - 1] == target && prefix_cells(s, i - 1) < cursor) {
        lemma_find_backward_before(s, cursor, target, i - 1);
    }
}

/// A backward find lands on a column before the cursor.
pub proof fn lemma_backward_find_before(s: Seq<char>, cursor: int, target: char)
    ensures
        backward_find_column(s, cursor, target) matches Some(c) ==> 0 <= c < cursor,
{
    lemma_find_backward_before(s, cursor, target, s.len() as int);
}

/// A forward find (`f`) lands on the nearest column right of the cursor
/// where the character starts: the character is there, it is past the
/// cursor, and no occurrence past the cursor starts before it. Without an
/// occurrence past the cursor there is no column.
pub proof fn lemma_forward_find_nearest(s: Seq<char>, cursor: int, ch: char)
    ensures
        forward_find_column(s, cursor, ch) matches Some(c) ==> {
            &&& c > cursor
            &&& exists|k: int| 0 <= k < s.len() && s[k] == ch && prefix_cells(s, k) == c
            &&& forall|j: int|
                0 <= j < s.len() && s[j] == ch && prefix_cells(s, j) > cursor ==> prefix_cells(s, j)
                    >= c
        },
        forward_find_column(s, cursor, ch) is None ==> forall|j: int|
            0 <= j < s.len() && s[j] == ch ==> prefix_cells(s, j) <= cursor,
{
    lemma_find_forward_from(s, cursor, ch, 0);
    if let Some(k) = find_forward_from(s, cursor, ch, 0) {
        assert forall|j: int|
            0 <= j < s.len() && s[j] == ch && prefix_cells(s, j) > cursor implies prefix_cells(
            s,
            j,
        ) >= prefix_cells(s, k) by {
            lemma_prefix_cells_monotone(s, k, j);
        }
    }
}

/// A backward find (`F`) lands on the nearest column left of the cursor
/// where the character starts: the character is there, it is before the
/// cursor, and no occurrence before the cursor starts after it. Without an
/// occurrence before the cursor there is no column.
pub proof fn lemma_backward_find_nearest(s: Seq<char>, cursor: int, ch: char)
    ensures
        backward_find_column(s, cursor, ch) matches Some(c) ==> {
            &&& c < cursor
            &&& exists|k: int| 0 <= k < s.len() && s[k] == ch && prefix_cells(s, k) == c
            &&& forall|j: int|
                0 <= j < s.len() && s[j] == ch && prefix_cells(s, j) < cursor ==> prefix_cells(s, j)
                    <= c
        },
        backward_find_column(s, cursor, ch) is None ==> forall|j: int|
            0 <= j < s.len() && s[j] == ch ==> prefix_cells(s, j) >= cursor,
{
    lemma_find_backward_before(s, cursor, ch, s.len() as int);
    if let Some(k) = find_backward_before(s, cursor, ch, s.len() as int) {
        assert forall|j: int|
            0 <= j < s.len() && s[j] == ch && prefix_cells(s, j) < cursor implies prefix_cells(
            s,
            j,
        ) <= prefix_cells(s, k) by {
            lemma_prefix_cells_monotone(s, j, k);
        }
    }
}

// ---------------------------------------------------------------------------
// Executable code
// ---------------------------------------------------------------------------

/// `min(a, b)` on rows and columns.
fn min_u16(a: u16, b: u16) -> (m: u16)
    ensures
        m == min_int(a as int, b as int),
{
    if a <= b {
        a
    } else {
        b
    }
}

/// The column of the nearest `target` to the right of column `cursor_col`
/// on `line` (the find motion `f`). `None` when there is none, or where its
/// column would not fit in a `usize`.
pub fn forward_find_col(line: &str, cursor_col: usize, target: char) -> (res: Option<usize>)
    ensures
        res == column_in_range(forward_find_column(line@, cursor_col as int, target)),
{
    let ghost s = line@;
    let n = line.unicode_len();
    let mut i: usize = 0;
    let mut col: usize = 0;
    while i < n
        invariant
            s == line@,
            n == s.len(),
            i <= n,
            col == prefix_cells(s, i as int),
            find_forward_from(s, cursor_col as int, target, 0) == find_forward_from(
                s,
                cursor_col as int,
                target,
                i as int,
            ),
        decreases n - i,
    {
        let ch = line.get_char(i);
        if ch == target && col > cursor_col {
            return Some(col);
        }
        let w = cell_width(ch);
        match col.checked_add(w) {
            Some(next) => {
                col = next;
            },
            None => {
                proof {
                    lemma_find_forward_from(s, cursor_col as int, target, i + 1);
                    if let Some(k) = find_forward_from(s, cursor_col as int, target, i + 1) {
                        lemma_prefix_cells_monotone(s, i + 1, k);
                    }
                }
                return None;
            },
        }
        i = i + 1;
    }
    None
}

/// The column of the nearest `target` to the left of column `cursor_col` on
/// `line` (the find motion `F`), or `None` when there is none.
pub fn backward_find_col(line: &str, cursor_col: usize, target: char) -> (res: Option<usize>)
    ensures
        res == column_in_range(backward_find_column(line@, cursor_col as int, target)),
{
    let ghost s = line@;
    let n = line.unicode_len();
    let mut i: usize = 0;
    let mut col: usize = 0;
    let mut last: Option<usize> = None;
    while i < n && col < cursor_col
        invariant
            s == line@,
            n == s.len(),
            i <= n,
            col == min_int(prefix_cells(s, i as int) as int, usize::MAX as int),
            last == column_in_range(
                match find_backward_before(s, cursor_col as int, target, i as int) {
                    Some(k) => Some(prefix_cells(s, k) as int),
                    None => None,
                },
            ),
        decreases n - i,
    {
        let ch = line.get_char(i);
        if ch == target {
            last = Some(col);
        }
        col = col.saturating_add(cell_width(ch));
        i = i + 1;
    }
    proof {
        assert forall|k: int| i <= k < n implies prefix_cells(s, k) >= cursor_col by {
            lemma_prefix_cells_monotone(s, i as int, k);
        }
        lemma_find_backward_skip(s, cursor_col as int, target, i as int, n as int);
    }
    last
}

/// The copy-mode state for entering copy mode on a pane, or `None` for a
/// pane without cells.
pub fn enter_copy_mode(
    pane_id: u64,
    inner_rect: PaneRect,
    cursor: Option<TerminalCursor>,
    entry_offset_from_bottom: usize,
) -> (res: Option<CopyModeState>)
    ensures
        inner_rect.width == 0 || inner_rect.height == 0 ==> res is None,
        inner_rect.width > 0 && inner_rect.height > 0 ==> res == Some(
            entered_state(pane_id, inner_rect, cursor, entry_offset_from_bottom),
        ),
{
    if inner_rect.width == 0 || inner_rect.height == 0 {
        return None;
    }
    let bottom = inner_rect.height.saturating_sub(1);
    let (row, col) = match cursor {
        Some(c) => if c.visible {
            (c.y.saturating_sub(inner_rect.y), c.x.saturating_sub(inner_rect.x))
        } else {
            (bottom, 0)
        },
        None => (bottom, 0),
    };
    Some(
        CopyModeState {
            pane_id,
            cursor_row: min_u16(row, bottom),
            cursor_col: min_u16(col, inner_rect.width.saturating_sub(1)),
            entry_offset_from_bottom,
            selection: None,
            substate: CopyModeSubState::Navigate,
            find: None,
        },
    )
}

/// Leaving copy mode: copy or clear the selection, scroll the pane back to
/// where copy mode was entered, and return to the terminal (or to
/// navigation when no workspace is active).
pub fn exit_copy_mode(copy_mode: Option<CopyModeState>, copy: bool, has_active_workspace: bool) -> (res:
    CopyModeExit)
    ensures
        res == exit_plan(copy_mode, copy, has_active_workspace),
{
    let restore_scroll = match copy_mode {
        Some(cm) => Some(
            ScrollRestore { pane_id: cm.pane_id, offset_from_bottom: cm.entry_offset_from_bottom },
        ),
        None => None,
    };
    CopyModeExit {
        copy_selection: copy,
        restore_scroll,
        mode: if has_active_workspace {
            Mode::Terminal
        } else {
            Mode::Navigate
        },
    }
}

/// Leaving copy mode without copying.
pub fn cancel_copy_mode(copy_mode: Option<CopyModeState>, has_active_workspace: bool) -> (res:
    CopyModeExit)
    ensures
        res == exit_plan(copy_mode, false, has_active_workspace),
{
    exit_copy_mode(copy_mode, false, has_active_workspace)
}

/// Starting a character-wise selection at the cursor: the anchor cell (with
/// the pane's scroll position) and the new state, or `None` (nothing
/// changes) without copy mode, without the pane, or with the cursor outside
/// the pane.
pub fn begin_copy_mode_selection(
    copy_mode: Option<CopyModeState>,
    rect: Option<PaneRect>,
    metrics: Option<ScrollMetrics>,
) -> (res: Option<(CopyModeState, SelectionAnchor)>)
    ensures
        match (copy_mode, rect) {
            (Some(cm), Some(r)) => if cursor_in_pane(cm, r) {
                res == Some(
                    (
                        CopyModeState { selection: Some(CopyModeSelection::Character), ..cm },
                        SelectionAnchor {
                            pane_id: cm.pane_id,
                            row: cm.cursor_row,
                            col: cm.cursor_col,
                            metrics,
                        },
                    ),
                )
            } else {
                res is None
            },
            _ => res is None,
        },
{
    let Some(cm) = copy_mode else {
        return None;
    };
    let Some(r) = rect else {
        return None;
    };
    if cm.cursor_row >= r.height || cm.cursor_col >= r.width {
        return None;
    }
    let anchor = SelectionAnchor {
        pane_id: cm.pane_id,
        row: cm.cursor_row,
        col: cm.cursor_col,
        metrics,
    };
    Some((CopyModeState { selection: Some(CopyModeSelection::Character), ..cm }, anchor))
}

/// Selecting the cursor's whole line, whose absolute row is `anchor_row`:
/// the selection and the new state, or `None` without copy mode or pane.
pub fn select_copy_mode_line(
    copy_mode: Option<CopyModeState>,
    rect: Option<PaneRect>,
    anchor_row: usize,
) -> (res: Option<(CopyModeState, LineSelection)>)
    ensures
        match (copy_mode, rect) {
            (Some(cm), Some(r)) => res == Some(
                (
                    CopyModeState {
                        selection: Some(CopyModeSelection::Linewise { anchor_row }),
                        ..cm
                    },
                    LineSelection {
                        pane_id: cm.pane_id,
                        start_row: anchor_row,
                        end_row: anchor_row,
                        end_col: sub_or_zero(r.width as int, 1) as u16,
                    },
                ),
            ),
            _ => res is None,
        },
{
    let Some(cm) = copy_mode else {
        return None;
    };
    let Some(r) = rect else {
        return None;
    };
    let end_col = r.width.saturating_sub(1);
    let selection = LineSelection {
        pane_id: cm.pane_id,
        start_row: anchor_row,
        end_row: anchor_row,
        end_col,
    };
    Some(
        (
            CopyModeState { selection: Some(CopyModeSelection::Linewise { anchor_row }), ..cm },
            selection,
        ),
    )
}

/// The magnitude of a negative step.
fn magnitude(delta: i16) -> (m: u16)
    requires
        delta < 0,
    ensures
        m == -delta,
{
    (0i32 - delta as i32) as u16
}

/// Moving the cursor by rows and columns; past the top or bottom row the
/// pane scrolls instead.
pub fn move_copy_cursor(
    copy_mode: Option<CopyModeState>,
    rect: Option<PaneRect>,
    row_delta: i16,
    col_delta: i16,
) -> (res: CopyModeStep)
    ensures
        res == move_step(copy_mode, rect, row_delta, col_delta),
{
    let Some(mut cm) = copy_mode else {
        return CopyModeStep::Unchanged;
    };
    let Some(info) = rect else {
        return CopyModeStep::Exit;
    };
    if col_delta < 0 {
        cm.cursor_col = cm.cursor_col.saturating_sub(magnitude(col_delta));
    } else if col_delta > 0 {
        cm.cursor_col = min_u16(
            cm.cursor_col.saturating_add(col_delta as u16),
            info.width.saturating_sub(1),
        );
    }
    let mut scroll = PaneScroll::Stay;
    if row_delta < 0 {
        let delta = magnitude(row_delta);
        if cm.cursor_row >= delta {
            cm.cursor_row = cm.cursor_row - delta;
        } else {
            scroll = PaneScroll::Up(delta as usize);
            cm.cursor_row = 0;
        }
    } else if row_delta > 0 {
        let delta = row_delta as u16;
        let bottom = info.height.saturating_sub(1);
        if cm.cursor_row.saturating_add(delta) <= bottom {
            cm.cursor_row = cm.cursor_row + delta;
        } else {
            scroll = PaneScroll::Down(delta as usize);
            cm.cursor_row = bottom;
        }
    }
    CopyModeStep::Update { state: cm, scroll }
}

/// The lines one page scroll moves in a pane `height` rows tall, as tmux
/// pages: two rows short of the height (at least one), or half the height.
pub fn copy_mode_page_lines(height: u16, half_page: bool) -> (lines: usize)
    ensures
        lines == page_lines(height as int, half_page),
{
    if half_page {
        (height / 2) as usize
    } else if height > 2 {
        (height - 2) as usize
    } else {
        1
    }
}

/// Scrolling copy mode a page (or half a page) up (`direction < 0`) or down.
/// With known scroll metrics the offset is set directly, and where the
/// history top or the live bottom stops it, the cursor moves the rest of the
/// way.
pub fn scroll_copy_mode_page(
    copy_mode: Option<CopyModeState>,
    rect: Option<PaneRect>,
    metrics: Option<ScrollMetrics>,
    direction: i16,
    half_page: bool,
) -> (res: CopyModeStep)
    ensures
        res == page_step(copy_mode, rect, metrics, direction, page_lines_for(rect, half_page)),
{
    let Some(mut cm) = copy_mode else {
        return CopyModeStep::Unchanged;
    };
    let Some(info) = rect else {
        return CopyModeStep::Exit;
    };
    let lines = copy_mode_page_lines(info.height, half_page);
    let scroll;
    if let Some(m) = metrics {
        if direction < 0 {
            let next_offset = m.offset_from_bottom.saturating_add(lines);
            if next_offset > m.max_offset_from_bottom {
                let scrolled_lines = m.max_offset_from_bottom.saturating_sub(m.offset_from_bottom);
                let cursor_lines = lines.saturating_sub(scrolled_lines);
                scroll = PaneScroll::ToOffset(m.max_offset_from_bottom);
                let step: u16 = if cursor_lines <= 65535 {
                    cursor_lines as u16
                } else {
                    65535
                };
                cm.cursor_row = cm.cursor_row.saturating_sub(step);
            } else {
                scroll = PaneScroll::ToOffset(next_offset);
            }
        } else if m.offset_from_bottom < lines {
            let cursor_lines = lines.saturating_sub(m.offset_from_bottom);
            scroll = PaneScroll::ToOffset(0);
            let step: u16 = if cursor_lines <= 65535 {
                cursor_lines as u16
            } else {
                65535
            };
            cm.cursor_row = min_u16(
                cm.cursor_row.saturating_add(step),
                info.height.saturating_sub(1),
            );
        } else {
            scroll = PaneScroll::ToOffset(m.offset_from_bottom - lines);
        }
    } else if direction < 0 {
        scroll = PaneScroll::Up(lines);
    } else {
        scroll = PaneScroll::Down(lines);
    }
    CopyModeStep::Update { state: cm, scroll }
}

/// Going to the top of the scrollback: the pane scrolls to its maximum
/// offset and the cursor to the first row. Nothing changes without scroll
/// metrics.
pub fn copy_mode_history_top(copy_mode: Option<CopyModeState>, metrics: Option<ScrollMetrics>) -> (res:
    CopyModeStep)
    ensures
        res == history_top_step(copy_mode, metrics),
{
    let Some(mut cm) = copy_mode else {
        return CopyModeStep::Unchanged;
    };
    let Some(m) = metrics else {
        return CopyModeStep::Unchanged;
    };
    cm.cursor_row = 0;
    CopyModeStep::Update { state: cm, scroll: PaneScroll::ToOffset(m.max_offset_from_bottom) }
}

/// Going to the live bottom: the pane scrolls to offset zero and the cursor
/// to the last row.
pub fn copy_mode_history_bottom(copy_mode: Option<CopyModeState>, rect: Option<PaneRect>) -> (res:
    CopyModeStep)
    ensures
        res == history_bottom_step(copy_mode, rect),
{
    let Some(mut cm) = copy_mode else {
        return CopyModeStep::Unchanged;
    };
    let Some(info) = rect else {
        return CopyModeStep::Exit;
    };
    cm.cursor_row = info.height.saturating_sub(1);
    CopyModeStep::Update { state: cm, scroll: PaneScroll::ToOffset(0) }
}

/// Going to the first or the last column.
pub fn copy_mode_line_edge(copy_mode: Option<CopyModeState>, rect: Option<PaneRect>, end: bool) -> (res:
    CopyModeStep)
    ensures
        res == line_edge_step(copy_mode, rect, end),
{
    let Some(mut cm) = copy_mode else {
        return CopyModeStep::Unchanged;
    };
    let Some(info) = rect else {
        return CopyModeStep::Exit;
    };
    cm.cursor_col = if end {
        info.width.saturating_sub(1)
    } else {
        0
    };
    CopyModeStep::Update { state: cm, scroll: PaneScroll::Stay }
}

/// Where a key event goes in copy mode: releases are ignored, the prefix key
/// takes priority over every copy-mode binding, and copy mode handles the
/// rest (any key but a release also dismisses the update notice).
pub fn route_copy_mode_key(is_release: bool, is_prefix_key: bool) -> (res: CopyKeyRoute)
    ensures
        res == (if is_release {
            CopyKeyRoute::Ignore
        } else if is_prefix_key {
            CopyKeyRoute::Prefix
        } else {
            CopyKeyRoute::Handle
        }),
{
    if is_release {
        return CopyKeyRoute::Ignore;
    }
    if is_prefix_key {
        return CopyKeyRoute::Prefix;
    }
    CopyKeyRoute::Handle
}

/// How copy mode handles a key before looking at its command character:
/// Esc, Enter, arrows, PageUp/PageDown and Home/End are handled alone; the
/// control keys `b`, `f`, `u`, `d` page, and the key's character is still
/// looked at afterwards.
pub fn copy_mode_key_dispatch(copy_mode: Option<CopyModeState>, code: CopyKeyCode, ctrl: bool) -> (res:
    KeyDispatch)
    ensures
        res == match special_key_command(copy_mode, code) {
            Some(cmd) => KeyDispatch::Done(cmd),
            None => KeyDispatch::Continue(control_key_command(code, ctrl)),
        },
{
    match code {
        CopyKeyCode::Esc => {
            // In Selecting state: clear selection, stay in copy mode.
            // In Navigate state: exit copy mode.
            if let Some(cm) = copy_mode {
                if let CopyModeSubState::Selecting = cm.substate {
                    return KeyDispatch::Done(CopyCommand::ClearSelection);
                }
            }
            return KeyDispatch::Done(CopyCommand::Exit { copy: false });
        },
        CopyKeyCode::Enter => {
            return KeyDispatch::Done(CopyCommand::Exit { copy: true });
        },
        CopyKeyCode::Left => {
            return KeyDispatch::Done(CopyCommand::Move { row_delta: 0, col_delta: -1 });
        },
        CopyKeyCode::Down => {
            return KeyDispatch::Done(CopyCommand::Move { row_delta: 1, col_delta: 0 });
        },
        CopyKeyCode::Up => {
            return KeyDispatch::Done(CopyCommand::Move { row_delta: -1, col_delta: 0 });
        },
        CopyKeyCode::Right => {
            return KeyDispatch::Done(CopyCommand::Move { row_delta: 0, col_delta: 1 });
        },
        CopyKeyCode::PageUp => {
            return KeyDispatch::Done(CopyCommand::Page { direction: -1, half_page: false });
        },
        CopyKeyCode::PageDown => {
            return KeyDispatch::Done(CopyCommand::Page { direction: 1, half_page: false });
        },
        CopyKeyCode::Home => {
            return KeyDispatch::Done(CopyCommand::LineEdge { end: false });
        },
        CopyKeyCode::End => {
            return KeyDispatch::Done(CopyCommand::LineEdge { end: true });
        },
        _ => {},
    }
    let page = if !ctrl {
        None
    } else {
        match code {
            CopyKeyCode::Char('b') => Some(CopyCommand::Page { direction: -1, half_page: false }),
            CopyKeyCode::Char('f') => Some(CopyCommand::Page { direction: 1, half_page: false }),
            CopyKeyCode::Char('u') => Some(CopyCommand::Page { direction: -1, half_page: true }),
            CopyKeyCode::Char('d') => Some(CopyCommand::Page { direction: 1, half_page: true }),
            _ => None,
        }
    };
    KeyDispatch::Continue(page)
}

/// The command of a key's command character: while a find is pending, the
/// character is the one to find; otherwise the copy-mode key table.
pub fn copy_mode_char_command(copy_mode: Option<CopyModeState>, ch: char) -> (res: CopyCommand)
    ensures
        res == match copy_mode {
            Some(cm) => if cm.find is Some {
                CopyCommand::FindChar(ch)
            } else {
                char_command(ch)
            },
            None => char_command(ch),
        },
{
    // If a find-char (f/F/t/T) operation is pending, consume the next
    // character as the target.
    if let Some(cm) = copy_mode {
        if cm.find.is_some() {
            return CopyCommand::FindChar(ch);
        }
    }
    match ch {
        'q' => CopyCommand::Exit { copy: false },
        'y' => CopyCommand::Exit { copy: true },
        'v' | ' ' => CopyCommand::BeginSelection,
        'V' => CopyCommand::SelectLine,
        'h' => CopyCommand::Move { row_delta: 0, col_delta: -1 },
        'j' => CopyCommand::Move { row_delta: 1, col_delta: 0 },
        'k' => CopyCommand::Move { row_delta: -1, col_delta: 0 },
        'l' => CopyCommand::Move { row_delta: 0, col_delta: 1 },
        'g' => CopyCommand::HistoryTop,
        'G' => CopyCommand::HistoryBottom,
        '0' => CopyCommand::LineEdge { end: false },
        '$' => CopyCommand::LineEdge { end: true },
        '^' => CopyCommand::FirstNonBlank,
        'w' | 'W' => CopyCommand::Word(WordMotion::NextStart),
        'b' | 'B' => CopyCommand::Word(WordMotion::PreviousStart),
        'e' | 'E' => CopyCommand::Word(WordMotion::NextEnd),
        'f' => CopyCommand::Find(CopyModeFindKind::Forward),
        'F' => CopyCommand::Find(CopyModeFindKind::Backward),
        't' => CopyCommand::Find(CopyModeFindKind::TillForward),
        'T' => CopyCommand::Find(CopyModeFindKind::TillBackward),
        'A' => CopyCommand::Exit { copy: false },
        '{' => CopyCommand::Paragraph(-1),
        '}' => CopyCommand::Paragraph(1),
        _ => CopyCommand::Nothing,
    }
}


// ---------------------------------------------------------------------------
// Laws
// ---------------------------------------------------------------------------

/// Copy mode starts with its cursor on a cell of the pane.
pub proof fn lemma_enter_puts_cursor_in_pane(
    pane_id: u64,
    rect: PaneRect,
    cursor: Option<TerminalCursor>,
    entry_offset: usize,
)
    requires
        rect.width > 0,
        rect.height > 0,
    ensures
        cursor_in_pane(entered_state(pane_id, rect, cursor, entry_offset), rect),
{
}

/// Every cursor motion keeps a cursor that lies on the pane on the pane.
pub proof fn lemma_motions_keep_cursor_in_pane(
    cm: CopyModeState,
    rect: PaneRect,
    metrics: Option<ScrollMetrics>,
    row_delta: i16,
    col_delta: i16,
    direction: i16,
    lines: usize,
    end: bool,
)
    requires
        cursor_in_pane(cm, rect),
    ensures
        move_step(Some(cm), Some(rect), row_delta, col_delta) matches CopyModeStep::Update {
            state,
            ..
        } && cursor_in_pane(state, rect),
        page_step(Some(cm), Some(rect), metrics, direction, lines) matches CopyModeStep::Update {
            state,
            ..
        } && cursor_in_pane(state, rect),
        history_bottom_step(Some(cm), Some(rect)) matches CopyModeStep::Update { state, .. }
            && cursor_in_pane(state, rect),
        line_edge_step(Some(cm), Some(rect), end) matches CopyModeStep::Update { state, .. }
            && cursor_in_pane(state, rect),
        metrics is Some ==> (history_top_step(Some(cm), metrics) matches CopyModeStep::Update {
            state,
            ..
        } && cursor_in_pane(state, rect)),
{
}

/// Paging sets the pane's offset within its history: never past the
/// maximum offset, when the pane's offset is within it to begin with.
pub proof fn lemma_page_offset_within_history(
    cm: CopyModeState,
    rect: PaneRect,
    m: ScrollMetrics,
    direction: i16,
    lines: usize,
)
    requires
        m.offset_from_bottom <= m.max_offset_from_bottom,
    ensures
        page_step(Some(cm), Some(rect), Some(m), direction, lines) matches CopyModeStep::Update {
            scroll: PaneScroll::ToOffset(offset),
            ..
        } && offset <= m.max_offset_from_bottom,
{
}

/// Paging down undoes paging up away from the top of the history: the
/// offset and the cursor come back to where they were.
pub proof fn lemma_page_down_undoes_page_up(
    cm: CopyModeState,
    rect: PaneRect,
    m: ScrollMetrics,
    lines: usize,
)
    requires
        m.offset_from_bottom + lines <= m.max_offset_from_bottom,
    ensures
        page_step(Some(cm), Some(rect), Some(m), -1i16, lines) == (CopyModeStep::Update {
            state: cm,
            scroll: PaneScroll::ToOffset((m.offset_from_bottom + lines) as usize),
        }),
        page_step(
            Some(cm),
            Some(rect),
            Some(
                ScrollMetrics {
                    offset_from_bottom: (m.offset_from_bottom + lines) as usize,
                    max_offset_from_bottom: m.max_offset_from_bottom,
                },
            ),
            1i16,
            lines,
        ) == (CopyModeStep::Update {
            state: cm,
            scroll: PaneScroll::ToOffset(m.offset_from_bottom),
        }),
{
}

/// Moving down and then up by the same rows, without reaching the bottom
/// row, puts the cursor back without scrolling.
pub proof fn lemma_move_down_then_up(cm: CopyModeState, rect: PaneRect, rows: i16)
    requires
        rows > 0,
        cm.cursor_row + rows < rect.height,
    ensures
        move_step(Some(cm), Some(rect), rows, 0i16) matches CopyModeStep::Update {
            state,
            scroll: PaneScroll::Stay,
        } && move_step(Some(state), Some(rect), (-rows) as i16, 0i16) == (CopyModeStep::Update {
            state: cm,
            scroll: PaneScroll::Stay,
        }),
{
}

/// Leaving copy mode, whatever happened in it, scrolls the pane back to the
/// offset it had when copy mode was entered, and returns to the terminal
/// when a workspace is active.
pub proof fn lemma_exit_restores_entry_offset(
    pane_id: u64,
    rect: PaneRect,
    cursor: Option<TerminalCursor>,
    entry_offset: usize,
    later: CopyModeState,
    copy: bool,
)
    requires
        later.pane_id == pane_id,
        later.entry_offset_from_bottom == entered_state(pane_id, rect, cursor, entry_offset).entry_offset_from_bottom,
    ensures
        exit_plan(Some(later), copy, true) == (CopyModeExit {
            copy_selection: copy,
            restore_scroll: Some(ScrollRestore { pane_id, offset_from_bottom: entry_offset }),
            mode: Mode::Terminal,
        }),
{
}

/// No motion changes the pane copy mode is on or the offset it restores.
pub proof fn lemma_motions_keep_pane_and_entry_offset(
    cm: CopyModeState,
    rect: PaneRect,
    metrics: Option<ScrollMetrics>,
    row_delta: i16,
    col_delta: i16,
    direction: i16,
    lines: usize,
    end: bool,
)
    ensures
        move_step(Some(cm), Some(rect), row_delta, col_delta) matches CopyModeStep::Update {
            state,
            ..
        } && state.pane_id == cm.pane_id && state.entry_offset_from_bottom
            == cm.entry_offset_from_bottom,
        page_step(Some(cm), Some(rect), metrics, direction, lines) matches CopyModeStep::Update {
            state,
            ..
        } && state.pane_id == cm.pane_id && state.entry_offset_from_bottom
            == cm.entry_offset_from_bottom,
        history_bottom_step(Some(cm), Some(rect)) matches CopyModeStep::Update { state, .. }
            && state.pane_id == cm.pane_id && state.entry_offset_from_bottom
            == cm.entry_offset_from_bottom,
        line_edge_step(Some(cm), Some(rect), end) matches CopyModeStep::Update { state, .. }
            && state.pane_id == cm.pane_id && state.entry_offset_from_bottom
            == cm.entry_offset_from_bottom,
{
}


/// A column move by `d` lands on `col + d`, stopped at the first column on
/// the left and at the last column on the right; the row stays and the pane
/// does not scroll.
pub proof fn lemma_column_moves(cm: CopyModeState, rect: PaneRect, col_delta: i16)
    requires
        cursor_in_pane(cm, rect),
    ensures
        move_step(Some(cm), Some(rect), 0i16, col_delta) matches CopyModeStep::Update {
            state,
            scroll,
        } && scroll == PaneScroll::Stay && state.cursor_row == cm.cursor_row
            && state.pane_id == cm.pane_id && state.selection == cm.selection
            && state.substate == cm.substate && state.find == cm.find
            && state.entry_offset_from_bottom == cm.entry_offset_from_bottom && (if cm.cursor_col
            + col_delta < 0 {
            state.cursor_col == 0
        } else if cm.cursor_col + col_delta >= rect.width {
            state.cursor_col == rect.width - 1
        } else {
            state.cursor_col == cm.cursor_col + col_delta
        }),
{
}

/// One column left and then one right (or right and then left) from a
/// column with room on that side gives back the cursor.
pub proof fn lemma_left_right_round_trip(cm: CopyModeState, rect: PaneRect)
    requires
        cursor_in_pane(cm, rect),
    ensures
        cm.cursor_col > 0 ==> (move_step(Some(cm), Some(rect), 0i16, -1i16) matches CopyModeStep::Update {
            state,
            ..
        } && state.cursor_col == cm.cursor_col - 1 && move_step(Some(state), Some(rect), 0i16, 1i16)
            == (CopyModeStep::Update { state: cm, scroll: PaneScroll::Stay })),
        cm.cursor_col + 1 < rect.width ==> (move_step(Some(cm), Some(rect), 0i16, 1i16) matches CopyModeStep::Update {
            state,
            ..
        } && state.cursor_col == cm.cursor_col + 1 && move_step(Some(state), Some(rect), 0i16, -1i16)
            == (CopyModeStep::Update { state: cm, scroll: PaneScroll::Stay })),
{
}

/// A row move by `d` lands on `row + d` inside the pane; past the top row the
/// cursor stops on the top row and the pane scrolls up by the whole move,
/// past the bottom row it stops on the bottom row and the pane scrolls down.
pub proof fn lemma_row_moves(cm: CopyModeState, rect: PaneRect, row_delta: i16)
    requires
        cursor_in_pane(cm, rect),
    ensures
        move_step(Some(cm), Some(rect), row_delta, 0i16) matches CopyModeStep::Update {
            state,
            scroll,
        } && state.cursor_col == cm.cursor_col && (if cm.cursor_row + row_delta < 0 {
            state.cursor_row == 0 && scroll == PaneScroll::Up((-row_delta) as usize)
        } else if cm.cursor_row + row_delta >= rect.height {
            state.cursor_row == rect.height - 1 && scroll == PaneScroll::Down(row_delta as usize)
        } else {
            state.cursor_row == cm.cursor_row + row_delta && scroll == PaneScroll::Stay
        }),
{
}

/// Entering copy mode with the terminal's cursor visible on the pane puts
/// the copy cursor on that cell: its row is the cursor's screen row minus
/// the pane's top, its column the cursor's screen column minus the pane's
/// left edge. Nothing is selected, nothing is pending, and the entry offset
/// is kept.
pub proof fn lemma_enter_at_terminal_cursor(
    pane_id: u64,
    rect: PaneRect,
    c: TerminalCursor,
    entry_offset: usize,
)
    requires
        c.visible,
        rect.x <= c.x < rect.x + rect.width,
        rect.y <= c.y < rect.y + rect.height,
    ensures
        entered_state(pane_id, rect, Some(c), entry_offset) == (CopyModeState {
            pane_id,
            cursor_row: (c.y - rect.y) as u16,
            cursor_col: (c.x - rect.x) as u16,
            entry_offset_from_bottom: entry_offset,
            selection: None,
            substate: CopyModeSubState::Navigate,
            find: None,
        }),
{
}

/// Entering copy mode without a visible terminal cursor puts the copy
/// cursor on the first column of the pane's last row; a visible cursor
/// outside the pane is moved onto its nearest cell.
pub proof fn lemma_enter_without_cursor_cell(
    pane_id: u64,
    rect: PaneRect,
    cursor: Option<TerminalCursor>,
    entry_offset: usize,
)
    requires
        rect.width > 0,
        rect.height > 0,
    ensures
        ({
            let st = entered_state(pane_id, rect, cursor, entry_offset);
            &&& (cursor is None || !cursor->0.visible) ==> st.cursor_row == rect.height - 1
                && st.cursor_col == 0
            &&& (cursor is Some && cursor->0.visible) ==> {
                let c = cursor->0;
                &&& st.cursor_row == (if c.y < rect.y {
                    0
                } else if c.y - rect.y >= rect.height {
                    rect.height - 1
                } else {
                    c.y - rect.y
                })
                &&& st.cursor_col == (if c.x < rect.x {
                    0
                } else if c.x - rect.x >= rect.width {
                    rect.width - 1
                } else {
                    c.x - rect.x
                })
            }
        }),
{
}

/// The special keys do what their letter keys do: Enter copies and leaves
/// like `y`, the arrows move like `h`, `j`, `k`, `l`, Home and End go to the
/// line's edges like `0` and `$`, PageUp and PageDown page like Ctrl-b and
/// Ctrl-f, and Esc leaves like `q` unless a selection is being made, where it
/// only drops the selection. None of this depends on the copy-mode state but
/// for Esc.
pub proof fn lemma_keys_match_letter_bindings(copy_mode: Option<CopyModeState>)
    ensures
        special_key_command(copy_mode, CopyKeyCode::Enter) == Some(char_command('y')),
        char_command('y') == (CopyCommand::Exit { copy: true }),
        char_command('q') == (CopyCommand::Exit { copy: false }),
        special_key_command(copy_mode, CopyKeyCode::Left) == Some(char_command('h')),
        char_command('h') == (CopyCommand::Move { row_delta: 0, col_delta: -1i16 }),
        special_key_command(copy_mode, CopyKeyCode::Down) == Some(char_command('j')),
        char_command('j') == (CopyCommand::Move { row_delta: 1, col_delta: 0 }),
        special_key_command(copy_mode, CopyKeyCode::Up) == Some(char_command('k')),
        char_command('k') == (CopyCommand::Move { row_delta: -1i16, col_delta: 0 }),
        special_key_command(copy_mode, CopyKeyCode::Right) == Some(char_command('l')),
        char_command('l') == (CopyCommand::Move { row_delta: 0, col_delta: 1 }),
        special_key_command(copy_mode, CopyKeyCode::Home) == Some(char_command('0')),
        special_key_command(copy_mode, CopyKeyCode::End) == Some(char_command('$')),
        char_command('0') == (CopyCommand::LineEdge { end: false }),
        char_command('$') == (CopyCommand::LineEdge { end: true }),
        special_key_command(copy_mode, CopyKeyCode::PageUp) == control_key_command(
            CopyKeyCode::Char('b'),
            true,
        ),
        special_key_command(copy_mode, CopyKeyCode::PageDown) == control_key_command(
            CopyKeyCode::Char('f'),
            true,
        ),
        control_key_command(CopyKeyCode::Char('b'), true) == Some(
            CopyCommand::Page { direction: -1i16, half_page: false },
        ),
        control_key_command(CopyKeyCode::Char('f'), true) == Some(
            CopyCommand::Page { direction: 1, half_page: false },
        ),
        control_key_command(CopyKeyCode::Char('u'), true) == Some(
            CopyCommand::Page { direction: -1i16, half_page: true },
        ),
        control_key_command(CopyKeyCode::Char('d'), true) == Some(
            CopyCommand::Page { direction: 1, half_page: true },
        ),
        (copy_mode matches Some(cm) && cm.substate == CopyModeSubState::Selecting) ==> special_key_command(
            copy_mode,
            CopyKeyCode::Esc,
        ) == Some(CopyCommand::ClearSelection),
        !(copy_mode matches Some(cm) && cm.substate == CopyModeSubState::Selecting) ==> special_key_command(
            copy_mode,
            CopyKeyCode::Esc,
        ) == Some(char_command('q')),
{
}

/// Letter keys that share a meaning: the capital word keys move like the
/// small ones, space selects like `v`, `A` leaves like `q`, and while a find
/// is pending every character is the one to find.
pub proof fn lemma_shared_letter_bindings(cm: CopyModeState, c: char)
    ensures
        char_command('W') == char_command('w'),
        char_command('B') == char_command('b'),
        char_command('E') == char_command('e'),
        char_command('w') == CopyCommand::Word(WordMotion::NextStart),
        char_command('b') == CopyCommand::Word(WordMotion::PreviousStart),
        char_command('e') == CopyCommand::Word(WordMotion::NextEnd),
        char_command(' ') == char_command('v'),
        char_command('v') == CopyCommand::BeginSelection,
        char_command('A') == char_command('q'),
        char_command('f') == CopyCommand::Find(CopyModeFindKind::Forward),
        char_command('F') == CopyCommand::Find(CopyModeFindKind::Backward),
        char_command('t') == CopyCommand::Find(CopyModeFindKind::TillForward),
        char_command('T') == CopyCommand::Find(CopyModeFindKind::TillBackward),
        char_command('{') == CopyCommand::Paragraph(-1i16),
        char_command('}') == CopyCommand::Paragraph(1i16),
        char_command('g') == CopyCommand::HistoryTop,
        char_command('G') == CopyCommand::HistoryBottom,
        char_command('^') == CopyCommand::FirstNonBlank,
        char_command('V') == CopyCommand::SelectLine,
{
}

/// Every character has its own copy-mode meaning whatever key produced it;
/// a character key never stops dispatch, so its character is looked at,
/// and a special key always does.
pub proof fn lemma_dispatch_shape(copy_mode: Option<CopyModeState>, c: char, ctrl: bool)
    ensures
        special_key_command(copy_mode, CopyKeyCode::Char(c)) is None,
        special_key_command(copy_mode, CopyKeyCode::Other) is None,
        !ctrl ==> control_key_command(CopyKeyCode::Char(c), ctrl) is None,
        special_key_command(copy_mode, CopyKeyCode::Enter) is Some,
        special_key_command(copy_mode, CopyKeyCode::Esc) is Some,
{
}

/// Leaving copy mode copies exactly when asked, and goes back to the
/// terminal when a workspace is active (to navigation otherwise).
pub proof fn lemma_exit_outcome(copy_mode: Option<CopyModeState>, copy: bool, active: bool)
    ensures
        exit_plan(copy_mode, copy, active).copy_selection == copy,
        (exit_plan(copy_mode, copy, active).mode == Mode::Terminal) == active,
        exit_plan(copy_mode, copy, active).mode == Mode::Terminal || exit_plan(
            copy_mode,
            copy,
            active,
        ).mode == Mode::Navigate,
        copy_mode is None ==> exit_plan(copy_mode, copy, active).restore_scroll is None,
{
}

/// The history and line-edge motions: top puts the cursor on the first row
/// at the oldest line, bottom on the last row at the live screen, and the
/// edges on the first and last columns; nothing else about the state
/// changes.
pub proof fn lemma_edges(cm: CopyModeState, rect: PaneRect, m: ScrollMetrics)
    requires
        rect.width > 0,
        rect.height > 0,
    ensures
        history_top_step(Some(cm), Some(m)) == (CopyModeStep::Update {
            state: CopyModeState { cursor_row: 0, ..cm },
            scroll: PaneScroll::ToOffset(m.max_offset_from_bottom),
        }),
        history_bottom_step(Some(cm), Some(rect)) == (CopyModeStep::Update {
            state: CopyModeState { cursor_row: (rect.height - 1) as u16, ..cm },
            scroll: PaneScroll::ToOffset(0),
        }),
        line_edge_step(Some(cm), Some(rect), false) == (CopyModeStep::Update {
            state: CopyModeState { cursor_col: 0, ..cm },
            scroll: PaneScroll::Stay,
        }),
        line_edge_step(Some(cm), Some(rect), true) == (CopyModeStep::Update {
            state: CopyModeState { cursor_col: (rect.width - 1) as u16, ..cm },
            scroll: PaneScroll::Stay,
        }),
{
}

/// A full page is two rows short of the pane (at least one row), half a page
/// is half the pane, rounded down.
pub proof fn lemma_page_sizes(height: u16)
    ensures
        height > 2 ==> page_lines(height as int, false) + 2 == height,
        height <= 2 ==> page_lines(height as int, false) == 1,
        2 * page_lines(height as int, true) <= height < 2 * page_lines(height as int, true) + 2,
{
}

/// Paging up inside the history moves the offset up by exactly the page
/// and keeps the cursor; paging down by a page from at least a page up
/// moves it down by exactly the page.
pub proof fn lemma_page_moves_by_page(
    cm: CopyModeState,
    rect: PaneRect,
    m: ScrollMetrics,
    half_page: bool,
)
    ensures
        ({
            let lines = page_lines(rect.height as int, half_page);
            &&& m.offset_from_bottom + lines <= m.max_offset_from_bottom ==> page_step(
                Some(cm),
                Some(rect),
                Some(m),
                -1i16,
                lines,
            ) == (CopyModeStep::Update {
                state: cm,
                scroll: PaneScroll::ToOffset((m.offset_from_bottom + lines) as usize),
            })
            &&& m.offset_from_bottom >= lines ==> page_step(
                Some(cm),
                Some(rect),
                Some(m),
                1i16,
                lines,
            ) == (CopyModeStep::Update {
                state: cm,
                scroll: PaneScroll::ToOffset((m.offset_from_bottom - lines) as usize),
            })
        }),
{
}

} // verus!
