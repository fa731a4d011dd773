//! The copy-mode commands that work on the text under the cursor: finding a
//! character, word motions, the first non-blank column and paragraphs, and
//! the state changes of the selection commands and of the key characters.
//!
//! The cursor's row is given as its text; columns are terminal cells.

use vstd::prelude::*;

use crate::copy_mode::{
    backward_find_col, backward_find_column, begin_copy_mode_selection, cursor_in_pane,
    forward_find_col, forward_find_column, min_int, sub_or_zero, CopyModeFindKind,
    CopyModeSelection, CopyModeState, CopyModeStep, CopyModeSubState, LineSelection, PaneRect,
    PaneScroll, ScrollMetrics, SelectionAnchor, SelectionSync, WordMotion,
};
use crate::cursor::{char_boundary, char_boundary_index, prefix_cells, prefix_width};

verus! {

// ---------------------------------------------------------------------------
// Model
// ---------------------------------------------------------------------------

/// A blank cell's character: a space or a tab.
pub open spec fn is_blank(c: char) -> bool {
    c == ' ' || c == '\t'
}

/// From index `i`, the end of the run of non-blank characters.
pub open spec fn skip_text_forward(s: Seq<char>, i: int) -> int
    decreases s.len() - i,
{
    if i < 0 || i >= s.len() || is_blank(s[i]) {
        i
    } else {
        skip_text_forward(s, i + 1)
    }
}

/// From index `i`, the end of the run of blank characters.
pub open spec fn skip_blank_forward(s: Seq<char>, i: int) -> int
    decreases s.len() - i,
{
    if i < 0 || i >= s.len() || !is_blank(s[i]) {
        i
    } else {
        skip_blank_forward(s, i + 1)
    }
}

/// Going back from index `k`, the start of the run of blank characters that
/// ends at `k`.
pub open spec fn skip_blank_backward(s: Seq<char>, k: int) -> int
    decreases k,
{
    if k <= 0 || k > s.len() || !is_blank(s[k - 1]) {
        k
    } else {
        skip_blank_backward(s, k - 1)
    }
}

/// Going back from index `k`, the start of the run of non-blank characters
/// that ends at `k`.
pub open spec fn skip_text_backward(s: Seq<char>, k: int) -> int
    decreases k,
{
    if k <= 0 || k > s.len() || is_blank(s[k - 1]) {
        k
    } else {
        skip_text_backward(s, k - 1)
    }
}

/// The index a word motion from index `i` lands on, if there is one: the
/// start of the next word (`w`), the end of the next word (`e`, moving at
/// least one character), or the start of this or the previous word (`b`).
/// Words are runs of non-blank characters.
pub open spec fn word_target(s: Seq<char>, i: int, motion: WordMotion) -> Option<int> {
    match motion {
        WordMotion::NextStart => {
            let k = skip_blank_forward(s, skip_text_forward(s, i));
            if k < s.len() {
                Some(k)
            } else {
                None
            }
        },
        WordMotion::NextEnd => {
            let k = skip_blank_forward(s, i + 1);
            if k < s.len() {
                Some(skip_text_forward(s, k) - 1)
            } else {
                None
            }
        },
        WordMotion::PreviousStart => {
            let k = skip_blank_backward(s, i);
            if k > 0 {
                Some(skip_text_backward(s, k))
            } else {
                None
            }
        },
    }
}

/// The cursor column `target` if there is one and it fits a column,
/// otherwise the column `col` the cursor already has.
pub open spec fn column_or(target: Option<int>, col: u16) -> u16 {
    match target {
        Some(t) => if 0 <= t <= u16::MAX {
            t as u16
        } else {
            col
        },
        None => col,
    }
}

/// The column of character index `k` on the row, if there is one.
pub open spec fn column_of(s: Seq<char>, k: Option<int>) -> Option<int> {
    match k {
        Some(i) => Some(prefix_cells(s, i) as int),
        None => None,
    }
}

/// The state after a motion that only moves the cursor's column.
pub open spec fn column_step(copy_mode: Option<CopyModeState>, col: u16) -> CopyModeStep {
    match copy_mode {
        Some(cm) => CopyModeStep::Update {
            state: CopyModeState { cursor_col: col, ..cm },
            scroll: PaneScroll::Stay,
        },
        None => CopyModeStep::Unchanged,
    }
}

/// The outcome of a word motion on the cursor's row `s`.
pub open spec fn word_motion_step(
    copy_mode: Option<CopyModeState>,
    s: Seq<char>,
    motion: WordMotion,
) -> CopyModeStep {
    match copy_mode {
        Some(cm) => column_step(
            copy_mode,
            column_or(
                column_of(
                    s,
                    word_target(s, char_boundary_index(s, cm.cursor_col as int), motion),
                ),
                cm.cursor_col,
            ),
        ),
        None => CopyModeStep::Unchanged,
    }
}

/// The column of the first non-blank character of the row, or the first
/// column for a blank row.
pub open spec fn first_non_blank_column(s: Seq<char>) -> int {
    let k = skip_blank_forward(s, 0);
    if k < s.len() {
        prefix_cells(s, k) as int
    } else {
        0
    }
}

/// The outcome of `^` on the cursor's row `s`.
pub open spec fn first_non_blank_step(copy_mode: Option<CopyModeState>, s: Seq<char>) -> CopyModeStep {
    match copy_mode {
        Some(cm) => column_step(
            copy_mode,
            column_or(Some(first_non_blank_column(s)), cm.cursor_col),
        ),
        None => CopyModeStep::Unchanged,
    }
}

/// The column a pending find lands on, if the character is there: on it
/// (`f`, `F`), or one cell short of it (`t`, `T`).
pub open spec fn find_target(s: Seq<char>, col: int, kind: CopyModeFindKind, ch: char) -> Option<
    int,
> {
    match kind {
        CopyModeFindKind::Forward => forward_find_column(s, col, ch),
        CopyModeFindKind::Backward => backward_find_column(s, col, ch),
        CopyModeFindKind::TillForward => match forward_find_column(s, col, ch) {
            Some(c) => Some(c - 1),
            None => None,
        },
        CopyModeFindKind::TillBackward => match backward_find_column(s, col, ch) {
            Some(c) => Some(c + 1),
            None => None,
        },
    }
}

/// The outcome of the character that completes a pending find: the cursor
/// moves to the find's column when the character is on the row (and stays
/// otherwise), and the find is no longer pending.
pub open spec fn find_char_step(copy_mode: Option<CopyModeState>, s: Seq<char>, ch: char) -> CopyModeStep {
    match copy_mode {
        Some(cm) => match cm.find {
            Some(kind) => CopyModeStep::Update {
                state: CopyModeState {
                    cursor_col: column_or(find_target(s, cm.cursor_col as int, kind, ch), cm.cursor_col),
                    find: None,
                    ..cm
                },
                scroll: PaneScroll::Stay,
            },
            None => CopyModeStep::Unchanged,
        },
        None => CopyModeStep::Unchanged,
    }
}

/// A row with nothing but blanks.
pub open spec fn is_blank_row(r: Seq<char>) -> bool {
    forall|i: int| 0 <= i < r.len() ==> is_blank(#[trigger] r[i])
}

/// From row `k`, the end of the run of blank rows.
pub open spec fn skip_blank_rows_forward(rows: Seq<Seq<char>>, k: int) -> int
    decreases rows.len() - k,
{
    if k < 0 || k >= rows.len() || !is_blank_row(rows[k]) {
        k
    } else {
        skip_blank_rows_forward(rows, k + 1)
    }
}

/// From row `k`, the end of the run of rows with text.
pub open spec fn skip_text_rows_forward(rows: Seq<Seq<char>>, k: int) -> int
    decreases rows.len() - k,
{
    if k < 0 || k >= rows.len() || is_blank_row(rows[k]) {
        k
    } else {
        skip_text_rows_forward(rows, k + 1)
    }
}

/// Going back from `k`, the start of the run of blank rows ending at `k`.
pub open spec fn skip_blank_rows_backward(rows: Seq<Seq<char>>, k: int) -> int
    decreases k,
{
    if k <= 0 || k > rows.len() || !is_blank_row(rows[k - 1]) {
        k
    } else {
        skip_blank_rows_backward(rows, k - 1)
    }
}

/// Going back from `k`, the start of the run of rows with text ending at `k`.
pub open spec fn skip_text_rows_backward(rows: Seq<Seq<char>>, k: int) -> int
    decreases k,
{
    if k <= 0 || k > rows.len() || is_blank_row(rows[k - 1]) {
        k
    } else {
        skip_text_rows_backward(rows, k - 1)
    }
}

/// The row a paragraph motion from `row` lands on: forward (`}`), past any
/// blank rows and the paragraph after them to the blank row that ends it
/// (or the last row); backward (`{`), likewise to the blank row before the
/// paragraph (or the first row).
pub open spec fn paragraph_row(rows: Seq<Seq<char>>, row: int, direction: i16) -> int {
    if direction > 0 {
        let k = skip_text_rows_forward(rows, skip_blank_rows_forward(rows, row));
        if k < rows.len() {
            k
        } else {
            rows.len() - 1
        }
    } else {
        let k = skip_text_rows_backward(rows, skip_blank_rows_backward(rows, row + 1));
        if k > 0 {
            k - 1
        } else {
            0
        }
    }
}

/// The outcome of a paragraph motion over the pane's visible rows. Nothing
/// changes when the cursor's row is not among them.
pub open spec fn paragraph_step(
    copy_mode: Option<CopyModeState>,
    rows: Seq<Seq<char>>,
    direction: i16,
) -> CopyModeStep {
    match copy_mode {
        Some(cm) => if cm.cursor_row < rows.len() {
            let target = paragraph_row(rows, cm.cursor_row as int, direction);
            CopyModeStep::Update {
                state: CopyModeState {
                    cursor_row: if target <= u16::MAX {
                        target as u16
                    } else {
                        cm.cursor_row
                    },
                    ..cm
                },
                scroll: PaneScroll::Stay,
            }
        } else {
            CopyModeStep::Unchanged
        },
        None => CopyModeStep::Unchanged,
    }
}

/// The character a shifted key gives on a US keyboard.
pub open spec fn us_shifted(c: char) -> char {
    if 'a' <= c && c <= 'z' {
        ((c as u32) - 32) as char
    } else if c == '1' {
        '!'
    } else if c == '2' {
        '@'
    } else if c == '3' {
        '#'
    } else if c == '4' {
        '$'
    } else if c == '5' {
        '%'
    } else if c == '6' {
        '^'
    } else if c == '7' {
        '&'
    } else if c == '8' {
        '*'
    } else if c == '9' {
        '('
    } else if c == '0' {
        ')'
    } else if c == '-' {
        '_'
    } else if c == '=' {
        '+'
    } else if c == '[' {
        '{'
    } else if c == ']' {
        '}'
    } else if c == '\\' {
        '|'
    } else if c == ';' {
        ':'
    } else if c == '\'' {
        '"'
    } else if c == ',' {
        '<'
    } else if c == '.' {
        '>'
    } else if c == '/' {
        '?'
    } else if c == '`' {
        '~'
    } else {
        c
    }
}

/// The command character of a character key: none with Control held; the
/// shifted character the terminal reported, if any; else, with Shift held,
/// the US-keyboard shifted character; else the key's own character.
pub open spec fn command_char(c: char, shift: bool, ctrl: bool, shifted: Option<char>) -> Option<
    char,
> {
    if ctrl {
        None
    } else {
        match shifted {
            Some(s) => Some(s),
            None => if shift {
                Some(us_shifted(c))
            } else {
                Some(c)
            },
        }
    }
}

/// How the selection follows the cursor at absolute row `cursor_row_abs`.
pub open spec fn selection_sync(
    copy_mode: Option<CopyModeState>,
    rect: Option<PaneRect>,
    cursor_row_abs: usize,
) -> SelectionSync {
    match copy_mode {
        Some(cm) => match cm.selection {
            Some(CopyModeSelection::Character) => SelectionSync::ExtendTo {
                pane_id: cm.pane_id,
                row: cm.cursor_row,
                col: cm.cursor_col,
            },
            Some(CopyModeSelection::Linewise { anchor_row }) => match rect {
                Some(r) => SelectionSync::Lines(
                    LineSelection {
                        pane_id: cm.pane_id,
                        start_row: min_int(anchor_row as int, cursor_row_abs as int) as usize,
                        end_row: if anchor_row >= cursor_row_abs {
                            anchor_row
                        } else {
                            cursor_row_abs
                        },
                        end_col: sub_or_zero(r.width as int, 1) as u16,
                    },
                ),
                None => SelectionSync::Keep,
            },
            None => SelectionSync::Keep,
        },
        None => SelectionSync::Keep,
    }
}

// ---------------------------------------------------------------------------
// Lemmas
// ---------------------------------------------------------------------------

proof fn lemma_skip_text_forward(s: Seq<char>, i: int)
    requires
        0 <= i <= s.len(),
    ensures
        i <= skip_text_forward(s, i) <= s.len(),
        skip_text_forward(s, i) < s.len() ==> is_blank(s[skip_text_forward(s, i)]),
        forall|j: int| i <= j < skip_text_forward(s, i) ==> !is_blank(#[trigger] s[j]),
    decreases s.len() - i,
{
    if i < s.len() && !is_blank(s[i]) {
        lemma_skip_text_forward(s, i + 1);
    }
}

proof fn lemma_skip_blank_forward(s: Seq<char>, i: int)
    requires
        0 <= i <= s.len(),
    ensures
        i <= skip_blank_forward(s, i) <= s.len(),
        skip_blank_forward(s, i) < s.len() ==> !is_blank(s[skip_blank_forward(s, i)]),
        forall|j: int| i <= j < skip_blank_forward(s, i) ==> is_blank(#[trigger] s[j]),
    decreases s.len() - i,
{
    if i < s.len() && is_blank(s[i]) {
        lemma_skip_blank_forward(s, i + 1);
    }
}

proof fn lemma_skip_blank_backward(s: Seq<char>, k: int)
    requires
        0 <= k <= s.len(),
    ensures
        0 <= skip_blank_backward(s, k) <= k,
        skip_blank_backward(s, k) > 0 ==> !is_blank(s[skip_blank_backward(s, k) - 1]),
        forall|j: int| skip_blank_backward(s, k) <= j < k ==> is_blank(#[trigger] s[j]),
    decreases k,
{
    if k > 0 && is_blank(s[k - 1]) {
        lemma_skip_blank_backward(s, k - 1);
    }
}

proof fn lemma_skip_text_backward(s: Seq<char>, k: int)
    requires
        0 <= k <= s.len(),
    ensures
        0 <= skip_text_backward(s, k) <= k,
        skip_text_backward(s, k) > 0 ==> is_blank(s[skip_text_backward(s, k) - 1]),
        forall|j: int| skip_text_backward(s, k) <= j < k ==> !is_blank(#[trigger] s[j]),
    decreases k,
{
    if k > 0 && !is_blank(s[k - 1]) {
        lemma_skip_text_backward(s, k - 1);
    }
}

/// Index `k` starts a word: a non-blank character at the start of the row or
/// after a blank.
pub open spec fn word_starts_at(s: Seq<char>, k: int) -> bool {
    0 <= k < s.len() && !is_blank(s[k]) && (k == 0 || is_blank(s[k - 1]))
}

/// Index `k` ends a word: a non-blank character at the end of the row or
/// before a blank.
pub open spec fn word_ends_at(s: Seq<char>, k: int) -> bool {
    0 <= k < s.len() && !is_blank(s[k]) && (k + 1 == s.len() || is_blank(s[k + 1]))
}

/// `w` goes to the next word start after the cursor's character, and stays
/// when there is none.
pub proof fn lemma_next_word_start(s: Seq<char>, i: int)
    requires
        0 <= i <= s.len(),
    ensures
        word_target(s, i, WordMotion::NextStart) matches Some(k) ==> i < k && word_starts_at(s, k)
            && forall|m: int| i < m < k ==> !word_starts_at(s, m),
        word_target(s, i, WordMotion::NextStart) is None ==> forall|m: int|
            i < m < s.len() ==> !word_starts_at(s, m),
{
    let j = skip_text_forward(s, i);
    lemma_skip_text_forward(s, i);
    lemma_skip_blank_forward(s, j);
    let k = skip_blank_forward(s, j);
    assert forall|m: int| i < m < k implies !word_starts_at(s, m) by {
        if m < j {
            assert(!is_blank(s[m - 1]));
        } else {
            assert(is_blank(s[m]));
        }
    }
}

/// `e` goes to the next word end after the cursor's character, and stays
/// when there is none.
pub proof fn lemma_next_word_end(s: Seq<char>, i: int)
    requires
        0 <= i < s.len(),
    ensures
        word_target(s, i, WordMotion::NextEnd) matches Some(e) ==> i < e && word_ends_at(s, e)
            && forall|m: int| i < m < e ==> !word_ends_at(s, m),
        word_target(s, i, WordMotion::NextEnd) is None ==> forall|m: int|
            i < m < s.len() ==> !word_ends_at(s, m),
{
    lemma_skip_blank_forward(s, i + 1);
    let k = skip_blank_forward(s, i + 1);
    if k < s.len() {
        lemma_skip_text_forward(s, k);
        let e = skip_text_forward(s, k) - 1;
        assert forall|m: int| i < m < e implies !word_ends_at(s, m) by {
            if m < k {
                assert(is_blank(s[m]));
            } else {
                assert(!is_blank(s[m + 1]));
            }
        }
    } else {
        assert forall|m: int| i < m < s.len() implies !word_ends_at(s, m) by {
            assert(is_blank(s[m]));
        }
    }
}

/// `b` goes to the start of the word the cursor is in, or of the word before
/// it, and stays when there is none.
pub proof fn lemma_previous_word_start(s: Seq<char>, i: int)
    requires
        0 <= i <= s.len(),
    ensures
        word_target(s, i, WordMotion::PreviousStart) matches Some(k) ==> k < i && word_starts_at(
            s,
            k,
        ) && forall|m: int| k < m < i ==> !word_starts_at(s, m),
        word_target(s, i, WordMotion::PreviousStart) is None ==> forall|m: int|
            0 <= m < i ==> !word_starts_at(s, m),
{
    lemma_skip_blank_backward(s, i);
    let k = skip_blank_backward(s, i);
    if k > 0 {
        lemma_skip_text_backward(s, k);
        let m0 = skip_text_backward(s, k);
        assert forall|m: int| m0 < m < i implies !word_starts_at(s, m) by {
            if m < k {
                assert(!is_blank(s[m - 1]));
            } else {
                assert(is_blank(s[m]));
            }
        }
    } else {
        assert forall|m: int| 0 <= m < i implies !word_starts_at(s, m) by {
            assert(is_blank(s[m]));
        }
    }
}

/// The blanks of a row are the spaces and the tabs.
pub proof fn lemma_blank_chars(c: char)
    ensures
        is_blank(c) <==> (c == ' ' || c == '\t'),
{
}

/// After the character of a pending find, the cursor is on the found
/// column (`f`, `F`), one cell before it (`t`) or one cell after it (`T`),
/// and stays where it was when the character is not found; the find is no
/// longer pending and nothing else changes.
pub proof fn lemma_find_char_moves(cm: CopyModeState, s: Seq<char>, ch: char)
    requires
        cm.find is Some,
    ensures
        find_char_step(Some(cm), s, ch) matches CopyModeStep::Update { state, scroll } && scroll
            == PaneScroll::Stay && state == (CopyModeState {
            cursor_col: state.cursor_col,
            find: None,
            ..cm
        }) && ({
            let col = cm.cursor_col as int;
            let found = match cm.find->0 {
                CopyModeFindKind::Forward | CopyModeFindKind::TillForward => forward_find_column(
                    s,
                    col,
                    ch,
                ),
                CopyModeFindKind::Backward | CopyModeFindKind::TillBackward => backward_find_column(
                    s,
                    col,
                    ch,
                ),
            };
            let shift: int = match cm.find->0 {
                CopyModeFindKind::TillForward => -1,
                CopyModeFindKind::TillBackward => 1,
                _ => 0,
            };
            &&& found is None ==> state.cursor_col == cm.cursor_col
            &&& (found is Some && 0 <= found->0 + shift <= u16::MAX) ==> state.cursor_col
                == found->0 + shift
        }),
{
}

/// After a word motion the cursor is on the starting column of the
/// character the motion lands on, and stays when it lands nowhere; nothing
/// else changes.
pub proof fn lemma_word_motion_moves(cm: CopyModeState, s: Seq<char>, motion: WordMotion)
    ensures
        word_motion_step(Some(cm), s, motion) matches CopyModeStep::Update { state, scroll }
            && scroll == PaneScroll::Stay && state == (CopyModeState {
            cursor_col: state.cursor_col,
            ..cm
        }) && match word_target(s, char_boundary_index(s, cm.cursor_col as int), motion) {
            Some(k) => prefix_cells(s, k) <= u16::MAX ==> state.cursor_col == prefix_cells(s, k),
            None => state.cursor_col == cm.cursor_col,
        },
{
}

/// `^` puts the cursor on the starting column of the row's first non-blank
/// character, or on the first column of a blank row.
pub proof fn lemma_first_non_blank_moves(cm: CopyModeState, s: Seq<char>)
    ensures
        first_non_blank_step(Some(cm), s) matches CopyModeStep::Update { state, scroll } && scroll
            == PaneScroll::Stay && state == (CopyModeState { cursor_col: state.cursor_col, ..cm })
            && ((forall|j: int| 0 <= j < s.len() ==> is_blank(#[trigger] s[j])) ==> state.cursor_col
            == 0),
        forall|k: int|
            0 <= k < s.len() && !is_blank(s[k]) && (forall|j: int| 0 <= j < k ==> is_blank(
                #[trigger] s[j],
            )) && prefix_cells(s, k) <= u16::MAX ==> (first_non_blank_step(Some(cm), s) matches CopyModeStep::Update {
                state,
                ..
            } && state.cursor_col == prefix_cells(s, k)),
{
    lemma_skip_blank_forward(s, 0);
}

proof fn lemma_rows_forward(rows: Seq<Seq<char>>, k: int)
    requires
        0 <= k <= rows.len(),
    ensures
        k <= skip_blank_rows_forward(rows, k) <= rows.len(),
        skip_blank_rows_forward(rows, k) < rows.len() ==> !is_blank_row(
            rows[skip_blank_rows_forward(rows, k)],
        ),
        forall|j: int| k <= j < skip_blank_rows_forward(rows, k) ==> is_blank_row(#[trigger] rows[j]),
        k <= skip_text_rows_forward(rows, k) <= rows.len(),
        skip_text_rows_forward(rows, k) < rows.len() ==> is_blank_row(
            rows[skip_text_rows_forward(rows, k)],
        ),
        forall|j: int| k <= j < skip_text_rows_forward(rows, k) ==> !is_blank_row(#[trigger] rows[j]),
    decreases rows.len() - k,
{
    if k < rows.len() {
        lemma_rows_forward(rows, k + 1);
    }
}

proof fn lemma_rows_backward(rows: Seq<Seq<char>>, k: int)
    requires
        0 <= k <= rows.len(),
    ensures
        0 <= skip_blank_rows_backward(rows, k) <= k,
        skip_blank_rows_backward(rows, k) > 0 ==> !is_blank_row(
            rows[skip_blank_rows_backward(rows, k) - 1],
        ),
        forall|j: int| skip_blank_rows_backward(rows, k) <= j < k ==> is_blank_row(#[trigger] rows[j]),
        0 <= skip_text_rows_backward(rows, k) <= k,
        skip_text_rows_backward(rows, k) > 0 ==> is_blank_row(
            rows[skip_text_rows_backward(rows, k) - 1],
        ),
        forall|j: int| skip_text_rows_backward(rows, k) <= j < k ==> !is_blank_row(#[trigger] rows[j]),
    decreases k,
{
    if k > 0 {
        lemma_rows_backward(rows, k - 1);
    }
}

/// Row `m` ends a paragraph: a blank row right after a row with text.
pub open spec fn paragraph_ends_at(rows: Seq<Seq<char>>, m: int) -> bool {
    0 < m < rows.len() && is_blank_row(rows[m]) && !is_blank_row(rows[m - 1])
}

/// Row `m` starts a paragraph: a blank row right before a row with text.
pub open spec fn paragraph_starts_at(rows: Seq<Seq<char>>, m: int) -> bool {
    0 <= m && m + 1 < rows.len() && is_blank_row(rows[m]) && !is_blank_row(rows[m + 1])
}

/// `}` goes to the nearest blank row below the cursor that ends a
/// paragraph, or to the last row when there is none.
pub proof fn lemma_paragraph_forward(rows: Seq<Seq<char>>, row: int)
    requires
        0 <= row < rows.len(),
    ensures
        ({
            let r = paragraph_row(rows, row, 1i16);
            ||| row < r && paragraph_ends_at(rows, r) && forall|m: int|
                row < m < r ==> !paragraph_ends_at(rows, m)
            ||| r == rows.len() - 1 && forall|m: int|
                row < m < rows.len() ==> !paragraph_ends_at(rows, m)
        }),
{
    lemma_rows_forward(rows, row);
    let j = skip_blank_rows_forward(rows, row);
    lemma_rows_forward(rows, j);
    let k = skip_text_rows_forward(rows, j);
    assert forall|m: int| row < m < k implies !paragraph_ends_at(rows, m) by {
        if m < j {
            assert(is_blank_row(rows[m - 1]));
        } else {
            assert(!is_blank_row(rows[m]));
        }
    }
    if k < rows.len() {
        assert(k > j);
        assert(!is_blank_row(rows[k - 1]));
    }
}

/// `{` goes to the nearest blank row above the cursor that starts a
/// paragraph, or to the first row when there is none.
pub proof fn lemma_paragraph_backward(rows: Seq<Seq<char>>, row: int)
    requires
        0 <= row < rows.len(),
    ensures
        ({
            let r = paragraph_row(rows, row, -1i16);
            ||| r < row && paragraph_starts_at(rows, r) && forall|m: int|
                r < m < row ==> !paragraph_starts_at(rows, m)
            ||| r == 0 && forall|m: int| 0 <= m < row ==> !paragraph_starts_at(rows, m)
        }),
{
    lemma_rows_backward(rows, row + 1);
    let k0 = skip_blank_rows_backward(rows, row + 1);
    lemma_rows_backward(rows, k0);
    let m0 = skip_text_rows_backward(rows, k0);
    assert forall|m: int| m0 <= m < row implies !paragraph_starts_at(rows, m) by {
        if m < k0 {
            assert(!is_blank_row(rows[m]));
        } else {
            assert(is_blank_row(rows[m + 1]));
        }
    }
    if m0 > 0 {
        assert(m0 < k0);
        assert(!is_blank_row(rows[m0]));
    }
}

/// Paragraph motions move the cursor's row only.
pub proof fn lemma_paragraph_moves(cm: CopyModeState, rows: Seq<Seq<char>>, direction: i16)
    requires
        cm.cursor_row < rows.len(),
    ensures
        paragraph_step(Some(cm), rows, direction) matches CopyModeStep::Update { state, scroll }
            && scroll == PaneScroll::Stay && state == (CopyModeState {
            cursor_row: state.cursor_row,
            ..cm
        }) && (paragraph_row(rows, cm.cursor_row as int, direction) <= u16::MAX ==> state.cursor_row
            == paragraph_row(rows, cm.cursor_row as int, direction)),
{
    lemma_rows_forward(rows, cm.cursor_row as int);
    lemma_rows_forward(rows, skip_blank_rows_forward(rows, cm.cursor_row as int));
    lemma_rows_backward(rows, cm.cursor_row + 1);
    lemma_rows_backward(rows, skip_blank_rows_backward(rows, cm.cursor_row + 1));
}

/// Shift gives the upper-case letter of a lower-case one, the US symbol row
/// over the digits, and the braces over the brackets; a shifted character
/// the terminal reports wins, and Control makes no command character.
pub proof fn lemma_command_chars(c: char, shift: bool, shifted: Option<char>)
    ensures
        command_char(c, shift, true, shifted) is None,
        command_char(c, false, false, None) == Some(c),
        shifted matches Some(r) ==> command_char(c, shift, false, shifted) == Some(r),
        'a' <= c <= 'z' ==> command_char(c, true, false, None) == Some(((c as u32) - 32) as char),
        command_char('6', true, false, None) == Some('^'),
        command_char('4', true, false, None) == Some('$'),
        command_char('[', true, false, None) == Some('{'),
        command_char(']', true, false, None) == Some('}'),
        command_char('0', true, false, None) == Some(')'),
{
}

/// A line-wise selection always spans from the smaller to the larger of its
/// anchor row and the cursor's row, across the whole width; a character-wise
/// one ends on the cursor's cell.
pub proof fn lemma_selection_follows_cursor(
    cm: CopyModeState,
    rect: PaneRect,
    cursor_row_abs: usize,
)
    ensures
        cm.selection matches Some(CopyModeSelection::Linewise { anchor_row }) ==> (selection_sync(
            Some(cm),
            Some(rect),
            cursor_row_abs,
        ) matches SelectionSync::Lines(l) && l.pane_id == cm.pane_id && l.start_row <= l.end_row
            && (l.start_row == anchor_row || l.start_row == cursor_row_abs) && (l.end_row
            == anchor_row || l.end_row == cursor_row_abs) && l.start_row <= anchor_row <= l.end_row
            && l.start_row <= cursor_row_abs <= l.end_row && (rect.width > 0 ==> l.end_col
            == rect.width - 1)),
        cm.selection == Some(CopyModeSelection::Character) ==> selection_sync(
            Some(cm),
            Some(rect),
            cursor_row_abs,
        ) == (SelectionSync::ExtendTo { pane_id: cm.pane_id, row: cm.cursor_row, col: cm.cursor_col }),
        cm.selection is None ==> selection_sync(Some(cm), Some(rect), cursor_row_abs)
            == SelectionSync::Keep,
{
}

// ---------------------------------------------------------------------------
// Executable code
// ---------------------------------------------------------------------------

fn blank(c: char) -> (b: bool)
    ensures
        b == is_blank(c),
{
    c == ' ' || c == '\t'
}

/// The cursor column for a character index of the row, if there is one and
/// it fits a column; otherwise `col`.
fn column_for_index(s: &str, k: Option<usize>, col: u16) -> (res: u16)
    requires
        k matches Some(i) ==> i <= s@.len(),
    ensures
        res == column_or(
            column_of(
                s@,
                match k {
                    Some(i) => Some(i as int),
                    None => None,
                },
            ),
            col,
        ),
{
    match k {
        Some(i) => match prefix_width(s, i, 65535) {
            Some(w) => w as u16,
            None => col,
        },
        None => col,
    }
}

/// Clearing the selection while selecting: back to navigating, everything
/// else kept. The application clears its selection alongside.
pub fn clear_selection_step(copy_mode: Option<CopyModeState>) -> (res: CopyModeStep)
    ensures
        res == match copy_mode {
            Some(cm) => CopyModeStep::Update {
                state: CopyModeState { substate: CopyModeSubState::Navigate, ..cm },
                scroll: PaneScroll::Stay,
            },
            None => CopyModeStep::Unchanged,
        },
{
    match copy_mode {
        Some(cm) => CopyModeStep::Update {
            state: CopyModeState { substate: CopyModeSubState::Navigate, ..cm },
            scroll: PaneScroll::Stay,
        },
        None => CopyModeStep::Unchanged,
    }
}

/// `v` or space: copy mode switches to selecting and a character-wise
/// selection starts at the cursor. The new state, and the anchor when the
/// selection could start (the pane is known and the cursor lies on it);
/// `None` without copy mode.
pub fn start_selecting(
    copy_mode: Option<CopyModeState>,
    rect: Option<PaneRect>,
    metrics: Option<ScrollMetrics>,
) -> (res: Option<(CopyModeState, Option<SelectionAnchor>)>)
    ensures
        match copy_mode {
            None => res is None,
            Some(cm) => {
                let selecting = CopyModeState { substate: CopyModeSubState::Selecting, ..cm };
                match rect {
                    Some(r) => if cursor_in_pane(cm, r) {
                        res == Some(
                            (
                                CopyModeState {
                                    selection: Some(CopyModeSelection::Character),
                                    ..selecting
                                },
                                Some(
                                    SelectionAnchor {
                                        pane_id: cm.pane_id,
                                        row: cm.cursor_row,
                                        col: cm.cursor_col,
                                        metrics,
                                    },
                                ),
                            ),
                        )
                    } else {
                        res == Some((selecting, None::<SelectionAnchor>))
                    },
                    None => res == Some((selecting, None::<SelectionAnchor>)),
                }
            },
        },
{
    let Some(cm) = copy_mode else {
        return None;
    };
    let selecting = CopyModeState { substate: CopyModeSubState::Selecting, ..cm };
    match begin_copy_mode_selection(Some(selecting), rect, metrics) {
        Some((state, anchor)) => Some((state, Some(anchor))),
        None => Some((selecting, None)),
    }
}

/// `f`, `F`, `t`, `T`: the find waits for its character.
pub fn copy_mode_find(copy_mode: Option<CopyModeState>, kind: CopyModeFindKind) -> (res:
    CopyModeStep)
    ensures
        res == match copy_mode {
            Some(cm) => CopyModeStep::Update {
                state: CopyModeState { find: Some(kind), ..cm },
                scroll: PaneScroll::Stay,
            },
            None => CopyModeStep::Unchanged,
        },
{
    match copy_mode {
        Some(cm) => CopyModeStep::Update {
            state: CopyModeState { find: Some(kind), ..cm },
            scroll: PaneScroll::Stay,
        },
        None => CopyModeStep::Unchanged,
    }
}

/// The character that completes a pending find, on the cursor's row `line`.
pub fn copy_mode_find_char(copy_mode: Option<CopyModeState>, line: &str, ch: char) -> (res:
    CopyModeStep)
    ensures
        res == find_char_step(copy_mode, line@, ch),
{
    let Some(mut cm) = copy_mode else {
        return CopyModeStep::Unchanged;
    };
    let Some(kind) = cm.find else {
        return CopyModeStep::Unchanged;
    };
    let col = cm.cursor_col as usize;
    proof {
        // A forward find lands after the cursor and a backward one before it,
        // so the cell next to either is a column.
        crate::copy_mode::lemma_forward_find_after(line@, col as int, ch);
        crate::copy_mode::lemma_backward_find_before(line@, col as int, ch);
    }
    let target: Option<usize> = match kind {
        CopyModeFindKind::Forward => forward_find_col(line, col, ch),
        CopyModeFindKind::Backward => backward_find_col(line, col, ch),
        CopyModeFindKind::TillForward => match forward_find_col(line, col, ch) {
            Some(c) => Some(c - 1),
            None => None,
        },
        CopyModeFindKind::TillBackward => match backward_find_col(line, col, ch) {
            Some(c) => Some(c + 1),
            None => None,
        },
    };
    cm.cursor_col = match target {
        Some(t) => if t <= 65535 {
            t as u16
        } else {
            cm.cursor_col
        },
        None => cm.cursor_col,
    };
    cm.find = None;
    CopyModeStep::Update { state: cm, scroll: PaneScroll::Stay }
}

/// A word motion on the cursor's row `line`.
pub fn copy_mode_word_motion(copy_mode: Option<CopyModeState>, line: &str, motion: WordMotion) -> (res:
    CopyModeStep)
    ensures
        res == word_motion_step(copy_mode, line@, motion),
{
    let Some(mut cm) = copy_mode else {
        return CopyModeStep::Unchanged;
    };
    let ghost s = line@;
    let n = line.unicode_len();
    let i = char_boundary(line, cm.cursor_col as usize);
    proof {
        crate::cursor::lemma_boundary_from(s, cm.cursor_col as int, 0);
    }
    let target: Option<usize> = match motion {
        WordMotion::NextStart => {
            let mut k = i;
            while k < n && !blank(line.get_char(k))
                invariant
                    n == s.len(),
                    s == line@,
                    i <= k <= n,
                    skip_text_forward(s, i as int) == skip_text_forward(s, k as int),
                decreases n - k,
            {
                k = k + 1;
            }
            let ghost j = k;
            while k < n && blank(line.get_char(k))
                invariant
                    n == s.len(),
                    s == line@,
                    j <= k <= n,
                    skip_blank_forward(s, j as int) == skip_blank_forward(s, k as int),
                decreases n - k,
            {
                k = k + 1;
            }
            if k < n {
                Some(k)
            } else {
                None
            }
        },
        WordMotion::NextEnd => {
            let mut k = if i < n {
                i + 1
            } else {
                n
            };
            while k < n && blank(line.get_char(k))
                invariant
                    n == s.len(),
                    s == line@,
                    k <= n,
                    i < n ==> skip_blank_forward(s, i + 1) == skip_blank_forward(s, k as int),
                    i >= n ==> k == n,
                decreases n - k,
            {
                k = k + 1;
            }
            if k < n {
                let ghost start = k;
                while k < n && !blank(line.get_char(k))
                    invariant
                        n == s.len(),
                        s == line@,
                        start < n,
                        start <= k <= n,
                        skip_text_forward(s, start as int) == skip_text_forward(s, k as int),
                    decreases n - k,
                {
                    k = k + 1;
                }
                Some(k - 1)
            } else {
                None
            }
        },
        WordMotion::PreviousStart => {
            let mut k = i;
            while k > 0 && blank(line.get_char(k - 1))
                invariant
                    n == s.len(),
                    s == line@,
                    k <= i <= n,
                    skip_blank_backward(s, i as int) == skip_blank_backward(s, k as int),
                decreases k,
            {
                k = k - 1;
            }
            if k > 0 {
                let ghost from = k;
                while k > 0 && !blank(line.get_char(k - 1))
                    invariant
                        n == s.len(),
                        s == line@,
                        0 < from <= n,
                        k <= from,
                        skip_text_backward(s, from as int) == skip_text_backward(s, k as int),
                    decreases k,
                {
                    k = k - 1;
                }
                Some(k)
            } else {
                None
            }
        },
    };
    proof {
        if let Some(t) = target {
            lemma_skip_text_forward(s, t as int);
        }
    }
    cm.cursor_col = column_for_index(line, target, cm.cursor_col);
    CopyModeStep::Update { state: cm, scroll: PaneScroll::Stay }
}

/// `^`: the cursor goes to the first non-blank column of its row `line`.
pub fn copy_mode_first_non_blank(copy_mode: Option<CopyModeState>, line: &str) -> (res:
    CopyModeStep)
    ensures
        res == first_non_blank_step(copy_mode, line@),
{
    let Some(mut cm) = copy_mode else {
        return CopyModeStep::Unchanged;
    };
    let ghost s = line@;
    let n = line.unicode_len();
    let mut k: usize = 0;
    while k < n && blank(line.get_char(k))
        invariant
            n == s.len(),
            s == line@,
            k <= n,
            skip_blank_forward(s, 0) == skip_blank_forward(s, k as int),
        decreases n - k,
    {
        k = k + 1;
    }
    cm.cursor_col = if k < n {
        column_for_index(line, Some(k), cm.cursor_col)
    } else {
        column_for_index(line, Some(0), cm.cursor_col)
    };
    CopyModeStep::Update { state: cm, scroll: PaneScroll::Stay }
}

/// Whether a row holds nothing but blanks.
pub fn is_blank_line(line: &str) -> (res: bool)
    ensures
        res == is_blank_row(line@),
{
    let n = line.unicode_len();
    let mut i: usize = 0;
    while i < n
        invariant
            n == line@.len(),
            i <= n,
            forall|j: int| 0 <= j < i ==> is_blank(#[trigger] line@[j]),
        decreases n - i,
    {
        if !blank(line.get_char(i)) {
            return false;
        }
        i = i + 1;
    }
    true
}

/// The values of the visible rows.
pub open spec fn rows_view(rows: Seq<String>) -> Seq<Seq<char>> {
    rows.map_values(|r: String| r@)
}

/// `{` (`direction < 0`) and `}`: the cursor goes to the blank row before or
/// after the paragraph, among the pane's visible `rows`.
pub fn copy_mode_paragraph(copy_mode: Option<CopyModeState>, rows: &Vec<String>, direction: i16) -> (res:
    CopyModeStep)
    ensures
        res == paragraph_step(copy_mode, rows_view(rows@), direction),
{
    let Some(mut cm) = copy_mode else {
        return CopyModeStep::Unchanged;
    };
    let ghost rs = rows_view(rows@);
    let n = rows.len();
    let row = cm.cursor_row as usize;
    if row >= n {
        return CopyModeStep::Unchanged;
    }
    let target: usize;
    if direction > 0 {
        let mut k = row;
        while k < n && is_blank_line(rows[k].as_str())
            invariant
                n == rs.len(),
                rs == rows_view(rows@),
                row <= k <= n,
                skip_blank_rows_forward(rs, row as int) == skip_blank_rows_forward(rs, k as int),
            decreases n - k,
        {
            k = k + 1;
        }
        let ghost mid = k;
        while k < n && !is_blank_line(rows[k].as_str())
            invariant
                n == rs.len(),
                rs == rows_view(rows@),
                mid <= k <= n,
                skip_text_rows_forward(rs, mid as int) == skip_text_rows_forward(rs, k as int),
            decreases n - k,
        {
            k = k + 1;
        }
        target = if k < n {
            k
        } else {
            n - 1
        };
    } else {
        let mut k = row + 1;
        while k > 0 && is_blank_line(rows[k - 1].as_str())
            invariant
                n == rs.len(),
                rs == rows_view(rows@),
                k <= row + 1 <= n,
                skip_blank_rows_backward(rs, row + 1) == skip_blank_rows_backward(rs, k as int),
            decreases k,
        {
            k = k - 1;
        }
        let ghost mid = k;
        while k > 0 && !is_blank_line(rows[k - 1].as_str())
            invariant
                n == rs.len(),
                rs == rows_view(rows@),
                k <= mid <= n,
                skip_text_rows_backward(rs, mid as int) == skip_text_rows_backward(rs, k as int),
            decreases k,
        {
            k = k - 1;
        }
        target = if k > 0 {
            k - 1
        } else {
            0
        };
    }
    cm.cursor_row = if target <= 65535 {
        target as u16
    } else {
        cm.cursor_row
    };
    CopyModeStep::Update { state: cm, scroll: PaneScroll::Stay }
}

/// The US-keyboard character of a shifted key.
fn shifted_char(c: char) -> (res: char)
    ensures
        res == us_shifted(c),
{
    if 'a' <= c && c <= 'z' {
        return ((c as u32) - 32) as u8 as char;
    }
    match c {
        '1' => '!',
        '2' => '@',
        '3' => '#',
        '4' => '$',
        '5' => '%',
        '6' => '^',
        '7' => '&',
        '8' => '*',
        '9' => '(',
        '0' => ')',
        '-' => '_',
        '=' => '+',
        '[' => '{',
        ']' => '}',
        '\\' => '|',
        ';' => ':',
        '\'' => '"',
        ',' => '<',
        '.' => '>',
        '/' => '?',
        '`' => '~',
        _ => c,
    }
}

/// The command character of a character key, given its modifiers and the
/// shifted character the terminal reported (with enhanced key reporting).
pub fn copy_mode_command_char(c: char, shift: bool, ctrl: bool, shifted: Option<char>) -> (res:
    Option<char>)
    ensures
        res == command_char(c, shift, ctrl, shifted),
{
    if ctrl {
        return None;
    }
    match shifted {
        Some(s) => Some(s),
        None => if shift {
            Some(shifted_char(c))
        } else {
            Some(c)
        },
    }
}

/// How the application's selection follows the cursor after a motion, with
/// the cursor's row at absolute row `cursor_row_abs` of the pane's history.
pub fn sync_copy_mode_selection(
    copy_mode: Option<CopyModeState>,
    rect: Option<PaneRect>,
    cursor_row_abs: usize,
) -> (res: SelectionSync)
    ensures
        res == selection_sync(copy_mode, rect, cursor_row_abs),
{
    let Some(cm) = copy_mode else {
        return SelectionSync::Keep;
    };
    match cm.selection {
        Some(CopyModeSelection::Character) => SelectionSync::ExtendTo {
            pane_id: cm.pane_id,
            row: cm.cursor_row,
            col: cm.cursor_col,
        },
        Some(CopyModeSelection::Linewise { anchor_row }) => match rect {
            Some(r) => SelectionSync::Lines(
                LineSelection {
                    pane_id: cm.pane_id,
                    start_row: if anchor_row <= cursor_row_abs {
                        anchor_row
                    } else {
                        cursor_row_abs
                    },
                    end_row: if anchor_row >= cursor_row_abs {
                        anchor_row
                    } else {
                        cursor_row_abs
                    },
                    end_col: r.width.saturating_sub(1),
                },
            ),
            None => SelectionSync::Keep,
        },
        None => SelectionSync::Keep,
    }
}

} // verus!
