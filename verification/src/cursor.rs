//! Editing a single-line text field addressed by a visual cursor.
//!
//! The cursor is measured in terminal cells: a character occupies
//! `cells(c)` columns. A string is modelled by its characters (`s@`), and
//! positions inside it by character indices.

use vstd::prelude::*;

use crate::chars::{cells, char_width, is_alphanumeric, push_char, unicode_is_alphanumeric};

verus! {

// ---------------------------------------------------------------------------
// Model
// ---------------------------------------------------------------------------

/// The column at which character `i` of `s` starts: the cells of the first
/// `i` characters.
pub open spec fn prefix_cells(s: Seq<char>, i: int) -> nat
    decreases i,
{
    if i <= 0 {
        0
    } else {
        prefix_cells(s, i - 1) + cells(s[i - 1])
    }
}

/// Scanning from index `i`, the first character whose starting column is at
/// or past `cursor`; the length of `s` when there is none.
pub open spec fn boundary_from(s: Seq<char>, cursor: int, i: int) -> int
    decreases s.len() - i,
{
    if i >= s.len() || prefix_cells(s, i) >= cursor {
        i
    } else {
        boundary_from(s, cursor, i + 1)
    }
}

/// The character index that the visual `cursor` designates: the first
/// character starting at or after that column, or the end of the text.
pub open spec fn char_boundary_index(s: Seq<char>, cursor: int) -> int {
    boundary_from(s, cursor, 0)
}

/// `c` belongs to a word: alphanumeric or an underscore. Among ASCII these
/// are the letters, the digits and `_` (what `char::is_alphanumeric` gives
/// there); beyond ASCII, the Unicode alphanumerics.
pub open spec fn is_word_char(c: char) -> bool {
    if (c as u32) < 0x80 {
        is_ascii_word_char(c)
    } else {
        unicode_is_alphanumeric(c)
    }
}

/// An ASCII letter, digit or underscore.
pub open spec fn is_ascii_word_char(c: char) -> bool {
    ('a' <= c && c <= 'z') || ('A' <= c && c <= 'Z') || ('0' <= c && c <= '9') || c == '_'
}

/// Going back from index `k`, the start of the run of non-word characters
/// that ends at `k`.
pub open spec fn skip_back_non_word(s: Seq<char>, k: int) -> int
    decreases k,
{
    if k <= 0 {
        0
    } else if !is_word_char(s[k - 1]) {
        skip_back_non_word(s, k - 1)
    } else {
        k
    }
}

/// Going back from index `k`, the start of the run of word characters that
/// ends at `k`.
pub open spec fn skip_back_word(s: Seq<char>, k: int) -> int
    decreases k,
{
    if k <= 0 {
        0
    } else if is_word_char(s[k - 1]) {
        skip_back_word(s, k - 1)
    } else {
        k
    }
}

/// Where a backward word deletion ending at index `end` starts: the
/// non-word characters just before `end` go, and then the word before them.
pub open spec fn word_start_before(s: Seq<char>, end: int) -> int {
    skip_back_word(s, skip_back_non_word(s, end))
}

/// `s` with the characters at indices `from..to` removed.
pub open spec fn remove_range(s: Seq<char>, from: int, to: int) -> Seq<char> {
    s.subrange(0, from) + s.subrange(to, s.len() as int)
}

/// `s` with `c` inserted at character index `at`.
pub open spec fn insert_char(s: Seq<char>, at: int, c: char) -> Seq<char> {
    s.subrange(0, at).push(c) + s.subrange(at, s.len() as int)
}

/// The width of the whole text in cells, capped at `usize::MAX`.
pub open spec fn text_cells_capped(s: Seq<char>) -> int {
    if prefix_cells(s, s.len() as int) <= usize::MAX {
        prefix_cells(s, s.len() as int) as int
    } else {
        usize::MAX as int
    }
}

/// `a - b`, or zero when `b` is larger.
pub open spec fn saturating_sub(a: int, b: int) -> int {
    if a >= b {
        a - b
    } else {
        0
    }
}

/// The new cursor of `backspace_at`: the column where the character
/// occupying the cell before the cursor starts, or `None` when no character
/// occupies that cell (the cursor is at the start, or past the end of the
/// text). That character is the one before the character the cursor
/// designates.
pub open spec fn backspace_result(s: Seq<char>, cursor: usize) -> Option<usize> {
    let b = char_boundary_index(s, cursor as int);
    if cursor == 0 || prefix_cells(s, b) < cursor {
        None
    } else {
        Some(prefix_cells(s, b - 1) as usize)
    }
}

/// The new cursor of `delete_word_at`, or `None` when nothing is deleted.
pub open spec fn delete_word_result(s: Seq<char>, cursor: usize) -> Option<usize> {
    let end = char_boundary_index(s, cursor as int);
    if cursor == 0 || word_start_before(s, end) == end {
        None
    } else {
        Some(prefix_cells(s, word_start_before(s, end)) as usize)
    }
}

/// The cursor after moving one character to the left.
pub open spec fn cursor_left_result(s: Seq<char>, cursor: int) -> int {
    let b = char_boundary_index(s, cursor);
    if cursor <= 0 {
        0
    } else if b > 0 {
        saturating_sub(cursor, cells(s[b - 1]) as int)
    } else {
        cursor
    }
}

/// The cursor after moving one character to the right; with no character at
/// or after the cursor, the end of the text (its width in cells).
pub open spec fn cursor_right_result(s: Seq<char>, cursor: int) -> int {
    let b = char_boundary_index(s, cursor);
    if b < s.len() {
        cursor + cells(s[b])
    } else {
        text_cells_capped(s)
    }
}

/// Moving right from `cursor` does not overflow a `usize`.
pub open spec fn cursor_right_fits(s: Seq<char>, cursor: int) -> bool {
    let b = char_boundary_index(s, cursor);
    b < s.len() ==> cursor + cells(s[b]) <= usize::MAX
}

// ---------------------------------------------------------------------------
// Lemmas
// ---------------------------------------------------------------------------

/// Columns never decrease along the text.
pub proof fn lemma_prefix_cells_monotone(s: Seq<char>, j: int, k: int)
    requires
        j <= k,
    ensures
        prefix_cells(s, j) <= prefix_cells(s, k),
    decreases k - j,
{
    if j < k {
        lemma_prefix_cells_monotone(s, j, k - 1);
    }
}

/// What `boundary_from` finds: a position in range, at or past the cursor
/// unless it is the end, with every earlier scanned position before it.
pub proof fn lemma_boundary_from(s: Seq<char>, cursor: int, i: int)
    requires
        0 <= i <= s.len(),
    ensures
        i <= boundary_from(s, cursor, i) <= s.len(),
        boundary_from(s, cursor, i) == s.len() || prefix_cells(s, boundary_from(s, cursor, i))
            >= cursor,
        forall|j: int| i <= j < boundary_from(s, cursor, i) ==> prefix_cells(s, j) < cursor,
    decreases s.len() - i,
{
    if i < s.len() && prefix_cells(s, i) < cursor {
        lemma_boundary_from(s, cursor, i + 1);
    }
}

/// A position in range that is at or past the cursor (or the end), with
/// every earlier position before the cursor, is the boundary.
pub proof fn lemma_boundary_unique(s: Seq<char>, cursor: int, b: int)
    requires
        0 <= b <= s.len(),
        b == s.len() || prefix_cells(s, b) >= cursor,
        forall|j: int| 0 <= j < b ==> prefix_cells(s, j) < cursor,
    ensures
        char_boundary_index(s, cursor) == b,
{
    lemma_boundary_from(s, cursor, 0);
    let r = char_boundary_index(s, cursor);
    if r < b {
        assert(prefix_cells(s, r) < cursor);
    } else if b < r {
        assert(prefix_cells(s, b) < cursor);
    }
}

/// A cursor further right never designates an earlier character.
pub proof fn lemma_boundary_monotone(s: Seq<char>, c1: int, c2: int)
    requires
        c1 <= c2,
    ensures
        char_boundary_index(s, c1) <= char_boundary_index(s, c2),
{
    lemma_boundary_from(s, c1, 0);
    lemma_boundary_from(s, c2, 0);
    let b1 = char_boundary_index(s, c1);
    let b2 = char_boundary_index(s, c2);
    if b2 < b1 {
        assert(prefix_cells(s, b2) < c1);
    }
}

proof fn lemma_skip_back_non_word(s: Seq<char>, k: int)
    requires
        0 <= k <= s.len(),
    ensures
        0 <= skip_back_non_word(s, k) <= k,
    decreases k,
{
    if k > 0 && !is_word_char(s[k - 1]) {
        lemma_skip_back_non_word(s, k - 1);
    }
}

proof fn lemma_skip_back_word(s: Seq<char>, k: int)
    requires
        0 <= k <= s.len(),
    ensures
        0 <= skip_back_word(s, k) <= k,
    decreases k,
{
    if k > 0 && is_word_char(s[k - 1]) {
        lemma_skip_back_word(s, k - 1);
    }
}

/// The start of a backward word deletion lies before its end.
pub proof fn lemma_word_start_before(s: Seq<char>, end: int)
    requires
        0 <= end <= s.len(),
    ensures
        0 <= word_start_before(s, end) <= end,
{
    lemma_skip_back_non_word(s, end);
    lemma_skip_back_word(s, skip_back_non_word(s, end));
}

// ---------------------------------------------------------------------------
// Executable code
// ---------------------------------------------------------------------------

/// The cells of `c`, control characters counting as zero.
pub(crate) fn cell_width(c: char) -> (w: usize)
    ensures
        w == cells(c),
{
    match char_width(c) {
        Some(w) => w,
        None => 0,
    }
}

/// The characters of `s` at indices `from..to`, as a new string.
pub(crate) fn substring(s: &str, from: usize, to: usize) -> (res: String)
    requires
        from <= to <= s@.len(),
    ensures
        res@ == s@.subrange(from as int, to as int),
{
    String::from_str(s.substring_char(from, to))
}

/// `s` without the characters at indices `from..to`.
fn without_range(s: &str, from: usize, to: usize) -> (res: String)
    requires
        from <= to <= s@.len(),
    ensures
        res@ == remove_range(s@, from as int, to as int),
{
    let n = s.unicode_len();
    let mut out = substring(s, 0, from);
    out.append(s.substring_char(to, n));
    out
}

/// The cells of the first `k` characters of `s`, or `None` where they are
/// more than `limit`.
pub(crate) fn prefix_width(s: &str, k: usize, limit: usize) -> (res: Option<usize>)
    requires
        k <= s@.len(),
    ensures
        prefix_cells(s@, k as int) <= limit ==> res == Some(prefix_cells(s@, k as int) as usize),
        prefix_cells(s@, k as int) > limit ==> res is None,
{
    let mut i: usize = 0;
    let mut sum: usize = 0;
    while i < k
        invariant
            k <= s@.len(),
            i <= k,
            sum == prefix_cells(s@, i as int),
            sum <= limit,
        decreases k - i,
    {
        let w = cell_width(s.get_char(i));
        if w > limit - sum {
            proof {
                lemma_prefix_cells_monotone(s@, i + 1, k as int);
            }
            return None;
        }
        sum = sum + w;
        i = i + 1;
    }
    Some(sum)
}

/// Find the index of the character at the given visual cursor position.
/// Cursor is measured in cells (visual width), not bytes.
pub(crate) fn char_boundary(s: &str, cursor: usize) -> (b: usize)
    ensures
        b == char_boundary_index(s@, cursor as int),
{
    let n = s.unicode_len();
    let mut i: usize = 0;
    let mut remaining: usize = cursor;
    while i < n
        invariant
            n == s@.len(),
            i <= n,
            remaining == saturating_sub(cursor as int, prefix_cells(s@, i as int) as int),
            char_boundary_index(s@, cursor as int) == boundary_from(s@, cursor as int, i as int),
        decreases n - i,
    {
        if remaining == 0 {
            return i;
        }
        let w = cell_width(s.get_char(i));
        remaining = remaining.saturating_sub(w);
        i = i + 1;
    }
    i
}

/// Insert a character at the cursor position and return the new cursor.
pub fn insert_at(s: &mut String, cursor: usize, c: char) -> (new_cursor: usize)
    requires
        cursor + cells(c) <= usize::MAX,
    ensures
        final(s)@ == insert_char(old(s)@, char_boundary_index(old(s)@, cursor as int), c),
        new_cursor == cursor + cells(c),
{
    let b = char_boundary(s.as_str(), cursor);
    proof {
        lemma_boundary_from(s@, cursor as int, 0);
    }
    let n = s.as_str().unicode_len();
    let mut out = substring(s.as_str(), 0, b);
    push_char(&mut out, c);
    out.append(s.as_str().substring_char(b, n));
    *s = out;
    cursor + cell_width(c)
}

/// `insert_at`, or `None` with `s` unchanged where the new cursor would not
/// fit in a `usize`.
pub fn try_insert_at(s: &mut String, cursor: usize, c: char) -> (new_cursor: Option<usize>)
    ensures
        cursor + cells(c) <= usize::MAX ==> new_cursor == Some((cursor + cells(c)) as usize)
            && final(s)@ == insert_char(old(s)@, char_boundary_index(old(s)@, cursor as int), c),
        cursor + cells(c) > usize::MAX ==> new_cursor is None && final(s)@ == old(s)@,
{
    let w = cell_width(c);
    if cursor <= usize::MAX - w {
        Some(insert_at(s, cursor, c))
    } else {
        None
    }
}

/// Delete the character before the cursor and return the new cursor.
pub fn backspace_at(s: &mut String, cursor: usize) -> (new_cursor: Option<usize>)
    ensures
        new_cursor == backspace_result(old(s)@, cursor),
        new_cursor is None ==> final(s)@ == old(s)@,
        new_cursor is Some ==> final(s)@ == remove_range(
            old(s)@,
            char_boundary_index(old(s)@, cursor as int) - 1,
            char_boundary_index(old(s)@, cursor as int),
        ),
{
    if cursor == 0 {
        return None;
    }
    let idx = char_boundary(s.as_str(), cursor);
    let n = s.as_str().unicode_len();
    proof {
        lemma_boundary_from(s@, cursor as int, 0);
    }
    if idx == n {
        // Past the end of the text no character occupies the cell before the
        // cursor.
        if let Some(_) = prefix_width(s.as_str(), n, cursor - 1) {
            return None;
        }
    }
    proof {
        if idx > 0 {
            assert(prefix_cells(s@, idx - 1) < cursor);
        }
    }
    let new_cursor = prefix_width(s.as_str(), idx - 1, usize::MAX);
    let out = without_range(s.as_str(), idx - 1, idx);
    *s = out;
    new_cursor
}

/// Delete the word before/at the cursor and return the new cursor.
pub fn delete_word_at(s: &mut String, cursor: usize) -> (new_cursor: Option<usize>)
    ensures
        new_cursor == delete_word_result(old(s)@, cursor),
        new_cursor is None ==> final(s)@ == old(s)@,
        new_cursor is Some ==> final(s)@ == remove_range(
            old(s)@,
            word_start_before(old(s)@, char_boundary_index(old(s)@, cursor as int)),
            char_boundary_index(old(s)@, cursor as int),
        ),
{
    if cursor == 0 {
        return None;
    }
    let end_idx = char_boundary(s.as_str(), cursor);
    let ghost text = s@;
    proof {
        lemma_boundary_from(text, cursor as int, 0);
        lemma_word_start_before(text, end_idx as int);
    }
    // Walk backward through the string to find the word boundary
    let mut boundary: usize = 0;
    let mut seen_word_char = false;
    let mut k: usize = end_idx;
    while k > 0
        invariant_except_break
            text == s@,
            k <= end_idx <= text.len(),
            !seen_word_char ==> skip_back_non_word(text, end_idx as int) == skip_back_non_word(
                text,
                k as int,
            ),
            seen_word_char ==> word_start_before(text, end_idx as int) == skip_back_word(
                text,
                k as int,
            ),
            boundary == (if k < end_idx {
                k
            } else {
                0
            }),
        ensures
            text == s@,
            boundary == word_start_before(text, end_idx as int),
        decreases k,
    {
        let ch = s.as_str().get_char(k - 1);
        let word = is_alphanumeric(ch) || ch == '_';
        assert(word == is_word_char(ch));
        if word {
            seen_word_char = true;
        } else if seen_word_char {
            boundary = k;
            break;
        }
        boundary = k - 1;
        k = k - 1;
    }
    if boundary == end_idx {
        return None;
    }
    proof {
        lemma_prefix_cells_monotone(text, boundary as int, end_idx as int - 1);
    }
    let new_cursor = prefix_width(s.as_str(), boundary, usize::MAX);
    let out = without_range(s.as_str(), boundary, end_idx);
    *s = out;
    new_cursor
}

/// Move cursor left by one visual cell.
pub fn cursor_left(s: &str, cursor: usize) -> (new_cursor: usize)
    ensures
        new_cursor == cursor_left_result(s@, cursor as int),
{
    if cursor == 0 {
        return 0;
    }
    let end_idx = char_boundary(s, cursor);
    proof {
        lemma_boundary_from(s@, cursor as int, 0);
    }
    let mut new_cursor = cursor;
    if end_idx > 0 {
        let w = cell_width(s.get_char(end_idx - 1));
        new_cursor = new_cursor.saturating_sub(w);
    }
    new_cursor
}

/// Move cursor right by one visual cell.
pub fn cursor_right(s: &str, cursor: usize) -> (new_cursor: usize)
    requires
        cursor_right_fits(s@, cursor as int),
    ensures
        new_cursor == cursor_right_result(s@, cursor as int),
{
    let end_idx = char_boundary(s, cursor);
    let n = s.unicode_len();
    if end_idx < n {
        let w = cell_width(s.get_char(end_idx));
        cursor + w
    } else {
        cursor_end(s, cursor)
    }
}

/// `cursor_right`, or `None` where the new cursor would not fit in a `usize`.
pub fn try_cursor_right(s: &str, cursor: usize) -> (new_cursor: Option<usize>)
    ensures
        cursor_right_fits(s@, cursor as int) ==> new_cursor == Some(
            cursor_right_result(s@, cursor as int) as usize,
        ),
        !cursor_right_fits(s@, cursor as int) ==> new_cursor is None,
{
    let end_idx = char_boundary(s, cursor);
    let n = s.unicode_len();
    if end_idx < n {
        let w = cell_width(s.get_char(end_idx));
        if cursor > usize::MAX - w {
            return None;
        }
    }
    Some(cursor_right(s, cursor))
}

/// Move cursor to the start of the string (Home).
pub fn cursor_home(_s: &str, _cursor: usize) -> (new_cursor: usize)
    ensures
        new_cursor == 0,
{
    0
}

/// Move cursor to the end of the string (End): the width of the whole text in
/// cells (capped at `usize::MAX`).
pub fn cursor_end(s: &str, _cursor: usize) -> (new_cursor: usize)
    ensures
        new_cursor == text_cells_capped(s@),
{
    let n = s.unicode_len();
    match prefix_width(s, n, usize::MAX) {
        Some(w) => w,
        None => usize::MAX,
    }
}


// ---------------------------------------------------------------------------
// Laws
// ---------------------------------------------------------------------------

/// Texts that agree on their first `k` characters have the same columns up
/// to `k`.
proof fn lemma_prefix_cells_agree(s: Seq<char>, t: Seq<char>, k: int, j: int)
    requires
        0 <= j <= k <= s.len(),
        k <= t.len(),
        forall|i: int| 0 <= i < k ==> s[i] == t[i],
    ensures
        prefix_cells(s, j) == prefix_cells(t, j),
    decreases j,
{
    if j > 0 {
        lemma_prefix_cells_agree(s, t, k, j - 1);
    }
}

/// Without zero-width characters, the column where character `i` starts
/// designates character `i`.
pub proof fn lemma_boundary_of_column(s: Seq<char>, i: int)
    requires
        0 <= i <= s.len(),
        forall|k: int| 0 <= k < s.len() ==> cells(#[trigger] s[k]) >= 1,
    ensures
        char_boundary_index(s, prefix_cells(s, i) as int) == i,
{
    assert forall|j: int| 0 <= j < i implies prefix_cells(s, j) < prefix_cells(s, i) by {
        lemma_prefix_cells_monotone(s, j, i - 1);
    }
    lemma_boundary_unique(s, prefix_cells(s, i) as int, i);
}

/// Backspace undoes typing: after inserting a character of one or more
/// cells at a cursor that stands at the start column of a character (or at
/// the end of the text's columns), a backspace at the returned cursor
/// removes exactly that character and gives back the original cursor.
pub proof fn lemma_backspace_undoes_insert(s: Seq<char>, cursor: usize, c: char)
    requires
        cells(c) >= 1,
        cursor + cells(c) <= usize::MAX,
        prefix_cells(s, char_boundary_index(s, cursor as int)) == cursor,
    ensures
        ({
            let typed = insert_char(s, char_boundary_index(s, cursor as int), c);
            let typed_cursor = cursor + cells(c);
            &&& backspace_result(typed, typed_cursor as usize) == Some(cursor)
            &&& remove_range(
                typed,
                char_boundary_index(typed, typed_cursor) - 1,
                char_boundary_index(typed, typed_cursor),
            ) == s
        }),
{
    let b = char_boundary_index(s, cursor as int);
    let w = cells(c) as int;
    lemma_boundary_from(s, cursor as int, 0);
    let typed = insert_char(s, b, c);
    assert(typed.len() == s.len() + 1);
    assert forall|i: int| 0 <= i < b implies s[i] == typed[i] by {}
    assert(typed[b] == c);
    assert forall|j: int| 0 <= j <= b implies prefix_cells(typed, j) == prefix_cells(s, j) by {
        lemma_prefix_cells_agree(s, typed, b, j);
    }
    assert(prefix_cells(typed, b + 1) == cursor + w);
    assert forall|j: int| 0 <= j < b + 1 implies prefix_cells(typed, j) < cursor + w by {}
    lemma_boundary_unique(typed, cursor + w, b + 1);
    assert(remove_range(typed, b, b + 1) =~= s);
}

/// Moving right and then left gives back a cursor that stands at the start
/// column of a character at least one cell wide.
pub proof fn lemma_left_undoes_right(s: Seq<char>, cursor: usize)
    requires
        char_boundary_index(s, cursor as int) < s.len(),
        prefix_cells(s, char_boundary_index(s, cursor as int)) == cursor,
        cells(s[char_boundary_index(s, cursor as int)]) >= 1,
        cursor_right_fits(s, cursor as int),
    ensures
        cursor_left_result(s, cursor_right_result(s, cursor as int)) == cursor,
{
    let b = char_boundary_index(s, cursor as int);
    lemma_boundary_from(s, cursor as int, 0);
    let right = cursor_right_result(s, cursor as int);
    assert(prefix_cells(s, b + 1) == right);
    assert forall|j: int| 0 <= j < b + 1 implies prefix_cells(s, j) < right by {}
    lemma_boundary_unique(s, right, b + 1);
}

/// Backspace deletes the character that occupies the cell before the
/// cursor: that character starts at the returned column and covers the cell
/// at `cursor - 1`.
pub proof fn lemma_backspace_deletes_previous_cell(s: Seq<char>, cursor: usize)
    ensures
        backspace_result(s, cursor) matches Some(start) ==> {
            let b = char_boundary_index(s, cursor as int);
            &&& 0 < b <= s.len()
            &&& start == prefix_cells(s, b - 1)
            &&& start <= cursor - 1 < start + cells(s[b - 1])
        },
{
    lemma_boundary_from(s, cursor as int, 0);
}

/// Which characters a word deletion treats as word characters: among ASCII
/// exactly the letters, the digits and `_`; beyond ASCII the alphanumerics.
pub proof fn lemma_word_characters(c: char)
    ensures
        (c as u32) < 0x80 ==> (is_word_char(c) <==> (('a' <= c && c <= 'z') || ('A' <= c && c
            <= 'Z') || ('0' <= c && c <= '9') || c == '_')),
        (c as u32) >= 0x80 ==> (is_word_char(c) <==> unicode_is_alphanumeric(c)),
{
}

/// Deleting the word at the end of a text removes exactly the last word
/// when the text ends in ASCII letters, digits or underscores after a
/// space (or the word is the whole text): what is before the word stays.
pub proof fn lemma_delete_last_ascii_word(before: Seq<char>, word: Seq<char>)
    requires
        word.len() > 0,
        forall|i: int|
            0 <= i < word.len() ==> ({
                let c = #[trigger] word[i];
                ('a' <= c && c <= 'z') || ('A' <= c && c <= 'Z') || ('0' <= c && c <= '9') || c
                    == '_'
            }),
        before.len() == 0 || before.last() == ' ',
    ensures
        word_start_before(before + word, (before + word).len() as int) == before.len(),
{
    let s = before + word;
    assert(is_word_char(s[s.len() - 1]));
    lemma_skip_back_word_ascii(before, word, word.len() as int);
}

proof fn lemma_skip_back_word_ascii(before: Seq<char>, word: Seq<char>, k: int)
    requires
        0 <= k <= word.len(),
        forall|i: int|
            0 <= i < word.len() ==> ({
                let c = #[trigger] word[i];
                ('a' <= c && c <= 'z') || ('A' <= c && c <= 'Z') || ('0' <= c && c <= '9') || c
                    == '_'
            }),
        before.len() == 0 || before.last() == ' ',
    ensures
        skip_back_word(before + word, before.len() + k) == before.len(),
    decreases k,
{
    let s = before + word;
    if k > 0 {
        assert(s[before.len() + k - 1] == word[k - 1]);
        lemma_skip_back_word_ascii(before, word, k - 1);
    } else if before.len() > 0 {
        assert(s[before.len() - 1] == before.last());
    }
}

/// Inserting puts the character at the given index and shifts the rest one
/// place: nothing else changes.
pub proof fn lemma_insert_char_shape(s: Seq<char>, at: int, c: char)
    requires
        0 <= at <= s.len(),
    ensures
        insert_char(s, at, c).len() == s.len() + 1,
        insert_char(s, at, c)[at] == c,
        forall|j: int| 0 <= j < at ==> #[trigger] insert_char(s, at, c)[j] == s[j],
        forall|j: int| at < j <= s.len() ==> #[trigger] insert_char(s, at, c)[j] == s[j - 1],
{
}

/// Removing a range keeps the characters before it and after it, in order.
pub proof fn lemma_remove_range_shape(s: Seq<char>, from: int, to: int)
    requires
        0 <= from <= to <= s.len(),
    ensures
        remove_range(s, from, to).len() == s.len() - (to - from),
        forall|j: int| 0 <= j < from ==> #[trigger] remove_range(s, from, to)[j] == s[j],
        forall|j: int|
            from <= j < s.len() - (to - from) ==> #[trigger] remove_range(s, from, to)[j] == s[j
                + (to - from)],
{
}

/// Moving left from the start column of a character goes to the start
/// column of the character before it.
pub proof fn lemma_left_goes_to_previous_start(s: Seq<char>, i: int)
    requires
        0 < i <= s.len(),
        char_boundary_index(s, prefix_cells(s, i) as int) == i,
    ensures
        cursor_left_result(s, prefix_cells(s, i) as int) == prefix_cells(s, i - 1),
{
}

/// Columns add up: the first column is zero, each character adds its
/// cells, and the columns of a concatenation continue those of its first
/// part.
pub proof fn lemma_columns_add_up(s: Seq<char>, t: Seq<char>, k: int)
    requires
        0 <= k <= t.len(),
    ensures
        prefix_cells(s, 0) == 0,
        k < t.len() ==> prefix_cells(t, k + 1) == prefix_cells(t, k) + cells(t[k]),
        prefix_cells(s + t, s.len() + k) == prefix_cells(s, s.len() as int) + prefix_cells(t, k),
    decreases k,
{
    if k > 0 {
        lemma_columns_add_up(s, t, k - 1);
        assert((s + t)[s.len() + k - 1] == t[k - 1]);
    } else {
        assert forall|j: int| 0 <= j < s.len() implies s[j] == (s + t)[j] by {}
        lemma_prefix_cells_agree(s, s + t, s.len() as int, s.len() as int);
    }
}

/// Moving left never moves the cursor right.
pub proof fn lemma_cursor_left_never_right(s: Seq<char>, cursor: int)
    requires
        0 <= cursor,
    ensures
        0 <= cursor_left_result(s, cursor) <= cursor,
{
}

/// Deleting a word leaves the cursor left of where it was: at the column
/// where the deleted span started.
pub proof fn lemma_delete_word_moves_cursor_left(s: Seq<char>, cursor: usize)
    ensures
        delete_word_result(s, cursor) matches Some(c) ==> c < cursor,
{
    let end = char_boundary_index(s, cursor as int);
    lemma_boundary_from(s, cursor as int, 0);
    lemma_word_start_before(s, end);
    let start = word_start_before(s, end);
    if cursor > 0 && start < end {
        lemma_prefix_cells_monotone(s, start, end - 1);
    }
}

/// A backward word deletion removes one run of word characters followed by
/// one run of separators, ending at the cursor's character, and starts right
/// after a separator or at the start of the text.
pub proof fn lemma_deleted_span_is_one_word(s: Seq<char>, end: int)
    requires
        0 <= end <= s.len(),
    ensures
        ({
            let start = word_start_before(s, end);
            let mid = skip_back_non_word(s, end);
            &&& 0 <= start <= mid <= end
            &&& forall|i: int| start <= i < mid ==> is_word_char(#[trigger] s[i])
            &&& forall|i: int| mid <= i < end ==> !is_word_char(#[trigger] s[i])
            &&& start > 0 ==> !is_word_char(s[start - 1])
            &&& mid > 0 && mid < end ==> is_word_char(s[mid - 1])
        }),
{
    lemma_skip_back_non_word_runs(s, end);
    lemma_skip_back_word_runs(s, skip_back_non_word(s, end));
}

proof fn lemma_skip_back_non_word_runs(s: Seq<char>, k: int)
    requires
        0 <= k <= s.len(),
    ensures
        0 <= skip_back_non_word(s, k) <= k,
        forall|i: int| skip_back_non_word(s, k) <= i < k ==> !is_word_char(#[trigger] s[i]),
        skip_back_non_word(s, k) > 0 ==> is_word_char(s[skip_back_non_word(s, k) - 1]),
    decreases k,
{
    if k > 0 && !is_word_char(s[k - 1]) {
        lemma_skip_back_non_word_runs(s, k - 1);
    }
}

proof fn lemma_skip_back_word_runs(s: Seq<char>, k: int)
    requires
        0 <= k <= s.len(),
    ensures
        0 <= skip_back_word(s, k) <= k,
        forall|i: int| skip_back_word(s, k) <= i < k ==> is_word_char(#[trigger] s[i]),
        skip_back_word(s, k) > 0 ==> !is_word_char(s[skip_back_word(s, k) - 1]),
    decreases k,
{
    if k > 0 && is_word_char(s[k - 1]) {
        lemma_skip_back_word_runs(s, k - 1);
    }
}

} // verus!
