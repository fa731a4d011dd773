use tabline::cursor::{
    backspace_at, cursor_end, cursor_home, cursor_left, cursor_right, delete_word_at, insert_at,
    try_cursor_right, try_insert_at,
};

#[test]
fn test_insert_at() {
    let mut s = String::from("hello");
    let cursor = insert_at(&mut s, 2, 'x');
    assert_eq!(&s, "hexllo");
    assert_eq!(cursor, 3);
}

#[test]
fn test_backspace_at() {
    let mut s = String::from("hello");
    let cursor = backspace_at(&mut s, 3).unwrap();
    assert_eq!(&s, "helo");
    assert_eq!(cursor, 2);
}

#[test]
fn test_backspace_at_beginning() {
    let mut s = String::from("");
    assert!(backspace_at(&mut s, 0).is_none());
}

#[test]
fn test_delete_word_at() {
    let mut s = String::from("hello world");
    let cursor = delete_word_at(&mut s, 11).unwrap();
    assert_eq!(&s, "hello ");
    assert_eq!(cursor, 6);
}

#[test]
fn test_cursor_left_right() {
    let s = String::from("hi");
    assert_eq!(cursor_left(s.as_str(), 1), 0);
    assert_eq!(cursor_right(s.as_str(), 0), 1);
}

#[test]
fn test_cursor_home_end() {
    let s = String::from("hello");
    assert_eq!(cursor_home(s.as_str(), 3), 0);
    assert_eq!(cursor_end(s.as_str(), 0), s.len());
}

#[test]
fn insert_wide_char_advances_two_cells() {
    let mut s = String::from("ab");
    let cursor = insert_at(&mut s, 1, '中');
    assert_eq!(&s, "a中b");
    assert_eq!(cursor, 3);
}

#[test]
fn insert_control_char_keeps_cursor() {
    let mut s = String::from("ab");
    let cursor = insert_at(&mut s, 1, '\t');
    assert_eq!(&s, "a\tb");
    assert_eq!(cursor, 1);
}

#[test]
fn insert_past_end_appends() {
    let mut s = String::from("ab");
    let cursor = insert_at(&mut s, 10, 'c');
    assert_eq!(&s, "abc");
    assert_eq!(cursor, 11);
}

#[test]
fn try_insert_at_refuses_overflow() {
    let mut s = String::from("ab");
    assert_eq!(try_insert_at(&mut s, usize::MAX, 'c'), None);
    assert_eq!(&s, "ab");
    assert_eq!(try_insert_at(&mut s, 1, 'c'), Some(2));
    assert_eq!(&s, "acb");
}

#[test]
fn backspace_undoes_insert() {
    let original = String::from("hello");
    let mut s = original.clone();
    let cursor = insert_at(&mut s, 2, 'x');
    let back = backspace_at(&mut s, cursor);
    assert_eq!(back, Some(2));
    assert_eq!(s, original);
}

#[test]
fn backspace_after_wide_char_deletes_it() {
    let mut s = String::from("日");
    assert_eq!(backspace_at(&mut s, 2), Some(0));
    assert_eq!(&s, "");
    let mut s = String::from("a中b");
    assert_eq!(backspace_at(&mut s, 3), Some(1));
    assert_eq!(&s, "ab");
}

#[test]
fn backspace_at_end_deletes_last_char() {
    let mut s = String::from("ab");
    assert_eq!(backspace_at(&mut s, 2), Some(1));
    assert_eq!(&s, "a");
    let mut e = String::new();
    assert_eq!(backspace_at(&mut e, 3), None);
}

#[test]
fn backspace_inside_wide_char_deletes_it() {
    let mut s = String::from("a中b");
    assert_eq!(backspace_at(&mut s, 2), Some(1));
    assert_eq!(&s, "ab");
}

#[test]
fn backspace_past_end_deletes_nothing() {
    let mut s = String::from("ab");
    assert_eq!(backspace_at(&mut s, 5), None);
    assert_eq!(&s, "ab");
    assert_eq!(backspace_at(&mut s, 3), None);
    assert_eq!(&s, "ab");
}

#[test]
fn backspace_undoes_wide_insert() {
    let mut s = String::from("ab");
    let cursor = insert_at(&mut s, 1, '中');
    assert_eq!(backspace_at(&mut s, cursor), Some(1));
    assert_eq!(&s, "ab");
}

#[test]
fn delete_word_takes_trailing_separators() {
    let mut s = String::from("foo bar  ");
    assert_eq!(delete_word_at(&mut s, 9), Some(4));
    assert_eq!(&s, "foo ");
}

#[test]
fn delete_word_in_middle_keeps_tail() {
    let mut s = String::from("foo_bar baz");
    assert_eq!(delete_word_at(&mut s, 7), Some(0));
    assert_eq!(&s, " baz");
}

#[test]
fn delete_word_unicode_letters_are_word_chars() {
    let mut s = String::from("a héllo");
    assert_eq!(delete_word_at(&mut s, 7), Some(2));
    assert_eq!(&s, "a ");
}

#[test]
fn delete_word_returns_cells_not_chars() {
    // '中' is two cells wide: the word "ab" starts at column 3.
    let mut s = String::from("中 ab");
    assert_eq!(delete_word_at(&mut s, 5), Some(3));
    assert_eq!(&s, "中 ");
    // A control character is zero cells wide.
    let mut s = String::from("\u{85} _");
    assert_eq!(delete_word_at(&mut s, 2), Some(1));
    assert_eq!(&s, "\u{85} ");
}

#[test]
fn delete_word_only_separators() {
    let mut s = String::from("  ");
    assert_eq!(delete_word_at(&mut s, 2), Some(0));
    assert_eq!(&s, "");
}

#[test]
fn delete_word_at_start_is_none() {
    let mut s = String::from("abc");
    assert_eq!(delete_word_at(&mut s, 0), None);
    assert_eq!(&s, "abc");
    let mut e = String::new();
    assert_eq!(delete_word_at(&mut e, 3), None);
}

#[test]
fn cursor_left_over_wide_char() {
    assert_eq!(cursor_left("a中b", 3), 1);
    assert_eq!(cursor_left("a中b", 0), 0);
    assert_eq!(cursor_left("", 4), 4);
}

#[test]
fn cursor_left_never_moves_right() {
    for c in 0..8 {
        assert!(cursor_left("a中b", c) <= c);
    }
}

#[test]
fn cursor_right_over_wide_char_and_end() {
    assert_eq!(cursor_right("a中b", 1), 3);
    // At the end there is no cell to the right: the cursor stays at the end.
    assert_eq!(cursor_right("a中b", 4), 4);
    assert_eq!(cursor_right("\u{85}a", 1), 1);
    // Past the end it goes back to the end of the text.
    assert_eq!(cursor_right("ab", 5), 2);
    assert_eq!(cursor_right("", 7), 0);
    // Inside the last wide character, to the end as well.
    assert_eq!(cursor_right("a中", 2), 3);
}

#[test]
fn cursor_left_undoes_cursor_right() {
    for s in ["hello", "a中b", "中中"] {
        let mut cursor = 0;
        while cursor < cursor_end(s, 0) {
            let right = cursor_right(s, cursor);
            assert_eq!(cursor_left(s, right), cursor);
            cursor = right;
        }
    }
}

#[test]
fn try_cursor_right_at_end_and_inside() {
    assert_eq!(try_cursor_right("ab", usize::MAX), Some(2));
    assert_eq!(try_cursor_right("ab", 0), Some(1));
}

#[test]
fn cursor_end_counts_cells() {
    assert_eq!(cursor_end("héllo", 0), 5);
    assert_eq!(cursor_end("a中b", 0), 4);
    assert_eq!(cursor_end("\u{85}a", 0), 1);
    assert_eq!(cursor_end("", 3), 0);
}
