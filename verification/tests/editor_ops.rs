use vshell::LineBuffer;

fn buffer_with(text: &str, cursor: usize) -> LineBuffer {
    let mut b = LineBuffer::new();
    for c in text.chars() {
        b.insert(c);
    }
    b.cursor = cursor.min(b.chars.len());
    b
}

fn text_of(b: &LineBuffer) -> String {
    b.chars.iter().collect()
}

#[test]
fn insert_advances_cursor() {
    let mut b = LineBuffer::new();
    b.insert('h');
    b.insert('i');
    assert_eq!(text_of(&b), "hi");
    assert_eq!(b.cursor, 2);
}

#[test]
fn insert_in_middle() {
    let mut b = buffer_with("hllo", 1);
    b.insert('e');
    assert_eq!(text_of(&b), "hello");
    assert_eq!(b.cursor, 2);
}

#[test]
fn backspace_removes_before_cursor() {
    let mut b = buffer_with("abc", 2);
    b.backspace();
    assert_eq!(text_of(&b), "ac");
    assert_eq!(b.cursor, 1);
}

#[test]
fn backspace_at_start_is_noop() {
    let mut b = buffer_with("abc", 0);
    b.backspace();
    assert_eq!(text_of(&b), "abc");
    assert_eq!(b.cursor, 0);
}

#[test]
fn delete_removes_at_cursor() {
    let mut b = buffer_with("abc", 1);
    b.delete();
    assert_eq!(text_of(&b), "ac");
    assert_eq!(b.cursor, 1);
}

#[test]
fn delete_at_end_is_noop() {
    let mut b = buffer_with("abc", 3);
    b.delete();
    assert_eq!(text_of(&b), "abc");
    assert_eq!(b.cursor, 3);
}

#[test]
fn movement_clamps_to_bounds() {
    let mut b = buffer_with("ab", 0);
    b.move_left();
    assert_eq!(b.cursor, 0);
    b.move_right();
    assert_eq!(b.cursor, 1);
    b.move_right();
    b.move_right();
    assert_eq!(b.cursor, 2);
    b.move_home();
    assert_eq!(b.cursor, 0);
    b.move_end();
    assert_eq!(b.cursor, 2);
}

#[test]
fn cursor_invariant_holds_through_operation_sequences() {
    // a mixed workload: the cursor stays inside [0, len] after every step
    let mut b = LineBuffer::new();
    let script = "abcdefgh";
    for (i, c) in script.chars().enumerate() {
        b.insert(c);
        assert!(b.cursor <= b.chars.len());
        if i % 2 == 0 {
            b.move_left();
        } else {
            b.delete();
        }
        assert!(b.cursor <= b.chars.len());
        if i % 3 == 0 {
            b.backspace();
        }
        assert!(b.cursor <= b.chars.len());
        b.move_right();
        assert!(b.cursor <= b.chars.len());
    }
    b.move_home();
    assert!(b.cursor <= b.chars.len());
    b.move_end();
    assert!(b.cursor <= b.chars.len());
    b.clear();
    assert_eq!(b.cursor, 0);
    assert_eq!(b.chars.len(), 0);
}

#[test]
fn word_at_cursor_inside_word() {
    let b = buffer_with("git sta", 7);
    let (start, end, word) = b.word_at_cursor().expect("a word");
    assert_eq!((start, end), (4, 7));
    assert_eq!(word, "sta");
}

#[test]
fn word_at_cursor_end_of_buffer_takes_trailing_word() {
    let b = buffer_with("echo hi", 7);
    let (start, end, word) = b.word_at_cursor().expect("a word");
    assert_eq!((start, end), (5, 7));
    assert_eq!(word, "hi");
}

#[test]
fn word_at_cursor_empty_buffer() {
    let b = LineBuffer::new();
    assert!(b.word_at_cursor().is_none());
}

#[test]
fn word_at_cursor_on_whitespace_takes_word_before() {
    let b = buffer_with("ab cd", 2);
    let (start, end, word) = b.word_at_cursor().expect("a word");
    assert_eq!((start, end), (0, 2));
    assert_eq!(word, "ab");
}

#[test]
fn word_at_cursor_all_spaces_is_none() {
    let b = buffer_with("   ", 1);
    assert!(b.word_at_cursor().is_none());
}

#[test]
fn replace_word_splices_and_places_cursor() {
    let mut b = buffer_with("git sta", 7);
    b.replace_word(4, 7, "status");
    assert_eq!(text_of(&b), "git status");
    assert_eq!(b.cursor, 10);
}

#[test]
fn replace_word_with_shorter_text() {
    let mut b = buffer_with("aa bbbb cc", 5);
    b.replace_word(3, 7, "x");
    assert_eq!(text_of(&b), "aa x cc");
    assert_eq!(b.cursor, 4);
}

#[test]
fn render_is_prompt_plus_buffer() {
    let b = buffer_with("ls -l", 3);
    assert_eq!(b.render("$ "), "$ ls -l");
}

#[test]
fn repeated_render_never_mutates_state() {
    let b = buffer_with("echo hi", 4);
    let first = b.render("$ ");
    let second = b.render("$ ");
    let third = b.render("$ ");
    assert_eq!(first, second);
    assert_eq!(second, third);
    assert_eq!(text_of(&b), "echo hi");
    assert_eq!(b.cursor, 4);
}
