use edcore::textstore::{TextOp, TextStore};
use edcore::{EditError, Point};

#[test]
fn store_new_and_lengths() {
    let s = TextStore::new("hello\nworld");
    assert_eq!(s.len_chars(), 11);
    assert_eq!(s.len_bytes(), 11);
    assert_eq!(s.len_lines(), 2);
}

#[test]
fn store_empty() {
    let s = TextStore::new("");
    assert_eq!(s.len_chars(), 0);
    assert_eq!(s.len_bytes(), 0);
    assert_eq!(s.len_lines(), 1);
    assert_eq!(s.slice(0, 0).unwrap(), "");
    assert_eq!(s.line(0).unwrap(), "");
}

#[test]
fn store_insert_and_remove() {
    let mut s = TextStore::new("Hello!");
    s.insert(5, ", world").unwrap();
    assert_eq!(s.slice(0, s.len_chars()).unwrap(), "Hello, world!");
    s.remove(0, 5).unwrap();
    assert_eq!(s.slice(0, s.len_chars()).unwrap(), ", world!");
}

#[test]
fn store_insert_append_at_end() {
    let mut s = TextStore::new("ab");
    s.insert(2, "c").unwrap();
    assert_eq!(s.slice(0, 3).unwrap(), "abc");
}

#[test]
fn store_insert_out_of_range() {
    let mut s = TextStore::new("ab");
    assert_eq!(s.insert(3, "x"), Err(EditError::OutOfRange));
    assert_eq!(s.slice(0, 2).unwrap(), "ab");
}

#[test]
fn store_remove_out_of_range() {
    let mut s = TextStore::new("ab");
    assert_eq!(s.remove(0, 100), Err(EditError::OutOfRange));
    assert_eq!(s.remove(2, 1), Err(EditError::OutOfRange));
    assert_eq!(s.slice(0, 2).unwrap(), "ab");
}

#[test]
fn store_multibyte_byte_char() {
    // 'é' is two bytes, '日' three, '𝄞' four
    let s = TextStore::new("aé日𝄞b");
    assert_eq!(s.len_chars(), 5);
    assert_eq!(s.len_bytes(), 1 + 2 + 3 + 4 + 1);
    assert_eq!(s.char_to_byte(0).unwrap(), 0);
    assert_eq!(s.char_to_byte(1).unwrap(), 1);
    assert_eq!(s.char_to_byte(2).unwrap(), 3);
    assert_eq!(s.char_to_byte(3).unwrap(), 6);
    assert_eq!(s.char_to_byte(4).unwrap(), 10);
    assert_eq!(s.char_to_byte(5).unwrap(), 11);
    // bytes in the middle of a char floor to the containing char
    assert_eq!(s.byte_to_char(1).unwrap(), 1);
    assert_eq!(s.byte_to_char(2).unwrap(), 1);
    assert_eq!(s.byte_to_char(3).unwrap(), 2);
    assert_eq!(s.byte_to_char(7).unwrap(), 3);
    assert_eq!(s.byte_to_char(11).unwrap(), 5);
    assert_eq!(s.char_to_byte(6), Err(EditError::OutOfRange));
    assert_eq!(s.byte_to_char(12), Err(EditError::OutOfRange));
}

#[test]
fn store_line_conversions() {
    let s = TextStore::new("ab\ncde\n\nf");
    assert_eq!(s.len_lines(), 4);
    assert_eq!(s.line_to_char(0).unwrap(), 0);
    assert_eq!(s.line_to_char(1).unwrap(), 3);
    assert_eq!(s.line_to_char(2).unwrap(), 7);
    assert_eq!(s.line_to_char(3).unwrap(), 8);
    assert_eq!(s.line_to_char(4).unwrap(), 9);
    assert_eq!(s.line_to_char(5), Err(EditError::OutOfRange));
    assert_eq!(s.char_to_line(0).unwrap(), 0);
    assert_eq!(s.char_to_line(2).unwrap(), 0);
    assert_eq!(s.char_to_line(3).unwrap(), 1);
    assert_eq!(s.char_to_line(6).unwrap(), 1);
    assert_eq!(s.char_to_line(7).unwrap(), 2);
    assert_eq!(s.char_to_line(8).unwrap(), 3);
    assert_eq!(s.char_to_line(9).unwrap(), 3);
    assert_eq!(s.line(0).unwrap(), "ab");
    assert_eq!(s.line(1).unwrap(), "cde");
    assert_eq!(s.line(2).unwrap(), "");
    assert_eq!(s.line(3).unwrap(), "f");
    assert_eq!(s.line(4), Err(EditError::OutOfRange));
}

#[test]
fn store_line_byte_conversions() {
    let s = TextStore::new("é\nab");
    assert_eq!(s.line_to_byte(0).unwrap(), 0);
    assert_eq!(s.line_to_byte(1).unwrap(), 3);
    assert_eq!(s.byte_to_line(0).unwrap(), 0);
    assert_eq!(s.byte_to_line(2).unwrap(), 0);
    assert_eq!(s.byte_to_line(3).unwrap(), 1);
    assert_eq!(s.byte_to_line(5).unwrap(), 1);
}

#[test]
fn store_trailing_newline_makes_empty_last_line() {
    let s = TextStore::new("ab\n");
    assert_eq!(s.len_lines(), 2);
    assert_eq!(s.line_to_char(1).unwrap(), 3);
    assert_eq!(s.line(1).unwrap(), "");
}

#[test]
fn conversion_inverse_char_point() {
    let text = "héllo\nwörld αβγ\n日本語";
    let s = TextStore::new(text);
    for c in 0..=s.len_chars() {
        let p = s.char_to_point(c).unwrap();
        assert_eq!(s.point_to_char(p).unwrap(), c);
    }
}

#[test]
fn conversion_inverse_point_char() {
    let s = TextStore::new("ab\ncdé\n");
    for row in 0..s.len_lines() {
        let ls = s.line_to_char(row).unwrap();
        let line_len = s.line(row).unwrap().chars().count();
        for col in 0..=line_len {
            let p = Point { row, column: col };
            let c = s.point_to_char(p).unwrap();
            assert_eq!(s.char_to_point(c).unwrap(), p);
            assert_eq!(c, ls + col);
        }
    }
}

#[test]
fn conversion_inverse_byte_char() {
    let s = TextStore::new("aé日\nb");
    for c in 0..=s.len_chars() {
        let b = s.char_to_byte(c).unwrap();
        assert_eq!(s.byte_to_char(b).unwrap(), c);
    }
}

#[test]
fn point_to_char_rejects_overlong_column() {
    let s = TextStore::new("ab\ncd");
    // column 2 is the break position of line 0: still valid
    assert_eq!(s.point_to_char(Point { row: 0, column: 2 }).unwrap(), 2);
    // column 3 would already be on line 1: rejected, not clamped
    assert_eq!(
        s.point_to_char(Point { row: 0, column: 3 }),
        Err(EditError::OutOfRange)
    );
    assert_eq!(
        s.point_to_char(Point { row: 2, column: 0 }),
        Err(EditError::OutOfRange)
    );
}

#[test]
fn char_to_point_positions() {
    let s = TextStore::new("ab\ncd");
    assert_eq!(s.char_to_point(0).unwrap(), Point { row: 0, column: 0 });
    assert_eq!(s.char_to_point(2).unwrap(), Point { row: 0, column: 2 });
    assert_eq!(s.char_to_point(3).unwrap(), Point { row: 1, column: 0 });
    assert_eq!(s.char_to_point(5).unwrap(), Point { row: 1, column: 2 });
    assert_eq!(s.char_to_point(6), Err(EditError::OutOfRange));
}

#[test]
fn replay_matches_reference_array() {
    let ops = vec![
        TextOp::Insert(0, String::from("hello")),
        TextOp::Insert(5, String::from(" world")),
        TextOp::Remove(0, 1),
        TextOp::Insert(0, String::from("H")),
        TextOp::Insert(100, String::from("ignored")),
        TextOp::Remove(5, 200),
        TextOp::Remove(5, 11),
    ];
    // the reference: the same operations on a plain char vector
    let mut reference: Vec<char> = Vec::new();
    for op in &ops {
        match op {
            TextOp::Insert(at, t) => {
                if *at <= reference.len() {
                    let tail: Vec<char> = reference.split_off(*at);
                    reference.extend(t.chars());
                    reference.extend(tail);
                }
            }
            TextOp::Remove(a, b) => {
                if a <= b && *b <= reference.len() {
                    reference.drain(*a..*b);
                }
            }
        }
    }
    let expected: String = reference.into_iter().collect();
    let store = TextStore::replay("", &ops);
    assert_eq!(store.slice(0, store.len_chars()).unwrap(), expected);
    assert_eq!(expected, "Hello");
}

#[test]
fn replay_on_nonempty_initial() {
    let ops = vec![
        TextOp::Remove(0, 2),
        TextOp::Insert(0, String::from("ba")),
    ];
    let store = TextStore::replay("abcd", &ops);
    assert_eq!(store.slice(0, 4).unwrap(), "bacd");
}

#[test]
fn error_taxonomy_recoverability() {
    assert!(edcore::error_is_recoverable(EditError::OutOfRange));
    assert!(!edcore::error_is_recoverable(EditError::GrammarError));
    assert!(!edcore::error_is_recoverable(EditError::ParseFailure));
}
