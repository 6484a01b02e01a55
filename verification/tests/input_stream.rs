//! The input stream: consumption, lookahead, and rollback.

use sky_html::input::InputStream;

const SOURCE: &str = "Hello World\n";

#[test]
fn test_consume_next() {
    // Chars

    let mut input_stream = InputStream::new(SOURCE.chars().collect());
    assert_eq!(input_stream.consume_next(), Some('H'));
    assert_eq!(input_stream.consume_next(), Some('e'));
    assert_eq!(input_stream.consume_next(), Some('l'));
    assert_eq!(input_stream.consume_next(), Some('l'));
    assert_eq!(input_stream.consume_next(), Some('o'));

    assert_eq!(input_stream.consume_next(), Some(' '));

    assert_eq!(input_stream.consume_next(), Some('W'));
    assert_eq!(input_stream.consume_next(), Some('o'));
    assert_eq!(input_stream.consume_next(), Some('r'));
    assert_eq!(input_stream.consume_next(), Some('l'));
    assert_eq!(input_stream.consume_next(), Some('d'));

    assert_eq!(input_stream.consume_next(), Some('\n'));

    assert_eq!(input_stream.consume_next(), None);
    assert_eq!(input_stream.consume_next(), None);
    assert_eq!(input_stream.consume_next(), None);
    assert_eq!(input_stream.consume_next(), None);
    assert_eq!(input_stream.consume_next(), None);
    assert_eq!(input_stream.consume_next(), None);

    // Bytes

    let mut input_stream = InputStream::new(SOURCE.bytes().collect());

    assert_eq!(input_stream.consume_next(), Some(b'H'));
    assert_eq!(input_stream.consume_next(), Some(b'e'));
    assert_eq!(input_stream.consume_next(), Some(b'l'));
    assert_eq!(input_stream.consume_next(), Some(b'l'));
    assert_eq!(input_stream.consume_next(), Some(b'o'));

    assert_eq!(input_stream.consume_next(), Some(b' '));

    assert_eq!(input_stream.consume_next(), Some(b'W'));
    assert_eq!(input_stream.consume_next(), Some(b'o'));
    assert_eq!(input_stream.consume_next(), Some(b'r'));
    assert_eq!(input_stream.consume_next(), Some(b'l'));
    assert_eq!(input_stream.consume_next(), Some(b'd'));

    assert_eq!(input_stream.consume_next(), Some(b'\n'));

    assert_eq!(input_stream.consume_next(), None);
    assert_eq!(input_stream.consume_next(), None);
    assert_eq!(input_stream.consume_next(), None);
    assert_eq!(input_stream.consume_next(), None);
    assert_eq!(input_stream.consume_next(), None);
    assert_eq!(input_stream.consume_next(), None);
}

#[test]
fn test_peek_next() {
    let mut input_stream = InputStream::new(SOURCE.chars().collect());
    assert_eq!(input_stream.consume_next(), Some('H'));
    assert_eq!(input_stream.consume_next(), Some('e'));
    assert_eq!(input_stream.consume_next(), Some('l'));
    assert_eq!(input_stream.consume_next(), Some('l'));

    // Peek
    assert_eq!(input_stream.peek_next(), Some('o'));
    assert_eq!(input_stream.peek_next(), Some('o'));
    assert_eq!(input_stream.peek_next(), Some('o'));
    assert_eq!(input_stream.peek_next(), Some('o'));
    assert_eq!(input_stream.peek_next(), Some('o'));
    assert_eq!(input_stream.peek_next(), Some('o'));
    assert_eq!(input_stream.peek_next(), Some('o'));
    assert_eq!(input_stream.peek_next(), Some('o'));
    assert_eq!(input_stream.peek_next(), Some('o'));

    assert_eq!(input_stream.consume_next(), Some('o'));

    assert_eq!(input_stream.consume_next(), Some(' '));

    assert_eq!(input_stream.consume_next(), Some('W'));
    assert_eq!(input_stream.consume_next(), Some('o'));
    assert_eq!(input_stream.consume_next(), Some('r'));
    assert_eq!(input_stream.consume_next(), Some('l'));
    assert_eq!(input_stream.consume_next(), Some('d'));

    assert_eq!(input_stream.consume_next(), Some('\n'));

    // Peek on none
    assert_eq!(input_stream.peek_next(), None);
    assert_eq!(input_stream.consume_next(), None);
    assert_eq!(input_stream.consume_next(), None);
    assert_eq!(input_stream.consume_next(), None);
    assert_eq!(input_stream.consume_next(), None);
    assert_eq!(input_stream.consume_next(), None);
}

#[test]
fn test_rollback_once() {
    let mut input_stream = InputStream::new("PhiSyX".chars().collect());
    assert_eq!(input_stream.consume_next(), Some('P'));
    assert_eq!(input_stream.consume_next(), Some('h'));
    assert_eq!(input_stream.consume_next(), Some('i'));
    assert_eq!(input_stream.consume_next(), Some('S'));

    input_stream.rollback_once();
    input_stream.rollback_once();
    assert_eq!(input_stream.consume_next(), Some('i'));
    assert_eq!(input_stream.consume_next(), Some('S'));
    assert_eq!(input_stream.consume_next(), Some('y'));
    assert_eq!(input_stream.consume_next(), Some('X'));
}

#[test]
fn test_rollback_round_trip() {
    // Consume some units, roll the same number back, and consume again: the
    // original units come back in the original order.
    let mut input_stream = InputStream::new("abcdef".chars().collect());
    assert_eq!(input_stream.consume_next(), Some('a'));
    assert_eq!(input_stream.consume_next(), Some('b'));
    assert_eq!(input_stream.consume_next(), Some('c'));
    input_stream.rollback_once();
    input_stream.rollback_once();
    input_stream.rollback_once();
    assert_eq!(input_stream.consume_next(), Some('a'));
    assert_eq!(input_stream.consume_next(), Some('b'));
    assert_eq!(input_stream.consume_next(), Some('c'));
    assert_eq!(input_stream.consume_next(), Some('d'));
}

#[test]
fn test_rollback_on_fresh_stream_is_a_no_op() {
    let mut input_stream = InputStream::new("ab".chars().collect());
    input_stream.rollback_once();
    assert_eq!(input_stream.consume_next(), Some('a'));
}

#[test]
fn test_peek_n_window() {
    let mut input_stream = InputStream::new(SOURCE.chars().collect());
    assert_eq!(input_stream.peek_n(5), Some(String::from("Hello")));
    // Repeated calls at the same position and width return the same string.
    assert_eq!(input_stream.peek_n(5), Some(String::from("Hello")));
    input_stream.reset_peek();
    assert_eq!(input_stream.peek_n(2), Some(String::from("He")));
    // Nothing was consumed by peeking.
    assert_eq!(input_stream.consume_next(), Some('H'));
}

#[test]
fn test_peek_item_and_class_peeks() {
    let mut input_stream = InputStream::new("Zx".chars().collect());
    assert!(input_stream.is_peek_char('Z'));
    assert!(!input_stream.is_peek_char('x'));
    assert!(input_stream.is_peek_chars('A', 'Z'));
    assert!(!input_stream.is_peek_chars('a', 'z'));
    assert_eq!(input_stream.peek_item('Z'), Some('Z'));
    assert_eq!(input_stream.peek_item('x'), None);
    assert!(input_stream.is_peek(|c: &char| *c == 'Z'));
}

#[test]
fn test_advance_discards() {
    let mut input_stream = InputStream::new("abcdef".chars().collect());
    // Advancing by n consumes n + 1 units.
    input_stream.advance(2);
    assert_eq!(input_stream.current(), Some(&'c'));
    assert_eq!(input_stream.consume_next(), Some('d'));
}

#[test]
fn test_current_follows_consumption() {
    let mut input_stream = InputStream::new("ab".chars().collect());
    assert_eq!(input_stream.current(), None);
    input_stream.consume_next();
    assert_eq!(input_stream.current(), Some(&'a'));
    input_stream.consume_next();
    assert_eq!(input_stream.current(), Some(&'b'));
    input_stream.consume_next();
    assert_eq!(input_stream.current(), None);
}

#[test]
fn test_peek_n_wider_than_the_input() {
    let mut input_stream = InputStream::new("ab".chars().collect());
    assert_eq!(input_stream.peek_n(99), Some(String::from("ab")));
}
