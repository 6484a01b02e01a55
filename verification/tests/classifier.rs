//! The code-unit classifier, over both unit representations.

use sky_html::codepoint::{lowercase_ascii, UnitCodePointExt};

#[test]
fn test_char_equality_and_one_of() {
    assert!('a'.is('a'));
    assert!(!'a'.is('b'));
    assert!('/'.one_of(&['/', '>']));
    assert!(!'x'.one_of(&['/', '>']));
    assert!(!'x'.one_of(&[]));
}

#[test]
fn test_byte_equality_and_one_of() {
    assert!(b'a'.is('a'));
    assert!(!b'a'.is('b'));
    assert!(b'>'.one_of(&['/', '>']));
    assert!(!b'x'.one_of(&['/', '>']));
}

#[test]
fn test_char_classes() {
    assert!('a'.is__alphabetic());
    assert!('Z'.is__alphabetic());
    assert!(!'1'.is__alphabetic());
    assert!('Z'.is__upper_alphabetic());
    assert!(!'z'.is__upper_alphabetic());
    assert!('7'.is__digit());
    assert!('a'.is__alphanumeric());
    assert!('7'.is__alphanumeric());
    assert!(!'_'.is__alphanumeric());
    assert!('\r'.is__carriage_return());
    assert!('\n'.is__linefeed());
    assert!('\n'.is__newline());
    assert!('\r'.is__newline());
    assert!('\u{0C}'.is__newline());
    assert!(!' '.is__newline());
    assert!('\u{E9}'.is__non_ascii());
    assert!(!'e'.is__non_ascii());
    assert!('a'.is__valid());
    assert!(!'\u{0}'.is__valid());
    assert!('\t'.is__tab());
    assert!(' '.is__whitespace());
    assert!('\t'.is__whitespace());
    // The character classifier knows Unicode whitespace.
    assert!('\u{A0}'.is__whitespace());
    assert!('\u{2028}'.is__whitespace());
    assert!(!'x'.is__whitespace());
    assert_eq!('q'.unit(), 'q');
}

#[test]
fn test_byte_classes() {
    assert!(b'a'.is__alphabetic());
    assert!(!b'1'.is__alphabetic());
    assert!(b'Z'.is__upper_alphabetic());
    assert!(b'7'.is__digit());
    assert!(b'a'.is__alphanumeric());
    assert!(b'\r'.is__carriage_return());
    assert!(b'\n'.is__linefeed());
    assert!(0x0Cu8.is__newline());
    assert!(b'a'.is__valid());
    assert!(!0x00u8.is__valid());
    assert!(b'\t'.is__tab());
    assert!(b' '.is__whitespace());
    // The byte classifier knows ASCII whitespace alone.
    assert!(!0xA0u8.is__whitespace());
    assert!(0x80u8.is__non_ascii());
    assert!(!b'x'.is__non_ascii());
    assert_eq!(b'q'.unit(), 'q');
}

#[test]
fn test_identifier_classes() {
    assert!('a'.is__ident_start());
    assert!('_'.is__ident_start());
    assert!('\u{E9}'.is__ident_start());
    assert!(!'1'.is__ident_start());
    assert!('1'.is__ident_after_start());
    assert!('-'.is__ident_after_start());
    assert!(!'+'.is__ident_after_start());
    assert!(b'_'.is__ident_start());
    assert!(b'-'.is__ident_after_start());
}

#[test]
fn test_lowercase_ascii() {
    assert_eq!(lowercase_ascii('A'), 'a');
    assert_eq!(lowercase_ascii('Z'), 'z');
    assert_eq!(lowercase_ascii('a'), 'a');
    assert_eq!(lowercase_ascii('1'), '1');
    assert_eq!(lowercase_ascii('\u{C9}'), '\u{C9}');
}
