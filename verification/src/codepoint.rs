//! Classification predicates over a single input code unit. The same
//! predicates are available whether the input yields decoded characters or raw
//! bytes, through the [`UnitCodePointExt`] capability trait with one
//! implementation per concrete unit representation.

use vstd::prelude::*;

verus! {

/// Is `c` an ASCII alphabetic character?
pub open spec fn spec_is_ascii_alpha(c: char) -> bool {
    ('a' <= c && c <= 'z') || ('A' <= c && c <= 'Z')
}

/// Is `c` an ASCII uppercase alphabetic character?
pub open spec fn spec_is_ascii_upper_alpha(c: char) -> bool {
    'A' <= c && c <= 'Z'
}

/// Is `c` an ASCII decimal digit?
pub open spec fn spec_is_ascii_digit(c: char) -> bool {
    '0' <= c && c <= '9'
}

/// Is `c` an ASCII alphanumeric character?
pub open spec fn spec_is_ascii_alnum(c: char) -> bool {
    spec_is_ascii_alpha(c) || spec_is_ascii_digit(c)
}

/// Does `c` lie outside the ASCII range?
pub open spec fn spec_is_non_ascii(c: char) -> bool {
    c as u32 >= 0x80
}

/// The Unicode `White_Space` code points.
pub open spec fn spec_is_unicode_whitespace(c: char) -> bool {
    ('\u{09}' <= c && c <= '\u{0D}') || c == ' ' || c == '\u{85}' || c == '\u{A0}'
        || c == '\u{1680}' || ('\u{2000}' <= c && c <= '\u{200A}') || c == '\u{2028}'
        || c == '\u{2029}' || c == '\u{202F}' || c == '\u{205F}' || c == '\u{3000}'
}

/// The ASCII whitespace characters: space, tab, line feed, form feed,
/// carriage return.
pub open spec fn spec_is_ascii_whitespace(c: char) -> bool {
    c == ' ' || c == '\u{09}' || c == '\u{0A}' || c == '\u{0C}' || c == '\u{0D}'
}

/// `c` folded to lowercase when it is an ASCII uppercase letter, else `c`.
pub open spec fn spec_lowercase_ascii(c: char) -> char {
    if spec_is_ascii_upper_alpha(c) {
        ((c as u32) + 0x20) as char
    } else {
        c
    }
}

/// Capability interface of one input code unit: equality and class tests, and
/// a canonical single-character representation used when building token
/// content. Implemented once per concrete unit representation.
#[allow(non_snake_case)]
pub trait UnitCodePointExt: Sized + Copy {
    /// The canonical character of this unit, the value `unit` returns.
    spec fn to_unit(&self) -> char;

    /// What `is` compares: whether this unit stands for the character `ch`
    /// under this representation's own notion of equality.
    spec fn matches_char(&self, ch: char) -> bool;

    /// What `is__whitespace` means for this representation.
    spec fn whitespace_spec(&self) -> bool;

    fn is(&self, ch: char) -> (r: bool)
        ensures
            r == self.matches_char(ch),
    ;

    fn one_of(&self, chars: &[char]) -> (r: bool)
        ensures
            r == exists|i: int| 0 <= i < chars@.len() && self.matches_char(chars@[i]),
    ;

    fn is__alphabetic(&self) -> (r: bool)
        ensures
            r == spec_is_ascii_alpha(self.to_unit()),
    ;

    fn is__upper_alphabetic(&self) -> (r: bool)
        ensures
            r == spec_is_ascii_upper_alpha(self.to_unit()),
    ;

    fn is__alphanumeric(&self) -> (r: bool)
        ensures
            r == spec_is_ascii_alnum(self.to_unit()),
    ;

    fn is__carriage_return(&self) -> (r: bool)
        ensures
            r == self.matches_char('\r'),
    ;

    fn is__digit(&self) -> (r: bool)
        ensures
            r == spec_is_ascii_digit(self.to_unit()),
    ;

    fn is__ident_start(&self) -> (r: bool)
        ensures
            r == (spec_is_ascii_alpha(self.to_unit()) || spec_is_non_ascii(self.to_unit())
                || self.matches_char('_')),
    ;

    fn is__ident_after_start(&self) -> (r: bool)
        ensures
            r == (spec_is_ascii_alnum(self.to_unit()) || spec_is_non_ascii(self.to_unit())
                || self.matches_char('_') || self.matches_char('-')),
    ;

    fn is__linefeed(&self) -> (r: bool)
        ensures
            r == self.matches_char('\n'),
    ;

    fn is__newline(&self) -> (r: bool)
        ensures
            r == (self.matches_char('\r') || self.matches_char('\n') || self.matches_char(
                '\u{0C}',
            )),
    ;

    fn is__non_ascii(&self) -> (r: bool)
        ensures
            r == spec_is_non_ascii(self.to_unit()),
    ;

    fn is__valid(&self) -> (r: bool)
        ensures
            r == !self.matches_char('\u{00}'),
    ;

    fn is__tab(&self) -> (r: bool)
        ensures
            r == self.matches_char('\u{09}'),
    ;

    fn is__whitespace(&self) -> (r: bool)
        ensures
            r == self.whitespace_spec(),
    ;

    fn unit(&self) -> (r: char)
        ensures
            r == self.to_unit(),
    ;
}

impl UnitCodePointExt for char {
    open spec fn to_unit(&self) -> char {
        *self
    }

    open spec fn matches_char(&self, ch: char) -> bool {
        *self == ch
    }

    open spec fn whitespace_spec(&self) -> bool {
        spec_is_unicode_whitespace(*self)
    }

    fn is(&self, ch: char) -> (r: bool) {
        *self == ch
    }

    fn one_of(&self, chars: &[char]) -> (r: bool) {
        let mut i: usize = 0;
        while i < chars.len()
            invariant
                0 <= i <= chars@.len(),
                forall|j: int| 0 <= j < i ==> !self.matches_char(chars@[j]),
            decreases chars@.len() - i,
        {
            if *self == chars[i] {
                return true;
            }
            i = i + 1;
        }
        false
    }

    fn is__alphabetic(&self) -> (r: bool) {
        ('a' <= *self && *self <= 'z') || ('A' <= *self && *self <= 'Z')
    }

    fn is__upper_alphabetic(&self) -> (r: bool) {
        'A' <= *self && *self <= 'Z'
    }

    fn is__alphanumeric(&self) -> (r: bool) {
        self.is__alphabetic() || self.is__digit()
    }

    fn is__carriage_return(&self) -> (r: bool) {
        *self == '\r'
    }

    fn is__digit(&self) -> (r: bool) {
        '0' <= *self && *self <= '9'
    }

    fn is__ident_start(&self) -> (r: bool) {
        self.is__alphabetic() || self.is__non_ascii() || *self == '_'
    }

    fn is__ident_after_start(&self) -> (r: bool) {
        self.is__alphanumeric() || self.is__non_ascii() || *self == '_' || *self == '-'
    }

    fn is__linefeed(&self) -> (r: bool) {
        *self == '\n'
    }

    fn is__newline(&self) -> (r: bool) {
        *self == '\r' || *self == '\n' || *self == '\u{0C}'
    }

    fn is__non_ascii(&self) -> (r: bool) {
        *self as u32 >= 0x80
    }

    fn is__valid(&self) -> (r: bool) {
        *self != '\u{00}'
    }

    fn is__tab(&self) -> (r: bool) {
        *self == '\u{09}'
    }

    fn is__whitespace(&self) -> (r: bool) {
        ('\u{09}' <= *self && *self <= '\u{0D}') || *self == ' ' || *self == '\u{85}'
            || *self == '\u{A0}' || *self == '\u{1680}' || ('\u{2000}' <= *self && *self
            <= '\u{200A}') || *self == '\u{2028}' || *self == '\u{2029}' || *self == '\u{202F}'
            || *self == '\u{205F}' || *self == '\u{3000}'
    }

    fn unit(&self) -> (r: char) {
        *self
    }
}

impl UnitCodePointExt for u8 {
    open spec fn to_unit(&self) -> char {
        *self as char
    }

    open spec fn matches_char(&self, ch: char) -> bool {
        *self == ch as u8
    }

    open spec fn whitespace_spec(&self) -> bool {
        spec_is_ascii_whitespace(*self as char)
    }

    fn is(&self, ch: char) -> (r: bool) {
        *self == ch as u8
    }

    fn one_of(&self, chars: &[char]) -> (r: bool) {
        let mut i: usize = 0;
        while i < chars.len()
            invariant
                0 <= i <= chars@.len(),
                forall|j: int| 0 <= j < i ==> !self.matches_char(chars@[j]),
            decreases chars@.len() - i,
        {
            if *self == chars[i] as u8 {
                return true;
            }
            i = i + 1;
        }
        false
    }

    fn is__alphabetic(&self) -> (r: bool) {
        (0x61 <= *self && *self <= 0x7A) || (0x41 <= *self && *self <= 0x5A)
    }

    fn is__upper_alphabetic(&self) -> (r: bool) {
        0x41 <= *self && *self <= 0x5A
    }

    fn is__alphanumeric(&self) -> (r: bool) {
        self.is__alphabetic() || self.is__digit()
    }

    fn is__carriage_return(&self) -> (r: bool) {
        *self == 0x0D
    }

    fn is__digit(&self) -> (r: bool) {
        0x30 <= *self && *self <= 0x39
    }

    fn is__ident_start(&self) -> (r: bool) {
        self.is__alphabetic() || self.is__non_ascii() || *self == 0x5F
    }

    fn is__ident_after_start(&self) -> (r: bool) {
        self.is__alphanumeric() || self.is__non_ascii() || *self == 0x5F || *self == 0x2D
    }

    fn is__linefeed(&self) -> (r: bool) {
        *self == 0x0A
    }

    fn is__newline(&self) -> (r: bool) {
        *self == 0x0D || *self == 0x0A || *self == 0x0C
    }

    fn is__non_ascii(&self) -> (r: bool) {
        *self >= 0x80
    }

    fn is__valid(&self) -> (r: bool) {
        *self != 0x00
    }

    fn is__tab(&self) -> (r: bool) {
        *self == 0x09
    }

    fn is__whitespace(&self) -> (r: bool) {
        *self == 0x20 || *self == 0x09 || *self == 0x0A || *self == 0x0C || *self == 0x0D
    }

    fn unit(&self) -> (r: char) {
        *self as char
    }
}

/// Folds an ASCII uppercase letter to lowercase and leaves every other
/// character unchanged.
pub fn lowercase_ascii(c: char) -> (r: char)
    ensures
        r == spec_lowercase_ascii(c),
{
    if 'A' <= c && c <= 'Z' {
        (((c as u32) + 0x20) as u8) as char
    } else {
        c
    }
}

} // verus!
