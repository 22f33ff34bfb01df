//! Character classes used by the scanner and the built-in token kinds.

use vstd::prelude::*;

verus! {

/// The line terminator: consuming it starts a new line.
pub const NEWLINE: char = '\n';

/// Whether `c` is a decimal digit, `'0'` to `'9'`.
pub open spec fn is_digit(c: char) -> bool {
    '0' <= c <= '9'
}

/// Whether `c` has the Unicode property `White_Space`.
pub open spec fn is_whitespace(c: char) -> bool {
    ||| '\u{9}' <= c <= '\u{d}'
    ||| c == ' '
    ||| c == '\u{85}'
    ||| c == '\u{a0}'
    ||| c == '\u{1680}'
    ||| '\u{2000}' <= c <= '\u{200a}'
    ||| c == '\u{2028}'
    ||| c == '\u{2029}'
    ||| c == '\u{202f}'
    ||| c == '\u{205f}'
    ||| c == '\u{3000}'
}

/// The decimal digits, as a property of characters.
pub open spec fn digits() -> spec_fn(char) -> bool {
    |c: char| is_digit(c)
}

/// White space, as a property of characters.
pub open spec fn blanks() -> spec_fn(char) -> bool {
    |c: char| is_whitespace(c)
}

/// The one character `symbol`, as a property of characters.
pub open spec fn only(symbol: char) -> spec_fn(char) -> bool {
    |c: char| c == symbol
}

/// Tests whether `c` is a decimal digit.
pub fn digit(c: char) -> (r: bool)
    ensures
        r == is_digit(c),
{
    '0' <= c && c <= '9'
}

/// Tests whether `c` is white space.
pub fn whitespace(c: char) -> (r: bool)
    ensures
        r == is_whitespace(c),
{
    if ' ' >= c {
        c == ' ' || ('\u{9}' <= c && c <= '\u{d}')
    } else if '\u{85}' > c {
        false
    } else {
        c == '\u{85}' || c == '\u{a0}' || c == '\u{1680}' || ('\u{2000}' <= c && c <= '\u{200a}')
            || c == '\u{2028}' || c == '\u{2029}' || c == '\u{202f}' || c == '\u{205f}' || c
            == '\u{3000}'
    }
}

/// The line terminator is white space, and no digit is.
pub proof fn classes_disjoint(c: char)
    ensures
        is_whitespace(NEWLINE),
        !is_digit(NEWLINE),
        !(is_digit(c) && is_whitespace(c)),
{
}

} // verus!
