//! Unsigned decimal numbers.

use crate::lexer::{LexError, Lexer, Tokenize};
use crate::scan::Scan;
use vstd::prelude::*;

verus! {

/// An unsigned number, written as decimal digits.
#[derive(PartialEq, Debug)]
pub struct Digit(pub usize);

/// The number that the digit `c` stands for.
pub open spec fn digit_value(c: char) -> nat
    recommends
        crate::class::is_digit(c),
{
    (c as int - '0' as int) as nat
}

/// The number that the decimal numeral `digits` stands for.
pub open spec fn decimal(digits: Seq<char>) -> nat
    decreases digits.len(),
{
    if digits.len() == 0 {
        0
    } else {
        decimal(digits.drop_last()) * 10 + digit_value(digits.last())
    }
}

/// A numeral stands for no less than any of its beginnings.
pub proof fn decimal_grows(digits: Seq<char>, n: int)
    requires
        0 <= n <= digits.len(),
    ensures
        decimal(digits.take(n)) <= decimal(digits),
    decreases digits.len() - n,
{
    if n < digits.len() {
        decimal_grows(digits, n + 1);
        assert(digits.take(n + 1).drop_last() =~= digits.take(n));
    } else {
        assert(digits.take(n) =~= digits);
    }
}

/// Whether `text` is a decimal numeral: one digit or more, and nothing else.
pub open spec fn is_numeral(text: Seq<char>) -> bool {
    text.len() > 0 && forall|i: int| 0 <= i < text.len() ==> crate::class::is_digit(text[i])
}

/// The number that `text` stands for, where it is a decimal numeral of a
/// number that fits the machine word.
pub fn parse(text: &str) -> (value: Option<usize>)
    ensures
        value == if is_numeral(text@) && decimal(text@) <= usize::MAX {
            Some(decimal(text@) as usize)
        } else {
            None::<usize>
        },
{
    let mut value: usize = 0;
    let mut any = false;
    for c in digits: text.chars()
        invariant
            digits.seq() == text@,
            any == (digits.index() > 0),
            value == decimal(text@.take(digits.index())),
            forall|i: int| 0 <= i < digits.index() ==> crate::class::is_digit(text@[i]),
    {
        if !crate::class::digit(c) {
            return None;
        }
        let digit = (c as u32 - '0' as u32) as usize;
        proof {
            decimal_grows(text@, digits.index() + 1);
            assert(text@.take(digits.index() + 1).drop_last() =~= text@.take(digits.index()));
        }
        if value > (usize::MAX - digit) / 10 {
            return None;
        }
        value = value * 10 + digit;
        any = true;
    }
    proof {
        assert(text@.take(text@.len() as int) =~= text@);
    }
    if any {
        Some(value)
    } else {
        None
    }
}

impl<'src> Tokenize<'src> for Digit {
    /// After white space, the longest run of digits is taken; it is a number
    /// where there is a digit and the number fits the machine word.
    open spec fn attempt(from: Scan) -> (Scan, Result<Self, LexError>) {
        let left = from.lex(crate::class::digits());
        if is_numeral(left.lexeme()) && decimal(left.lexeme()) <= usize::MAX {
            (left, Ok(Digit(decimal(left.lexeme()) as usize)))
        } else {
            (left, Err(LexError::InvalidNumber))
        }
    }

    fn tokenize(lexer: &mut Lexer<'src>) -> (found: Result<Self, LexError>) {
        let is_digit = |c: &char| -> (r: bool)
            ensures
                r == crate::class::is_digit(*c),
            { crate::class::digit(*c) };
        proof {
            use_type_invariant(&*lexer);
        }
        lexer.lex_if(is_digit);
        let text = lexer.lexeme();
        proof {
            let digits = crate::class::digits();
            assert(crate::scan::decides(is_digit, digits));
            crate::scan::lex_decided(is_digit, digits, old(lexer)@, lexer@);
            crate::scan::lexeme_exact(old(lexer)@, digits);
        }
        match parse(text) {
            Some(value) => Ok(Digit(value)),
            None => Err(LexError::InvalidNumber),
        }
    }
}

/// Where the rest of the source is digits that stand for a number that fits
/// the machine word, that number is recognized, and the cursor moves past all
/// of them, along its line.
pub proof fn digits_recognized(scan: Scan)
    requires
        scan.valid(),
        scan.curr < scan.source.len(),
        forall|i: int| scan.curr <= i < scan.source.len() ==> crate::class::is_digit(scan.source[i]),
        decimal(scan.source.skip(scan.curr as int)) <= usize::MAX,
    ensures
        Digit::attempt(scan) == (
            Scan {
                source: scan.source,
                last: scan.curr,
                curr: scan.source.len(),
                line: scan.line,
                column: (scan.column + scan.source.len() - scan.curr) as nat,
            },
            Ok::<Digit, LexError>(Digit(decimal(scan.source.skip(scan.curr as int)) as usize)),
        ),
{
    let digits = crate::class::digits();
    crate::scan::run_end_unique(scan.source, scan.curr, scan.curr, crate::class::blanks());
    crate::scan::run_end_unique(scan.source, scan.curr, scan.source.len(), digits);
    crate::scan::run_plain(scan.skip_whitespace().start_lexeme(), digits);
    assert(scan.lex(digits).lexeme() =~= scan.source.skip(scan.curr as int));
}

/// Where the first character behind the white space at the cursor is no
/// digit, or the source ends there, no number is recognized. Only the white
/// space is consumed, and an empty lexeme begins behind it: the lexeme begins
/// where it began before if that was there already.
pub proof fn no_digit_rejected(scan: Scan)
    requires
        scan.valid(),
        ({
            let at = crate::scan::run_end(scan.source, scan.curr, crate::class::blanks());
            at < scan.source.len() ==> !crate::class::is_digit(scan.source[at as int])
        }),
    ensures
        Digit::attempt(scan) == (
            scan.skip_whitespace().start_lexeme(),
            Err::<Digit, LexError>(LexError::InvalidNumber),
        ),
        ({
            let at = crate::scan::run_end(scan.source, scan.curr, crate::class::blanks());
            &&& Digit::attempt(scan).0.last == at
            &&& scan.last == at ==> Digit::attempt(scan).0 == scan
        }),
{
    let at = crate::scan::run_end(scan.source, scan.curr, crate::class::blanks());
    crate::scan::run_valid(scan, crate::class::blanks());
    let begun = scan.skip_whitespace().start_lexeme();
    crate::scan::run_end_unique(scan.source, at, at, crate::class::digits());
    assert(begun.lexeme().len() == 0);
}

} // verus!
