use typelex::lexer::{LexError, Lexer, Token, Tokenize};
use typelex::token::{digit::Digit, pipe::Pipe};

fn token<E: PartialEq>(line: usize, column: usize, token: E) -> Token<E> {
    Token {
        line,
        column,
        token,
    }
}

/// A kind of its own: one decimal digit.
#[derive(PartialEq, Debug)]
struct OneDigit(u32);

impl<'src> Tokenize<'src> for OneDigit {
    fn tokenize(lexer: &mut Lexer<'src>) -> Result<Self, LexError> {
        lexer.skip_whitespace();
        lexer.start_lexeme();
        match lexer.advance_if(|c| c.is_ascii_digit()) {
            Some(c) => Ok(OneDigit(c as u32 - '0' as u32)),
            None => Err(LexError::InvalidNumber),
        }
    }
}

#[test]
fn digit_and_string() {
    let mut lexer = Lexer::new(" 23414\n | 4324");

    let tok = token(1, 6, Digit(23414));
    assert_eq!(tok, lexer.accept::<Digit>());

    let tok = token(2, 2, Pipe);
    assert_eq!(tok, lexer.accept::<Pipe>());

    let tok = token(2, 7, Digit(4324));
    assert_eq!(tok, lexer.accept::<Digit>());
}

#[test]
fn single_digits_in_sequence() {
    let mut lexer = Lexer::new("012");
    for expected in 0..3usize {
        assert_eq!(lexer.last_offset(), expected);
        let tok = lexer.consume::<OneDigit>();
        assert_eq!(tok, Ok(token(1, expected + 1, OneDigit(expected as u32))));
        assert_eq!(lexer.last_offset(), expected + 1);
        assert_eq!(lexer.curr_offset(), expected + 1);
    }
    assert_eq!(lexer.consume::<OneDigit>(), Err(LexError::InvalidNumber));
    assert_eq!(lexer.consume::<Digit>(), Err(LexError::InvalidNumber));
    assert_eq!(lexer.last_offset(), 3);
}

#[test]
fn digits_alone_are_their_number() {
    let mut lexer = Lexer::new("12345");
    assert_eq!(lexer.consume::<Digit>(), Ok(token(1, 5, Digit(12345))));
    assert_eq!(lexer.curr_offset(), 5);
    assert_eq!(lexer.peek(), None);
}

#[test]
fn longest_run_of_digits_is_taken() {
    let mut lexer = Lexer::new("123abc");
    assert_eq!(lexer.consume::<Digit>(), Ok(token(1, 3, Digit(123))));
    assert_eq!(lexer.curr_offset(), 3);
    assert_eq!(lexer.peek(), Some('a'));
}

#[test]
fn leading_zeros_do_not_count() {
    let mut lexer = Lexer::new("007");
    assert_eq!(lexer.consume::<Digit>(), Ok(token(1, 3, Digit(7))));
}

#[test]
fn zero_is_a_number() {
    let mut lexer = Lexer::new("0");
    assert_eq!(lexer.consume::<Digit>(), Ok(token(1, 1, Digit(0))));
}

#[test]
fn no_digit_is_an_invalid_number() {
    let mut lexer = Lexer::new("abc");
    assert_eq!(lexer.consume::<Digit>(), Err(LexError::InvalidNumber));
    assert_eq!(lexer.last_offset(), 0);
    assert_eq!(lexer.curr_offset(), 0);
    assert_eq!((lexer.line(), lexer.column()), (1, 0));
    assert_eq!(lexer.peek(), Some('a'));
}

#[test]
fn sign_is_no_digit() {
    let mut lexer = Lexer::new("+5");
    assert_eq!(lexer.consume::<Digit>(), Err(LexError::InvalidNumber));
    assert_eq!(lexer.curr_offset(), 0);
}

#[test]
fn no_digit_behind_white_space_leaves_the_lexeme_there() {
    let mut lexer = Lexer::new(" \n x");
    assert_eq!(lexer.consume::<Digit>(), Err(LexError::InvalidNumber));
    assert_eq!(lexer.last_offset(), 3);
    assert_eq!(lexer.curr_offset(), 3);
    assert_eq!((lexer.line(), lexer.column()), (2, 1));
    assert_eq!(lexer.lexeme(), "");
    // a second attempt finds the scan as the first one left it
    assert_eq!(lexer.consume::<Digit>(), Err(LexError::InvalidNumber));
    assert_eq!(lexer.last_offset(), 3);
    assert_eq!(lexer.curr_offset(), 3);
}

#[test]
fn empty_source_has_no_token() {
    let mut lexer = Lexer::new("");
    assert_eq!(lexer.peek(), None);
    assert_eq!(lexer.consume::<Digit>(), Err(LexError::InvalidNumber));
    assert_eq!(lexer.consume::<Pipe>(), Err(LexError::UnexpectedSymbol));
    assert_eq!(lexer.curr_offset(), 0);
    assert_eq!((lexer.line(), lexer.column()), (1, 0));
}

#[test]
fn white_space_alone_has_no_token() {
    let mut lexer = Lexer::new(" \t\n ");
    assert_eq!(lexer.consume::<Digit>(), Err(LexError::InvalidNumber));
    assert_eq!(lexer.curr_offset(), 4);
    assert_eq!(lexer.last_offset(), 4);
    assert_eq!((lexer.line(), lexer.column()), (2, 1));
}

#[test]
fn largest_number_is_recognized() {
    let text = format!("{}", usize::MAX);
    let mut lexer = Lexer::new(&text);
    assert_eq!(
        lexer.consume::<Digit>(),
        Ok(token(1, text.len(), Digit(usize::MAX)))
    );
}

#[test]
fn number_above_the_largest_is_invalid() {
    // the largest number with its last digit raised by one
    let mut text = format!("{}", usize::MAX / 10);
    text.push_str(&format!("{}", usize::MAX % 10 + 1));
    let mut lexer = Lexer::new(&text);
    assert_eq!(lexer.consume::<Digit>(), Err(LexError::InvalidNumber));
    // the digits are consumed, and the lexeme still holds them
    assert_eq!(lexer.curr_offset(), text.len());
    assert_eq!(lexer.last_offset(), 0);
    assert_eq!(lexer.lexeme(), text);
}

#[test]
fn long_number_is_invalid() {
    let mut lexer = Lexer::new("340282366920938463463374607431768211456 |");
    assert_eq!(lexer.consume::<Digit>(), Err(LexError::InvalidNumber));
    assert_eq!(lexer.curr_offset(), 39);
    assert_eq!(lexer.consume::<Pipe>(), Ok(token(1, 41, Pipe)));
}

#[test]
fn pipe_is_recognized() {
    let mut lexer = Lexer::new("|");
    assert_eq!(lexer.consume::<Pipe>(), Ok(token(1, 1, Pipe)));
    assert_eq!(lexer.last_offset(), 1);
}

#[test]
fn two_pipes_are_no_pipe() {
    let mut lexer = Lexer::new("||");
    assert_eq!(lexer.consume::<Pipe>(), Err(LexError::UnexpectedSymbol));
    assert_eq!(lexer.curr_offset(), 2);
    assert_eq!(lexer.last_offset(), 0);
    assert_eq!(lexer.lexeme(), "||");
}

#[test]
fn other_symbol_is_no_pipe() {
    let mut lexer = Lexer::new("  -");
    assert_eq!(lexer.consume::<Pipe>(), Err(LexError::UnexpectedSymbol));
    assert_eq!(lexer.curr_offset(), 2);
    assert_eq!(lexer.last_offset(), 2);
    assert_eq!(lexer.peek(), Some('-'));
}

#[test]
fn failed_attempt_can_be_followed_by_another_kind() {
    let mut lexer = Lexer::new("  | 12");
    assert_eq!(lexer.consume::<Digit>(), Err(LexError::InvalidNumber));
    assert_eq!(lexer.consume::<Pipe>(), Ok(token(1, 3, Pipe)));
    assert_eq!(lexer.consume::<Pipe>(), Err(LexError::UnexpectedSymbol));
    assert_eq!(lexer.consume::<Digit>(), Ok(token(1, 6, Digit(12))));
}

#[test]
fn line_grows_by_each_line_terminator_skipped() {
    let mut lexer = Lexer::new("1\n\n\n  22\n333");
    assert_eq!(lexer.consume::<Digit>(), Ok(token(1, 1, Digit(1))));
    assert_eq!(lexer.consume::<Digit>(), Ok(token(4, 4, Digit(22))));
    assert_eq!(lexer.consume::<Digit>(), Ok(token(5, 3, Digit(333))));
}

#[test]
fn lexeme_is_closed_by_consume() {
    let mut lexer = Lexer::new("  42 ");
    assert_eq!(lexer.consume::<Digit>(), Ok(token(1, 4, Digit(42))));
    assert_eq!(lexer.lexeme(), "");
    assert_eq!(lexer.last_offset(), 4);
    assert_eq!(lexer.curr_offset(), 4);
}

#[test]
fn lexeme_of_a_recognized_number_is_its_digits() {
    let mut lexer = Lexer::new("  42 ");
    assert_eq!(Digit::tokenize(&mut lexer), Ok(Digit(42)));
    assert_eq!(lexer.lexeme(), "42");
    assert_eq!(lexer.last_offset(), 2);
    assert_eq!(lexer.curr_offset(), 4);
}

#[test]
fn close_wraps_a_value_with_the_position() {
    let mut lexer = Lexer::new("ab");
    lexer.advance_if(|c| *c == 'a');
    assert_eq!(lexer.last_offset(), 0);
    assert_eq!(lexer.close(Ok('a')), Ok(token(1, 1, 'a')));
    assert_eq!(lexer.last_offset(), 1);
}

#[test]
fn close_hands_an_error_on() {
    let mut lexer = Lexer::new("ab");
    lexer.advance_if(|c| *c == 'a');
    assert_eq!(
        lexer.close::<char>(Err(LexError::UnexpectedSymbol)),
        Err(LexError::UnexpectedSymbol)
    );
    assert_eq!(lexer.last_offset(), 0);
    assert_eq!(lexer.curr_offset(), 1);
}

#[test]
fn tokens_and_errors_can_be_printed() {
    let tok = token(3, 14, Digit(15));
    let text = format!("{:?}", tok);
    assert!(text.contains("3") && text.contains("14") && text.contains("15"));
    assert_eq!(format!("{:?}", LexError::InvalidNumber), "InvalidNumber");
    assert_eq!(format!("{:?}", LexError::UnexpectedSymbol), "UnexpectedSymbol");
    assert_eq!(format!("{:?}", Pipe), "Pipe");
}
