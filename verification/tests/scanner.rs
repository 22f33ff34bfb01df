use typelex::lexer::Lexer;

#[test]
fn new_scanner_is_at_the_beginning() {
    let lexer = Lexer::new("abc");
    assert_eq!(lexer.last_offset(), 0);
    assert_eq!(lexer.curr_offset(), 0);
    assert_eq!(lexer.line(), 1);
    assert_eq!(lexer.column(), 0);
    assert_eq!(lexer.lexeme(), "");
}

#[test]
fn peek_changes_nothing() {
    let mut lexer = Lexer::new("xy");
    for _ in 0..5 {
        assert_eq!(lexer.peek(), Some('x'));
        assert_eq!(lexer.curr_offset(), 0);
        assert_eq!(lexer.last_offset(), 0);
        assert_eq!((lexer.line(), lexer.column()), (1, 0));
    }
    lexer.advance_if(|_| true);
    for _ in 0..5 {
        assert_eq!(lexer.peek(), Some('y'));
        assert_eq!(lexer.curr_offset(), 1);
    }
    lexer.advance_if(|_| true);
    for _ in 0..5 {
        assert_eq!(lexer.peek(), None);
        assert_eq!(lexer.curr_offset(), 2);
    }
}

#[test]
fn advance_if_consumes_one_character() {
    let mut lexer = Lexer::new("aab");
    assert_eq!(lexer.advance_if(|c| *c == 'a'), Some('a'));
    assert_eq!(lexer.curr_offset(), 1);
    assert_eq!(lexer.column(), 1);
    assert_eq!(lexer.advance_if(|c| *c == 'a'), Some('a'));
    assert_eq!(lexer.curr_offset(), 2);
    assert_eq!(lexer.lexeme(), "aa");
}

#[test]
fn advance_if_leaves_what_it_does_not_expect() {
    let mut lexer = Lexer::new("ab");
    assert_eq!(lexer.advance_if(|c| *c == 'b'), None);
    assert_eq!(lexer.curr_offset(), 0);
    assert_eq!(lexer.last_offset(), 0);
    assert_eq!((lexer.line(), lexer.column()), (1, 0));
    assert_eq!(lexer.peek(), Some('a'));
}

#[test]
fn advance_if_stops_at_the_end() {
    let mut lexer = Lexer::new("a");
    assert_eq!(lexer.advance_if(|_| true), Some('a'));
    assert_eq!(lexer.advance_if(|_| true), None);
    assert_eq!(lexer.curr_offset(), 1);
}

#[test]
fn line_terminator_begins_a_line_and_a_lexeme() {
    let mut lexer = Lexer::new("ab\ncd");
    lexer.advance_if(|_| true);
    lexer.advance_if(|_| true);
    assert_eq!((lexer.line(), lexer.column()), (1, 2));
    assert_eq!(lexer.last_offset(), 0);
    assert_eq!(lexer.advance_if(|_| true), Some('\n'));
    assert_eq!((lexer.line(), lexer.column()), (2, 0));
    assert_eq!(lexer.last_offset(), 3);
    assert_eq!(lexer.curr_offset(), 3);
    assert_eq!(lexer.lexeme(), "");
    lexer.advance_if(|_| true);
    assert_eq!((lexer.line(), lexer.column()), (2, 1));
    assert_eq!(lexer.lexeme(), "c");
}

#[test]
fn skip_whitespace_stops_at_the_next_character() {
    let mut lexer = Lexer::new(" \t\r\n\n  x y");
    assert_eq!(lexer.skip_whitespace(), Some('x'));
    assert_eq!(lexer.curr_offset(), 7);
    assert_eq!((lexer.line(), lexer.column()), (3, 2));
    assert_eq!(lexer.skip_whitespace(), Some('x'));
    assert_eq!(lexer.curr_offset(), 7);
}

#[test]
fn skip_whitespace_without_a_line_terminator_moves_the_column() {
    let mut lexer = Lexer::new("a   b");
    lexer.advance_if(|_| true);
    assert_eq!(lexer.skip_whitespace(), Some('b'));
    assert_eq!((lexer.line(), lexer.column()), (1, 4));
    assert_eq!(lexer.last_offset(), 0);
}

#[test]
fn skip_whitespace_reaches_the_end() {
    let mut lexer = Lexer::new("  ");
    assert_eq!(lexer.skip_whitespace(), None);
    assert_eq!(lexer.curr_offset(), 2);
}

#[test]
fn skip_whitespace_knows_wide_blanks() {
    let mut lexer = Lexer::new("\u{a0}\u{2003}\u{3000}\u{85}\u{2028}z");
    assert_eq!(lexer.skip_whitespace(), Some('z'));
    assert_eq!(lexer.curr_offset(), 5);
    assert_eq!((lexer.line(), lexer.column()), (1, 5));
}

#[test]
fn start_lexeme_begins_at_the_cursor() {
    let mut lexer = Lexer::new("abcd");
    lexer.advance_if(|_| true);
    lexer.advance_if(|_| true);
    assert_eq!(lexer.lexeme(), "ab");
    lexer.start_lexeme();
    assert_eq!(lexer.last_offset(), 2);
    assert_eq!(lexer.curr_offset(), 2);
    assert_eq!(lexer.lexeme(), "");
    lexer.advance_if(|_| true);
    assert_eq!(lexer.lexeme(), "c");
}

#[test]
fn lex_if_takes_the_run_behind_the_white_space() {
    let mut lexer = Lexer::new("  \n aaab");
    lexer.lex_if(|c| *c == 'a');
    assert_eq!(lexer.lexeme(), "aaa");
    assert_eq!(lexer.last_offset(), 4);
    assert_eq!(lexer.curr_offset(), 7);
    assert_eq!((lexer.line(), lexer.column()), (2, 4));
    assert_eq!(lexer.peek(), Some('b'));
}

#[test]
fn lex_if_may_take_nothing() {
    let mut lexer = Lexer::new("ab  c");
    lexer.advance_if(|_| true);
    lexer.lex_if(|c| *c == 'x');
    assert_eq!(lexer.lexeme(), "");
    assert_eq!(lexer.last_offset(), 1);
    assert_eq!(lexer.curr_offset(), 1);
}

#[test]
fn lex_if_across_a_line_terminator_keeps_the_last_line() {
    let mut lexer = Lexer::new("ab\ncd e");
    lexer.lex_if(|c| *c != ' ');
    assert_eq!(lexer.lexeme(), "cd");
    assert_eq!(lexer.last_offset(), 3);
    assert_eq!(lexer.curr_offset(), 5);
    assert_eq!((lexer.line(), lexer.column()), (2, 2));
}

#[test]
fn offsets_count_characters() {
    let mut lexer = Lexer::new("é ßß|");
    assert_eq!(lexer.advance_if(|c| *c == 'é'), Some('é'));
    assert_eq!(lexer.curr_offset(), 1);
    assert_eq!(lexer.lexeme(), "é");
    lexer.lex_if(|c| *c == 'ß');
    assert_eq!(lexer.lexeme(), "ßß");
    assert_eq!(lexer.last_offset(), 2);
    assert_eq!(lexer.curr_offset(), 4);
    assert_eq!((lexer.line(), lexer.column()), (1, 4));
    assert_eq!(lexer.peek(), Some('|'));
}

#[test]
fn lexeme_outlives_the_scanner() {
    let source = String::from("  word  ");
    let text = {
        let mut lexer = Lexer::new(&source);
        lexer.lex_if(|c| c.is_alphabetic());
        lexer.lexeme()
    };
    assert_eq!(text, "word");
}
