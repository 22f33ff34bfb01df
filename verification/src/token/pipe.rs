//! The pipe symbol.

use crate::lexer::{LexError, Lexer, Tokenize};
use crate::scan::Scan;
use vstd::prelude::*;
use vstd::string::StrSliceExecFns;

verus! {

/// The character that [`Pipe`] stands for.
pub const PIPE: char = '|';

/// The symbol `|`.
#[derive(PartialEq, Debug)]
pub struct Pipe;

impl<'src> Tokenize<'src> for Pipe {
    /// After white space, the longest run of pipe characters is taken; it is
    /// the symbol where it is one character long.
    open spec fn attempt(from: Scan) -> (Scan, Result<Self, LexError>) {
        let left = from.lex(crate::class::only(PIPE));
        if left.lexeme() == seq![PIPE] {
            (left, Ok(Pipe))
        } else {
            (left, Err(LexError::UnexpectedSymbol))
        }
    }

    fn tokenize(lexer: &mut Lexer<'src>) -> (found: Result<Self, LexError>) {
        let pipe = |c: &char| -> (r: bool)
            ensures
                r == (*c == PIPE),
            { *c == PIPE };
        proof {
            use_type_invariant(&*lexer);
        }
        lexer.lex_if(pipe);
        let text = lexer.lexeme();
        proof {
            let only = crate::class::only(PIPE);
            assert(crate::scan::decides(pipe, only));
            crate::scan::lex_decided(pipe, only, old(lexer)@, lexer@);
            crate::scan::lexeme_exact(old(lexer)@, only);
            assert(text@.len() == 1 ==> text@ =~= seq![PIPE]);
        }
        if text.unicode_len() == 1 {
            Ok(Pipe)
        } else {
            Err(LexError::UnexpectedSymbol)
        }
    }
}

} // verus!
