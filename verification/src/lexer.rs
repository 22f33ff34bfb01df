//! The scanner: a cursor over a source text that tracks line and column and
//! the bounds of the lexeme being recognized.

use crate::scan::Scan;
use vstd::prelude::*;
use vstd::string::StringSliceAdditionalSpecFns;

verus! {

/// A recognized value with the position of the cursor when it was accepted:
/// the line and the column just behind its lexeme.
#[derive(PartialEq, Debug)]
pub struct Token<E: PartialEq> {
    /// The line of the cursor, from 1.
    pub line: usize,
    /// The column of the cursor, from 0.
    pub column: usize,
    /// The value that was recognized.
    pub token: E,
}

#[derive(Debug)]
struct Position {
    line: usize,
    column: usize,
}

impl Position {
    fn newline(&mut self)
        requires
            old(self).line < usize::MAX,
        ensures
            final(self).line == old(self).line + 1,
            final(self).column == 0,
        no_unwind
    {
        self.line += 1;
        self.column = 0;
    }

    fn advance(&mut self)
        requires
            old(self).column < usize::MAX,
        ensures
            final(self).line == old(self).line,
            final(self).column == old(self).column + 1,
        no_unwind
    {
        self.column += 1;
    }
}

/// A place in the source: the number of characters before it, and the number
/// of bytes that they take.
#[derive(Debug, Clone, Copy)]
struct Offset {
    chars: usize,
    bytes: usize,
}

/// Keeps the place at which the current lexeme began along with the place of
/// the next unconsumed character.
#[derive(Debug)]
struct LexemeCursor {
    last: Offset,
    curr: Offset,
}

impl LexemeCursor {
    fn new_lexeme(&mut self)
        ensures
            final(self).last == old(self).curr,
            final(self).curr == old(self).curr,
        no_unwind
    {
        self.last = self.curr;
    }

    fn advance(&mut self, width: usize)
        requires
            old(self).curr.chars < usize::MAX,
            old(self).curr.bytes + width <= usize::MAX,
        ensures
            final(self).last == old(self).last,
            final(self).curr.chars == old(self).curr.chars + 1,
            final(self).curr.bytes == old(self).curr.bytes + width,
        no_unwind
    {
        self.curr = Offset { chars: self.curr.chars + 1, bytes: self.curr.bytes + width };
    }
}

/// Moves the cursor and the position past the character `next`, which takes
/// `width` bytes. A line terminator begins a new line and a new lexeme.
fn pass(cursor: &mut LexemeCursor, position: &mut Position, next: char, width: usize)
    requires
        old(cursor).curr.chars < usize::MAX,
        old(cursor).curr.bytes + width <= usize::MAX,
        old(position).line < usize::MAX,
        old(position).column < usize::MAX,
    ensures
        final(cursor).curr.chars == old(cursor).curr.chars + 1,
        final(cursor).curr.bytes == old(cursor).curr.bytes + width,
        next == crate::class::NEWLINE ==> {
            &&& final(cursor).last == final(cursor).curr
            &&& final(position).line == old(position).line + 1
            &&& final(position).column == 0
        },
        next != crate::class::NEWLINE ==> {
            &&& final(cursor).last == old(cursor).last
            &&& final(position).line == old(position).line
            &&& final(position).column == old(position).column + 1
        },
    no_unwind
{
    cursor.advance(width);
    if next == crate::class::NEWLINE {
        position.newline();
        cursor.new_lexeme();
    } else {
        position.advance();
    }
}

/// Why a token kind did not recognize the text at the cursor.
#[derive(Debug, Clone, Copy, PartialEq, Eq)]
#[non_exhaustive]
pub enum LexError {
    /// The lexeme is not the symbol that was asked for.
    UnexpectedSymbol,
    /// The lexeme is not a number that fits the machine word.
    InvalidNumber,
}

/// A kind of token: what it takes for the text at the cursor to be a value of
/// this type.
pub trait Tokenize<'src>: Sized {
    /// The scan that an attempt to recognize this kind at `from` leaves, and
    /// what the attempt finds. A kind that leaves this out says nothing of
    /// its attempts.
    open spec fn attempt(from: Scan) -> (Scan, Result<Self, LexError>) {
        arbitrary()
    }

    /// Recognizes a value of this kind at the cursor of `lexer`, by the
    /// scanner's primitives alone.
    fn tokenize(lexer: &mut Lexer<'src>) -> (found: Result<Self, LexError>)
        ensures
            old(lexer)@.precedes(final(lexer)@),
            (final(lexer)@, found) == Self::attempt(old(lexer)@),
    ;
}

/// A scanner over a borrowed source text.
#[derive(Debug)]
pub struct Lexer<'src> {
    source: &'src str,
    size: usize,
    cursor: LexemeCursor,
    position: Position,
}

impl<'src> View for Lexer<'src> {
    type V = Scan;

    closed spec fn view(&self) -> Scan {
        Scan {
            source: self.source@,
            last: self.cursor.last.chars as nat,
            curr: self.cursor.curr.chars as nat,
            line: self.position.line as nat,
            column: self.position.column as nat,
        }
    }
}

impl<'src> Lexer<'src> {
    /// What holds of every scanner: it stands for a valid scan, and knows where
    /// in its source it is.
    #[verifier::type_invariant]
    pub open spec fn well_formed(self) -> bool {
        self@.valid() && self.anchored()
    }

    /// Whether the scanner knows the bytes at which its offsets lie, in a
    /// source that is shorter than the largest offset.
    pub closed spec fn anchored(self) -> bool {
        &&& self.source@.len() < usize::MAX
        &&& self.size == self.source.spec_bytes().len()
        &&& self.cursor.last.bytes == crate::text::bytes_before(self.source@, self@.last)
        &&& self.cursor.curr.bytes == crate::text::bytes_before(self.source@, self@.curr)
    }

    /// A scanner at the beginning of `source`: line 1, column 0.
    pub fn new(source: &'src str) -> (lexer: Self)
        requires
            source@.len() < usize::MAX,
        ensures
            lexer@ == Scan::new(source@),
            lexer@.valid(),
    {
        proof {
            assert(source@.take(0) =~= Seq::<char>::empty());
        }
        Self {
            source,
            size: source.as_bytes().len(),
            cursor: LexemeCursor {
                last: Offset { chars: 0, bytes: 0 },
                curr: Offset { chars: 0, bytes: 0 },
            },
            position: Position { line: 1, column: 0 },
        }
    }

    /// The offset at which the current lexeme begins.
    pub fn last_offset(&self) -> (offset: usize)
        ensures
            offset == self@.last,
    {
        self.cursor.last.chars
    }

    /// The offset of the next unconsumed character.
    pub fn curr_offset(&self) -> (offset: usize)
        ensures
            offset == self@.curr,
    {
        self.cursor.curr.chars
    }

    /// The line of the cursor, from 1.
    pub fn line(&self) -> (line: usize)
        ensures
            line == self@.line,
    {
        self.position.line
    }

    /// The column of the cursor, from 0.
    pub fn column(&self) -> (column: usize)
        ensures
            column == self@.column,
    {
        self.position.column
    }

    /// The next unconsumed character, or `None` at the end of the source.
    pub fn peek(&mut self) -> (c: Option<char>)
        ensures
            c == old(self)@.peek(),
            final(self)@ == old(self)@,
    {
        self.head()
    }

    /// Consumes the next character if `expected` holds of it, and returns it.
    /// A line terminator begins a new line and a new lexeme.
    pub fn advance_if(&mut self, expected: impl Fn(&char) -> bool) -> (c: Option<char>)
        requires
            old(self)@.peek() matches Some(next) ==> call_requires(expected, (&next,)),
        ensures
            match c {
                Some(next) => {
                    &&& old(self)@.peek() == Some(next)
                    &&& crate::scan::accepts(expected, next)
                    &&& final(self)@ == old(self)@.step()
                },
                None => {
                    &&& final(self)@ == old(self)@
                    &&& old(self)@.peek() matches Some(next) ==> crate::scan::rejects(
                        expected,
                        next,
                    )
                },
            },
    {
        self.take_if(&expected)
    }

    /// Consumes the white space at the cursor and returns the character that
    /// follows it, if there is one.
    pub fn skip_whitespace(&mut self) -> (c: Option<char>)
        ensures
            final(self)@ == old(self)@.skip_whitespace(),
            old(self)@.precedes(final(self)@),
            c == final(self)@.peek(),
    {
        let blank = |c: &char| -> (r: bool)
            ensures
                r == crate::class::is_whitespace(*c),
            { crate::class::whitespace(*c) };
        proof {
            use_type_invariant(&*self);
            assert(crate::scan::decides(blank, crate::class::blanks()));
        }
        self.take_while(blank);
        proof {
            crate::scan::decided_run(
                blank,
                crate::class::blanks(),
                self@.source,
                old(self)@.curr,
                self@.curr,
            );
        }
        self.peek()
    }

    /// Begins a new lexeme at the cursor.
    pub fn start_lexeme(&mut self)
        ensures
            final(self)@ == old(self)@.start_lexeme(),
    {
        proof {
            use_type_invariant(&*self);
        }
        self.cursor.new_lexeme();
    }

    /// Skips white space, begins a new lexeme and takes characters into it for
    /// as long as `expected` holds of the next one.
    pub fn lex_if(&mut self, expected: impl Fn(&char) -> bool)
        requires
            forall|i: int|
                old(self)@.curr <= i < old(self)@.source.len() ==> call_requires(
                    expected,
                    (&#[trigger] old(self)@.source[i],),
                ),
        ensures
            old(self)@.precedes(final(self)@),
            ({
                let begun = old(self)@.skip_whitespace().start_lexeme();
                &&& crate::scan::stops_at(expected, begun.source, begun.curr, final(self)@.curr)
                &&& final(self)@ == begun.advance((final(self)@.curr - begun.curr) as nat)
            }),
    {
        proof {
            use_type_invariant(&*self);
            crate::scan::run_valid(self@, crate::class::blanks());
        }
        self.skip_whitespace();
        self.start_lexeme();
        self.take_while(expected);
    }

    /// The text of the current lexeme.
    pub fn lexeme(&self) -> (text: &'src str)
        ensures
            text@ == self@.lexeme(),
    {
        proof {
            use_type_invariant(self);
        }
        let (head, _) = crate::text::split(self.source, self.cursor.curr.bytes, Ghost(self@.curr));
        proof {
            assert(head@.take(self@.last as int) =~= self.source@.take(self@.last as int));
        }
        let (_, text) = crate::text::split(head, self.cursor.last.bytes, Ghost(self@.last));
        proof {
            assert(text@ =~= self@.lexeme());
        }
        text
    }

    /// Recognizes a token of the kind `E` at the cursor. A value that was
    /// found is returned with the position behind it, and its lexeme is closed;
    /// after an error the scan stays as the attempt left it.
    pub fn consume<E: Tokenize<'src> + PartialEq>(&mut self) -> (token: Result<Token<E>, LexError>)
        ensures
            old(self)@.precedes(final(self)@),
            match E::attempt(old(self)@) {
                (left, Ok(value)) => {
                    &&& final(self)@ == left.start_lexeme()
                    &&& token matches Ok(t)
                    &&& t.token == value
                    &&& t.line == left.line
                    &&& t.column == left.column
                },
                (left, Err(error)) => final(self)@ == left && token == Err::<Token<E>, LexError>(
                    error,
                ),
            },
    {
        let found = E::tokenize(self);
        proof {
            use_type_invariant(&*self);
        }
        self.close(found)
    }

    /// Closes an attempt that found `found`: a value is returned with the
    /// position of the cursor, and a new lexeme begins; an error is handed on
    /// and the scan stays as it is.
    pub fn close<E: PartialEq>(&mut self, found: Result<E, LexError>) -> (token: Result<
        Token<E>,
        LexError,
    >)
        ensures
            match found {
                Ok(value) => {
                    &&& final(self)@ == old(self)@.start_lexeme()
                    &&& token matches Ok(t)
                    &&& t.token == value
                    &&& t.line == old(self)@.line
                    &&& t.column == old(self)@.column
                },
                Err(error) => final(self)@ == old(self)@ && token == Err::<Token<E>, LexError>(
                    error,
                ),
            },
    {
        proof {
            use_type_invariant(&*self);
        }
        match found {
            Ok(token) => {
                self.cursor.new_lexeme();
                Ok(Token { line: self.position.line, column: self.position.column, token })
            },
            Err(error) => Err(error),
        }
    }

    /// Recognizes a token of the kind `E` at the cursor, where the text there
    /// is known to be one.
    pub fn accept<E: Tokenize<'src> + PartialEq>(&mut self) -> (token: Token<E>)
        requires
            E::attempt(old(self)@).1 is Ok,
        ensures
            old(self)@.precedes(final(self)@),
            final(self)@ == E::attempt(old(self)@).0.start_lexeme(),
            Ok::<E, LexError>(token.token) == E::attempt(old(self)@).1,
            token.line == final(self)@.line,
            token.column == final(self)@.column,
    {
        self.consume::<E>().expect("Element is not acceptable!")
    }

    /// The next unconsumed character, or `None` at the end of the source.
    fn head(&self) -> (c: Option<char>)
        ensures
            c == self@.peek(),
    {
        proof {
            use_type_invariant(self);
            crate::text::at_end(self.source@, self@.curr);
        }
        if self.cursor.curr.bytes >= self.size {
            return None;
        }
        let (_, rest) = crate::text::split(self.source, self.cursor.curr.bytes, Ghost(self@.curr));
        crate::text::first(rest)
    }

    /// Consumes the next character if `expected` holds of it, and returns it.
    fn take_if<F: Fn(&char) -> bool>(&mut self, expected: &F) -> (c: Option<char>)
        requires
            old(self)@.peek() matches Some(next) ==> call_requires(*expected, (&next,)),
        ensures
            match c {
                Some(next) => {
                    &&& old(self)@.peek() == Some(next)
                    &&& crate::scan::accepts(*expected, next)
                    &&& final(self)@ == old(self)@.step()
                },
                None => {
                    &&& final(self)@ == old(self)@
                    &&& old(self)@.peek() matches Some(next) ==> crate::scan::rejects(
                        *expected,
                        next,
                    )
                },
            },
    {
        proof {
            use_type_invariant(&*self);
        }
        let next = match self.head() {
            Some(next) => next,
            None => {
                return None;
            },
        };
        if !expected(&next) {
            return None;
        }
        let width = crate::text::width(next);
        proof {
            crate::scan::step_valid(self@);
            crate::scan::position_bounds(self.source@, self@.curr);
            crate::text::bytes_before_next(self.source@, self@.curr);
        }
        pass(&mut self.cursor, &mut self.position, next, width);
        Some(next)
    }

    /// Consumes characters for as long as `expected` holds of the next one.
    fn take_while<F: Fn(&char) -> bool>(&mut self, expected: F)
        requires
            forall|i: int|
                old(self)@.curr <= i < old(self)@.source.len() ==> call_requires(
                    expected,
                    (&#[trigger] old(self)@.source[i],),
                ),
        ensures
            old(self)@.precedes(final(self)@),
            crate::scan::stops_at(expected, old(self)@.source, old(self)@.curr, final(self)@.curr),
            final(self)@ == old(self)@.advance((final(self)@.curr - old(self)@.curr) as nat),
    {
        proof {
            use_type_invariant(&*self);
        }
        let ghost start = self@;
        let ghost taken: nat = 0;
        loop
            invariant
                start.valid(),
                self@.valid(),
                self@ == start.advance(taken),
                self@.curr == start.curr + taken,
                start.precedes(self@),
                forall|i: int|
                    start.curr <= i < start.source.len() ==> call_requires(
                        expected,
                        (&#[trigger] start.source[i],),
                    ),
                forall|i: int|
                    start.curr <= i < self@.curr ==> crate::scan::accepts(
                        expected,
                        #[trigger] start.source[i],
                    ),
            ensures
                crate::scan::stops_at(expected, start.source, start.curr, self@.curr),
                self@ == start.advance((self@.curr - start.curr) as nat),
                start.precedes(self@),
            decreases start.source.len() - self@.curr,
        {
            let taking = self.take_if(&expected);
            proof {
                use_type_invariant(&*self);
            }
            match taking {
                Some(_) => {
                    proof {
                        taken = taken + 1;
                    }
                },
                None => {
                    break ;
                },
            }
        }
    }
}

} // verus!
