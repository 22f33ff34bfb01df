//! The abstract state of a scan, and what each primitive of the scanner does to it.
//!
//! A [`Scan`] is the mathematical value that a `Lexer` stands for. Offsets count
//! characters of the source, lines count from 1 and columns from 0.

use vstd::prelude::*;

verus! {

/// The number of line terminators in `s`.
pub open spec fn newlines(s: Seq<char>) -> nat
    decreases s.len(),
{
    if s.len() == 0 {
        0
    } else if s.last() == crate::class::NEWLINE {
        newlines(s.drop_last()) + 1
    } else {
        newlines(s.drop_last())
    }
}

/// The number of the line that offset `at` of `s` lies on: one more than the
/// number of line terminators before `at`.
pub open spec fn line_at(s: Seq<char>, at: nat) -> nat {
    newlines(s.take(at as int)) + 1
}

/// The offset at which the line that offset `at` of `s` lies on begins: just past
/// the last line terminator among the first `at` characters, or 0 without one.
pub open spec fn line_start(s: Seq<char>, at: nat) -> nat
    decreases at,
{
    if at == 0 {
        0
    } else if s[at - 1] == crate::class::NEWLINE {
        at
    } else {
        line_start(s, (at - 1) as nat)
    }
}

/// The end of the longest run of characters of `s` that begins at `from` and
/// consists of characters with the property `p`.
pub open spec fn run_end(s: Seq<char>, from: nat, p: spec_fn(char) -> bool) -> nat
    decreases s.len() - from,
{
    if from < s.len() && p(s[from as int]) {
        run_end(s, from + 1, p)
    } else {
        from
    }
}

/// Whether the predicate `f` can answer `true` for `c`.
pub open spec fn accepts<F: Fn(&char) -> bool>(f: F, c: char) -> bool {
    call_ensures(f, (&c,), true)
}

/// Whether the predicate `f` can answer `false` for `c`.
pub open spec fn rejects<F: Fn(&char) -> bool>(f: F, c: char) -> bool {
    call_ensures(f, (&c,), false)
}

/// Whether the predicate `f` answers for every character as the property `p`
/// has it.
pub open spec fn decides<F: Fn(&char) -> bool>(f: F, p: spec_fn(char) -> bool) -> bool {
    forall|c: char, r: bool| #[trigger] call_ensures(f, (&c,), r) ==> r == p(c)
}

/// Whether a run that takes characters of `s` from `from` for as long as the
/// predicate `f` accepts them can end at `to`: `f` accepted each character
/// before `to`, and rejected the one at `to` unless `s` ends there.
pub open spec fn stops_at<F: Fn(&char) -> bool>(f: F, s: Seq<char>, from: nat, to: nat) -> bool {
    &&& from <= to <= s.len()
    &&& forall|i: int| from <= i < to ==> accepts(f, #[trigger] s[i])
    &&& to < s.len() ==> rejects(f, s[to as int])
}

/// The state of a scan: the source text, the bounds of the current lexeme and
/// the position of the cursor.
pub struct Scan {
    /// The whole source text.
    pub source: Seq<char>,
    /// Where the current lexeme begins.
    pub last: nat,
    /// The offset of the next unconsumed character.
    pub curr: nat,
    /// The line of the cursor, from 1.
    pub line: nat,
    /// The column of the cursor, from 0.
    pub column: nat,
}

impl Scan {
    /// The scan of `source` before anything is consumed.
    pub open spec fn new(source: Seq<char>) -> Scan {
        Scan { source, last: 0, curr: 0, line: 1, column: 0 }
    }

    /// What holds of every scan that begins with [`Scan::new`] and goes on by
    /// the scanner's primitives: the offsets are ordered and lie in the source,
    /// the position is that of the cursor in the text, and the lexeme lies on
    /// the cursor's line.
    pub open spec fn valid(self) -> bool {
        &&& self.last <= self.curr <= self.source.len()
        &&& self.line == line_at(self.source, self.curr)
        &&& self.column == self.curr - line_start(self.source, self.curr)
        &&& line_start(self.source, self.curr) <= self.last
    }

    /// The next unconsumed character, if there is one.
    pub open spec fn peek(self) -> Option<char> {
        if self.curr < self.source.len() {
            Some(self.source[self.curr as int])
        } else {
            None
        }
    }

    /// The text of the current lexeme.
    pub open spec fn lexeme(self) -> Seq<char> {
        self.source.subrange(self.last as int, self.curr as int)
    }

    /// The scan after the next character is consumed. A line terminator begins
    /// a new line and a new lexeme behind it.
    pub open spec fn step(self) -> Scan
        recommends
            self.curr < self.source.len(),
    {
        if self.source[self.curr as int] == crate::class::NEWLINE {
            Scan {
                source: self.source,
                last: self.curr + 1,
                curr: self.curr + 1,
                line: self.line + 1,
                column: 0,
            }
        } else {
            Scan {
                source: self.source,
                last: self.last,
                curr: self.curr + 1,
                line: self.line,
                column: self.column + 1,
            }
        }
    }

    /// The scan after the next `n` characters are consumed one by one.
    pub open spec fn advance(self, n: nat) -> Scan
        recommends
            self.curr + n <= self.source.len(),
        decreases n,
    {
        if n == 0 {
            self
        } else {
            self.advance((n - 1) as nat).step()
        }
    }

    /// The scan with a new, empty lexeme at the cursor.
    pub open spec fn start_lexeme(self) -> Scan {
        Scan { last: self.curr, ..self }
    }

    /// The scan after the longest run of characters with the property `p` is
    /// consumed.
    pub open spec fn run(self, p: spec_fn(char) -> bool) -> Scan {
        self.advance((run_end(self.source, self.curr, p) - self.curr) as nat)
    }

    /// The scan after the white space at the cursor is consumed.
    pub open spec fn skip_whitespace(self) -> Scan {
        self.run(crate::class::blanks())
    }

    /// The scan after white space is skipped, a lexeme is begun and the longest
    /// run of characters with the property `p` is taken into it.
    pub open spec fn lex(self, p: spec_fn(char) -> bool) -> Scan {
        self.skip_whitespace().start_lexeme().run(p)
    }

    /// Whether `next` can follow `self` in one scan: the source is the same
    /// and neither offset has moved back.
    pub open spec fn precedes(self, next: Scan) -> bool {
        &&& next.source == self.source
        &&& self.last <= next.last
        &&& self.curr <= next.curr
    }
}

/// Consuming a character keeps a scan valid.
pub proof fn step_valid(scan: Scan)
    requires
        scan.valid(),
        scan.curr < scan.source.len(),
    ensures
        scan.step().valid(),
        scan.precedes(scan.step()),
{
    assert(scan.source.take(scan.curr as int + 1).drop_last() =~= scan.source.take(scan.curr as int));
}

/// Consuming characters keeps a scan valid and moves the cursor by their
/// number.
pub proof fn advance_valid(scan: Scan, n: nat)
    requires
        scan.valid(),
        scan.curr + n <= scan.source.len(),
    ensures
        scan.advance(n).valid(),
        scan.precedes(scan.advance(n)),
        scan.advance(n).curr == scan.curr + n,
    decreases n,
{
    if n > 0 {
        advance_valid(scan, (n - 1) as nat);
        step_valid(scan.advance((n - 1) as nat));
    }
}

/// A run ends in the source, behind where it began; every character in it has
/// the property, and the character behind it, if there is one, has not.
pub proof fn run_end_bounds(s: Seq<char>, from: nat, p: spec_fn(char) -> bool)
    requires
        from <= s.len(),
    ensures
        from <= run_end(s, from, p) <= s.len(),
        forall|i: int| from <= i < run_end(s, from, p) ==> p(#[trigger] s[i]),
        run_end(s, from, p) < s.len() ==> !p(s[run_end(s, from, p) as int]),
    decreases s.len() - from,
{
    if from < s.len() && p(s[from as int]) {
        run_end_bounds(s, from + 1, p);
    }
}

/// A run ends at the one offset that has only characters with the property
/// before it and none behind it.
pub proof fn run_end_unique(s: Seq<char>, from: nat, to: nat, p: spec_fn(char) -> bool)
    requires
        from <= to <= s.len(),
        forall|i: int| from <= i < to ==> p(#[trigger] s[i]),
        to < s.len() ==> !p(s[to as int]),
    ensures
        run_end(s, from, p) == to,
    decreases to - from,
{
    if from < to {
        run_end_unique(s, from + 1, to, p);
    }
}

/// Where a predicate decides a property, the run that it takes is the longest
/// run of characters with that property.
pub proof fn decided_run<F: Fn(&char) -> bool>(
    f: F,
    p: spec_fn(char) -> bool,
    s: Seq<char>,
    from: nat,
    to: nat,
)
    requires
        decides(f, p),
        stops_at(f, s, from, to),
    ensures
        to == run_end(s, from, p),
{
    assert forall|i: int| from <= i < to implies p(#[trigger] s[i]) by {
        assert(accepts(f, s[i]));
    }
    run_end_unique(s, from, to, p);
}

/// Where a predicate decides a property, the scan that `lex_if` leaves with
/// that predicate is the one that `lex` gives for the property.
pub proof fn lex_decided<F: Fn(&char) -> bool>(
    f: F,
    p: spec_fn(char) -> bool,
    scan: Scan,
    left: Scan,
)
    requires
        scan.valid(),
        decides(f, p),
        ({
            let begun = scan.skip_whitespace().start_lexeme();
            &&& stops_at(f, begun.source, begun.curr, left.curr)
            &&& left == begun.advance((left.curr - begun.curr) as nat)
        }),
    ensures
        left == scan.lex(p),
{
    run_valid(scan, crate::class::blanks());
    let begun = scan.skip_whitespace().start_lexeme();
    decided_run(f, p, begun.source, begun.curr, left.curr);
}

/// Taking a run keeps a scan valid and leaves the cursor at the end of the
/// run.
pub proof fn run_valid(scan: Scan, p: spec_fn(char) -> bool)
    requires
        scan.valid(),
    ensures
        scan.run(p).valid(),
        scan.precedes(scan.run(p)),
        scan.run(p).curr == run_end(scan.source, scan.curr, p),
{
    run_end_bounds(scan.source, scan.curr, p);
    advance_valid(scan, (run_end(scan.source, scan.curr, p) - scan.curr) as nat);
}

/// Consuming characters other than the line terminator moves the cursor along
/// its line and leaves the lexeme where it began.
pub proof fn advance_plain(scan: Scan, n: nat)
    requires
        scan.curr + n <= scan.source.len(),
        forall|i: int| scan.curr <= i < scan.curr + n ==> scan.source[i] != crate::class::NEWLINE,
    ensures
        scan.advance(n) == (Scan { curr: scan.curr + n, column: scan.column + n, ..scan }),
    decreases n,
{
    if n > 0 {
        advance_plain(scan, (n - 1) as nat);
    }
}

/// A run of characters with a property that the line terminator has not is
/// taken into the lexeme, on the cursor's line.
pub proof fn run_plain(scan: Scan, p: spec_fn(char) -> bool)
    requires
        scan.curr <= scan.source.len(),
        !p(crate::class::NEWLINE),
    ensures
        scan.run(p) == (Scan {
            curr: run_end(scan.source, scan.curr, p),
            column: (scan.column + run_end(scan.source, scan.curr, p) - scan.curr) as nat,
            ..scan
        }),
{
    run_end_bounds(scan.source, scan.curr, p);
    advance_plain(scan, (run_end(scan.source, scan.curr, p) - scan.curr) as nat);
}

/// The line number at an offset is at most one more than the offset, and the
/// line begins at or before the offset, behind as many characters as lines
/// lie before it or more.
pub proof fn position_bounds(s: Seq<char>, at: nat)
    requires
        at <= s.len(),
    ensures
        1 <= line_at(s, at) <= at + 1,
        line_start(s, at) <= at,
        line_at(s, at) - 1 <= line_start(s, at),
    decreases at,
{
    if at > 0 {
        position_bounds(s, (at - 1) as nat);
        assert(s.take(at as int).drop_last() =~= s.take(at - 1));
    }
}

/// A line begins at the start of the text or behind a line terminator, and
/// holds no line terminator before the offset that lies on it.
pub proof fn line_start_bounds(s: Seq<char>, at: nat)
    requires
        at <= s.len(),
    ensures
        line_start(s, at) <= at,
        line_start(s, at) > 0 ==> s[line_start(s, at) - 1] == crate::class::NEWLINE,
        forall|i: int| line_start(s, at) <= i < at ==> s[i] != crate::class::NEWLINE,
    decreases at,
{
    if at > 0 && s[at - 1] != crate::class::NEWLINE {
        line_start_bounds(s, (at - 1) as nat);
    }
}

/// Between two offsets of a text, the line changes exactly where a line
/// terminator lies between them, and the line number grows by the number of
/// those.
pub proof fn lines_between(s: Seq<char>, from: nat, to: nat)
    requires
        from <= to <= s.len(),
    ensures
        line_at(s, to) == line_at(s, from) + newlines(s.subrange(from as int, to as int)),
        newlines(s.subrange(from as int, to as int)) == 0 ==> line_start(s, to) == line_start(
            s,
            from,
        ),
        newlines(s.subrange(from as int, to as int)) > 0 ==> line_start(s, to) > from,
    decreases to - from,
{
    let part = s.subrange(from as int, to as int);
    if from < to {
        lines_between(s, from, (to - 1) as nat);
        assert(part.drop_last() =~= s.subrange(from as int, to - 1));
        assert(s.take(to as int).drop_last() =~= s.take(to - 1));
        line_start_bounds(s, (to - 1) as nat);
    }
}

/// What consuming `n` characters comes to: the cursor stands `n` characters
/// on, at the line and column of that offset, and the lexeme begins where it
/// began or, if a line terminator was consumed, behind the last of them.
pub proof fn advance_closed(scan: Scan, n: nat)
    requires
        scan.valid(),
        scan.curr + n <= scan.source.len(),
    ensures
        scan.advance(n) == (Scan {
            source: scan.source,
            last: if line_start(scan.source, scan.curr + n) > scan.curr {
                line_start(scan.source, scan.curr + n)
            } else {
                scan.last
            },
            curr: scan.curr + n,
            line: line_at(scan.source, scan.curr + n),
            column: (scan.curr + n - line_start(scan.source, scan.curr + n)) as nat,
        }),
    decreases n,
{
    advance_valid(scan, n);
    if n > 0 {
        advance_closed(scan, (n - 1) as nat);
        advance_valid(scan, (n - 1) as nat);
        position_bounds(scan.source, (scan.curr + n - 1) as nat);
    }
}

/// White space before a token is skipped before its lexeme begins: the lexeme
/// begins at the first character that is not white space. The line number has
/// grown by the number of line terminators skipped; the column has grown by
/// the number of characters skipped where no line terminator is among them,
/// and else counts the characters skipped behind the last line terminator.
pub proof fn whitespace_skipped(scan: Scan)
    requires
        scan.valid(),
    ensures
        ({
            let begun = scan.skip_whitespace().start_lexeme();
            let skipped = scan.source.subrange(scan.curr as int, begun.curr as int);
            &&& begun.valid()
            &&& begun.source == scan.source
            &&& scan.curr <= begun.curr == begun.last
            &&& forall|i: int| 0 <= i < skipped.len() ==> crate::class::is_whitespace(skipped[i])
            &&& begun.peek() matches Some(c) ==> !crate::class::is_whitespace(c)
            &&& begun.line == scan.line + newlines(skipped)
            &&& newlines(skipped) == 0 ==> begun.column == scan.column + skipped.len()
            &&& newlines(skipped) > 0 ==> {
                &&& scan.curr < line_start(scan.source, begun.curr)
                &&& scan.source[line_start(scan.source, begun.curr) - 1] == crate::class::NEWLINE
                &&& forall|i: int|
                    line_start(scan.source, begun.curr) <= i < begun.curr ==> scan.source[i]
                        != crate::class::NEWLINE
                &&& begun.column == begun.curr - line_start(scan.source, begun.curr)
            }
        }),
{
    let blanks = crate::class::blanks();
    let end = run_end(scan.source, scan.curr, blanks);
    run_valid(scan, blanks);
    run_end_bounds(scan.source, scan.curr, blanks);
    lines_between(scan.source, scan.curr, end);
    line_start_bounds(scan.source, end);
}

/// The lexeme that `lex` leaves is the exact text that was taken: it begins at
/// the first character behind the white space, ends where the run of
/// characters with the property ends, and holds only characters with the
/// property. This is for a property that the line terminator has not.
pub proof fn lexeme_exact(scan: Scan, p: spec_fn(char) -> bool)
    requires
        scan.valid(),
        !p(crate::class::NEWLINE),
    ensures
        ({
            let from = run_end(scan.source, scan.curr, crate::class::blanks());
            let to = run_end(scan.source, from, p);
            let left = scan.lex(p);
            &&& left.valid()
            &&& scan.curr <= from <= to <= scan.source.len()
            &&& left.last == from
            &&& left.curr == to
            &&& left.lexeme() == scan.source.subrange(from as int, to as int)
            &&& forall|i: int| 0 <= i < left.lexeme().len() ==> p(left.lexeme()[i])
            &&& left.lexeme().len() > 0 ==> !crate::class::is_whitespace(left.lexeme()[0])
            &&& left.peek() matches Some(c) ==> !p(c)
            &&& left.line == scan.skip_whitespace().line
            &&& left.column == scan.skip_whitespace().column + left.lexeme().len()
        }),
{
    let blanks = crate::class::blanks();
    let from = run_end(scan.source, scan.curr, blanks);
    run_valid(scan, blanks);
    run_end_bounds(scan.source, scan.curr, blanks);
    let begun = scan.skip_whitespace().start_lexeme();
    run_valid(begun, p);
    run_plain(begun, p);
    run_end_bounds(scan.source, from, p);
}

} // verus!
