//! How the characters of a text lie in its bytes.
//!
//! A scanner counts characters and slices bytes. What follows relates an
//! offset in characters to the offset in bytes at which that character
//! begins.

use vstd::prelude::*;
use vstd::utf8::*;

verus! {

/// The number of bytes that the first `n` characters of `s` take.
pub open spec fn bytes_before(s: Seq<char>, n: nat) -> nat {
    encode_utf8(s.take(n as int)).len()
}

/// The number of bytes that `c` takes.
pub open spec fn width_of(c: char) -> nat {
    encode_scalar(c as u32).len()
}

/// Computes the number of bytes that `c` takes.
pub fn width(c: char) -> (n: usize)
    ensures
        n == width_of(c),
        1 <= n <= 4,
{
    let code = c as u32;
    if code < 0x80 {
        1
    } else if code < 0x800 {
        2
    } else if code < 0x10000 {
        3
    } else {
        4
    }
}

/// The first character of `text`, if it has one.
pub fn first(text: &str) -> (c: Option<char>)
    ensures
        c == if text@.len() > 0 {
            Some(text@[0])
        } else {
            None
        },
{
    let mut chars = text.chars();
    chars.next()
}

/// The two parts of `text` before and from its character `n`, which begins
/// at the byte `at`.
pub(crate) fn split<'a>(text: &'a str, at: usize, Ghost(n): Ghost<nat>) -> (parts: (
    &'a str,
    &'a str,
))
    requires
        n <= text@.len(),
        at == bytes_before(text@, n),
    ensures
        parts.0@ == text@.take(n as int),
        parts.1@ == text@.skip(n as int),
{
    proof {
        boundary(text@, n);
        bytes_split(text@, n);
    }
    let parts = text.split_at(at);
    proof {
        same_bytes(parts.0@, text@.take(n as int));
        same_bytes(parts.1@, text@.skip(n as int));
    }
    parts
}

/// A text is encoded part by part.
pub proof fn encode_concat(a: Seq<char>, b: Seq<char>)
    ensures
        encode_utf8(a + b) == encode_utf8(a) + encode_utf8(b),
    decreases a.len(),
{
    if a.len() == 0 {
        assert(a + b =~= b);
        assert(encode_utf8(a) + encode_utf8(b) =~= encode_utf8(b));
    } else {
        assert((a + b).drop_first() =~= a.drop_first() + b);
        encode_concat(a.drop_first(), b);
        assert(encode_utf8(a + b) =~= encode_utf8(a) + encode_utf8(b));
    }
}

/// A text of one character takes the bytes of that character.
pub proof fn encode_one(c: char)
    ensures
        encode_utf8(seq![c]) == encode_scalar(c as u32),
        1 <= width_of(c) <= 4,
{
    let one = seq![c];
    assert(one.drop_first() =~= Seq::<char>::empty());
    assert(encode_utf8(one.drop_first()) =~= Seq::<u8>::empty());
    assert(encode_utf8(one) =~= encode_scalar(one[0] as u32) + encode_utf8(one.drop_first()));
    assert(encode_utf8(one) =~= encode_scalar(c as u32));
}

/// The bytes of a text up to a character are those before that character
/// and those of the character.
pub proof fn bytes_before_next(s: Seq<char>, n: nat)
    requires
        n < s.len(),
    ensures
        bytes_before(s, n + 1) == bytes_before(s, n) + width_of(s[n as int]),
        bytes_before(s, n + 1) <= encode_utf8(s).len(),
        1 <= width_of(s[n as int]) <= 4,
{
    let one = seq![s[n as int]];
    assert(s.take(n as int + 1) =~= s.take(n as int) + one);
    encode_concat(s.take(n as int), one);
    encode_one(s[n as int]);
    assert(s =~= s.take(n as int + 1) + s.skip(n as int + 1));
    encode_concat(s.take(n as int + 1), s.skip(n as int + 1));
}

/// The bytes of a text are those before an offset and those behind it.
pub proof fn bytes_split(s: Seq<char>, n: nat)
    requires
        n <= s.len(),
    ensures
        encode_utf8(s) == encode_utf8(s.take(n as int)) + encode_utf8(s.skip(n as int)),
        encode_utf8(s).subrange(0, bytes_before(s, n) as int) == encode_utf8(s.take(n as int)),
        encode_utf8(s).subrange(bytes_before(s, n) as int, encode_utf8(s).len() as int)
            == encode_utf8(s.skip(n as int)),
{
    assert(s =~= s.take(n as int) + s.skip(n as int));
    encode_concat(s.take(n as int), s.skip(n as int));
    let bytes = encode_utf8(s);
    let cut = bytes_before(s, n) as int;
    assert(bytes.subrange(0, cut) =~= encode_utf8(s.take(n as int)));
    assert(bytes.subrange(cut, bytes.len() as int) =~= encode_utf8(s.skip(n as int)));
}

/// Every character of a text begins at a boundary in its bytes, and so does
/// the end of the text.
pub proof fn boundary(s: Seq<char>, n: nat)
    requires
        n <= s.len(),
    ensures
        is_char_boundary(encode_utf8(s), bytes_before(s, n) as int),
    decreases n,
{
    let bytes = encode_utf8(s);
    encode_utf8_valid_utf8(s);
    if n == 0 {
        assert(s.take(0) =~= Seq::<char>::empty());
    } else {
        let tail = s.drop_first();
        encode_utf8_first_scalar(s);
        assert(pop_first_scalar(bytes) =~= encode_utf8(tail));
        boundary(tail, (n - 1) as nat);
        let one = seq![s[0]];
        assert(s.take(n as int) =~= one + tail.take(n - 1));
        encode_concat(one, tail.take(n - 1));
        encode_one(s[0]);
        bytes_split(s, n);
    }
}

/// The bytes before an offset are all the bytes of a text only at its end.
pub proof fn at_end(s: Seq<char>, n: nat)
    requires
        n <= s.len(),
    ensures
        bytes_before(s, n) <= encode_utf8(s).len(),
        bytes_before(s, n) == encode_utf8(s).len() <==> n == s.len(),
{
    bytes_split(s, n);
    if n < s.len() {
        encode_one(s.skip(n as int)[0]);
    } else {
        assert(s.skip(n as int) =~= Seq::<char>::empty());
    }
}

/// Two texts with the same bytes are the same text.
pub proof fn same_bytes(a: Seq<char>, b: Seq<char>)
    requires
        encode_utf8(a) == encode_utf8(b),
    ensures
        a == b,
{
    encode_utf8_decode_utf8(a);
    encode_utf8_decode_utf8(b);
}

} // verus!
