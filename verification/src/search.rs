//! Helpers for showing search matches.

use vstd::prelude::*;
use vstd::string::StrSliceExecFns;
use vstd::utf8::encode_scalar;
use vstd::utf8::encode_utf8;

verus! {

/// A character index, cut down to the length of the text.
pub open spec fn clamp_index(text: Seq<char>, index: usize) -> int {
    if index <= text.len() {
        index as int
    } else {
        text.len() as int
    }
}

/// Splits a line of context into what stands before a match, the match, and
/// what stands after it. The match is given by character indices, not byte
/// offsets; an index beyond the end counts as the end. The start must not lie
/// behind the end.
pub fn split_context(context: &str, char_start: usize, char_end: usize) -> (parts: (
    String,
    String,
    String,
))
    requires
        clamp_index(context@, char_start) <= clamp_index(context@, char_end),
    ensures
        parts.0@ == context@.subrange(0, clamp_index(context@, char_start)),
        parts.1@ == context@.subrange(
            clamp_index(context@, char_start),
            clamp_index(context@, char_end),
        ),
        parts.2@ == context@.subrange(clamp_index(context@, char_end), context@.len() as int),
        parts.0@ + parts.1@ + parts.2@ == context@,
{
    let len = context.unicode_len();
    let start = if char_start <= len {
        char_start
    } else {
        len
    };
    let end = if char_end <= len {
        char_end
    } else {
        len
    };
    let before = context.substring_char(0, start).to_owned();
    let matched = context.substring_char(start, end).to_owned();
    let after = context.substring_char(end, len).to_owned();
    proof {
        assert(before@ + matched@ + after@ =~= context@);
    }
    (before, matched, after)
}

/// The number of bytes that a character takes in UTF-8.
pub open spec fn utf8_width(c: char) -> int {
    if (c as u32) < 0x80 {
        1
    } else if (c as u32) < 0x800 {
        2
    } else if (c as u32) < 0x10000 {
        3
    } else {
        4
    }
}

/// The byte offset at which the character with the given index starts in
/// the text's UTF-8 form: the length of what the characters before it take.
/// An index beyond the end gives the length of the whole.
pub open spec fn byte_index_of(text: Seq<char>, char_index: usize) -> int {
    encode_utf8(text.take(clamp_index(text, char_index))).len() as int
}

proof fn lemma_encode_push(text: Seq<char>, c: char)
    ensures
        encode_utf8(text.push(c)).len() == encode_utf8(text).len() + utf8_width(c),
        1 <= utf8_width(c) <= 4,
    decreases text.len(),
{
    let longer = text.push(c);
    if text.len() == 0 {
        assert(longer.drop_first() =~= Seq::<char>::empty());
        assert(encode_utf8(longer.drop_first()).len() == 0);
        assert(encode_scalar(c as u32).len() == utf8_width(c));
    } else {
        assert(longer.drop_first() =~= text.drop_first().push(c));
        assert(longer[0] == text[0]);
        lemma_encode_push(text.drop_first(), c);
    }
}

proof fn lemma_encode_prefix(text: Seq<char>, shorter: int, longer: int)
    requires
        0 <= shorter <= longer <= text.len(),
    ensures
        encode_utf8(text.take(shorter)).len() <= encode_utf8(text.take(longer)).len(),
    decreases longer - shorter,
{
    if shorter < longer {
        lemma_encode_prefix(text, shorter, longer - 1);
        assert(text.take(longer) =~= text.take(longer - 1).push(text[longer - 1]));
        lemma_encode_push(text.take(longer - 1), text[longer - 1]);
    }
}

/// Converts a character index into the byte offset at which that character
/// starts in the text. The text's UTF-8 form must not be longer than an
/// offset can say, which holds of every text in memory.
pub fn char_index_to_byte_index(s: &str, char_index: usize) -> (byte_index: usize)
    requires
        encode_utf8(s@).len() <= usize::MAX,
    ensures
        byte_index == byte_index_of(s@, char_index),
{
    let len = s.unicode_len();
    let stop = if char_index <= len {
        char_index
    } else {
        len
    };
    let mut bytes: usize = 0;
    let mut i: usize = 0;
    proof {
        assert(s@.take(len as int) =~= s@);
        assert(encode_utf8(s@.take(0)).len() == 0);
    }
    while i < stop
        invariant
            i <= stop <= len,
            len == s@.len(),
            bytes == encode_utf8(s@.take(i as int)).len(),
            encode_utf8(s@.take(len as int)).len() <= usize::MAX,
        decreases stop - i,
    {
        let c = s.get_char(i);
        proof {
            assert(s@.take(i as int + 1) =~= s@.take(i as int).push(c));
            lemma_encode_push(s@.take(i as int), c);
            lemma_encode_prefix(s@, i as int + 1, len as int);
        }
        let code = c as u32;
        let width: usize = if code < 0x80 {
            1
        } else if code < 0x800 {
            2
        } else if code < 0x10000 {
            3
        } else {
            4
        };
        bytes = bytes + width;
        i += 1;
    }
    bytes
}

/// Byte offsets grow with the character index, and the offset of the end is
/// the length of the whole.
pub proof fn lemma_byte_index_monotonic(text: Seq<char>, earlier: usize, later: usize)
    requires
        earlier <= later,
    ensures
        byte_index_of(text, earlier) <= byte_index_of(text, later),
        later >= text.len() ==> byte_index_of(text, later) == encode_utf8(text).len(),
{
    lemma_encode_prefix(text, clamp_index(text, earlier), clamp_index(text, later));
    if later >= text.len() {
        assert(text.take(text.len() as int) =~= text);
    }
}

} // verus!
