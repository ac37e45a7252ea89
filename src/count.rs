//! The four counting functions and the mathematical definitions they meet.

use vstd::prelude::*;
use vstd::string::StrSliceExecFns;
use vstd::string::StringSliceAdditionalSpecFns;
use vstd::utf8::decode_utf8;
use vstd::utf8::decode_utf8_encode_utf8;
use vstd::utf8::encode_utf8;
use vstd::utf8::valid_utf8;
use crate::report::join_spaced;

verus! {

/// The Unicode `White_Space` property: the characters that separate words.
pub open spec fn is_white_space(c: char) -> bool {
    let u = c as u32;
    (0x09 <= u && u <= 0x0D) || u == 0x20 || u == 0x85 || u == 0xA0 || u == 0x1680 || (0x2000
        <= u && u <= 0x200A) || u == 0x2028 || u == 0x2029 || u == 0x202F || u == 0x205F || u
        == 0x3000
}

/// Whether position `i` of `s` begins a word: a non-whitespace character at
/// the start of the text or right after whitespace.
pub open spec fn starts_word(s: Seq<char>, i: int) -> bool {
    &&& !is_white_space(s[i])
    &&& (i == 0 || is_white_space(s[i - 1]))
}

/// The number of maximal runs of non-whitespace characters in `s`.
pub open spec fn word_count(s: Seq<char>) -> nat
    decreases s.len(),
{
    if s.len() == 0 {
        0
    } else {
        word_count(s.drop_last()) + if starts_word(s, s.len() - 1) {
            1nat
        } else {
            0nat
        }
    }
}

/// The number of line terminators (`'\n'`) in `s`.
pub open spec fn newline_count(s: Seq<char>) -> nat
    decreases s.len(),
{
    if s.len() == 0 {
        0
    } else {
        newline_count(s.drop_last()) + if s.last() == '\n' {
            1nat
        } else {
            0nat
        }
    }
}

/// The number of line segments of `s`: one per terminator, plus one for a
/// final segment that has no terminator.
pub open spec fn line_count(s: Seq<char>) -> nat {
    newline_count(s) + if s.len() > 0 && s.last() != '\n' {
        1nat
    } else {
        0nat
    }
}

/// Relies on `char::is_whitespace`: true exactly for the characters with the
/// Unicode `White_Space` property.
#[verifier::external_body]
fn is_whitespace(c: char) -> (r: bool)
    ensures
        r == is_white_space(c),
{
    c.is_whitespace()
}

/// The number of bytes of raw input.
pub fn count_bytes(raw: &[u8]) -> (r: usize)
    ensures
        r == raw@.len(),
{
    raw.len()
}

/// The number of bytes of the UTF-8 encoding of `input`.
pub fn count_file_bytes(input: &str) -> (r: usize)
    ensures
        r == input.spec_bytes().len(),
{
    input.as_bytes().len()
}

/// The number of Unicode scalar values of `input`.
pub fn count_file_chars(input: &str) -> (r: usize)
    ensures
        r == input@.len(),
{
    input.unicode_len()
}

/// The number of lines of `input`; a final terminator opens no new line.
pub fn count_file_lines(input: &str) -> (r: usize)
    ensures
        r == line_count(input@),
{
    let n = input.unicode_len();
    let mut newlines: usize = 0;
    let mut last: Option<char> = None;
    for c in it: input.chars()
        invariant
            n == input@.len(),
            it.seq() == input@,
            newlines == newline_count(input@.take(it.index())),
            newlines <= it.index(),
            last is Some && last->0 != '\n' ==> newlines < it.index(),
            last == if it.index() == 0 {
                None::<char>
            } else {
                Some(input@[it.index() - 1])
            },
    {
        proof {
            assert(input@.take(it.index() + 1).drop_last() == input@.take(it.index()));
        }
        if c == '\n' {
            newlines = newlines + 1;
        }
        last = Some(c);
    }
    proof {
        assert(input@.take(input@.len() as int) == input@);
    }
    match last {
        Some(c) if c != '\n' => newlines + 1,
        _ => newlines,
    }
}

/// The number of whitespace-separated words of `input`, over all its lines.
pub fn count_file_words(input: &str) -> (r: usize)
    ensures
        r == word_count(input@),
{
    let n = input.unicode_len();
    let mut words: usize = 0;
    let mut prev_space = true;
    for c in it: input.chars()
        invariant
            n == input@.len(),
            it.seq() == input@,
            words == word_count(input@.take(it.index())),
            words <= it.index(),
            prev_space == (it.index() == 0 || is_white_space(input@[it.index() - 1])),
    {
        let space = is_whitespace(c);
        proof {
            let t = input@.take(it.index() + 1);
            assert(t.drop_last() == input@.take(it.index()));
            assert(starts_word(t, it.index() as int) == (!space && prev_space));
        }
        if !space && prev_space {
            words = words + 1;
        }
        prev_space = space;
    }
    proof {
        assert(input@.take(input@.len() as int) == input@);
    }
    words
}

/// An ASCII letter, `A` to `Z` or `a` to `z`.
pub open spec fn is_ascii_letter(c: char) -> bool {
    let u = c as u32;
    (65 <= u && u <= 90) || (97 <= u && u <= 122)
}

/// A non-empty run of ASCII letters.
pub open spec fn is_letter_word(w: Seq<char>) -> bool {
    &&& w.len() > 0
    &&& forall|j: int| 0 <= j < w.len() ==> is_ascii_letter(#[trigger] w[j])
}

/// The sum of the lengths of `words`.
pub open spec fn total_len(words: Seq<Seq<char>>) -> nat
    decreases words.len(),
{
    if words.len() == 0 {
        0
    } else {
        total_len(words.drop_last()) + words.last().len()
    }
}

/// Decoding valid input and encoding it again gives back the input, so the
/// byte count of the decoded text is the byte count of the raw input.
pub proof fn lemma_text_bytes_match_raw(raw: Seq<u8>)
    requires
        valid_utf8(raw),
    ensures
        encode_utf8(decode_utf8(raw)) == raw,
        encode_utf8(decode_utf8(raw)).len() == raw.len(),
{
    decode_utf8_encode_utf8(raw);
}

/// Words that follow whitespace (or nothing) add their own count.
proof fn lemma_word_count_append(a: Seq<char>, b: Seq<char>)
    requires
        a.len() == 0 || is_white_space(a.last()),
    ensures
        word_count(a + b) == word_count(a) + word_count(b),
    decreases b.len(),
{
    if b.len() == 0 {
        assert(a + b == a);
    } else {
        lemma_word_count_append(a, b.drop_last());
        assert((a + b).drop_last() == a + b.drop_last());
    }
}

/// Line terminators of a concatenation are those of its parts.
proof fn lemma_newline_count_append(a: Seq<char>, b: Seq<char>)
    ensures
        newline_count(a + b) == newline_count(a) + newline_count(b),
    decreases b.len(),
{
    if b.len() == 0 {
        assert(a + b == a);
    } else {
        lemma_newline_count_append(a, b.drop_last());
        assert((a + b).drop_last() == a + b.drop_last());
    }
}

/// A run of letters is one word and holds no line terminator.
proof fn lemma_letter_word(w: Seq<char>)
    requires
        is_letter_word(w),
    ensures
        word_count(w) == 1,
        newline_count(w) == 0,
    decreases w.len(),
{
    assert(is_ascii_letter(w[w.len() - 1]));
    assert(!is_white_space(w.last()));
    assert(w.last() != '\n');
    if w.len() > 1 {
        assert(is_ascii_letter(w[w.len() - 2]));
        assert(!is_white_space(w[w.len() - 2]));
        let v = w.drop_last();
        assert forall|j: int| 0 <= j < v.len() implies is_ascii_letter(#[trigger] v[j]) by {
            assert(is_ascii_letter(w[j]));
        }
        lemma_letter_word(v);
    } else {
        assert(word_count(w.drop_last()) == 0);
        assert(newline_count(w.drop_last()) == 0);
    }
}

/// On one line of ASCII words separated by single spaces, the character count
/// is the total length of the words plus one space between each two of them,
/// the word count is the number of words, and the line count is one.
pub proof fn lemma_ascii_single_line(words: Seq<Seq<char>>)
    requires
        words.len() > 0,
        forall|i: int| 0 <= i < words.len() ==> is_letter_word(#[trigger] words[i]),
    ensures
        join_spaced(words).len() == total_len(words) + words.len() - 1,
        word_count(join_spaced(words)) == words.len(),
        line_count(join_spaced(words)) == 1,
    decreases words.len(),
{
    let w = words.last();
    assert(is_letter_word(words[words.len() - 1]));
    lemma_letter_word(w);
    assert(is_ascii_letter(w[w.len() - 1]));
    if words.len() == 1 {
        assert(total_len(words.drop_last()) == 0);
    } else {
        let rest = words.drop_last();
        assert forall|i: int| 0 <= i < rest.len() implies is_letter_word(#[trigger] rest[i]) by {
            assert(is_letter_word(words[i]));
        }
        lemma_ascii_single_line(rest);
        let head = join_spaced(rest) + seq![' '];
        assert(head.drop_last() == join_spaced(rest));
        assert(join_spaced(words) == head + w);
        lemma_word_count_append(head, w);
        lemma_newline_count_append(head, w);
        assert((head + w).last() == w.last());
    }
}

} // verus!
