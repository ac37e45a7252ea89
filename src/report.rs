//! Assembly of the report line, and the whole pipeline from raw input to it.

use vstd::prelude::*;
use vstd::string::StringExecFns;
use vstd::utf8::decode_utf8;
use vstd::utf8::valid_utf8;
use crate::count::count_bytes;
use crate::count::count_file_chars;
use crate::count::count_file_lines;
use crate::count::count_file_words;
use crate::count::line_count;
use crate::count::word_count;
use crate::mode::ModeSet;

verus! {

/// The four counts of one input.
#[derive(Clone, Copy, Debug, PartialEq, Eq, Structural)]
pub struct Counts {
    pub lines: usize,
    pub words: usize,
    pub chars: usize,
    pub bytes: usize,
}

/// Why a report could not be made.
#[derive(Clone, Copy, Debug, PartialEq, Eq, Structural)]
pub enum CountError {
    /// The input bytes are not valid UTF-8.
    InvalidEncoding,
}

/// The ASCII digit for `d`, for `d < 10`.
pub open spec fn digit_char(d: nat) -> char {
    ((d + 48) as u8) as char
}

/// The decimal notation of `n`, without leading zeros.
pub open spec fn decimal(n: nat) -> Seq<char>
    decreases n,
{
    if n < 10 {
        seq![digit_char(n)]
    } else {
        decimal(n / 10).push(digit_char(n % 10))
    }
}

/// The tokens joined by single spaces.
pub open spec fn join_spaced(tokens: Seq<Seq<char>>) -> Seq<char>
    decreases tokens.len(),
{
    if tokens.len() == 0 {
        Seq::empty()
    } else if tokens.len() == 1 {
        tokens[0]
    } else {
        join_spaced(tokens.drop_last()) + seq![' '] + tokens.last()
    }
}

/// `seq![t]` when `on`, else nothing.
pub open spec fn token_if(on: bool, t: Seq<char>) -> Seq<Seq<char>> {
    if on {
        seq![t]
    } else {
        Seq::empty()
    }
}

/// The name of the source as text, when the source is a named file.
pub open spec fn name_view(name: Option<&str>) -> Option<Seq<char>> {
    match name {
        Some(s) => Some(s@),
        None => None,
    }
}

/// The tokens of a report: the enabled counts in the order lines, words,
/// characters, bytes, then the source's name when there is one.
pub open spec fn report_tokens(c: Counts, m: ModeSet, name: Option<Seq<char>>) -> Seq<Seq<char>> {
    token_if(m.lines, decimal(c.lines as nat)) + token_if(m.words, decimal(c.words as nat))
        + token_if(m.chars, decimal(c.chars as nat)) + token_if(m.bytes, decimal(c.bytes as nat))
        + match name {
        Some(n) => seq![n],
        None => Seq::empty(),
    }
}

/// The report line: its tokens joined by single spaces, then a newline.
pub open spec fn report_line(c: Counts, m: ModeSet, name: Option<Seq<char>>) -> Seq<char> {
    join_spaced(report_tokens(c, m, name)).push('\n')
}

/// The counts of raw input that is valid UTF-8: lines, words and characters
/// of the decoded text, bytes of the input itself.
pub open spec fn counts_of(raw: Seq<u8>) -> Counts {
    Counts {
        lines: line_count(decode_utf8(raw)) as usize,
        words: word_count(decode_utf8(raw)) as usize,
        chars: decode_utf8(raw).len() as usize,
        bytes: raw.len() as usize,
    }
}

/// Relies on `String::push`: appends one character.
#[verifier::external_body]
fn push_char(out: &mut String, c: char)
    ensures
        final(out)@ == old(out)@.push(c),
{
    out.push(c);
}

/// Relies on `std::str::from_utf8`: succeeds exactly on valid UTF-8, and the
/// text then holds the characters that the bytes encode.
#[verifier::external_body]
fn decode(raw: &[u8]) -> (r: Option<&str>)
    ensures
        r is Some <==> valid_utf8(raw@),
        r matches Some(s) ==> s@ == decode_utf8(raw@),
{
    std::str::from_utf8(raw).ok()
}

/// Appends the decimal notation of `n`.
fn push_decimal(out: &mut String, n: usize)
    ensures
        final(out)@ == old(out)@ + decimal(n as nat),
    decreases n,
{
    if n >= 10 {
        push_decimal(out, n / 10);
    }
    push_char(out, ((n % 10) as u8 + 48u8) as char);
    proof {
        if n >= 10 {
            assert(old(out)@ + decimal(n as nat) == old(out)@ + decimal((n / 10) as nat) + seq![
                digit_char((n % 10) as nat),
            ]);
        }
    }
}

/// Joining one more token adds a space (unless it is the first) and the token.
proof fn lemma_join_push(tokens: Seq<Seq<char>>, t: Seq<char>)
    ensures
        join_spaced(tokens.push(t)) == if tokens.len() == 0 {
            t
        } else {
            join_spaced(tokens) + seq![' '] + t
        },
{
    assert(tokens.push(t).drop_last() == tokens);
    if tokens.len() == 0 {
        assert(tokens.push(t)[0] == t);
    }
}

/// Appends a separating space unless nothing has been joined yet.
fn push_separator(out: &mut String, first: bool)
    ensures
        final(out)@ == if first {
            old(out)@
        } else {
            old(out)@.push(' ')
        },
{
    if !first {
        push_char(out, ' ');
    }
}

/// Appends the count `n` as the next token of a report.
fn push_count(out: &mut String, first: bool, n: usize, Ghost(tokens): Ghost<Seq<Seq<char>>>)
    requires
        old(out)@ == join_spaced(tokens),
        first == (tokens.len() == 0),
    ensures
        final(out)@ == join_spaced(tokens.push(decimal(n as nat))),
{
    proof {
        lemma_join_push(tokens, decimal(n as nat));
    }
    push_separator(out, first);
    push_decimal(out, n);
}

/// The report line for `counts`, holding the counts that `modes` enables in
/// the order lines, words, characters, bytes, then `name` when given; tokens
/// are separated by single spaces and the line ends with one newline.
pub fn format_report(counts: &Counts, modes: &ModeSet, name: Option<&str>) -> (r: String)
    ensures
        r@ == report_line(*counts, *modes, name_view(name)),
{
    let mut out = String::new();
    let ghost mut tokens: Seq<Seq<char>> = Seq::empty();
    let mut first = true;
    if modes.lines {
        push_count(&mut out, first, counts.lines, Ghost(tokens));
        proof {
            tokens = tokens.push(decimal(counts.lines as nat));
        }
        first = false;
    }
    if modes.words {
        push_count(&mut out, first, counts.words, Ghost(tokens));
        proof {
            tokens = tokens.push(decimal(counts.words as nat));
        }
        first = false;
    }
    if modes.chars {
        push_count(&mut out, first, counts.chars, Ghost(tokens));
        proof {
            tokens = tokens.push(decimal(counts.chars as nat));
        }
        first = false;
    }
    if modes.bytes {
        push_count(&mut out, first, counts.bytes, Ghost(tokens));
        proof {
            tokens = tokens.push(decimal(counts.bytes as nat));
        }
        first = false;
    }
    if let Some(n) = name {
        proof {
            lemma_join_push(tokens, n@);
        }
        push_separator(&mut out, first);
        out.append(n);
        proof {
            tokens = tokens.push(n@);
        }
    }
    push_char(&mut out, '\n');
    proof {
        assert(tokens =~= report_tokens(*counts, *modes, name_view(name)));
    }
    out
}

/// Decodes `raw` and reports the counts that `flags` resolves to, followed by
/// `name` when the input came from a named file. The whole input is decoded
/// first, so invalid UTF-8 is an error whichever counts are asked for.
pub fn count_report(raw: &[u8], flags: ModeSet, name: Option<&str>) -> (r: Result<
    String,
    CountError,
>)
    ensures
        r is Ok <==> valid_utf8(raw@),
        r matches Ok(s) ==> s@ == report_line(counts_of(raw@), flags.effective(), name_view(name)),
        r matches Err(e) ==> e == CountError::InvalidEncoding,
{
    let text = match decode(raw) {
        Some(t) => t,
        None => {
            return Err(CountError::InvalidEncoding);
        },
    };
    let counts = Counts {
        lines: count_file_lines(text),
        words: count_file_words(text),
        chars: count_file_chars(text),
        bytes: count_bytes(raw),
    };
    let modes = flags.resolve();
    Ok(format_report(&counts, &modes, name))
}

} // verus!
