use wordcount::count::count_bytes;
use wordcount::count::count_file_bytes;
use wordcount::count::count_file_chars;
use wordcount::count::count_file_lines;
use wordcount::count::count_file_words;

#[test]
fn count_file_bytes_returns_correct_value() {
    let result = count_file_bytes("This is some test input");
    assert_eq!(result, 23);
}

#[test]
fn count_file_lines_returns_correct_value_for_single_line() {
    let result = count_file_lines("This input is all on a single line");
    assert_eq!(result, 1);
}

#[test]
fn count_file_lines_returns_correct_value_for_multiple_lines() {
    let result = count_file_lines("This input is\nspread over\nmultiple\nlines");
    assert_eq!(result, 4);
}

#[test]
fn count_file_words_returns_correct_value_for_non_empty_input() {
    let result = count_file_words("Input containing multiple words");
    assert_eq!(result, 4);
}

#[test]
fn count_file_words_returns_correct_value_for_empty_input() {
    let result = count_file_words("");
    assert_eq!(result, 0);
}

#[test]
fn count_file_chars_returns_correct_value_for_empty_input() {
    let result = count_file_chars("Input containing many characters");
    assert_eq!(result, 32);
}

#[test]
fn lines_of_empty_single_multiple_and_trailing_terminator() {
    assert_eq!(count_file_lines(""), 0);
    assert_eq!(count_file_lines("abc"), 1);
    assert_eq!(count_file_lines("a\nb\nc"), 3);
    assert_eq!(count_file_lines("a\nb\n"), 2);
}

#[test]
fn lines_with_empty_lines_and_crlf() {
    assert_eq!(count_file_lines("\n"), 1);
    assert_eq!(count_file_lines("a\n\n"), 2);
    assert_eq!(count_file_lines("a\r\nb\r\n"), 2);
    assert_eq!(count_file_lines("a\r\nb"), 2);
}

#[test]
fn words_across_runs_of_whitespace_and_lines() {
    assert_eq!(count_file_words(""), 0);
    assert_eq!(count_file_words("  a   b  "), 2);
    assert_eq!(count_file_words("a\nb\nc"), 3);
    assert_eq!(count_file_words("a\tb\r\nc  \n\n d"), 4);
}

#[test]
fn words_split_on_unicode_whitespace() {
    assert_eq!(count_file_words("a\u{3000}b\u{00A0}c\u{2009}d"), 4);
    assert_eq!(count_file_words("\u{3000}"), 0);
    assert_eq!(count_file_words("caf\u{e9} na\u{ef}ve"), 2);
}

#[test]
fn chars_and_bytes_differ_on_multibyte_text() {
    assert_eq!(count_file_chars("h\u{e9}llo \u{4e16}"), 7);
    assert_eq!(count_file_bytes("h\u{e9}llo \u{4e16}"), 10);
    assert_eq!(count_file_chars(""), 0);
    assert_eq!(count_file_bytes(""), 0);
}

#[test]
fn raw_bytes_are_counted_whether_or_not_they_decode() {
    assert_eq!(count_bytes(b"abc"), 3);
    assert_eq!(count_bytes(&[0xff, 0xfe, b'a']), 3);
    assert_eq!(count_bytes(&[]), 0);
    assert_eq!(count_bytes("h\u{e9}".as_bytes()), count_file_bytes("h\u{e9}"));
}

#[test]
fn ascii_words_with_single_spaces_on_one_line() {
    let text = "ab cde f";
    assert_eq!(count_file_chars(text), 2 + 3 + 1 + (3 - 1));
    assert_eq!(count_file_words(text), 3);
    assert_eq!(count_file_lines(text), 1);
}
