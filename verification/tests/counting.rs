use wordcount::count::{count_file, count_in_str, CountError};
use wordcount::record::FileInfo;
use wordcount::scan::{char_width, Scanner};

fn info(num_lines: usize, num_words: usize, num_bytes: usize, num_chars: usize) -> FileInfo {
    FileInfo { num_lines, num_words, num_bytes, num_chars }
}

#[test]
fn empty_file_counts_nothing() {
    assert_eq!(count_file(b""), Ok(info(0, 0, 0, 0)));
}

#[test]
fn one_line_of_three_words() {
    assert_eq!(count_file(b"a b c\n"), Ok(info(1, 3, 6, 6)));
}

#[test]
fn blob_adds_a_line_feed_to_every_segment() {
    assert_eq!(count_in_str("hello world\n"), info(2, 2, 13, 13));
}

#[test]
fn blob_of_nothing_is_one_empty_segment() {
    assert_eq!(count_in_str(""), info(1, 0, 1, 1));
}

#[test]
fn blob_without_final_line_feed() {
    assert_eq!(count_in_str("hello world"), info(1, 2, 12, 12));
    assert_eq!(count_in_str("a\nb c\nd"), info(3, 4, 8, 8));
}

#[test]
fn unterminated_last_line_is_a_line() {
    assert_eq!(count_file(b"a\nb"), Ok(info(2, 2, 3, 3)));
    assert_eq!(count_file(b"a\nb\n"), Ok(info(2, 2, 4, 4)));
    assert_eq!(count_file(b"\n\n"), Ok(info(2, 0, 2, 2)));
}

#[test]
fn words_are_split_on_single_spaces_only() {
    assert_eq!(count_file(b"a\tb c\n"), Ok(info(1, 2, 6, 6)));
    assert_eq!(count_file(b"a  b\n"), Ok(info(1, 2, 5, 5)));
    assert_eq!(count_file(b"   \n"), Ok(info(1, 0, 4, 4)));
    assert_eq!(count_file(b" a "), Ok(info(1, 1, 3, 3)));
}

#[test]
fn a_piece_of_white_space_is_no_word() {
    assert_eq!(count_file(b"a \t b\n"), Ok(info(1, 2, 6, 6)));
    assert_eq!(count_in_str("a \t b"), info(1, 2, 6, 6));
    assert_eq!(count_in_str("\t \u{a0} \u{3000}"), info(1, 0, 9, 6));
    assert_eq!(count_in_str("\u{a0}x"), info(1, 1, 4, 3));
}

#[test]
fn characters_and_bytes_differ_beyond_ascii() {
    let text = "h\u{e9}llo w\u{f6}rld \u{20ac} \u{1f600}\n";
    assert_eq!(count_file(text.as_bytes()), Ok(info(1, 4, 23, 16)));
    assert_eq!(count_in_str(text), info(2, 4, 24, 17));
}

#[test]
fn invalid_text_is_an_encoding_error() {
    assert_eq!(count_file(&[0xff]), Err(CountError::Encoding));
    assert_eq!(count_file(&[b'a', b'\n', 0xc3]), Err(CountError::Encoding));
    assert_eq!(count_file(&[0xed, 0xa0, 0x80]), Err(CountError::Encoding));
}

#[test]
fn char_width_is_the_encoded_length() {
    for c in ['a', '\n', '\u{7f}', '\u{80}', '\u{7ff}', '\u{800}', '\u{ffff}', '\u{10000}', '\u{10ffff}'] {
        assert_eq!(char_width(c), c.len_utf8());
    }
}

#[test]
fn scanner_takes_characters_one_by_one() {
    let mut scanner = Scanner::new(false);
    assert_eq!(scanner.finish(), info(0, 0, 0, 0));
    scanner.push('a', false);
    assert_eq!(scanner.finish(), info(1, 1, 1, 1));
    scanner.push(' ', true);
    assert_eq!(scanner.finish(), info(1, 1, 2, 2));
    scanner.push('\u{e9}', false);
    assert_eq!(scanner.finish(), info(1, 2, 4, 3));
    scanner.push('\n', true);
    assert_eq!(scanner.finish(), info(1, 2, 5, 4));
    scanner.push('\t', true);
    assert_eq!(scanner.finish(), info(2, 2, 6, 5));
}

#[test]
fn scanner_in_blob_mode() {
    let mut scanner = Scanner::new(true);
    assert_eq!(scanner.finish(), info(1, 0, 1, 1));
    scanner.push('a', false);
    scanner.push('\n', true);
    assert_eq!(scanner.finish(), info(2, 1, 3, 3));
}

#[test]
fn feeding_in_parts_is_feeding_the_whole() {
    let mut parts = Scanner::new(false);
    parts.feed("one tw");
    parts.feed("o\nthr");
    parts.feed("ee");
    let mut whole = Scanner::new(false);
    whole.feed("one two\nthree");
    assert_eq!(parts.finish(), whole.finish());
    assert_eq!(whole.finish(), info(2, 3, 13, 13));
}

#[test]
fn counts_never_shrink_as_the_text_grows() {
    let text = "one two\n three\tfour \u{e9}\n\nfive";
    let mut before = info(0, 0, 0, 0);
    let mut blob_before = info(0, 0, 0, 0);
    for (end, _) in text.char_indices().chain(std::iter::once((text.len(), ' '))) {
        let now = count_file(text[..end].as_bytes()).unwrap();
        assert!(now.num_lines >= before.num_lines);
        assert!(now.num_words >= before.num_words);
        assert!(now.num_bytes >= before.num_bytes);
        assert!(now.num_chars >= before.num_chars);
        before = now;
        let blob_now = count_in_str(&text[..end]);
        assert!(blob_now.num_lines >= blob_before.num_lines);
        assert!(blob_now.num_words >= blob_before.num_words);
        assert!(blob_now.num_bytes >= blob_before.num_bytes);
        assert!(blob_now.num_chars >= blob_before.num_chars);
        blob_before = blob_now;
    }
    assert_eq!(before, info(4, 5, 28, 27));
}

#[test]
fn add_assign_adds_field_by_field() {
    let mut total = FileInfo::new();
    assert_eq!(total, info(0, 0, 0, 0));
    total.add_assign(info(1, 3, 6, 5));
    total.add_assign(info(2, 2, 13, 12));
    assert_eq!(total, info(3, 5, 19, 17));
}

#[test]
fn total_is_the_same_in_any_order() {
    let records = [info(1, 3, 6, 6), info(2, 2, 13, 13), info(0, 0, 0, 0), info(7, 1, 9, 8)];
    let orders = [[0, 1, 2, 3], [3, 2, 1, 0], [1, 3, 0, 2], [2, 0, 3, 1]];
    for order in orders {
        let mut total = FileInfo::new();
        for i in order {
            total.add_assign(records[i]);
        }
        assert_eq!(total, info(10, 6, 28, 27));
    }
}

#[test]
fn try_add_assign_refuses_what_does_not_fit() {
    let mut total = info(1, 2, usize::MAX - 1, 4);
    assert!(!total.try_add_assign(info(1, 1, 2, 1)));
    assert_eq!(total, info(1, 2, usize::MAX - 1, 4));
    assert!(total.try_add_assign(info(1, 1, 1, 1)));
    assert_eq!(total, info(2, 3, usize::MAX, 5));
}
