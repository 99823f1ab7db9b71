use wordcount::plan::{
    blob_label, display_name, failure_message, is_stdin, lone_stdin, total_line, TotalWhen,
};
use wordcount::record::FileInfo;
use wordcount::render::{append_decimal, display, Selection};

fn record() -> FileInfo {
    FileInfo { num_lines: 1, num_words: 3, num_bytes: 7, num_chars: 6 }
}

fn only(lines: bool, words: bool, bytes: bool, chars: bool) -> Selection {
    Selection { lines, words, bytes, chars }
}

#[test]
fn display_shows_all_counts_in_fixed_order() {
    let all = only(true, true, true, true);
    assert_eq!(display("foo.txt", &record(), &all), "foo.txt = 1 lines 3 words 6 chars 7 bytes");
}

#[test]
fn display_shows_only_the_words() {
    let words = only(false, true, false, false);
    assert_eq!(display("foo.txt", &record(), &words), "foo.txt = 3 words");
    assert_eq!(total_line(&TotalWhen::Always, &record(), &words), Some(String::from("Total = 3 words")));
}

#[test]
fn display_of_an_empty_selection_has_no_count() {
    assert_eq!(display("x", &record(), &only(false, false, false, false)), "x =");
}

#[test]
fn display_of_lines_and_bytes() {
    let info = FileInfo { num_lines: 120, num_words: 0, num_bytes: 10045, num_chars: 9 };
    assert_eq!(display("", &info, &only(true, false, true, false)), " = 120 lines 10045 bytes");
    assert_eq!(display("a b", &info, &only(false, true, false, true)), "a b = 0 words 9 chars");
}

#[test]
fn decimal_numerals() {
    for n in [0usize, 1, 9, 10, 11, 99, 100, 101, 12345, 1000000, usize::MAX] {
        let mut out = String::from("n=");
        append_decimal(&mut out, n);
        assert_eq!(out, format!("n={}", n));
    }
}

#[test]
fn no_selection_means_all_counts() {
    assert_eq!(only(false, false, false, false).or_all(), only(true, true, true, true));
    assert_eq!(only(false, true, false, false).or_all(), only(false, true, false, false));
    assert_eq!(only(true, false, false, true).or_all(), only(true, false, false, true));
}

#[test]
fn total_policy() {
    assert!(TotalWhen::Always.shows_total());
    assert!(!TotalWhen::Never.shows_total());
    assert_eq!(TotalWhen::default(), TotalWhen::Always);
    let all = only(true, true, true, true);
    assert_eq!(total_line(&TotalWhen::Never, &record(), &all), None);
    assert_eq!(
        total_line(&TotalWhen::Always, &FileInfo::new(), &all),
        Some(String::from("Total = 0 lines 0 words 0 chars 0 bytes"))
    );
}

#[test]
fn the_stdin_token() {
    assert!(is_stdin("-"));
    assert!(!is_stdin(""));
    assert!(!is_stdin("--"));
    assert!(!is_stdin("a"));
    assert!(!is_stdin("\u{2212}"));
    assert_eq!(display_name("-"), "stdin");
    assert_eq!(display_name("notes.txt"), "notes.txt");
    assert_eq!(blob_label(), "stdin (keyboard input)");
}

#[test]
fn only_a_lone_stdin_is_a_blob() {
    assert!(lone_stdin(&vec![String::from("-")]));
    assert!(!lone_stdin(&vec![]));
    assert!(!lone_stdin(&vec![String::from("a")]));
    assert!(!lone_stdin(&vec![String::from("-"), String::from("-")]));
    assert!(!lone_stdin(&vec![String::from("-"), String::from("a")]));
}

#[test]
fn failure_message_names_the_file() {
    assert_eq!(failure_message("gone.txt", "No such file"), "gone.txt: No such file");
}
