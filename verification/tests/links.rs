use ctc_tracker::model::extract_links_from_description;
use ctc_tracker::model::word_is_puzzle_link;
use ctc_tracker::text::chars_of;
use ctc_tracker::text::split_words;
use ctc_tracker::text::string_of;

fn links(description: &str) -> Vec<String> {
    extract_links_from_description(description)
}

fn words(text: &str) -> Vec<String> {
    split_words(&chars_of(text)).iter().map(string_of).collect()
}

#[test]
fn extracts_single_link_between_words() {
    assert_eq!(
        links("solve: https://sudokupad.app/abc123 enjoy!"),
        vec!["https://sudokupad.app/abc123".to_string()]
    );
}

#[test]
fn no_links_in_plain_text() {
    assert!(links("no links here").is_empty());
}

#[test]
fn empty_description_has_no_links() {
    assert!(links("").is_empty());
    assert!(links("   \n\t ").is_empty());
}

#[test]
fn all_three_hosts_are_recognised_in_order() {
    let description = "a https://crackingthecryptic.com/x b\nhttp://cracking-the-cryptic.web.app/y\tc https://app.sudokupad.app/z";
    assert_eq!(
        links(description),
        vec![
            "https://crackingthecryptic.com/x".to_string(),
            "http://cracking-the-cryptic.web.app/y".to_string(),
            "https://app.sudokupad.app/z".to_string(),
        ]
    );
}

#[test]
fn links_to_other_hosts_are_dropped() {
    assert!(links("see https://www.youtube.com/watch?v=1 and https://example.com").is_empty());
}

#[test]
fn host_without_http_prefix_is_dropped() {
    assert!(links("sudokupad.app/abc ftp://sudokupad.app/abc (https://sudokupad.app/abc)").is_empty());
}

#[test]
fn prefix_test_is_case_sensitive() {
    assert!(links("HTTPS://sudokupad.app/abc Https://sudokupad.app/abc").is_empty());
}

#[test]
fn a_link_keeps_trailing_punctuation_of_its_word() {
    assert_eq!(
        links("Puzzle: https://sudokupad.app/abc, thanks"),
        vec!["https://sudokupad.app/abc,".to_string()]
    );
}

#[test]
fn repeated_links_are_all_kept() {
    assert_eq!(
        links("https://sudokupad.app/a https://sudokupad.app/a"),
        vec!["https://sudokupad.app/a".to_string(), "https://sudokupad.app/a".to_string()]
    );
}

#[test]
fn extraction_agrees_with_std_on_a_mixed_text() {
    let description = "  Today's puzzle:\r\n\thttps://sudokupad.app/fpuzzles\u{a0}https://crackingthecryptic.com/#apps \u{2003}httpsudokupad.app http://x.y  ";
    let expected: Vec<String> = description
        .split_whitespace()
        .filter(|word| {
            word.starts_with("http")
                && (word.contains("sudokupad.app")
                    || word.contains("crackingthecryptic.com")
                    || word.contains("cracking-the-cryptic.web.app"))
        })
        .map(|word| word.to_string())
        .collect();
    assert_eq!(expected.len(), 3);
    assert_eq!(links(description), expected);
}

#[test]
fn extraction_gives_the_same_links_each_time() {
    let description = "x https://sudokupad.app/1 y https://sudokupad.app/2";
    assert_eq!(links(description), links(description));
}

#[test]
fn words_are_the_runs_between_white_space() {
    assert_eq!(words(" ab  c\nd\t"), vec!["ab".to_string(), "c".to_string(), "d".to_string()]);
    assert!(words("").is_empty());
    assert!(words(" \n ").is_empty());
    assert_eq!(words("one"), vec!["one".to_string()]);
}

#[test]
fn words_split_on_unicode_white_space() {
    assert_eq!(words("a\u{a0}b\u{3000}c"), vec!["a".to_string(), "b".to_string(), "c".to_string()]);
    let text = "α β\u{2028}γδ  ε";
    let expected: Vec<String> = text.split_whitespace().map(|w| w.to_string()).collect();
    assert_eq!(words(text), expected);
}

#[test]
fn puzzle_link_needs_prefix_and_host() {
    assert!(word_is_puzzle_link(&chars_of("https://sudokupad.app/x")));
    assert!(word_is_puzzle_link(&chars_of("httpsudokupad.app")));
    assert!(!word_is_puzzle_link(&chars_of("http")));
    assert!(!word_is_puzzle_link(&chars_of("xhttps://sudokupad.app")));
    assert!(!word_is_puzzle_link(&chars_of("https://sudokupad.ap")));
    assert!(!word_is_puzzle_link(&chars_of("")));
}
