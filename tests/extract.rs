use std::collections::HashSet;
use stonks::extract::{_extract_stocks, select_symbols};

fn set_of(items: &[&str]) -> HashSet<String> {
    items.iter().map(|s| s.to_string()).collect()
}

fn run(tickers: &[&str], content: &str) -> HashSet<String> {
    let symbols: Vec<String> = tickers.iter().map(|s| s.to_string()).collect();
    let found = _extract_stocks(&symbols, content);
    let unique: HashSet<String> = found.iter().cloned().collect();
    assert_eq!(unique.len(), found.len());
    unique
}

const TICKERS: &[&str] = &["AAPL", "TSLA"];

#[test]
fn tagged() {
    assert_eq!(run(TICKERS, "$AAPL"), set_of(&["AAPL"]));
}

#[test]
fn tagged_multiple() {
    assert_eq!(run(TICKERS, "$AAPL $TSLA"), set_of(&["AAPL", "TSLA"]));
}

#[test]
fn tagged_one() {
    assert_eq!(run(TICKERS, "$AAPL TSLA"), set_of(&["AAPL"]));
}

#[test]
fn punctuation() {
    assert_eq!(run(TICKERS, "$AAPL,"), set_of(&["AAPL"]));
}

#[test]
fn punctuation_multiple() {
    assert_eq!(run(TICKERS, "$AAPL, $TSLA;"), set_of(&["AAPL", "TSLA"]));
}

#[test]
fn punctuation_one() {
    assert_eq!(run(TICKERS, "$AAPL, $TSLA"), set_of(&["AAPL", "TSLA"]));
}

#[test]
fn sentance() {
    assert_eq!(run(TICKERS, "Just got my new aapl 5."), set_of(&["AAPL"]));
}

#[test]
fn sentance_punctuation() {
    assert_eq!(run(TICKERS, "What do you think about aapl?"), set_of(&["AAPL"]));
}

#[test]
fn sentance_multiple() {
    assert_eq!(run(TICKERS, "TSLA or aapl?"), set_of(&["AAPL", "TSLA"]));
}

#[test]
fn sentance_tagged() {
    assert_eq!(run(TICKERS, "Just got my new $aapl 5."), set_of(&["AAPL"]));
}

#[test]
fn sentance_tagged_punctuation() {
    assert_eq!(run(TICKERS, "What do you think about $aapl?"), set_of(&["AAPL"]));
}

#[test]
fn sentance_tagged_multiple() {
    assert_eq!(run(TICKERS, "$TSLA or $aapl?"), set_of(&["AAPL", "TSLA"]));
}

#[test]
fn sentance_tagged_one() {
    assert_eq!(run(TICKERS, "TSLA or $aapl?"), set_of(&["AAPL"]));
}

#[test]
fn single_letter_alone_is_kept() {
    assert_eq!(run(&["A"], "a cat sat"), set_of(&["A"]));
}

#[test]
fn single_letter_dropped_beside_longer_match() {
    assert_eq!(run(&["A", "AAPL"], "a aapl"), set_of(&["AAPL"]));
}

#[test]
fn single_letter_tag_is_kept_beside_longer_tag() {
    assert_eq!(run(&["A", "AAPL"], "$a $aapl"), set_of(&["A", "AAPL"]));
}

#[test]
fn empty_text_finds_nothing() {
    assert_eq!(run(TICKERS, ""), set_of(&[]));
    assert_eq!(run(TICKERS, "   \t\n "), set_of(&[]));
}

#[test]
fn no_known_symbols_finds_nothing() {
    assert_eq!(run(&[], "$AAPL aapl"), set_of(&[]));
}

#[test]
fn bare_marker_suppresses_plain_words() {
    assert_eq!(run(TICKERS, "$ aapl"), set_of(&[]));
}

#[test]
fn unicode_white_space_separates_words() {
    assert_eq!(run(TICKERS, "aapl\u{3000}tsla"), set_of(&["AAPL", "TSLA"]));
}

#[test]
fn upper_case_expansion_counts() {
    // The upper case of the sharp s is "SS".
    assert_eq!(run(&["SS"], "\u{df}"), set_of(&["SS"]));
}

#[test]
fn duplicate_symbols_come_once() {
    let symbols: Vec<String> = vec!["AAPL".to_string(), "AAPL".to_string()];
    assert_eq!(_extract_stocks(&symbols, "aapl $aapl"), vec!["AAPL".to_string()]);
}

#[test]
fn select_prefers_tags() {
    let symbols: Vec<String> = vec!["AAPL".to_string(), "TSLA".to_string()];
    let tagged = vec!["TSLA".chars().collect::<Vec<char>>()];
    let plain = vec!["AAPL".chars().collect::<Vec<char>>()];
    assert_eq!(select_symbols(&symbols, &tagged, &plain), vec!["TSLA".to_string()]);
}

#[test]
fn select_keeps_only_longer_plain_matches() {
    let symbols: Vec<String> = vec!["A".to_string(), "F".to_string(), "GE".to_string()];
    let plain: Vec<Vec<char>> = vec![vec!['A'], vec!['G', 'E'], vec!['F']];
    assert_eq!(select_symbols(&symbols, &Vec::new(), &plain), vec!["GE".to_string()]);
}

#[test]
fn select_keeps_all_one_letter_matches() {
    let symbols: Vec<String> = vec!["A".to_string(), "F".to_string(), "GE".to_string()];
    let plain: Vec<Vec<char>> = vec![vec!['F'], vec!['A']];
    assert_eq!(
        select_symbols(&symbols, &Vec::new(), &plain),
        vec!["A".to_string(), "F".to_string()]
    );
}
