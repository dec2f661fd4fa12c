use stonks::quotes::{aggregate, plan_quotes, requested_symbol, QuoteError};

fn strings(items: &[&str]) -> Vec<String> {
    items.iter().map(|s| s.to_string()).collect()
}

#[test]
fn argument_loses_leading_markers_and_is_upper_cased() {
    assert_eq!(requested_symbol("$aapl"), "AAPL".to_string());
    assert_eq!(requested_symbol("$$tsla"), "TSLA".to_string());
    assert_eq!(requested_symbol("g$e"), "G$E".to_string());
    assert_eq!(requested_symbol("$"), "".to_string());
}

#[test]
fn empty_request_finds_no_symbols() {
    let universe = strings(&["AAPL"]);
    assert_eq!(plan_quotes(&Vec::new(), Some(&universe)), Err(QuoteError::NoSymbolsFound));
    assert_eq!(plan_quotes(&Vec::new(), None), Err(QuoteError::NoSymbolsFound));
}

#[test]
fn missing_universe_fails_the_request() {
    assert_eq!(
        plan_quotes(&strings(&["AAPL"]), None),
        Err(QuoteError::UniverseUnavailable)
    );
}

#[test]
fn partial_failure_aggregation() {
    let universe = strings(&["AAPL", "TSLA"]);
    let requested = strings(&["AAPL", "TSLA", "FAKE"]);
    let fetch = plan_quotes(&requested, Some(&universe)).unwrap();
    assert_eq!(fetch, vec![true, true, false]);
    let outcomes: Vec<Option<&str>> = vec![Some("AAPL-quote"), None, None];
    let result = aggregate(&requested, &fetch, outcomes);
    assert_eq!(result.quotes, vec![("AAPL".to_string(), "AAPL-quote")]);
    assert_eq!(result.errors, strings(&["TSLA", "FAKE"]));
}

#[test]
fn no_symbol_is_both_quoted_and_in_error() {
    let universe = strings(&["A", "B", "C"]);
    let requested = strings(&["A", "B", "C", "D"]);
    let fetch = plan_quotes(&requested, Some(&universe)).unwrap();
    let outcomes: Vec<Option<u32>> = vec![Some(1), None, Some(3), Some(4)];
    let result = aggregate(&requested, &fetch, outcomes);
    let quoted: Vec<String> = result.quotes.iter().map(|q| q.0.clone()).collect();
    assert_eq!(quoted, strings(&["A", "C"]));
    assert_eq!(result.errors, strings(&["B", "D"]));
    for s in requested.iter() {
        assert!(quoted.contains(s) != result.errors.contains(s));
    }
}

#[test]
fn outcome_for_unrecognised_symbol_is_ignored() {
    let requested = strings(&["X"]);
    let result = aggregate(&requested, &vec![false], vec![Some(5u8)]);
    assert!(result.quotes.is_empty());
    assert_eq!(result.errors, strings(&["X"]));
}
