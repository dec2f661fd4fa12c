use stonks::channels::LastSeenSymbols;

fn strings(items: &[&str]) -> Vec<String> {
    items.iter().map(|s| s.to_string()).collect()
}

#[test]
fn unknown_channel_has_nothing() {
    let seen = LastSeenSymbols::new();
    assert_eq!(seen.last(42), None);
}

#[test]
fn newer_record_replaces_older_one() {
    let mut seen = LastSeenSymbols::new();
    seen.record(1, strings(&["AAPL"]));
    seen.record(2, strings(&["TSLA", "GE"]));
    seen.record(1, strings(&["MSFT"]));
    assert_eq!(seen.last(1), Some(strings(&["MSFT"])));
    assert_eq!(seen.last(2), Some(strings(&["TSLA", "GE"])));
}

#[test]
fn empty_record_is_kept() {
    let mut seen = LastSeenSymbols::new();
    seen.record(7, strings(&["AAPL"]));
    seen.record(7, Vec::new());
    assert_eq!(seen.last(7), Some(Vec::new()));
}
