use concurrency::metrics::same_text;
use concurrency::{AmapMetrics, MetricsError};

#[test]
fn counters_start_at_zero() {
    let m = AmapMetrics::new(&["req.page.1", "call.thread.worker.1"]);
    assert_eq!(m.to_string(), "req.page.1: 0\ncall.thread.worker.1: 0\n");
}

#[test]
fn inc_counts_on_the_named_counter() {
    let m = AmapMetrics::new(&["a", "b", "c"]);
    assert_eq!(m.inc("b"), Ok(()));
    assert_eq!(m.inc("b"), Ok(()));
    assert_eq!(m.inc("c"), Ok(()));
    assert_eq!(m.to_string(), "a: 0\nb: 2\nc: 1\n");
}

#[test]
fn inc_refuses_an_unknown_key() {
    let m = AmapMetrics::new(&["a", "b"]);
    assert_eq!(m.inc("ab"), Err(MetricsError::UnknownKey));
    assert_eq!(m.inc(""), Err(MetricsError::UnknownKey));
    assert_eq!(m.inc("A"), Err(MetricsError::UnknownKey));
    assert_eq!(m.to_string(), "a: 0\nb: 0\n");
}

#[test]
fn a_name_given_twice_has_one_counter() {
    let m = AmapMetrics::new(&["x", "y", "x"]);
    assert_eq!(m.inc("x"), Ok(()));
    assert_eq!(m.to_string(), "x: 1\ny: 0\n");
}

#[test]
fn clones_share_their_counters() {
    let m = AmapMetrics::new(&["hits"]);
    let other = m.clone();
    assert_eq!(other.inc("hits"), Ok(()));
    assert_eq!(m.inc("hits"), Ok(()));
    assert_eq!(m.to_string(), "hits: 2\n");
    assert_eq!(other.to_string(), "hits: 2\n");
}

#[test]
fn no_names_give_no_lines() {
    let m = AmapMetrics::new(&[]);
    assert_eq!(m.to_string(), "");
    assert_eq!(m.inc("a"), Err(MetricsError::UnknownKey));
}

#[test]
fn same_text_compares_whole_strings() {
    assert!(same_text("", ""));
    assert!(same_text("req.page.1", "req.page.1"));
    assert!(!same_text("req.page.1", "req.page.2"));
    assert!(!same_text("req", "req.page"));
    assert!(same_text("h\u{e9}", "h\u{e9}"));
    assert!(!same_text("h\u{e9}", "he"));
}
