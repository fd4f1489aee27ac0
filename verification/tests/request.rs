use awstail::request::{create_filter_from_timestamp, create_filter_request, PAGE_SIZE};
use awstail::span::{Instant, Span};

#[test]
fn fresh_request_starts_at_the_window_and_has_no_token() {
    let group = String::from("/aws/lambda/Pepe");
    let now = Instant::new(1_600_000_000, 500_000_000).unwrap();
    let lookback = Span::from_secs(300);
    let req = create_filter_request(&group, &now, &lookback, Some(String::from("ERROR")));
    assert_eq!(req.log_group, "/aws/lambda/Pepe");
    assert_eq!(req.start_time, Some(1_599_999_700_500));
    assert_eq!(req.continuation_token, None);
    assert_eq!(req.filter_pattern.as_deref(), Some("ERROR"));
    assert_eq!(req.page_size, 100);
    assert_eq!(PAGE_SIZE, 100);
}

#[test]
fn resumed_request_carries_what_it_is_given() {
    let group = String::from("g");
    let req = create_filter_from_timestamp(&group, Some(42), None, Some(String::from("tok")));
    assert_eq!(req.log_group, "g");
    assert_eq!(req.start_time, Some(42));
    assert_eq!(req.continuation_token.as_deref(), Some("tok"));
    assert_eq!(req.filter_pattern, None);
    assert_eq!(req.page_size, 100);

    let req = create_filter_from_timestamp(&group, None, Some(String::from("p")), None);
    assert_eq!(req.start_time, None);
    assert_eq!(req.continuation_token, None);
    assert_eq!(req.filter_pattern.as_deref(), Some("p"));
    assert_eq!(req.page_size, 100);
}
