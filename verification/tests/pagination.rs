use vapor::pagination::{
    apply_limit, continuation_after_last, marker_if_truncated, non_empty_token, LimitEnforcement,
    PagePolicy, PageSizing, Pager,
};

fn s(v: &str) -> String {
    v.to_string()
}

fn names(v: &[&str]) -> Vec<String> {
    v.iter().map(|x| x.to_string()).collect()
}

#[test]
fn clamped_request_below_floor_asks_for_twenty_and_truncates_keeping_marker() {
    // limit 2 is below the [20, 100] MaxRecords floor: the request asks for 20,
    // the result is cut to 2 and AWS's marker is handed back.
    let mut p: Pager<String> = Pager::new(Some(2), None, PagePolicy::clamped_records());
    let req = p.next_request();
    assert_eq!(req.page_size, Some(20));
    assert_eq!(req.token, None);
    p.receive(names(&["a", "b", "c"]), Some(s("page2")));
    assert!(p.is_finished());
    let (items, token) = p.finish();
    assert_eq!(items, names(&["a", "b"]));
    assert_eq!(token, Some(s("page2")));
}

#[test]
fn clamped_requests_page_through_until_exhausted() {
    let mut p: Pager<String> = Pager::new(Some(100), None, PagePolicy::clamped_records());
    assert_eq!(p.next_request().page_size, Some(100));
    p.receive(names(&["a"]), Some(s("p2")));
    assert!(!p.is_finished());
    let req = p.next_request();
    assert_eq!(req.page_size, Some(99));
    assert_eq!(req.token, Some(s("p2")));
    p.receive(names(&["b"]), None);
    assert!(p.is_finished());
    let (items, token) = p.finish();
    assert_eq!(items.len(), 2);
    assert_eq!(token, None);
}

#[test]
fn clamped_request_never_exceeds_ceiling() {
    let p: Pager<String> = Pager::new(Some(500), None, PagePolicy::clamped_records());
    assert_eq!(p.next_request().page_size, Some(100));
}

#[test]
fn listing_resumes_from_provided_token() {
    let mut p: Pager<String> = Pager::new(None, Some(s("cursor-a")), PagePolicy::server_capped());
    let req = p.next_request();
    assert_eq!(req.token, Some(s("cursor-a")));
    assert_eq!(req.page_size, None);
    p.receive(Vec::new(), None);
    assert!(p.is_finished());
    let (items, token) = p.finish();
    assert!(items.is_empty());
    assert_eq!(token, None);
}

#[test]
fn server_capped_listing_stops_at_limit_and_returns_resume_token() {
    let mut p: Pager<String> = Pager::new(Some(2), None, PagePolicy::server_capped());
    assert_eq!(p.next_request().page_size, Some(2));
    p.receive(names(&["a1", "a2"]), Some(s("a2")));
    assert!(p.is_finished());
    let (items, token) = p.finish();
    assert_eq!(items, names(&["a1", "a2"]));
    assert_eq!(token, Some(s("a2")));
}

#[test]
fn server_capped_listing_asks_for_the_remaining_budget() {
    let mut p: Pager<String> = Pager::new(Some(5), None, PagePolicy::server_capped());
    p.receive(names(&["a1", "a2"]), Some(s("t")));
    let req = p.next_request();
    assert_eq!(req.page_size, Some(3));
    assert_eq!(req.token, Some(s("t")));
    p.receive(names(&["a3"]), None);
    let (items, token) = p.finish();
    assert_eq!(items, names(&["a1", "a2", "a3"]));
    assert_eq!(token, None);
}

#[test]
fn server_capped_listing_keeps_what_the_service_sends() {
    // Nothing is cut locally: an over-full page is returned whole.
    let mut p: Pager<String> = Pager::new(Some(1), None, PagePolicy::server_capped());
    p.receive(names(&["x", "y"]), Some(s("more")));
    assert!(p.is_finished());
    let (items, token) = p.finish();
    assert_eq!(items.len(), 2);
    assert_eq!(token, Some(s("more")));
}

#[test]
fn client_side_limit_truncates_but_keeps_aws_next_marker() {
    let mut p: Pager<String> = Pager::new(Some(2), None, PagePolicy::client_side());
    assert_eq!(p.next_request().page_size, None);
    p.receive(names(&["mt-1", "mt-2", "mt-3"]), Some(s("aws-next")));
    assert!(p.is_finished());
    assert_eq!(p.collected(), 2);
    let (items, token) = p.finish();
    assert_eq!(items, names(&["mt-1", "mt-2"]));
    assert_eq!(token, Some(s("aws-next")));
}

#[test]
fn client_side_listing_pages_through_until_exhausted_when_limit_not_reached() {
    let mut p: Pager<String> = Pager::new(Some(10), None, PagePolicy::client_side());
    p.receive(names(&["mt-1", "mt-2"]), Some(s("m2")));
    assert!(!p.is_finished());
    assert_eq!(p.next_request().token, Some(s("m2")));
    p.receive(names(&["mt-3"]), None);
    let (items, token) = p.finish();
    assert_eq!(items.len(), 3);
    assert_eq!(token, None);
}

#[test]
fn sized_then_truncated_cuts_an_overfull_page() {
    let mut p: Pager<u32> =
        Pager::new(Some(3), None, PagePolicy::sized_then_truncated());
    assert_eq!(p.next_request().page_size, Some(3));
    p.receive(vec![1, 2, 3, 4], Some(s("m")));
    let (items, token) = p.finish();
    assert_eq!(items, vec![1, 2, 3]);
    assert_eq!(token, Some(s("m")));
}

#[test]
fn negative_limit_returns_nothing_for_truncating_policies() {
    let mut p: Pager<u32> = Pager::new(Some(-1), None, PagePolicy::clamped_records());
    assert_eq!(p.next_request().page_size, Some(20));
    p.receive(vec![1, 2], Some(s("m")));
    assert!(p.is_finished());
    let (items, _) = p.finish();
    assert!(items.is_empty());
}

#[test]
fn custom_policy_is_honoured() {
    let policy = PagePolicy {
        sizing: PageSizing::Clamped { floor: 5, ceiling: 7 },
        enforcement: LimitEnforcement::TruncatePerPage,
    };
    let mut p: Pager<u32> = Pager::new(Some(3), None, policy);
    assert_eq!(p.next_request().page_size, Some(5));
    p.receive(vec![1, 2, 3, 4, 5], Some(s("m")));
    assert_eq!(p.collected(), 3);
}

#[test]
fn apply_limit_cuts_only_when_met() {
    let mut v = vec![1, 2, 3];
    assert!(!apply_limit(&mut v, Some(5)));
    assert_eq!(v, vec![1, 2, 3]);
    assert!(apply_limit(&mut v, Some(2)));
    assert_eq!(v, vec![1, 2]);
    assert!(!apply_limit(&mut v, None));
    assert_eq!(v.len(), 2);
}

#[test]
fn empty_tokens_end_the_listing() {
    assert_eq!(non_empty_token(Some(s(""))), None);
    assert_eq!(non_empty_token(Some(s("m"))), Some(s("m")));
    assert_eq!(non_empty_token(None), None);
}

#[test]
fn truncated_marker_only_when_truncated() {
    assert_eq!(marker_if_truncated(true, Some(s("m"))), Some(s("m")));
    assert_eq!(marker_if_truncated(false, Some(s("m"))), None);
}

#[test]
fn last_key_continuation() {
    assert_eq!(continuation_after_last(0, None, true), None);
    assert_eq!(continuation_after_last(2, Some(s("b")), true), Some(s("b")));
    assert_eq!(continuation_after_last(2, Some(s("b")), false), None);
}

/// A service holding `all` in order, serving each request from the position
/// its token names (`p<position>`), up to the page size asked for.
fn serve_by_cursor(all: &[u32], token: Option<String>, size: Option<i32>, default_size: usize) -> (Vec<u32>, Option<String>) {
    let pos: usize = token.map(|t| t[1..].parse().unwrap()).unwrap_or(0);
    let want = size.map(|m| m.max(0) as usize).unwrap_or(default_size);
    let end = (pos + want).min(all.len());
    let next = if end < all.len() { Some(format!("p{end}")) } else { None };
    (all[pos..end].to_vec(), next)
}

fn run_against_cursor(all: &[u32], limit: Option<i32>, start: Option<String>) -> (Vec<u32>, Option<String>, Vec<Option<i32>>) {
    let mut pager = Pager::new(limit, start, PagePolicy::server_capped());
    let mut sizes = Vec::new();
    while !pager.is_finished() {
        let req = pager.next_request();
        sizes.push(req.page_size);
        let (items, next) = serve_by_cursor(all, req.token, req.page_size, 2);
        pager.receive(items, next);
    }
    let (items, token) = pager.finish();
    (items, token, sizes)
}

#[test]
fn capped_listing_resumed_skips_and_repeats_nothing() {
    let all: Vec<u32> = (10..17).collect();
    let (first, token, sizes) = run_against_cursor(&all, Some(3), None);
    assert_eq!(first, vec![10, 11, 12]);
    assert_eq!(token, Some(s("p3")));
    assert_eq!(sizes, vec![Some(3)]);
    let (rest, end, rest_sizes) = run_against_cursor(&all, None, token);
    assert_eq!(rest, vec![13, 14, 15, 16]);
    assert_eq!(end, None);
    assert_eq!(rest_sizes, vec![None, None]);
    let mut joined = first.clone();
    joined.extend(rest);
    assert_eq!(joined, all);
    let (whole, whole_end, _) = run_against_cursor(&all, None, None);
    assert_eq!((whole, whole_end), (all.clone(), None));
}

#[test]
fn dms_listing_clamps_and_reads_an_empty_marker_as_the_end() {
    let mut pager = vapor::dms::start_listing::<u32>(Some(5), Some(s("m0")));
    let req = pager.next_request();
    assert_eq!((req.page_size, req.token), (Some(20), Some(s("m0"))));
    vapor::dms::receive_reply(&mut pager, vec![1, 2, 3, 4, 5, 6], Some(s("m1")));
    assert!(pager.is_finished());
    assert_eq!(pager.finish(), (vec![1, 2, 3, 4, 5], Some(s("m1"))));
    let mut pager = vapor::dms::start_listing::<u32>(None, None);
    vapor::dms::receive_reply(&mut pager, vec![7], Some(s("")));
    assert!(pager.is_finished());
    assert_eq!(pager.finish(), (vec![7], None));
}

#[test]
fn elastic_beanstalk_listing_asks_for_the_remaining_budget() {
    let mut pager = vapor::elastic_beanstalk::start_listing::<u32>(Some(3), None);
    assert_eq!(pager.next_request().page_size, Some(3));
    vapor::elastic_beanstalk::receive_reply(&mut pager, vec![1], Some(s("t1")));
    let req = pager.next_request();
    assert_eq!((req.page_size, req.token), (Some(2), Some(s("t1"))));
    vapor::elastic_beanstalk::receive_reply(&mut pager, vec![2], Some(s("")));
    assert!(pager.is_finished());
    assert_eq!(pager.finish(), (vec![1, 2], None));
}
