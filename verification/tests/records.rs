use vapor::ecr::{FindingsBlock, ScanFindingsCollector, ScanFindingsPage};
use vapor::elastic_beanstalk::deleted_since;
use vapor::elasticache::{cluster_tags, tag_lookup_arn};
use vapor::emr::cluster_missing;
use vapor::error::{absent_when_not_found, require_present, SdkFailure, VaporError};
use vapor::firehose::delivery_stream_missing;
use vapor::iam::{policy_version_missing, policy_version_source, PolicyVersionSource};
use vapor::iot::{
    thing_attributes, thing_group_info, thing_group_to_describe, IotTagPair, ThingGroupFanOut,
};
use vapor::records::{present_strings, tag_pairs, text_or_empty};
use vapor::time::{parse_datetime, Timestamp};

fn s(v: &str) -> String {
    v.to_string()
}

fn message(e: VaporError) -> (Option<String>, String) {
    match e {
        VaporError::AwsSdk { code, message } => (code, message),
    }
}

#[test]
fn rfc3339_text_parses_to_instant() {
    assert_eq!(
        parse_datetime("2024-01-02T03:04:05Z"),
        Some(Timestamp { secs: 1704164645, nanos: 0 })
    );
    assert_eq!(
        parse_datetime("2024-01-02T03:04:05.5+01:00"),
        Some(Timestamp { secs: 1704161045, nanos: 500_000_000 })
    );
    assert_eq!(parse_datetime("yesterday"), None);
}

#[test]
fn deleted_environments_only_with_a_valid_cutoff() {
    assert_eq!(deleted_since(None), None);
    assert_eq!(deleted_since(Some(s("not a date"))), None);
    assert_eq!(
        deleted_since(Some(s("1970-01-01T00:00:10Z"))),
        Some(Timestamp { secs: 10, nanos: 0 })
    );
}

#[test]
fn scan_findings_ask_for_what_the_limit_leaves() {
    let mut c: ScanFindingsCollector<&str> = ScanFindingsCollector::new(Some(2), None);
    let first = c.next_request();
    assert_eq!((first.page_size, first.token), (Some(2), None));
    c.absorb(
        ScanFindingsPage {
            scan_status: Some(s("COMPLETE")),
            image_tag: Some(s("latest")),
            findings: Some(FindingsBlock {
                completed_at: None,
                severity_counts: Some(vec![(s("HIGH"), 1)]),
                findings: vec!["CVE-1"],
            }),
        },
        Some(s("page-2")),
    );
    let second = c.next_request();
    assert_eq!((second.page_size, second.token), (Some(1), Some(s("page-2"))));
    c.absorb(
        ScanFindingsPage {
            scan_status: Some(s("IN_PROGRESS")),
            image_tag: Some(s("should-be-ignored")),
            findings: Some(FindingsBlock {
                completed_at: None,
                severity_counts: Some(vec![(s("HIGH"), 99)]),
                findings: vec!["CVE-2"],
            }),
        },
        None,
    );
    assert!(c.pager.is_finished());
    let (result, token) = c.finish();
    assert_eq!(token, None);
    assert_eq!(result.image_tags, vec![s("latest")]);
    assert_eq!(result.scan_status, Some(s("COMPLETE")));
    assert_eq!(result.finding_severity_counts, vec![(s("HIGH"), 1)]);
    assert_eq!(result.findings, vec!["CVE-1", "CVE-2"]);
}

#[test]
fn scan_metadata_keeps_first_values_and_findings_are_capped() {
    let mut c: ScanFindingsCollector<u32> = ScanFindingsCollector::new(Some(3), None);
    assert_eq!(c.next_request().page_size, Some(3));
    c.absorb(
        ScanFindingsPage {
            scan_status: Some(s("COMPLETE")),
            image_tag: Some(s("latest")),
            findings: Some(FindingsBlock {
                completed_at: Some(Timestamp { secs: 5, nanos: 0 }),
                severity_counts: Some(vec![(s("HIGH"), 2)]),
                findings: vec![1, 2],
            }),
        },
        Some(s("t2")),
    );
    assert!(!c.pager.is_finished());
    let req = c.next_request();
    assert_eq!(req.page_size, Some(1));
    assert_eq!(req.token, Some(s("t2")));
    c.absorb(
        ScanFindingsPage {
            scan_status: Some(s("FAILED")),
            image_tag: Some(s("other")),
            findings: Some(FindingsBlock {
                completed_at: Some(Timestamp { secs: 9, nanos: 0 }),
                severity_counts: Some(vec![(s("LOW"), 1)]),
                findings: vec![3],
            }),
        },
        Some(s("t3")),
    );
    assert!(c.pager.is_finished());
    let (result, token) = c.finish();
    assert_eq!(result.findings, vec![1, 2, 3]);
    assert_eq!(result.scan_status, Some(s("COMPLETE")));
    assert_eq!(result.image_tags, vec![s("latest")]);
    assert_eq!(result.scan_completed_at, Some(Timestamp { secs: 5, nanos: 0 }));
    assert_eq!(result.finding_severity_counts, vec![(s("HIGH"), 2)]);
    assert_eq!(token, Some(s("t3")));
}

#[test]
fn scan_pages_without_findings_part_leave_counts_open() {
    let mut c: ScanFindingsCollector<u32> = ScanFindingsCollector::new(None, None);
    c.absorb(ScanFindingsPage { scan_status: None, image_tag: None, findings: None }, Some(s("t")));
    assert!(!c.meta.counts_collected);
    c.absorb(
        ScanFindingsPage {
            scan_status: Some(s("COMPLETE")),
            image_tag: None,
            findings: Some(FindingsBlock {
                completed_at: None,
                severity_counts: None,
                findings: vec![7],
            }),
        },
        None,
    );
    assert!(c.meta.counts_collected);
    let (result, token) = c.finish();
    assert_eq!(result.findings, vec![7]);
    assert!(result.finding_severity_counts.is_empty());
    assert_eq!(result.scan_status, Some(s("COMPLETE")));
    assert_eq!(token, None);
}

#[test]
fn not_found_becomes_absent() {
    let found: Result<Option<u8>, SdkFailure> = Ok(Some(1));
    assert!(matches!(absent_when_not_found(found), Ok(Some(1))));
    let missing: Result<Option<u8>, SdkFailure> = Err(SdkFailure {
        not_found: true,
        error: VaporError::AwsSdk { code: Some(s("ResourceNotFoundException")), message: s("gone") },
    });
    assert!(matches!(absent_when_not_found(missing), Ok(None)));
    let denied: Result<Option<u8>, SdkFailure> = Err(SdkFailure {
        not_found: false,
        error: VaporError::AwsSdk { code: Some(s("AccessDenied")), message: s("no") },
    });
    let e = absent_when_not_found(denied).unwrap_err();
    assert_eq!(e.code(), Some(s("AccessDenied")));
    assert_eq!(e.message(), "no");
}

#[test]
fn missing_reply_errors() {
    assert_eq!(message(cluster_missing("j-1")), (None, s("No cluster returned for id j-1")));
    assert_eq!(message(delivery_stream_missing()), (None, s("No delivery stream description")));
    assert_eq!(
        message(policy_version_missing("arn:aws:iam::1:policy/p")),
        (None, s("No policy version found for arn:aws:iam::1:policy/p"))
    );
    assert!(matches!(require_present(Some(3), VaporError::without_code(s("x"))), Ok(3)));
    let e = require_present::<u8>(None, VaporError::without_code(s("x"))).unwrap_err();
    assert_eq!(message(e), (None, s("x")));
}

#[test]
fn record_helpers() {
    assert_eq!(present_strings(vec![Some(s("sg-1")), None, Some(s("sg-2"))]), vec![s("sg-1"), s("sg-2")]);
    assert_eq!(text_or_empty(None), "");
    assert_eq!(text_or_empty(Some(s("x"))), "x");
    assert_eq!(
        tag_pairs(vec![(Some(s("k")), None), (None, Some(s("v")))]),
        vec![(s("k"), s("")), (s(""), s("v"))]
    );
    assert_eq!(tag_lookup_arn(Some(s(""))), None);
    assert_eq!(tag_lookup_arn(Some(s("arn:x"))), Some(s("arn:x")));
    assert_eq!(tag_lookup_arn(None), None);
}

#[test]
fn iot_records() {
    assert_eq!(
        thing_attributes(vec![(s("a"), s("1")), (s("b"), s("2"))]),
        vec![IotTagPair { key: s("a"), value: s("1") }, IotTagPair { key: s("b"), value: s("2") }]
    );
    let g = thing_group_info(Some(s("g")), Some(s("arn")), Some(Ok((Some(s("id")), Some(s("ACTIVE"))))));
    assert_eq!(g.group_id, Some(s("id")));
    assert_eq!(g.status, Some(s("ACTIVE")));
    assert_eq!(g.group_arn, Some(s("arn")));
    let g = thing_group_info(Some(s("g")), None, None);
    assert_eq!(g.group_id, None);
    assert_eq!(g.status, None);
    assert_eq!(g.group_name, Some(s("g")));
}

#[test]
fn failed_thing_group_describe_leaves_id_and_status_absent() {
    let failed = Err(VaporError::without_code(s("denied")));
    let g = thing_group_info(Some(s("g")), Some(s("arn")), Some(failed));
    assert_eq!(g.group_name, Some(s("g")));
    assert_eq!(g.group_arn, Some(s("arn")));
    assert_eq!(g.group_id, None);
    assert_eq!(g.status, None);
}

#[test]
fn only_named_thing_groups_are_described() {
    assert_eq!(thing_group_to_describe(&Some(s("g"))), Some(s("g")));
    assert_eq!(thing_group_to_describe(&None), None);
}

#[test]
fn cache_cluster_tags_from_lookup_outcome() {
    assert_eq!(cluster_tags(Some(Ok(vec![1, 2]))), vec![1, 2]);
    assert_eq!(cluster_tags::<i32>(Some(Err(VaporError::without_code(s("x"))))), Vec::<i32>::new());
    assert_eq!(cluster_tags::<i32>(None), Vec::<i32>::new());
}

#[test]
fn policy_version_given_or_default() {
    assert_eq!(policy_version_source(Some(s("v3"))), PolicyVersionSource::Given(s("v3")));
    assert_eq!(policy_version_source(None), PolicyVersionSource::DefaultOfPolicy);
}

#[test]
fn thing_group_fan_out_describes_named_groups_in_order() {
    let groups = vec![(Some(s("a")), Some(s("arn:a"))), (None, Some(s("arn:x"))), (Some(s("b")), None)];
    let mut fan_out = ThingGroupFanOut::new(groups);
    let mut asked = Vec::new();
    let mut outcomes = vec![
        Err(VaporError::without_code(s("throttled"))),
        Ok((Some(s("id-a")), Some(s("ACTIVE")))),
    ];
    while let Some(name) = fan_out.next_describe() {
        asked.push(name);
        fan_out.absorb(outcomes.pop().unwrap());
    }
    assert_eq!(asked, vec![s("a"), s("b")]);
    let items = fan_out.finish();
    assert_eq!(items.len(), 3);
    assert_eq!(
        (items[0].group_name.clone(), items[0].group_arn.clone(), items[0].group_id.clone(), items[0].status.clone()),
        (Some(s("a")), Some(s("arn:a")), Some(s("id-a")), Some(s("ACTIVE")))
    );
    assert_eq!(
        (items[1].group_name.clone(), items[1].group_arn.clone(), items[1].group_id.clone(), items[1].status.clone()),
        (None, Some(s("arn:x")), None, None)
    );
    assert_eq!(
        (items[2].group_name.clone(), items[2].group_arn.clone(), items[2].group_id.clone(), items[2].status.clone()),
        (Some(s("b")), None, None, None)
    );
}
