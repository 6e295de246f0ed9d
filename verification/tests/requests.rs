use vapor::dms::endpoint_type_filter;
use vapor::ec2::{
    address_filters, complete_state_changes, flow_log_filters, image_filters, image_owners,
    instance_filters, internet_gateway_filters, key_pair_filters, nat_gateway_filters,
    own_account_owners, security_group_filters, snapshot_filters, subnet_filters,
    volume_filters, vpc_endpoint_filters, vpc_scope_filters, InstanceStateChange,
};
use vapor::ecr::{image_identifiers, ImageIdSpec};
use vapor::fsx::file_system_filter;
use vapor::ecs::{
    batches, describe_targets, needs_discovery, BatchedDescribe, CLUSTER_BATCH, SERVICE_BATCH, TASK_BATCH,
};
use vapor::health::{event_filter, parse_status_codes, EventStatus};
use vapor::iam::{default_version_id, policy_scope, PolicyScope};
use vapor::inspector::{finding_filter, FindingFilterPlan};
use vapor::request::{clone_strings, non_empty, push_optional_filter, FilterSpec};
use vapor::text::str_equals;

fn s(v: &str) -> String {
    v.to_string()
}

fn f(name: &str, values: &[&str]) -> FilterSpec {
    FilterSpec { name: s(name), values: values.iter().map(|v| s(v)).collect() }
}

#[test]
fn instance_filters_in_request_order() {
    let tags = vec![(s("Env"), vec![s("prod"), s("stage")]), (s("Team"), vec![s("core")])];
    let got = instance_filters(Some(s("running")), Some(s("vpc-1")), Some(s("subnet-1")), Some(tags));
    assert_eq!(
        got,
        vec![
            f("instance-state-name", &["running"]),
            f("vpc-id", &["vpc-1"]),
            f("subnet-id", &["subnet-1"]),
            f("tag:Env", &["prod", "stage"]),
            f("tag:Team", &["core"]),
        ]
    );
    assert!(instance_filters(None, None, None, None).is_empty());
}

#[test]
fn describe_filters_per_operation() {
    assert_eq!(
        security_group_filters(Some(s("vpc-1")), Some(s("web"))),
        vec![f("vpc-id", &["vpc-1"]), f("group-name", &["web"])]
    );
    assert_eq!(subnet_filters(None, Some(s("us-east-1a"))), vec![f("availability-zone", &["us-east-1a"])]);
    assert_eq!(volume_filters(Some(s("available"))), vec![f("status", &["available"])]);
    assert_eq!(
        key_pair_filters(Some(s("k")), Some(s("fp"))),
        vec![f("key-name", &["k"]), f("fingerprint", &["fp"])]
    );
    assert_eq!(
        image_filters(Some(s("ami")), None, Some(vec![(s("Os"), vec![s("linux")])])),
        vec![f("name", &["ami"]), f("tag:Os", &["linux"])]
    );
    assert_eq!(address_filters(Some(s("i-1"))), vec![f("instance-id", &["i-1"])]);
    assert_eq!(vpc_scope_filters(Some(s("vpc-2"))), vec![f("vpc-id", &["vpc-2"])]);
    assert_eq!(internet_gateway_filters(Some(s("vpc-3"))), vec![f("attachment.vpc-id", &["vpc-3"])]);
    assert_eq!(
        nat_gateway_filters(Some(s("vpc-4")), Some(s("available"))),
        vec![f("vpc-id", &["vpc-4"]), f("state", &["available"])]
    );
    assert_eq!(
        vpc_endpoint_filters(None, Some(s("com.amazonaws.s3"))),
        vec![f("service-name", &["com.amazonaws.s3"])]
    );
    assert_eq!(
        snapshot_filters(Some(s("vol-1")), Some(s("completed"))),
        vec![f("volume-id", &["vol-1"]), f("status", &["completed"])]
    );
    assert_eq!(flow_log_filters(None), vec![f("resource-type", &["VPC"])]);
    assert_eq!(
        flow_log_filters(Some(s("vpc-9"))),
        vec![f("resource-type", &["VPC"]), f("resource-id", &["vpc-9"])]
    );
}

#[test]
fn image_owners_default_to_own_account() {
    assert_eq!(image_owners(None), vec![s("self")]);
    assert_eq!(image_owners(Some(vec![s("amazon")])), vec![s("amazon")]);
    assert_eq!(own_account_owners(), vec![s("self")]);
}

#[test]
fn incomplete_state_changes_are_skipped() {
    let changes = vec![
        InstanceStateChange {
            instance_id: Some(s("i-1")),
            previous_state: Some(s("stopped")),
            current_state: Some(s("pending")),
        },
        InstanceStateChange { instance_id: Some(s("i-2")), previous_state: None, current_state: Some(s("pending")) },
        InstanceStateChange { instance_id: None, previous_state: Some(s("running")), current_state: Some(s("stopping")) },
        InstanceStateChange {
            instance_id: Some(s("i-3")),
            previous_state: Some(s("running")),
            current_state: Some(s("shutting-down")),
        },
    ];
    assert_eq!(
        complete_state_changes(changes),
        vec![
            (s("i-1"), s("stopped"), s("pending")),
            (s("i-3"), s("running"), s("shutting-down")),
        ]
    );
}

#[test]
fn endpoint_type_filter_is_lowercased() {
    assert_eq!(endpoint_type_filter(Some(s("SOURCE"))), Some(f("endpoint-type", &["source"])));
    assert_eq!(endpoint_type_filter(None), None);
}

#[test]
fn image_identifiers_list_tags_then_digests() {
    let ids = image_identifiers(&Some(vec![s("latest"), s("v1")]), &Some(vec![s("sha256:abc")]));
    assert_eq!(
        ids,
        vec![
            ImageIdSpec::Tag(s("latest")),
            ImageIdSpec::Tag(s("v1")),
            ImageIdSpec::Digest(s("sha256:abc")),
        ]
    );
    assert!(image_identifiers(&None, &None).is_empty());
}

#[test]
fn batches_split_like_chunks() {
    let ids: Vec<String> = (0..25).map(|i| format!("arn-{i}")).collect();
    let got = batches(&ids, SERVICE_BATCH);
    let expected: Vec<Vec<String>> = ids.chunks(SERVICE_BATCH).map(|c| c.to_vec()).collect();
    assert_eq!(got, expected);
    assert_eq!(got.len(), 3);
    assert_eq!(got[2].len(), 5);
    assert!(batches(&Vec::new(), CLUSTER_BATCH).is_empty());
    assert_eq!(batches(&ids, TASK_BATCH).len(), 1);
}

#[test]
fn caller_arns_are_described_as_given_without_token() {
    let (arns, token) = describe_targets(Some(vec![s("a")]), None);
    assert_eq!(arns, vec![s("a")]);
    assert_eq!(token, None);
    let (arns, token) = describe_targets(None, Some((vec![s("b")], Some(s("t")))));
    assert_eq!(arns, vec![s("b")]);
    assert_eq!(token, Some(s("t")));
}

#[test]
fn status_codes_parse_exact_names_only() {
    let codes = vec![s("open"), s("OPEN"), s("closed"), s("bogus"), s("upcoming")];
    assert_eq!(
        parse_status_codes(Some(codes)),
        vec![EventStatus::Open, EventStatus::Closed, EventStatus::Upcoming]
    );
    assert!(parse_status_codes(None).is_empty());
}

#[test]
fn event_filter_sets_only_non_empty_parts() {
    let plan = event_filter(Some(vec![s("bogus")]), Some(Vec::new()));
    assert_eq!(plan.status_codes, None);
    assert_eq!(plan.services, None);
    let plan = event_filter(Some(vec![s("open")]), Some(vec![s("EC2")]));
    assert_eq!(plan.status_codes, Some(vec![EventStatus::Open]));
    assert_eq!(plan.services, Some(vec![s("EC2")]));
}

#[test]
fn policy_scope_names() {
    assert_eq!(policy_scope("AWS"), PolicyScope::Aws);
    assert_eq!(policy_scope("All"), PolicyScope::All);
    assert_eq!(policy_scope("Local"), PolicyScope::Local);
    assert_eq!(policy_scope("aws"), PolicyScope::Local);
    assert_eq!(policy_scope(""), PolicyScope::Local);
}

#[test]
fn default_policy_version() {
    assert_eq!(default_version_id(None), "v1");
    assert_eq!(default_version_id(Some(s("v7"))), "v7");
}

#[test]
fn finding_filter_only_with_criteria() {
    assert_eq!(finding_filter(None, None), None);
    assert_eq!(
        finding_filter(Some(s("HIGH")), None),
        Some(FindingFilterPlan { severity: Some(s("HIGH")), resource_type: None })
    );
}

#[test]
fn request_helpers() {
    let mut filters = Vec::new();
    push_optional_filter(&mut filters, "a", None);
    push_optional_filter(&mut filters, "b", Some(s("x")));
    assert_eq!(filters, vec![f("b", &["x"])]);
    assert_eq!(non_empty(Vec::<u8>::new()), None);
    assert_eq!(non_empty(vec![1u8]), Some(vec![1u8]));
    assert_eq!(clone_strings(&vec![s("a"), s("b")]), vec![s("a"), s("b")]);
    assert!(str_equals("abc", "abc"));
    assert!(!str_equals("abc", "abd"));
    assert!(!str_equals("ab", "abc"));
}

#[test]
fn fsx_file_system_filter() {
    assert_eq!(file_system_filter(Some(s("fs-1"))), Some(f("file-system-id", &["fs-1"])));
    assert_eq!(file_system_filter(None), None);
}

#[test]
fn given_arns_are_described_batch_by_batch_without_listing() {
    let given: Vec<String> = (0..25).map(|i| format!("arn-{i}")).collect();
    assert!(!needs_discovery(&Some(given.clone())));
    assert!(needs_discovery(&None));
    let (arns, token) = describe_targets(Some(given.clone()), None);
    let mut d: BatchedDescribe<usize> = BatchedDescribe::new(arns, SERVICE_BATCH, token);
    let mut asked = Vec::new();
    while !d.is_done() {
        let batch = d.next_batch();
        let found: Vec<usize> = batch.iter().map(|a| a.len()).collect();
        asked.push(batch);
        d.absorb(found);
    }
    let expected: Vec<Vec<String>> = given.chunks(SERVICE_BATCH).map(|c| c.to_vec()).collect();
    assert_eq!(asked, expected);
    let (results, token) = d.finish();
    assert_eq!(results, given.iter().map(|a| a.len()).collect::<Vec<_>>());
    assert_eq!(token, None);
}

#[test]
fn batched_describe_of_nothing_makes_no_call() {
    let d: BatchedDescribe<u8> = BatchedDescribe::new(Vec::new(), CLUSTER_BATCH, Some(s("t")));
    assert!(d.is_done());
    let (results, token) = d.finish();
    assert!(results.is_empty());
    assert_eq!(token, Some(s("t")));
}
