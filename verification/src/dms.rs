//! Database Migration Service: the records of replication instances,
//! endpoints and replication tasks, and the endpoint-type filter.
use vstd::prelude::*;
use crate::pagination::{
    LimitEnforcement, PagePolicy, PageSizing, Pager, non_empty_token, allowance, clamp_spec, delivered, listing_after,
    replies_items, request_after, law_listing_requests_and_result,
};
use crate::request::{FilterSpec, filter_view};
use crate::text::{lowercase, to_lowercase};
use crate::time::Timestamp;

verus! {

/// A DMS replication instance.
#[derive(Debug)]
pub struct DmsReplicationInstanceInfo {
    pub replication_instance_identifier: Option<String>,
    pub replication_instance_arn: Option<String>,
    pub replication_instance_class: Option<String>,
    pub replication_instance_status: Option<String>,
    pub allocated_storage: Option<i32>,
    pub publicly_accessible: Option<bool>,
    pub engine_version: Option<String>,
    pub vpc_security_groups: Vec<String>,
    pub replication_subnet_group_id: Option<String>,
    pub availability_zone: Option<String>,
    pub multi_az: Option<bool>,
}

/// A DMS endpoint.
#[derive(Debug)]
pub struct DmsEndpointInfo {
    pub endpoint_identifier: Option<String>,
    pub endpoint_arn: Option<String>,
    pub endpoint_type: Option<String>,
    pub engine_name: Option<String>,
    pub status: Option<String>,
    pub database_name: Option<String>,
    pub server_name: Option<String>,
    pub port: Option<i32>,
    pub ssl_mode: Option<String>,
}

/// A DMS replication task.
#[derive(Debug)]
pub struct DmsReplicationTaskInfo {
    pub replication_task_identifier: Option<String>,
    pub replication_task_arn: Option<String>,
    pub status: Option<String>,
    pub migration_type: Option<String>,
    pub source_endpoint_arn: Option<String>,
    pub target_endpoint_arn: Option<String>,
    pub replication_instance_arn: Option<String>,
    pub replication_task_creation_date: Option<Timestamp>,
    pub replication_task_start_date: Option<Timestamp>,
}

/// The `endpoint-type` filter of `DescribeEndpoints`, its value lowercased
/// (the service expects `source`/`target`); none without an endpoint type.
pub fn endpoint_type_filter(endpoint_type: Option<String>) -> (f: Option<FilterSpec>)
    ensures
        endpoint_type is None ==> f is None,
        endpoint_type is Some ==> f is Some && filter_view(f->Some_0) == (
            "endpoint-type"@,
            seq![lowercase(endpoint_type->Some_0@)],
        ),
{
    match endpoint_type {
        Some(t) => {
            let mut values: Vec<String> = Vec::new();
            values.push(to_lowercase(t.as_str()));
            let f = FilterSpec { name: String::from_str("endpoint-type"), values };
            assert(filter_view(f).1 =~= seq![lowercase(t@)]);
            Some(f)
        },
        None => None,
    }
}

/// `DescribeReplicationInstances` (and the other `MaxRecords` listings)
/// under a limit `l`: each request asks for what is still missing from `l`,
/// clamped to `[20, 100]`, and resumes from the marker of the reply before
/// it (the caller's marker first); the items handed back are the first `l`
/// (none for a negative `l`) of those the used replies returned, and the
/// marker handed back is the last used reply's, which points past that
/// whole page even when some of its items were cut.
pub proof fn law_clamped_records_listing<T>(
    l: i32,
    start: Option<String>,
    replies: Seq<(Seq<T>, Option<String>)>,
)
    ensures
        ({
            let policy = PagePolicy {
                sizing: PageSizing::Clamped { floor: 20, ceiling: 100 },
                enforcement: LimitEnforcement::TruncateAtEnd,
            };
            let r = listing_after(Some(l), start, replies);
            let all = replies_items(replies.take(r.3 as int));
            &&& forall|i: int|
                0 <= i < r.3 ==> #[trigger] request_after(policy, Some(l), start, replies.take(i))
                    == (
                    Some(clamp_spec(l - replies_items(replies.take(i)).len(), 20, 100)),
                    if i == 0 {
                        start
                    } else {
                        replies[i - 1].1
                    },
                )
            &&& delivered(policy, Some(l), r.0) == all.take(
                if all.len() < allowance(l) {
                    all.len() as int
                } else {
                    allowance(l)
                },
            )
            &&& r.1 == (if r.3 == 0 {
                start
            } else {
                replies[r.3 - 1].1
            })
        }),
{
    let policy = PagePolicy {
        sizing: PageSizing::Clamped { floor: 20, ceiling: 100 },
        enforcement: LimitEnforcement::TruncateAtEnd,
    };
    law_listing_requests_and_result(policy, Some(l), start, replies);
    let all = replies_items(replies.take(listing_after(Some(l), start, replies).3 as int));
    assert(all.take(all.len() as int) =~= all);
}

/// Starts a DMS listing resumed from the caller's `marker`: `MaxRecords`
/// asks for what is missing from `limit`, clamped to the `[20, 100]` the
/// service accepts, and the items are cut to `limit` after the last page.
pub fn start_listing<T>(limit: Option<i32>, marker: Option<String>) -> (p: Pager<T>)
    ensures
        p.wf(),
        p.limit() == limit,
        p.policy() == (PagePolicy {
            sizing: PageSizing::Clamped { floor: 20, ceiling: 100 },
            enforcement: LimitEnforcement::TruncateAtEnd,
        }),
        p.token() == marker,
        p.start() == marker,
        p.history() == Seq::<(Seq<T>, Option<String>)>::empty(),
        p.received() == Seq::<T>::empty(),
        p.items() == Seq::<T>::empty(),
        !p.finished(),
{
    Pager::new(limit, marker, PagePolicy::clamped_records())
}

/// Folds in one DMS reply: its items and its `Marker`, an empty marker
/// ending the listing as a missing one does.
pub fn receive_reply<T>(pager: &mut Pager<T>, items: Vec<T>, marker: Option<String>)
    requires
        old(pager).wf(),
        !old(pager).finished(),
    ensures
        final(pager).wf(),
        final(pager).limit() == old(pager).limit(),
        final(pager).policy() == old(pager).policy(),
        final(pager).start() == old(pager).start(),
        final(pager).history() == old(pager).history().push(
            (
                items@,
                match marker {
                    Some(t) => if t@.len() > 0 {
                        Some(t)
                    } else {
                        None::<String>
                    },
                    None => None,
                },
            ),
        ),
{
    pager.receive(items, non_empty_token(marker));
}

} // verus!
