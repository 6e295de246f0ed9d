//! EC2: the filters and owner lists of the describe requests, and the
//! state-change reports of start/stop/terminate.
use vstd::prelude::*;
use crate::request::{
    FilterSpec, filters_view, optional_filter, tag_filters, push_optional_filter,
    push_tag_filters,
};

verus! {

proof fn lemma_no_filters(f: Seq<FilterSpec>)
    requires
        f.len() == 0,
    ensures
        filters_view(f) == Seq::<(Seq<char>, Seq<Seq<char>>)>::empty(),
{
    assert(filters_view(f) =~= Seq::<(Seq<char>, Seq<Seq<char>>)>::empty());
}

/// Filters of `DescribeInstances`: instance state, VPC, subnet, then one
/// per requested tag.
pub fn instance_filters(
    state: Option<String>,
    vpc_id: Option<String>,
    subnet_id: Option<String>,
    tags: Option<Vec<(String, Vec<String>)>>,
) -> (f: Vec<FilterSpec>)
    ensures
        filters_view(f@) == optional_filter("instance-state-name"@, state) + optional_filter(
            "vpc-id"@,
            vpc_id,
        ) + optional_filter("subnet-id"@, subnet_id) + tag_filters(tags),
{
    let mut f: Vec<FilterSpec> = Vec::new();
    proof {
        lemma_no_filters(f@);
    }
    push_optional_filter(&mut f, "instance-state-name", state);
    push_optional_filter(&mut f, "vpc-id", vpc_id);
    push_optional_filter(&mut f, "subnet-id", subnet_id);
    push_tag_filters(&mut f, &tags);
    f
}

/// Filters of `DescribeSecurityGroups`: VPC, then group name.
pub fn security_group_filters(vpc_id: Option<String>, name: Option<String>) -> (f: Vec<
    FilterSpec,
>)
    ensures
        filters_view(f@) == optional_filter("vpc-id"@, vpc_id) + optional_filter(
            "group-name"@,
            name,
        ),
{
    let mut f: Vec<FilterSpec> = Vec::new();
    proof {
        lemma_no_filters(f@);
    }
    push_optional_filter(&mut f, "vpc-id", vpc_id);
    push_optional_filter(&mut f, "group-name", name);
    f
}

/// Filters of `DescribeSubnets`: VPC, then availability zone.
pub fn subnet_filters(vpc_id: Option<String>, az: Option<String>) -> (f: Vec<FilterSpec>)
    ensures
        filters_view(f@) == optional_filter("vpc-id"@, vpc_id) + optional_filter(
            "availability-zone"@,
            az,
        ),
{
    let mut f: Vec<FilterSpec> = Vec::new();
    proof {
        lemma_no_filters(f@);
    }
    push_optional_filter(&mut f, "vpc-id", vpc_id);
    push_optional_filter(&mut f, "availability-zone", az);
    f
}

/// Filters of `DescribeVolumes`: volume status.
pub fn volume_filters(state: Option<String>) -> (f: Vec<FilterSpec>)
    ensures
        filters_view(f@) == optional_filter("status"@, state),
{
    let mut f: Vec<FilterSpec> = Vec::new();
    proof {
        lemma_no_filters(f@);
    }
    push_optional_filter(&mut f, "status", state);
    assert(filters_view(f@) =~= optional_filter("status"@, state));
    f
}

/// Filters of `DescribeKeyPairs`: key name, then fingerprint.
pub fn key_pair_filters(name: Option<String>, fingerprint: Option<String>) -> (f: Vec<
    FilterSpec,
>)
    ensures
        filters_view(f@) == optional_filter("key-name"@, name) + optional_filter(
            "fingerprint"@,
            fingerprint,
        ),
{
    let mut f: Vec<FilterSpec> = Vec::new();
    proof {
        lemma_no_filters(f@);
    }
    push_optional_filter(&mut f, "key-name", name);
    push_optional_filter(&mut f, "fingerprint", fingerprint);
    f
}

/// Filters of `DescribeImages`: image name, state, then one per tag.
pub fn image_filters(
    name: Option<String>,
    state: Option<String>,
    tags: Option<Vec<(String, Vec<String>)>>,
) -> (f: Vec<FilterSpec>)
    ensures
        filters_view(f@) == optional_filter("name"@, name) + optional_filter("state"@, state)
            + tag_filters(tags),
{
    let mut f: Vec<FilterSpec> = Vec::new();
    proof {
        lemma_no_filters(f@);
    }
    push_optional_filter(&mut f, "name", name);
    push_optional_filter(&mut f, "state", state);
    push_tag_filters(&mut f, &tags);
    f
}

/// The owner list that stands for "owned by the caller's account".
pub fn own_account_owners() -> (o: Vec<String>)
    ensures
        o@.len() == 1,
        o@[0]@ == "self"@,
{
    let mut o: Vec<String> = Vec::new();
    o.push(String::from_str("self"));
    o
}

/// Owners of `DescribeImages`: the requested owners, or the caller's own
/// account when none are given.
pub fn image_owners(owners: Option<Vec<String>>) -> (o: Vec<String>)
    ensures
        owners is Some ==> o == owners->Some_0,
        owners is None ==> o@.len() == 1 && o@[0]@ == "self"@,
{
    match owners {
        Some(o) => o,
        None => own_account_owners(),
    }
}

/// Filters of `DescribeAddresses`: the instance the address is bound to.
pub fn address_filters(instance_id: Option<String>) -> (f: Vec<FilterSpec>)
    ensures
        filters_view(f@) == optional_filter("instance-id"@, instance_id),
{
    let mut f: Vec<FilterSpec> = Vec::new();
    proof {
        lemma_no_filters(f@);
    }
    push_optional_filter(&mut f, "instance-id", instance_id);
    assert(filters_view(f@) =~= optional_filter("instance-id"@, instance_id));
    f
}

/// Filters of `DescribeRouteTables` and `DescribeNetworkAcls`: the VPC.
pub fn vpc_scope_filters(vpc_id: Option<String>) -> (f: Vec<FilterSpec>)
    ensures
        filters_view(f@) == optional_filter("vpc-id"@, vpc_id),
{
    let mut f: Vec<FilterSpec> = Vec::new();
    proof {
        lemma_no_filters(f@);
    }
    push_optional_filter(&mut f, "vpc-id", vpc_id);
    assert(filters_view(f@) =~= optional_filter("vpc-id"@, vpc_id));
    f
}

/// Filters of `DescribeInternetGateways`: the VPC the gateway is attached
/// to.
pub fn internet_gateway_filters(vpc_id: Option<String>) -> (f: Vec<FilterSpec>)
    ensures
        filters_view(f@) == optional_filter("attachment.vpc-id"@, vpc_id),
{
    let mut f: Vec<FilterSpec> = Vec::new();
    proof {
        lemma_no_filters(f@);
    }
    push_optional_filter(&mut f, "attachment.vpc-id", vpc_id);
    assert(filters_view(f@) =~= optional_filter("attachment.vpc-id"@, vpc_id));
    f
}

/// Filters of `DescribeNatGateways`: VPC, then state.
pub fn nat_gateway_filters(vpc_id: Option<String>, state: Option<String>) -> (f: Vec<
    FilterSpec,
>)
    ensures
        filters_view(f@) == optional_filter("vpc-id"@, vpc_id) + optional_filter(
            "state"@,
            state,
        ),
{
    let mut f: Vec<FilterSpec> = Vec::new();
    proof {
        lemma_no_filters(f@);
    }
    push_optional_filter(&mut f, "vpc-id", vpc_id);
    push_optional_filter(&mut f, "state", state);
    f
}

/// Filters of `DescribeVpcEndpoints`: VPC, then service name.
pub fn vpc_endpoint_filters(vpc_id: Option<String>, service_name: Option<String>) -> (f: Vec<
    FilterSpec,
>)
    ensures
        filters_view(f@) == optional_filter("vpc-id"@, vpc_id) + optional_filter(
            "service-name"@,
            service_name,
        ),
{
    let mut f: Vec<FilterSpec> = Vec::new();
    proof {
        lemma_no_filters(f@);
    }
    push_optional_filter(&mut f, "vpc-id", vpc_id);
    push_optional_filter(&mut f, "service-name", service_name);
    f
}

/// Filters of `DescribeSnapshots`: source volume, then status.
pub fn snapshot_filters(volume_id: Option<String>, state: Option<String>) -> (f: Vec<FilterSpec>)
    ensures
        filters_view(f@) == optional_filter("volume-id"@, volume_id) + optional_filter(
            "status"@,
            state,
        ),
{
    let mut f: Vec<FilterSpec> = Vec::new();
    proof {
        lemma_no_filters(f@);
    }
    push_optional_filter(&mut f, "volume-id", volume_id);
    push_optional_filter(&mut f, "status", state);
    f
}

/// Filters of `DescribeFlowLogs`: always VPC flow logs, optionally of one
/// resource.
pub fn flow_log_filters(resource_id: Option<String>) -> (f: Vec<FilterSpec>)
    ensures
        filters_view(f@) == seq![("resource-type"@, seq!["VPC"@])] + optional_filter(
            "resource-id"@,
            resource_id,
        ),
{
    let mut f: Vec<FilterSpec> = Vec::new();
    proof {
        lemma_no_filters(f@);
    }
    push_optional_filter(&mut f, "resource-type", Some(String::from_str("VPC")));
    push_optional_filter(&mut f, "resource-id", resource_id);
    f
}

/// One entry of a start/stop/terminate reply: the instance and the names
/// of its previous and current states, each as far as the reply carries it.
#[derive(Debug, PartialEq, Eq)]
pub struct InstanceStateChange {
    pub instance_id: Option<String>,
    pub previous_state: Option<String>,
    pub current_state: Option<String>,
}

/// The complete reports among `changes`, in order: those carrying the
/// instance id and both state names.
pub open spec fn complete_changes(changes: Seq<InstanceStateChange>) -> Seq<
    (Seq<char>, Seq<char>, Seq<char>),
>
    decreases changes.len(),
{
    if changes.len() == 0 {
        seq![]
    } else {
        let c = changes.last();
        let rest = complete_changes(changes.drop_last());
        match (c.instance_id, c.previous_state, c.current_state) {
            (Some(id), Some(prev), Some(cur)) => rest.push((id@, prev@, cur@)),
            _ => rest,
        }
    }
}

/// The `(instance id, previous state, current state)` triples of the
/// entries that carry all three; the others are skipped.
pub fn complete_state_changes(changes: Vec<InstanceStateChange>) -> (r: Vec<
    (String, String, String),
>)
    ensures
        r@.map_values(|t: (String, String, String)| (t.0@, t.1@, t.2@)) == complete_changes(
            changes@,
        ),
{
    let mut out: Vec<(String, String, String)> = Vec::new();
    let mut i: usize = 0;
    while i < changes.len()
        invariant
            i <= changes@.len(),
            out@.map_values(|t: (String, String, String)| (t.0@, t.1@, t.2@)) == complete_changes(
                changes@.take(i as int),
            ),
        decreases changes@.len() - i,
    {
        let ghost before = out@;
        let c = &changes[i];
        assert(changes@.take(i + 1).drop_last() =~= changes@.take(i as int));
        match (&c.instance_id, &c.previous_state, &c.current_state) {
            (Some(id), Some(prev), Some(cur)) => {
                out.push((id.clone(), prev.clone(), cur.clone()));
                assert(out@.map_values(|t: (String, String, String)| (t.0@, t.1@, t.2@))
                    =~= before.map_values(|t: (String, String, String)| (t.0@, t.1@, t.2@)).push(
                    (id@, prev@, cur@),
                ));
            },
            _ => {},
        }
        i += 1;
    }
    assert(changes@.take(changes@.len() as int) =~= changes@);
    out
}

/// Whether a state-change entry carries the instance id and both state
/// names.
pub open spec fn is_complete(c: InstanceStateChange) -> bool {
    c.instance_id is Some && c.previous_state is Some && c.current_state is Some
}

/// Reporting the entries of two replies one after the other reports those
/// of the first, then those of the second.
pub proof fn law_complete_changes_concat(a: Seq<InstanceStateChange>, b: Seq<InstanceStateChange>)
    ensures
        complete_changes(a + b) == complete_changes(a) + complete_changes(b),
    decreases b.len(),
{
    if b.len() == 0 {
        assert(a + b =~= a);
        assert(complete_changes(a) + complete_changes(b) =~= complete_changes(a));
    } else {
        law_complete_changes_concat(a, b.drop_last());
        assert((a + b).drop_last() =~= a + b.drop_last());
        assert((a + b).last() == b.last());
        assert(complete_changes(a + b) =~= complete_changes(a) + complete_changes(b));
    }
}

/// One entry is reported, as its id, previous and current state (equal or
/// not), exactly when it is complete.
pub proof fn law_complete_changes_single(c: InstanceStateChange)
    ensures
        is_complete(c) ==> complete_changes(seq![c]) == seq![
            (
                c.instance_id->Some_0@,
                c.previous_state->Some_0@,
                c.current_state->Some_0@,
            ),
        ],
        !is_complete(c) ==> complete_changes(seq![c]).len() == 0,
{
    assert(seq![c].drop_last() =~= Seq::<InstanceStateChange>::empty());
    assert(complete_changes(Seq::<InstanceStateChange>::empty()).len() == 0);
    if is_complete(c) {
        assert(complete_changes(Seq::<InstanceStateChange>::empty()).push(
            (c.instance_id->Some_0@, c.previous_state->Some_0@, c.current_state->Some_0@),
        ) =~= seq![(c.instance_id->Some_0@, c.previous_state->Some_0@, c.current_state->Some_0@)]);
    }
}

/// As many triples as complete entries; when every entry is complete, the
/// `i`-th triple is the `i`-th entry's id, previous and current state.
pub proof fn law_complete_changes_counts(changes: Seq<InstanceStateChange>)
    ensures
        complete_changes(changes).len() == changes.filter(|c: InstanceStateChange| is_complete(c)).len(),
        (forall|i: int| 0 <= i < changes.len() ==> is_complete(#[trigger] changes[i])) ==> {
            &&& complete_changes(changes).len() == changes.len()
            &&& forall|i: int|
                0 <= i < changes.len() ==> #[trigger] complete_changes(changes)[i] == (
                    changes[i].instance_id->Some_0@,
                    changes[i].previous_state->Some_0@,
                    changes[i].current_state->Some_0@,
                )
        },
    decreases changes.len(),
{
    reveal(Seq::filter);
    if changes.len() > 0 {
        let prev = changes.drop_last();
        law_complete_changes_counts(prev);
        assert forall|i: int| 0 <= i < prev.len() implies #[trigger] prev[i] == changes[i] by {}
        if forall|i: int| 0 <= i < changes.len() ==> is_complete(#[trigger] changes[i]) {
            assert(forall|i: int| 0 <= i < prev.len() ==> is_complete(#[trigger] prev[i]));
            assert(is_complete(changes[changes.len() - 1]));
        }
    }
}

} // verus!
