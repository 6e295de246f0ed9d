//! Elastic Beanstalk: the records of applications, environments and
//! application versions, and the cut-off of deleted environments.
use vstd::prelude::*;
use crate::pagination::{LimitEnforcement, PagePolicy, PageSizing, Pager, non_empty_token};
use crate::time::{Timestamp, parse_datetime, rfc3339_instant};

verus! {

/// An Elastic Beanstalk application.
#[derive(Debug)]
pub struct ElasticBeanstalkApplication {
    pub application_name: String,
    pub description: Option<String>,
    pub date_created: Option<Timestamp>,
    pub date_updated: Option<Timestamp>,
    pub versions: Vec<String>,
    pub configuration_templates: Vec<String>,
}

/// An Elastic Beanstalk environment.
#[derive(Debug)]
pub struct ElasticBeanstalkEnvironment {
    pub environment_id: Option<String>,
    pub environment_name: Option<String>,
    pub application_name: Option<String>,
    pub solution_stack_name: Option<String>,
    pub platform_arn: Option<String>,
    pub status: Option<String>,
    pub health: Option<String>,
    pub health_status: Option<String>,
    pub cname: Option<String>,
    pub endpoint_url: Option<String>,
    pub date_created: Option<Timestamp>,
    pub date_updated: Option<Timestamp>,
}

/// Where an application version's source bundle is stored.
#[derive(Debug, PartialEq, Eq)]
pub struct ElasticBeanstalkS3Location {
    pub s3_bucket: Option<String>,
    pub s3_key: Option<String>,
}

/// An Elastic Beanstalk application version.
#[derive(Debug)]
pub struct ElasticBeanstalkApplicationVersion {
    pub application_name: Option<String>,
    pub version_label: Option<String>,
    pub description: Option<String>,
    pub source_bundle: Option<ElasticBeanstalkS3Location>,
    pub status: Option<String>,
    pub date_created: Option<Timestamp>,
    pub date_updated: Option<Timestamp>,
}

/// The instant back to which deleted environments are included: the
/// caller's `included_deleted_back_to` when it is an RFC 3339 date-time.
/// Deleted environments are requested only when this is `Some`; text that
/// does not parse is ignored.
pub fn deleted_since(included_deleted_back_to: Option<String>) -> (r: Option<Timestamp>)
    ensures
        r == (match included_deleted_back_to {
            Some(s) => match rfc3339_instant(s@) {
                Some((secs, nanos)) => Some(Timestamp { secs, nanos }),
                None => None,
            },
            None => None,
        }),
{
    match included_deleted_back_to {
        Some(s) => parse_datetime(s.as_str()),
        None => None,
    }
}

/// Starts an Elastic Beanstalk listing resumed from the caller's token:
/// `MaxRecords` asks for what is missing from `limit`, which the service
/// enforces.
pub fn start_listing<T>(limit: Option<i32>, token: Option<String>) -> (p: Pager<T>)
    ensures
        p.wf(),
        p.limit() == limit,
        p.policy() == (PagePolicy { sizing: PageSizing::Remaining, enforcement: LimitEnforcement::ServerSide }),
        p.token() == token,
        p.start() == token,
        p.history() == Seq::<(Seq<T>, Option<String>)>::empty(),
        p.received() == Seq::<T>::empty(),
        p.items() == Seq::<T>::empty(),
        !p.finished(),
{
    Pager::new(limit, token, PagePolicy::server_capped())
}

/// Folds in one Elastic Beanstalk reply: its items and its `NextToken`,
/// an empty token ending the listing as a missing one does.
pub fn receive_reply<T>(pager: &mut Pager<T>, items: Vec<T>, token: Option<String>)
    requires
        old(pager).wf(),
        !old(pager).finished(),
    ensures
        final(pager).wf(),
        final(pager).limit() == old(pager).limit(),
        final(pager).policy() == old(pager).policy(),
        final(pager).start() == old(pager).start(),
        final(pager).history() == old(pager).history().push(
            (
                items@,
                match token {
                    Some(t) => if t@.len() > 0 {
                        Some(t)
                    } else {
                        None::<String>
                    },
                    None => None,
                },
            ),
        ),
{
    pager.receive(items, non_empty_token(token));
}

} // verus!
