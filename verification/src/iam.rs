//! IAM: the policy scope of policy listings, and the version of a managed
//! policy's document.
use vstd::prelude::*;
use crate::error::VaporError;
use crate::text::str_equals;

verus! {

/// The scope of a policy listing (`PolicyScopeType`).
#[derive(Clone, Copy, Debug, PartialEq, Eq)]
pub enum PolicyScope {
    Aws,
    All,
    Local,
}

/// The scope named by `scope`: `AWS` and `All` name themselves; any other
/// text means the account's own (`Local`) policies.
pub fn policy_scope(scope: &str) -> (r: PolicyScope)
    ensures
        r == (if scope@ == "AWS"@ {
            PolicyScope::Aws
        } else if scope@ == "All"@ {
            PolicyScope::All
        } else {
            PolicyScope::Local
        }),
{
    if str_equals(scope, "AWS") {
        PolicyScope::Aws
    } else if str_equals(scope, "All") {
        PolicyScope::All
    } else {
        PolicyScope::Local
    }
}

/// Where the version of a managed policy's document comes from.
#[derive(Debug, PartialEq, Eq)]
pub enum PolicyVersionSource {
    /// The caller named the version: no `GetPolicy` call is needed.
    Given(String),
    /// The policy's default version, read with `GetPolicy`.
    DefaultOfPolicy,
}

/// The version the caller asked for, or the policy's default when none.
pub fn policy_version_source(version_id: Option<String>) -> (r: PolicyVersionSource)
    ensures
        r == (match version_id {
            Some(v) => PolicyVersionSource::Given(v),
            None => PolicyVersionSource::DefaultOfPolicy,
        }),
{
    match version_id {
        Some(v) => PolicyVersionSource::Given(v),
        None => PolicyVersionSource::DefaultOfPolicy,
    }
}

/// The version of a managed policy whose document is fetched: the default
/// version the policy reports, or `v1` when it reports none.
pub fn default_version_id(reported: Option<String>) -> (r: String)
    ensures
        r@ == (match reported {
            Some(v) => v@,
            None => "v1"@,
        }),
{
    match reported {
        Some(v) => v,
        None => String::from_str("v1"),
    }
}

/// The error for a `GetPolicyVersion` reply without a version.
pub fn policy_version_missing(policy_arn: &str) -> (e: VaporError)
    ensures
        e matches VaporError::AwsSdk { code, message } && code is None && message@
            == "No policy version found for "@ + policy_arn@,
{
    VaporError::without_code(String::from_str("No policy version found for ").concat(policy_arn))
}

} // verus!
