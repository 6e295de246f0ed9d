//! EMR: the reply check of `DescribeCluster`.
use vstd::prelude::*;
use crate::error::VaporError;

verus! {

/// The error for a `DescribeCluster` reply without a cluster.
pub fn cluster_missing(cluster_id: &str) -> (e: VaporError)
    ensures
        e matches VaporError::AwsSdk { code, message } && code is None && message@
            == "No cluster returned for id "@ + cluster_id@,
{
    VaporError::without_code(String::from_str("No cluster returned for id ").concat(cluster_id))
}

} // verus!
