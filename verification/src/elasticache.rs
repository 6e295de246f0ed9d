//! ElastiCache: which clusters get a tag lookup.
use vstd::prelude::*;
use crate::error::VaporError;

verus! {

/// The ARN whose tags are looked up for a cache cluster: none when the
/// cluster reports no ARN or an empty one (its tags are then empty).
pub fn tag_lookup_arn(arn: Option<String>) -> (r: Option<String>)
    ensures
        r == (match arn {
            Some(a) => if a@.len() > 0 {
                Some(a)
            } else {
                None::<String>
            },
            None => None,
        }),
{
    match arn {
        Some(a) => if a.as_str().is_empty() {
            None
        } else {
            Some(a)
        },
        None => None,
    }
}

/// The tags of a cache cluster: those its tag lookup returned, and none
/// when there was no lookup (no ARN) or the lookup failed.
pub fn cluster_tags<T>(lookup: Option<Result<Vec<T>, VaporError>>) -> (r: Vec<T>)
    ensures
        r@ == (match lookup {
            Some(Ok(tags)) => tags@,
            _ => Seq::<T>::empty(),
        }),
{
    match lookup {
        Some(Ok(tags)) => tags,
        _ => Vec::new(),
    }
}

} // verus!
