//! Firehose: the reply check of `DescribeDeliveryStream`.
use vstd::prelude::*;
use crate::error::VaporError;

verus! {

/// The error for a `DescribeDeliveryStream` reply without a description.
pub fn delivery_stream_missing() -> (e: VaporError)
    ensures
        e matches VaporError::AwsSdk { code, message } && code is None && message@
            == "No delivery stream description"@,
{
    VaporError::without_code(String::from_str("No delivery stream description"))
}

} // verus!
