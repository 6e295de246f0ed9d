//! Inspector: the filter criteria of `ListFindings`.
use vstd::prelude::*;

verus! {

/// The filter criteria of `ListFindings`: equality on severity and on
/// resource type, each when requested.
#[derive(Debug, PartialEq, Eq)]
pub struct FindingFilterPlan {
    pub severity: Option<String>,
    pub resource_type: Option<String>,
}

/// The filter criteria for the caller's severity and resource type; no
/// criteria at all when neither is given.
pub fn finding_filter(severity: Option<String>, resource_type: Option<String>) -> (r: Option<
    FindingFilterPlan,
>)
    ensures
        severity is None && resource_type is None ==> r is None,
        severity is Some || resource_type is Some ==> r == Some(
            FindingFilterPlan { severity, resource_type },
        ),
{
    if severity.is_some() || resource_type.is_some() {
        Some(FindingFilterPlan { severity, resource_type })
    } else {
        None
    }
}

} // verus!
