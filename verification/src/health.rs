//! AWS Health: the event filter of `DescribeEvents`.
use vstd::prelude::*;
use crate::request::non_empty;
use crate::text::str_equals;

verus! {

/// An event status code (`EventStatusCode`).
#[derive(Clone, Copy, Debug, PartialEq, Eq)]
pub enum EventStatus {
    Open,
    Closed,
    Upcoming,
}

/// The status code a caller's text names, if it names one.
pub open spec fn status_named(text: Seq<char>) -> Option<EventStatus> {
    if text == "open"@ {
        Some(EventStatus::Open)
    } else if text == "closed"@ {
        Some(EventStatus::Closed)
    } else if text == "upcoming"@ {
        Some(EventStatus::Upcoming)
    } else {
        None
    }
}

/// The status codes named by `codes`, in order; other texts are dropped.
pub open spec fn named_statuses(codes: Seq<String>) -> Seq<EventStatus>
    decreases codes.len(),
{
    if codes.len() == 0 {
        seq![]
    } else {
        let rest = named_statuses(codes.drop_last());
        match status_named(codes.last()@) {
            Some(s) => rest.push(s),
            None => rest,
        }
    }
}

/// Reading two runs of codes one after the other reads those of the first,
/// then those of the second.
pub proof fn law_named_statuses_concat(a: Seq<String>, b: Seq<String>)
    ensures
        named_statuses(a + b) == named_statuses(a) + named_statuses(b),
    decreases b.len(),
{
    if b.len() == 0 {
        assert(a + b =~= a);
        assert(named_statuses(a) + named_statuses(b) =~= named_statuses(a));
    } else {
        law_named_statuses_concat(a, b.drop_last());
        assert((a + b).drop_last() =~= a + b.drop_last());
        assert((a + b).last() == b.last());
        assert(named_statuses(a + b) =~= named_statuses(a) + named_statuses(b));
    }
}

/// A single code reads as the status it spells, exactly `open`, `closed`
/// or `upcoming`, and as nothing otherwise.
pub proof fn law_named_statuses_single(code: String)
    ensures
        code@ == "open"@ ==> named_statuses(seq![code]) == seq![EventStatus::Open],
        code@ == "closed"@ ==> named_statuses(seq![code]) == seq![EventStatus::Closed],
        code@ == "upcoming"@ ==> named_statuses(seq![code]) == seq![EventStatus::Upcoming],
        code@ != "open"@ && code@ != "closed"@ && code@ != "upcoming"@ ==> named_statuses(
            seq![code],
        ).len() == 0,
{
    reveal_strlit("open");
    reveal_strlit("closed");
    reveal_strlit("upcoming");
    assert("closed"@[0] != "open"@[0] && "upcoming"@[0] != "open"@[0] && "upcoming"@[0]
        != "closed"@[0]);
    assert(seq![code].drop_last() =~= Seq::<String>::empty());
    assert(named_statuses(Seq::<String>::empty()).len() == 0);
    assert(Seq::<EventStatus>::empty().push(EventStatus::Open) =~= seq![EventStatus::Open]);
    assert(Seq::<EventStatus>::empty().push(EventStatus::Closed) =~= seq![EventStatus::Closed]);
    assert(Seq::<EventStatus>::empty().push(EventStatus::Upcoming) =~= seq![EventStatus::Upcoming]);
    reveal_strlit("open");
    reveal_strlit("closed");
    reveal_strlit("upcoming");
}

/// Reads `open`, `closed` and `upcoming` (exactly so written) as status
/// codes and drops any other text.
pub fn parse_status_codes(codes: Option<Vec<String>>) -> (r: Vec<EventStatus>)
    ensures
        r@ == (match codes {
            Some(c) => named_statuses(c@),
            None => Seq::<EventStatus>::empty(),
        }),
{
    let mut out: Vec<EventStatus> = Vec::new();
    match codes {
        Some(c) => {
            let mut i: usize = 0;
            while i < c.len()
                invariant
                    i <= c@.len(),
                    out@ == named_statuses(c@.take(i as int)),
                decreases c@.len() - i,
            {
                assert(c@.take(i + 1).drop_last() =~= c@.take(i as int));
                let s = c[i].as_str();
                if str_equals(s, "open") {
                    out.push(EventStatus::Open);
                } else if str_equals(s, "closed") {
                    out.push(EventStatus::Closed);
                } else if str_equals(s, "upcoming") {
                    out.push(EventStatus::Upcoming);
                }
                i += 1;
            }
            assert(c@.take(c@.len() as int) =~= c@);
        },
        None => {},
    }
    out
}

/// The event filter of `DescribeEvents`: each part is set only when it has
/// entries.
#[derive(Debug, PartialEq, Eq)]
pub struct EventFilterPlan {
    pub status_codes: Option<Vec<EventStatus>>,
    pub services: Option<Vec<String>>,
}

/// The event filter for the caller's status codes and services.
pub fn event_filter(status_codes: Option<Vec<String>>, services: Option<Vec<String>>) -> (r:
    EventFilterPlan)
    ensures
        (match status_codes {
            Some(c) => named_statuses(c@),
            None => Seq::<EventStatus>::empty(),
        }).len() == 0 ==> r.status_codes is None,
        (match status_codes {
            Some(c) => named_statuses(c@),
            None => Seq::<EventStatus>::empty(),
        }).len() > 0 ==> r.status_codes is Some && r.status_codes->Some_0@ == (match status_codes {
            Some(c) => named_statuses(c@),
            None => Seq::<EventStatus>::empty(),
        }),
        (match services {
            Some(s) => s@.len() > 0,
            None => false,
        }) <==> r.services is Some,
        r.services is Some ==> r.services == services,
{
    let codes = parse_status_codes(status_codes);
    let services = match services {
        Some(s) => non_empty(s),
        None => None,
    };
    EventFilterPlan { status_codes: non_empty(codes), services }
}

} // verus!
