//! Caller-driven pagination.
//!
//! Every listing operation of the service clients follows the same loop: ask
//! for a page (sized from the caller's `limit` and resumed from a
//! continuation token), fold the page into the running result, and stop once
//! the service reports no further token or the running total meets `limit`.
//! [`Pager`] holds that loop's state and makes each decision; the code that
//! talks to AWS only sends the requests it is handed and feeds back the
//! replies.
use vstd::prelude::*;

verus! {

/// How the page size of each request is derived from the caller's `limit`.
#[derive(Clone, Copy, Debug, PartialEq, Eq)]
pub enum PageSizing {
    /// The operation has no usable page-size field: requests carry none.
    Unbounded,
    /// Each request asks for exactly what is still missing from `limit`.
    Remaining,
    /// Each request asks for what is still missing, clamped to the range the
    /// service accepts (for example `[20, 100]` for `MaxRecords`).
    Clamped { floor: i32, ceiling: i32 },
}

/// Where `limit` is enforced on the collected items.
#[derive(Clone, Copy, Debug, PartialEq, Eq)]
pub enum LimitEnforcement {
    /// The service honours the requested page size; nothing is cut locally.
    ServerSide,
    /// The collected items are cut to `limit` once, after the last page.
    TruncateAtEnd,
    /// The collected items are cut to `limit` as soon as a page meets it.
    TruncatePerPage,
}

/// The paging behaviour of one operation.
#[derive(Clone, Copy, Debug, PartialEq, Eq)]
pub struct PagePolicy {
    pub sizing: PageSizing,
    pub enforcement: LimitEnforcement,
}

impl PagePolicy {
    /// The common shape: each request asks for the remaining budget and the
    /// service stops at it, so nothing is cut locally.
    pub fn server_capped() -> (p: PagePolicy)
        ensures
            p == (PagePolicy {
                sizing: PageSizing::Remaining,
                enforcement: LimitEnforcement::ServerSide,
            }),
            policy_valid(p),
    {
        PagePolicy { sizing: PageSizing::Remaining, enforcement: LimitEnforcement::ServerSide }
    }

    /// `MaxRecords` constrained to `[20, 100]` by the service: the request is
    /// clamped and the result cut to `limit` after the last page.
    pub fn clamped_records() -> (p: PagePolicy)
        ensures
            p == (PagePolicy {
                sizing: PageSizing::Clamped { floor: 20, ceiling: 100 },
                enforcement: LimitEnforcement::TruncateAtEnd,
            }),
            policy_valid(p),
    {
        PagePolicy {
            sizing: PageSizing::Clamped { floor: 20, ceiling: 100 },
            enforcement: LimitEnforcement::TruncateAtEnd,
        }
    }

    /// A page-size field with no documented minimum, and a local cut to
    /// `limit` after the last page.
    pub fn sized_then_truncated() -> (p: PagePolicy)
        ensures
            p == (PagePolicy {
                sizing: PageSizing::Remaining,
                enforcement: LimitEnforcement::TruncateAtEnd,
            }),
            policy_valid(p),
    {
        PagePolicy { sizing: PageSizing::Remaining, enforcement: LimitEnforcement::TruncateAtEnd }
    }

    /// No usable page-size field: `limit` is enforced by cutting the items
    /// as soon as a page meets it.
    pub fn client_side() -> (p: PagePolicy)
        ensures
            p == (PagePolicy {
                sizing: PageSizing::Unbounded,
                enforcement: LimitEnforcement::TruncatePerPage,
            }),
            policy_valid(p),
    {
        PagePolicy { sizing: PageSizing::Unbounded, enforcement: LimitEnforcement::TruncatePerPage }
    }
}

/// The paging fields of the next request to send.
#[derive(Debug, PartialEq, Eq)]
pub struct PageRequest {
    /// Value for the operation's page-size field (`max_results`,
    /// `max_records`, `max_items`, `page_size`, `limit`), if any is set.
    pub page_size: Option<i32>,
    /// Continuation token or marker to resume from, if any.
    pub token: Option<String>,
}

/// Whether the running total has met the caller's `limit`.
pub open spec fn limit_reached(limit: Option<i32>, collected: int) -> bool {
    match limit {
        Some(l) => collected >= l,
        None => false,
    }
}

/// `v` clamped into `[lo, hi]`.
pub open spec fn clamp_spec(v: int, lo: int, hi: int) -> int {
    if v < lo {
        lo
    } else if v > hi {
        hi
    } else {
        v
    }
}

/// The number of items a limit lets through: a negative limit lets none.
pub open spec fn allowance(l: i32) -> int {
    if l < 0 {
        0
    } else {
        l as int
    }
}

/// `items` cut down to at most `limit` items (unchanged without a limit).
pub open spec fn capped<T>(items: Seq<T>, limit: Option<i32>) -> Seq<T> {
    match limit {
        Some(l) => if items.len() > allowance(l) {
            items.take(allowance(l))
        } else {
            items
        },
        None => items,
    }
}

/// The page size requested once `collected` items have been gathered.
pub open spec fn page_size_for(sizing: PageSizing, limit: Option<i32>, collected: int) -> Option<
    int,
> {
    match limit {
        None => None,
        Some(l) => match sizing {
            PageSizing::Unbounded => None,
            PageSizing::Remaining => Some(l - collected),
            PageSizing::Clamped { floor, ceiling } => Some(
                clamp_spec(l - collected, floor as int, ceiling as int),
            ),
        },
    }
}

/// What a policy hands back from everything that was received.
pub open spec fn delivered<T>(policy: PagePolicy, limit: Option<i32>, received: Seq<T>) -> Seq<T> {
    match policy.enforcement {
        LimitEnforcement::ServerSide => received,
        _ => capped(received, limit),
    }
}

/// A policy is usable when its clamp range is not empty.
pub open spec fn policy_valid(policy: PagePolicy) -> bool {
    match policy.sizing {
        PageSizing::Clamped { floor, ceiling } => floor <= ceiling,
        _ => true,
    }
}

/// Cuts `items` to `limit` when the limit has been met, and says whether it
/// has: the client-side enforcement of operations whose page size the
/// service ignores.
pub fn apply_limit<T>(items: &mut Vec<T>, limit: Option<i32>) -> (reached: bool)
    ensures
        reached == limit_reached(limit, old(items)@.len() as int),
        reached ==> final(items)@ == capped(old(items)@, limit),
        !reached ==> final(items)@ == old(items)@,
{
    match limit {
        Some(l) => {
            let n = items.len();
            let reached = if l < 0 {
                true
            } else {
                n >= l as usize
            };
            if reached {
                let keep: usize = if l < 0 {
                    0
                } else {
                    l as usize
                };
                items.truncate(keep);
            }
            reached
        },
        None => false,
    }
}

/// Drops an empty continuation token: several services send `""` on the
/// last page instead of leaving the marker out.
pub fn non_empty_token(token: Option<String>) -> (r: Option<String>)
    ensures
        r == (match token {
            Some(t) => if t@.len() > 0 {
                Some(t)
            } else {
                None::<String>
            },
            None => None,
        }),
{
    match token {
        Some(t) => {
            if t.as_str().is_empty() {
                None
            } else {
                Some(t)
            }
        },
        None => None,
    }
}

/// The marker to resume from when the service flags a truncated listing
/// (IAM's `IsTruncated`/`Marker` pair): none unless the listing is truncated.
pub fn marker_if_truncated(is_truncated: bool, marker: Option<String>) -> (r: Option<String>)
    ensures
        r == (if is_truncated {
            marker
        } else {
            None::<String>
        }),
{
    if is_truncated {
        marker
    } else {
        None
    }
}

/// The continuation of a listing that resumes from the last key it returned
/// (Firehose's `ExclusiveStart...` parameters): an empty page ends the
/// listing, otherwise the last key is the next start point while the
/// service says more remain.
pub fn continuation_after_last(page_len: usize, last_key: Option<String>, has_more: bool) -> (r:
    Option<String>)
    ensures
        r == (if page_len == 0 || !has_more {
            None::<String>
        } else {
            last_key
        }),
{
    if page_len == 0 || !has_more {
        None
    } else {
        last_key
    }
}

fn clone_token(token: &Option<String>) -> (r: Option<String>)
    ensures
        r == *token,
{
    match token {
        Some(t) => Some(t.clone()),
        None => None,
    }
}

/// Every item of `replies`, page after page.
pub open spec fn replies_items<T>(replies: Seq<(Seq<T>, Option<String>)>) -> Seq<T>
    decreases replies.len(),
{
    if replies.len() == 0 {
        Seq::empty()
    } else {
        replies_items(replies.drop_last()) + replies.last().0
    }
}

/// A listing resumed from `start` after the service's replies (a page and
/// its continuation token each) are fed in order, replies after the stop
/// being left unused: the items received, the current token, whether the
/// listing has stopped, and how many replies it used.
pub open spec fn listing_after<T>(
    limit: Option<i32>,
    start: Option<String>,
    replies: Seq<(Seq<T>, Option<String>)>,
) -> (Seq<T>, Option<String>, bool, nat)
    decreases replies.len(),
{
    if replies.len() == 0 {
        (Seq::empty(), start, false, 0)
    } else {
        let before = listing_after(limit, start, replies.drop_last());
        if before.2 {
            before
        } else {
            let received = before.0 + replies.last().0;
            let next = replies.last().1;
            (received, next, next is None || limit_reached(limit, received.len() as int), before.3 + 1)
        }
    }
}

/// The paging fields of the request that follows the replies in
/// `replies` (all of them used): the page size left by the items received
/// so far, and the token of the last reply (or `start` before any).
pub open spec fn request_after<T>(
    policy: PagePolicy,
    limit: Option<i32>,
    start: Option<String>,
    replies: Seq<(Seq<T>, Option<String>)>,
) -> (Option<int>, Option<String>) {
    (
        page_size_for(policy.sizing, limit, replies_items(replies).len() as int),
        if replies.len() == 0 {
            start
        } else {
            replies.last().1
        },
    )
}

/// The state of one paginated listing.
pub struct Pager<T> {
    limit: Option<i32>,
    policy: PagePolicy,
    items: Vec<T>,
    token: Option<String>,
    finished: bool,
    received: Ghost<Seq<T>>,
    start: Ghost<Option<String>>,
    history: Ghost<Seq<(Seq<T>, Option<String>)>>,
}

impl<T> Pager<T> {
    /// The caller's limit.
    pub closed spec fn limit(&self) -> Option<i32> {
        self.limit
    }

    /// The paging behaviour.
    pub closed spec fn policy(&self) -> PagePolicy {
        self.policy
    }

    /// The items kept so far.
    pub closed spec fn items(&self) -> Seq<T> {
        self.items@
    }

    /// Every item received so far, in order, before any cut.
    pub closed spec fn received(&self) -> Seq<T> {
        self.received@
    }

    /// The token the next request resumes from (and, once finished, the one
    /// handed back to the caller).
    pub closed spec fn token(&self) -> Option<String> {
        self.token
    }

    /// Whether the listing has stopped.
    pub closed spec fn finished(&self) -> bool {
        self.finished
    }

    /// The token the listing was resumed from.
    pub closed spec fn start(&self) -> Option<String> {
        self.start@
    }

    /// The replies fed in so far, in order.
    pub closed spec fn history(&self) -> Seq<(Seq<T>, Option<String>)> {
        self.history@
    }

    /// The pager's internal consistency.
    pub closed spec fn wf(&self) -> bool {
        &&& policy_valid(self.policy)
        &&& self.items@ == (match self.policy.enforcement {
            LimitEnforcement::TruncatePerPage => capped(self.received@, self.limit),
            _ => self.received@,
        })
        &&& !self.finished ==> (self.received@.len() == 0 || !limit_reached(
            self.limit,
            self.received@.len() as int,
        ))
        &&& listing_after(self.limit, self.start@, self.history@) == (
            self.received@,
            self.token,
            self.finished,
            self.history@.len(),
        )
        &&& self.received@ == replies_items(self.history@)
    }

    /// A well-formed pager is the listing model of its replies: received
    /// items, token and stop all as [`listing_after`] gives them, every reply
    /// used, and the items kept are those received while it goes on.
    pub proof fn lemma_follows_model(&self)
        requires
            self.wf(),
        ensures
            listing_after(self.limit(), self.start(), self.history()) == (
                self.received(),
                self.token(),
                self.finished(),
                self.history().len(),
            ),
            self.received() == replies_items(self.history()),
            !self.finished() ==> self.items() == self.received(),
    {
        if !self.finished {
            if self.policy.enforcement == LimitEnforcement::TruncatePerPage {
                assert(capped(self.received@, self.limit) == self.received@);
            }
        }
    }

    /// Starts a listing with the caller's `limit`, resumed from
    /// `start_token` (the caller's `next_token`).
    pub fn new(limit: Option<i32>, start_token: Option<String>, policy: PagePolicy) -> (p: Self)
        requires
            policy_valid(policy),
        ensures
            p.wf(),
            p.limit() == limit,
            p.policy() == policy,
            p.items() == Seq::<T>::empty(),
            p.received() == Seq::<T>::empty(),
            p.token() == start_token,
            !p.finished(),
            p.start() == start_token,
            p.history() == Seq::<(Seq<T>, Option<String>)>::empty(),
    {
        Pager {
            limit,
            policy,
            items: Vec::new(),
            token: start_token,
            finished: false,
            received: Ghost(Seq::empty()),
            start: Ghost(start_token),
            history: Ghost(Seq::empty()),
        }
    }

    /// Whether the listing has stopped.
    pub fn is_finished(&self) -> (b: bool)
        ensures
            b == self.finished(),
    {
        self.finished
    }

    /// The number of items kept so far.
    pub fn collected(&self) -> (n: usize)
        ensures
            n == self.items().len(),
    {
        self.items.len()
    }

    /// The paging fields of the next request.
    pub fn next_request(&self) -> (r: PageRequest)
        requires
            self.wf(),
            !self.finished(),
        ensures
            r.token == self.token(),
            r.page_size == (match page_size_for(
                self.policy().sizing,
                self.limit(),
                self.items().len() as int,
            ) {
                Some(n) => Some(n as i32),
                None => None::<i32>,
            }),
            r.page_size matches Some(n) ==> n == page_size_for(
                self.policy().sizing,
                self.limit(),
                self.items().len() as int,
            )->Some_0,
            (match r.page_size {
                Some(n) => Some(n as int),
                None => None::<int>,
            }, r.token) == request_after(self.policy(), self.limit(), self.start(), self.history()),
    {
        proof {
            self.lemma_follows_model();
        }
        let token = clone_token(&self.token);
        let page_size = match self.limit {
            None => None,
            Some(l) => {
                match self.policy.sizing {
                    PageSizing::Unbounded => None,
                    PageSizing::Remaining => {
                        let n = self.items.len();
                        let remaining: i32 = if n == 0 {
                            l
                        } else {
                            l - (n as i32)
                        };
                        Some(remaining)
                    },
                    PageSizing::Clamped { floor, ceiling } => {
                        let n = self.items.len();
                        let remaining: i32 = if n == 0 {
                            l
                        } else {
                            l - (n as i32)
                        };
                        let size: i32 = if remaining < floor {
                            floor
                        } else if remaining > ceiling {
                            ceiling
                        } else {
                            remaining
                        };
                        Some(size)
                    },
                }
            },
        };
        PageRequest { page_size, token }
    }

    /// Folds in one page of results and the continuation token that came
    /// with it, and decides whether the listing goes on.
    pub fn receive(&mut self, page: Vec<T>, next_token: Option<String>)
        requires
            old(self).wf(),
            !old(self).finished(),
        ensures
            final(self).wf(),
            final(self).limit() == old(self).limit(),
            final(self).policy() == old(self).policy(),
            final(self).received() == old(self).received() + page@,
            final(self).token() == next_token,
            final(self).start() == old(self).start(),
            final(self).history() == old(self).history().push((page@, next_token)),
            final(self).finished() == (next_token is None || limit_reached(
                old(self).limit(),
                (old(self).received().len() + page@.len()) as int,
            )),
            final(self).items() == (match old(self).policy().enforcement {
                LimitEnforcement::TruncatePerPage => capped(
                    old(self).received() + page@,
                    old(self).limit(),
                ),
                _ => old(self).received() + page@,
            }),
    {
        let ghost before = self.received@;
        let mut page = page;
        let ghost page_items = page@;
        self.items.append(&mut page);
        self.received = Ghost(before + page_items);
        assert(self.items@ == self.received@) by {
            if let LimitEnforcement::TruncatePerPage = self.policy.enforcement {
                if before.len() > 0 {
                    assert(capped(before, self.limit) == before);
                }
            }
        }
        let reached = match self.policy.enforcement {
            LimitEnforcement::TruncatePerPage => apply_limit(&mut self.items, self.limit),
            _ => match self.limit {
                Some(l) => if l < 0 {
                    true
                } else {
                    self.items.len() >= l as usize
                },
                None => false,
            },
        };
        self.finished = next_token.is_none() || reached;
        self.token = next_token;
        let ghost old_history = self.history@;
        self.history = Ghost(old_history.push((page_items, self.token)));
        proof {
            assert(self.history@.drop_last() =~= old_history);
            assert(self.received@ == before + page_items);
        }
    }

    /// Ends the listing: the items to return and the token the caller can
    /// resume from.
    pub fn finish(self) -> (r: (Vec<T>, Option<String>))
        requires
            self.wf(),
        ensures
            r.0@ == delivered(self.policy(), self.limit(), self.received()),
            r.1 == self.token(),
    {
        let mut items = self.items;
        if let LimitEnforcement::TruncateAtEnd = self.policy.enforcement {
            if let Some(l) = self.limit {
                let keep: usize = if l < 0 {
                    0
                } else {
                    l as usize
                };
                items.truncate(keep);
            }
        }
        (items, self.token)
    }
}

/// The whole loop of a listing: fed the service's replies in order, it
/// uses them up to the first one whose token is exhausted or after which
/// `limit` is met (every earlier one carries a token and leaves the limit
/// unmet), never uses a reply after that, gathers exactly the items of the
/// replies it used, in order, and holds the token of the last one (or the
/// starting token before any).
pub proof fn law_listing_model<T>(
    limit: Option<i32>,
    start: Option<String>,
    replies: Seq<(Seq<T>, Option<String>)>,
)
    ensures
        ({
            let r = listing_after(limit, start, replies);
            &&& r.3 <= replies.len()
            &&& r.0 == replies_items(replies.take(r.3 as int))
            &&& r.3 == 0 ==> r.1 == start && !r.2
            &&& r.3 > 0 ==> r.1 == replies[r.3 - 1].1
            &&& r.3 < replies.len() ==> r.2
            &&& r.2 <==> (r.3 > 0 && (replies[r.3 - 1].1 is None || limit_reached(
                limit,
                r.0.len() as int,
            )))
            &&& forall|i: int|
                0 <= i < r.3 - 1 ==> (#[trigger] replies[i]).1 is Some && !limit_reached(
                    limit,
                    replies_items(replies.take(i + 1)).len() as int,
                )
        }),
    decreases replies.len(),
{
    if replies.len() > 0 {
        let prev = replies.drop_last();
        law_listing_model(limit, start, prev);
        let b = listing_after(limit, start, prev);
        let r = listing_after(limit, start, replies);
        assert forall|k: int| 0 <= k <= prev.len() implies #[trigger] replies.take(k) == prev.take(k) by {
            assert(replies.take(k) =~= prev.take(k));
        }
        assert forall|i: int| 0 <= i < prev.len() implies #[trigger] replies[i] == prev[i] by {}
        if b.2 {
            assert(r == b);
        } else {
            assert(b.3 == prev.len());
            assert(prev.take(b.3 as int) =~= prev);
            assert(replies.take(replies.len() as int) =~= replies);
            assert(replies.drop_last() =~= prev);
            assert(r.0 == replies_items(replies));
            assert forall|i: int| 0 <= i < r.3 - 1 implies (#[trigger] replies[i]).1 is Some
                && !limit_reached(limit, replies_items(replies.take(i + 1)).len() as int) by {
                if i == b.3 - 1 {
                    assert(replies.take(i + 1) == prev.take(b.3 as int));
                }
            }
        }
    }
}

/// The requests and the result of a whole listing fed `replies`: the
/// request sent before the `i`-th reply it uses asks for the page size left
/// by the items of the replies before it and carries the token of the reply
/// before it (the starting token first); the listing hands back the items
/// of the replies it used, as the policy cuts them, with the token of the
/// last one.
pub proof fn law_listing_requests_and_result<T>(
    policy: PagePolicy,
    limit: Option<i32>,
    start: Option<String>,
    replies: Seq<(Seq<T>, Option<String>)>,
)
    ensures
        ({
            let r = listing_after(limit, start, replies);
            &&& forall|i: int|
                0 <= i < r.3 ==> #[trigger] request_after(policy, limit, start, replies.take(i)) == (
                    page_size_for(policy.sizing, limit, replies_items(replies.take(i)).len() as int),
                    if i == 0 {
                        start
                    } else {
                        replies[i - 1].1
                    },
                )
            &&& delivered(policy, limit, r.0) == delivered(
                policy,
                limit,
                replies_items(replies.take(r.3 as int)),
            )
            &&& r.1 == (if r.3 == 0 {
                start
            } else {
                replies[r.3 - 1].1
            })
        }),
{
    law_listing_model(limit, start, replies);
    let r = listing_after(limit, start, replies);
    assert forall|i: int| 0 < i < r.3 implies #[trigger] replies.take(i).last() == replies[i - 1] by {}
}

/// While a listing goes on, it has used every reply: it holds all their
/// items and the token of the last one (the starting token before any),
/// which is present, with `limit` not yet met.
proof fn lemma_unfinished_used_all<T>(
    limit: Option<i32>,
    start: Option<String>,
    replies: Seq<(Seq<T>, Option<String>)>,
)
    ensures
        ({
            let r = listing_after(limit, start, replies);
            !r.2 ==> {
                &&& r.3 == replies.len()
                &&& r.0 == replies_items(replies)
                &&& replies.len() == 0 ==> r.1 == start
                &&& replies.len() > 0 ==> r.1 == replies.last().1 && r.1 is Some
                    && !limit_reached(limit, r.0.len() as int)
            }
        }),
    decreases replies.len(),
{
    if replies.len() > 0 {
        lemma_unfinished_used_all(limit, start, replies.drop_last());
    }
}

/// The reply of a service that holds `all` in order and hands out `tok(q)`
/// as the token of position `q`, to a request from position `pos` for
/// `size` items (`default_size` when the request sets none): the items
/// that follow, up to that many, and the token of the position after them,
/// none once they reach the end.
pub open spec fn cursor_reply<T>(
    all: Seq<T>,
    tok: spec_fn(int) -> String,
    default_size: int,
    pos: int,
    size: Option<int>,
) -> (Seq<T>, Option<String>) {
    let want = match size {
        Some(m) => m,
        None => default_size,
    };
    let n = if want < 0 {
        0
    } else if want > all.len() - pos {
        all.len() - pos
    } else {
        want
    };
    (all.subrange(pos, pos + n), if pos + n < all.len() {
        Some(tok(pos + n))
    } else {
        None
    })
}

/// No two positions share a token.
#[verifier::opaque]
pub open spec fn distinct_tokens(tok: spec_fn(int) -> String) -> bool {
    forall|a: int, b: int| #[trigger] tok(a) == #[trigger] tok(b) ==> a == b
}

/// The position a request's token names, for a service that hands out
/// `tok(q)` as the token of position `q`: the beginning for no token.
pub open spec fn named_position(tok: spec_fn(int) -> String, token: Option<String>) -> int {
    match token {
        None => 0,
        Some(t) => choose|q: int| #[trigger] tok(q) == t,
    }
}

/// `replies` are what such a service answers, in order, to the requests of
/// a listing resumed from `start` whose requests ask for the remaining
/// budget under `limit` (the shape whose limit the service enforces).
#[verifier::opaque]
pub open spec fn served_by_cursor<T>(
    all: Seq<T>,
    tok: spec_fn(int) -> String,
    default_size: int,
    limit: Option<i32>,
    start: Option<String>,
    replies: Seq<(Seq<T>, Option<String>)>,
) -> bool {
    forall|i: int|
        0 <= i < replies.len() ==> #[trigger] replies[i] == cursor_reply(
            all,
            tok,
            default_size,
            named_position(
                tok,
                request_after(
                    PagePolicy {
                        sizing: PageSizing::Remaining,
                        enforcement: LimitEnforcement::ServerSide,
                    },
                    limit,
                    start,
                    replies.take(i),
                ).1,
            ),
            request_after(
                PagePolicy {
                    sizing: PageSizing::Remaining,
                    enforcement: LimitEnforcement::ServerSide,
                },
                limit,
                start,
                replies.take(i),
            ).0,
        )
}

proof fn lemma_named_position(tok: spec_fn(int) -> String, q: int)
    requires
        distinct_tokens(tok),
    ensures
        named_position(tok, Some(tok(q))) == q,
{
    reveal(distinct_tokens);
    let t = tok(q);
    assert(tok(q) == t);
    let c = choose|x: int| #[trigger] tok(x) == t;
    assert(tok(c) == tok(q));
}

/// What serving the replies of a listing in order says of one more reply
/// and of the replies before it.
proof fn lemma_served_step<T>(
    all: Seq<T>,
    tok: spec_fn(int) -> String,
    default_size: int,
    limit: Option<i32>,
    start: Option<String>,
    replies: Seq<(Seq<T>, Option<String>)>,
)
    requires
        replies.len() > 0,
        served_by_cursor(all, tok, default_size, limit, start, replies),
    ensures
        served_by_cursor(all, tok, default_size, limit, start, replies.drop_last()),
        ({
            let policy = PagePolicy {
                sizing: PageSizing::Remaining,
                enforcement: LimitEnforcement::ServerSide,
            };
            let prev = replies.drop_last();
            replies.last() == cursor_reply(
                all,
                tok,
                default_size,
                named_position(tok, request_after(policy, limit, start, prev).1),
                request_after(policy, limit, start, prev).0,
            )
        }),
{
    reveal(served_by_cursor);
    let prev = replies.drop_last();
    let k = prev.len() as int;
    assert(replies.take(k) =~= prev);
    assert(replies.last() == replies[k]);
    assert forall|i: int| 0 <= i < prev.len() implies #[trigger] prev[i] == cursor_reply(
        all,
        tok,
        default_size,
        named_position(
            tok,
            request_after(
                PagePolicy { sizing: PageSizing::Remaining, enforcement: LimitEnforcement::ServerSide },
                limit,
                start,
                prev.take(i),
            ).1,
        ),
        request_after(
            PagePolicy { sizing: PageSizing::Remaining, enforcement: LimitEnforcement::ServerSide },
            limit,
            start,
            prev.take(i),
        ).0,
    ) by {
        assert(prev.take(i) =~= replies.take(i));
        assert(prev[i] == replies[i]);
    }
}

/// Against a service that serves a fixed sequence `all` by position and
/// honours the page size, a listing resumed from position `p0` (with the
/// token of `p0`, or none at the beginning), with no limit or a positive
/// one, hands back the items that follow `p0`, in order, at most `limit`
/// of them; the token it hands back is that of the position right after
/// them, none exactly when they reach the end; and it stops within
/// `all.len() - p0 + 1` replies.
pub proof fn law_cursor_listing<T>(
    all: Seq<T>,
    tok: spec_fn(int) -> String,
    default_size: int,
    limit: Option<i32>,
    p0: int,
    start: Option<String>,
    replies: Seq<(Seq<T>, Option<String>)>,
)
    requires
        distinct_tokens(tok),
        0 <= p0 <= all.len(),
        default_size >= 1,
        limit is Some ==> limit->Some_0 >= 1,
        start is None ==> p0 == 0,
        start is Some ==> start->Some_0 == tok(p0),
        served_by_cursor(all, tok, default_size, limit, start, replies),
    ensures
        ({
            let r = listing_after(limit, start, replies);
            &&& p0 + r.0.len() <= all.len()
            &&& r.0 == all.subrange(p0, p0 + r.0.len())
            &&& limit is Some ==> r.0.len() <= limit->Some_0
            &&& r.3 > 0 ==> r.1 == (if p0 + r.0.len() < all.len() {
                Some(tok(p0 + r.0.len()))
            } else {
                None
            })
            &&& r.3 == 0 ==> r.1 == start
            &&& !r.2 ==> r.0.len() >= replies.len()
            &&& replies.len() > all.len() - p0 ==> r.2
        }),
    decreases replies.len(),
{
    if replies.len() == 0 {
        assert(all.subrange(p0, p0) =~= Seq::<T>::empty());
    } else {
        let policy = PagePolicy {
            sizing: PageSizing::Remaining,
            enforcement: LimitEnforcement::ServerSide,
        };
        let prev = replies.drop_last();
        let k = prev.len() as int;
        lemma_served_step(all, tok, default_size, limit, start, replies);
        law_cursor_listing(all, tok, default_size, limit, p0, start, prev);
        lemma_unfinished_used_all(limit, start, prev);
        let b = listing_after(limit, start, prev);
        let r = listing_after(limit, start, replies);
        if !b.2 {
            let m = b.0.len() as int;
            let req = request_after(policy, limit, start, prev);
            assert(req.0 == page_size_for(PageSizing::Remaining, limit, m));
            if k == 0 {
                if start is Some {
                    lemma_named_position(tok, p0);
                }
            } else {
                lemma_named_position(tok, p0 + m);
            }
            assert(named_position(tok, req.1) == p0 + m);
            let last = replies.last();
            assert(last == cursor_reply(all, tok, default_size, p0 + m, req.0));
            assert(r.0 == b.0 + last.0);
            assert(r.0 =~= all.subrange(p0, p0 + r.0.len()));
        }
    }
}

/// A capped listing followed by an unlimited one resumed from the token it
/// handed back skips and repeats nothing: together they hand back exactly
/// the items that follow the first one's starting position, and the
/// second one ends the listing.
pub proof fn law_resume_continues_exactly<T>(
    all: Seq<T>,
    tok: spec_fn(int) -> String,
    default_size: int,
    l: i32,
    p0: int,
    start: Option<String>,
    first: Seq<(Seq<T>, Option<String>)>,
    rest: Seq<(Seq<T>, Option<String>)>,
)
    requires
        distinct_tokens(tok),
        0 <= p0 <= all.len(),
        default_size >= 1,
        l >= 1,
        start is None ==> p0 == 0,
        start is Some ==> start->Some_0 == tok(p0),
        served_by_cursor(all, tok, default_size, Some(l), start, first),
        first.len() > all.len() - p0,
        listing_after(Some(l), start, first).1 is Some,
        served_by_cursor(
            all,
            tok,
            default_size,
            None,
            listing_after(Some(l), start, first).1,
            rest,
        ),
        rest.len() > all.len() - p0,
    ensures
        listing_after(Some(l), start, first).0.len() <= l,
        listing_after(Some(l), start, first).0 + listing_after(
            None,
            listing_after(Some(l), start, first).1,
            rest,
        ).0 == all.skip(p0),
        listing_after(None, listing_after(Some(l), start, first).1, rest).1 is None,
{
    law_cursor_listing(all, tok, default_size, Some(l), p0, start, first);
    law_listing_model(Some(l), start, first);
    let a = listing_after(Some(l), start, first);
    let p1 = p0 + a.0.len();
    law_cursor_listing(all, tok, default_size, None, p1, a.1, rest);
    law_listing_model(None, a.1, rest);
    let b = listing_after(None, a.1, rest);
    assert(a.2 && a.3 > 0);
    assert(p1 < all.len() && a.1 == Some(tok(p1)));
    assert(b.2 && b.3 > 0 && b.1 is None);
    assert(p1 + b.0.len() == all.len());
    assert(a.0 + b.0 =~= all.skip(p0));
}

/// Cutting to a limit keeps the first items, as many as the limit lets
/// through or all of them when there are fewer; without a limit it keeps
/// everything.
pub proof fn law_capped<T>(items: Seq<T>, limit: Option<i32>)
    ensures
        limit is None ==> capped(items, limit) == items,
        limit matches Some(l) ==> {
            &&& capped(items, limit).len() == (if items.len() < allowance(l) {
                items.len() as int
            } else {
                allowance(l)
            })
            &&& capped(items, limit) == items.take(capped(items, limit).len() as int)
        },
        forall|l: i32| l >= 0 ==> #[trigger] allowance(l) == l,
        forall|l: i32| l < 0 ==> #[trigger] allowance(l) == 0,
{
    assert(items.take(items.len() as int) =~= items);
}

/// Clamping keeps a value inside the range, and leaves one already inside
/// it unchanged; below the range it gives the floor, above it the ceiling.
pub proof fn law_clamp(v: int, lo: int, hi: int)
    requires
        lo <= hi,
    ensures
        lo <= clamp_spec(v, lo, hi) <= hi,
        lo <= v <= hi ==> clamp_spec(v, lo, hi) == v,
        v < lo ==> clamp_spec(v, lo, hi) == lo,
        v > hi ==> clamp_spec(v, lo, hi) == hi,
{
}

/// The items of two runs of replies are those of the first run, then those
/// of the second; a single reply's items are its page.
pub proof fn law_replies_items<T>(
    a: Seq<(Seq<T>, Option<String>)>,
    b: Seq<(Seq<T>, Option<String>)>,
    reply: (Seq<T>, Option<String>),
)
    ensures
        replies_items(a + b) == replies_items(a) + replies_items(b),
        replies_items(seq![reply]) == reply.0,
    decreases b.len(),
{
    if b.len() == 0 {
        assert(a + b =~= a);
        assert(replies_items(a) + replies_items(b) =~= replies_items(a));
    } else {
        law_replies_items(a, b.drop_last(), reply);
        assert((a + b).drop_last() =~= a + b.drop_last());
        assert((a + b).last() == b.last());
        assert(replies_items(a + b) =~= replies_items(a) + replies_items(b));
    }
    assert(seq![reply].drop_last() =~= Seq::<(Seq<T>, Option<String>)>::empty());
    assert(seq![reply].last() == reply);
    assert(replies_items(Seq::<(Seq<T>, Option<String>)>::empty()) == Seq::<T>::empty());
    assert(Seq::<T>::empty() + reply.0 =~= reply.0);
}

/// A limit is met once as many items as it names were gathered; without a
/// limit it never is.
pub proof fn law_limit_reached(limit: Option<i32>, collected: int)
    ensures
        limit is None ==> !limit_reached(limit, collected),
        limit matches Some(l) ==> (limit_reached(limit, collected) <==> collected >= l),
{
}

/// A listing with a limit and a truncating policy never hands back more
/// than `limit` items (none for a negative limit).
pub proof fn law_delivered_within_limit<T>(policy: PagePolicy, l: i32, received: Seq<T>)
    requires
        policy.enforcement != LimitEnforcement::ServerSide,
    ensures
        delivered(policy, Some(l), received).len() <= allowance(l),
{
}

/// What a listing hands back is the items the service returned, in the
/// order it returned them, possibly cut short: never reordered, never
/// invented.
pub proof fn law_delivered_is_prefix<T>(policy: PagePolicy, limit: Option<i32>, received: Seq<T>)
    ensures
        delivered(policy, limit, received).len() <= received.len(),
        delivered(policy, limit, received) == received.take(
            delivered(policy, limit, received).len() as int,
        ),
{
    assert(received.take(received.len() as int) =~= received);
}

/// Without a limit nothing is dropped: every item of every page is handed
/// back.
pub proof fn law_no_limit_keeps_everything<T>(policy: PagePolicy, received: Seq<T>)
    ensures
        delivered(policy, None, received) == received,
{
}

/// A request made while the listing goes on never asks for more than the
/// budget left under `limit` (nor for nothing, once items were collected),
/// and a clamped request stays inside the range the service accepts.
pub proof fn law_request_within_budget(sizing: PageSizing, l: i32, collected: int)
    requires
        0 <= collected,
        collected == 0 || !limit_reached(Some(l), collected),
    ensures
        sizing == PageSizing::Remaining ==> page_size_for(sizing, Some(l), collected) == Some(
            l - collected,
        ),
        sizing == PageSizing::Remaining && collected > 0 ==> page_size_for(
            sizing,
            Some(l),
            collected,
        )->Some_0 >= 1,
        (match sizing {
            PageSizing::Clamped { floor, ceiling } => floor <= ceiling ==> floor <= page_size_for(
                sizing,
                Some(l),
                collected,
            )->Some_0 <= ceiling,
            _ => true,
        }),
        sizing == PageSizing::Unbounded ==> page_size_for(sizing, Some(l), collected) is None,
{
}

} // verus!
