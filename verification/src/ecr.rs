//! ECR: image identifiers of image lookups, and the gathering of image scan
//! findings across pages.
use vstd::prelude::*;
use crate::pagination::{
    Pager, PagePolicy, PageRequest, PageSizing, LimitEnforcement, delivered, limit_reached,
    page_size_for, request_after, capped, listing_after, replies_items,
    law_listing_requests_and_result,
};
use crate::time::Timestamp;

verus! {

/// An image identifier of a `DescribeImages` request.
#[derive(Debug, PartialEq, Eq)]
pub enum ImageIdSpec {
    Tag(String),
    Digest(String),
}

/// An identifier as its kind (tag or not) and its text.
pub open spec fn image_id_view(id: ImageIdSpec) -> (bool, Seq<char>) {
    match id {
        ImageIdSpec::Tag(t) => (true, t@),
        ImageIdSpec::Digest(d) => (false, d@),
    }
}

/// An identifier's view tells a tag from a digest and keeps its text.
pub proof fn law_image_id_view(t: String, d: String)
    ensures
        image_id_view(ImageIdSpec::Tag(t)).0 && image_id_view(ImageIdSpec::Tag(t)).1 == t@,
        !image_id_view(ImageIdSpec::Digest(d)).0 && image_id_view(ImageIdSpec::Digest(d)).1 == d@,
{
}

/// The requested tags, then the requested digests.
pub open spec fn requested_ids(tags: Option<Vec<String>>, digests: Option<Vec<String>>) -> Seq<
    (bool, Seq<char>),
> {
    let t = match tags {
        Some(v) => v@.map_values(|s: String| (true, s@)),
        None => seq![],
    };
    let d = match digests {
        Some(v) => v@.map_values(|s: String| (false, s@)),
        None => seq![],
    };
    t + d
}

/// The identifiers asked for: one per requested tag, in order, then one
/// per requested digest, in order, each kind whether or not the other was
/// given.
pub proof fn law_requested_ids(tags: Option<Vec<String>>, digests: Option<Vec<String>>)
    ensures
        ({
            let ts = match tags {
                Some(v) => v@,
                None => Seq::<String>::empty(),
            };
            let ds = match digests {
                Some(v) => v@,
                None => Seq::<String>::empty(),
            };
            let r = requested_ids(tags, digests);
            &&& r.len() == ts.len() + ds.len()
            &&& forall|k: int| 0 <= k < ts.len() ==> #[trigger] r[k] == (true, ts[k]@)
            &&& forall|k: int| 0 <= k < ds.len() ==> #[trigger] r[ts.len() + k] == (false, ds[k]@)
        }),
{
}

/// The image identifiers of a `DescribeImages` request: one per requested
/// tag, then one per requested digest.
pub fn image_identifiers(tags: &Option<Vec<String>>, digests: &Option<Vec<String>>) -> (r: Vec<
    ImageIdSpec,
>)
    ensures
        r@.map_values(|id: ImageIdSpec| image_id_view(id)) == requested_ids(*tags, *digests),
{
    let mut out: Vec<ImageIdSpec> = Vec::new();
    let ghost t_part = match tags {
        Some(v) => v@.map_values(|s: String| (true, s@)),
        None => seq![],
    };
    let ghost d_part = match digests {
        Some(v) => v@.map_values(|s: String| (false, s@)),
        None => seq![],
    };
    assert(out@.map_values(|id: ImageIdSpec| image_id_view(id)) =~= t_part.take(0));
    if let Some(t) = tags {
        let mut i: usize = 0;
        while i < t.len()
            invariant
                i <= t@.len(),
                t_part == t@.map_values(|s: String| (true, s@)),
                out@.map_values(|id: ImageIdSpec| image_id_view(id)) == t_part.take(i as int),
            decreases t@.len() - i,
        {
            let ghost before = out@;
            out.push(ImageIdSpec::Tag(t[i].clone()));
            assert(out@.map_values(|id: ImageIdSpec| image_id_view(id)) =~= before.map_values(
                |id: ImageIdSpec| image_id_view(id),
            ).push((true, t@[i as int]@)));
            assert(t_part.take(i + 1) =~= t_part.take(i as int).push(t_part[i as int]));
            i += 1;
        }
        assert(t_part.take(t@.len() as int) =~= t_part);
    } else {
        assert(t_part.take(0) =~= t_part);
    }
    let ghost mid = out@;
    assert(mid.map_values(|id: ImageIdSpec| image_id_view(id)) + d_part.take(0) =~= mid.map_values(
        |id: ImageIdSpec| image_id_view(id),
    ));
    if let Some(d) = digests {
        let mut i: usize = 0;
        while i < d.len()
            invariant
                i <= d@.len(),
                d_part == d@.map_values(|s: String| (false, s@)),
                out@.map_values(|id: ImageIdSpec| image_id_view(id)) == mid.map_values(
                    |id: ImageIdSpec| image_id_view(id),
                ) + d_part.take(i as int),
            decreases d@.len() - i,
        {
            let ghost before = out@;
            out.push(ImageIdSpec::Digest(d[i].clone()));
            assert(out@.map_values(|id: ImageIdSpec| image_id_view(id)) =~= before.map_values(
                |id: ImageIdSpec| image_id_view(id),
            ).push((false, d@[i as int]@)));
            assert(d_part.take(i + 1) =~= d_part.take(i as int).push(d_part[i as int]));
            i += 1;
        }
        assert(d_part.take(d@.len() as int) =~= d_part);
    } else {
        assert(d_part.take(0) =~= d_part);
    }
    out
}

/// The findings part of a `DescribeImageScanFindings` reply.
#[derive(Debug)]
pub struct FindingsBlock<T> {
    pub completed_at: Option<Timestamp>,
    pub severity_counts: Option<Vec<(String, i64)>>,
    pub findings: Vec<T>,
}

/// What one `DescribeImageScanFindings` page carries: the scan status, the
/// image tag of the reply's image id, and the findings part, each when
/// present.
#[derive(Debug)]
pub struct ScanFindingsPage<T> {
    pub scan_status: Option<String>,
    pub image_tag: Option<String>,
    pub findings: Option<FindingsBlock<T>>,
}

/// The scan metadata gathered so far. AWS repeats it on every page; the
/// first value seen of each item is kept.
#[derive(Debug)]
pub struct ScanMetadata {
    pub image_tags: Vec<String>,
    pub scan_status: Option<String>,
    pub scan_completed_at: Option<Timestamp>,
    pub finding_severity_counts: Vec<(String, i64)>,
    pub counts_collected: bool,
}

/// The aggregated result of `describe_image_scan_findings`: the scan
/// metadata and the findings gathered, capped and resumed like any other
/// listing.
#[derive(Debug)]
pub struct ImageScanFindingsResult<T> {
    pub image_tags: Vec<String>,
    pub scan_status: Option<String>,
    pub scan_completed_at: Option<Timestamp>,
    pub finding_severity_counts: Vec<(String, i64)>,
    pub findings: Vec<T>,
}

/// The first present value of `values`, none when every one is absent.
pub open spec fn first_present(values: Seq<Option<String>>) -> Option<String>
    decreases values.len(),
{
    if values.len() == 0 {
        None
    } else {
        let before = first_present(values.drop_last());
        if before is Some {
            before
        } else {
            values.last()
        }
    }
}

/// `first_present` is the value at the first position holding one.
pub proof fn lemma_first_present(values: Seq<Option<String>>)
    ensures
        (forall|j: int| 0 <= j < values.len() ==> (#[trigger] values[j]) is None) ==> first_present(
            values,
        ) is None,
        forall|j: int|
            0 <= j < values.len() && (#[trigger] values[j]) is Some && (forall|i: int|
                0 <= i < j ==> values[i] is None) ==> first_present(values) == values[j],
    decreases values.len(),
{
    if values.len() > 0 {
        let prev = values.drop_last();
        lemma_first_present(prev);
        assert forall|j: int| 0 <= j < prev.len() implies #[trigger] prev[j] == values[j] by {}
        if first_present(prev) is None {
            assert forall|j: int|
                0 <= j < values.len() - 1 && (#[trigger] values[j]) is Some implies !(forall|i: int|
                    0 <= i < j ==> values[i] is None) by {
                assert(prev[j] is Some);
                if forall|i: int| 0 <= i < j ==> values[i] is None {
                    assert(forall|i: int| 0 <= i < j ==> prev[i] is None);
                    assert(first_present(prev) == prev[j]);
                }
            }
        } else {
            assert forall|j: int|
                0 <= j < values.len() && (#[trigger] values[j]) is Some && (forall|i: int|
                    0 <= i < j ==> values[i] is None) implies first_present(values) == values[j] by {
                if j == values.len() - 1 {
                    assert forall|i: int| 0 <= i < prev.len() implies (#[trigger] prev[i]) is None by {
                        assert(values[i] is None);
                    }
                } else {
                    assert(prev[j] is Some);
                    assert forall|i: int| 0 <= i < j implies (#[trigger] prev[i]) is None by {
                        assert(values[i] is None);
                    }
                }
            }
        }
    }
}

/// The gathering of scan findings across pages.
pub struct ScanFindingsCollector<T> {
    pub meta: ScanMetadata,
    pub pager: Pager<T>,
    pub statuses: Ghost<Seq<Option<String>>>,
}

impl<T> ScanFindingsCollector<T> {
    /// The scan status each absorbed page carried, in order.
    pub open spec fn statuses(&self) -> Seq<Option<String>> {
        self.statuses@
    }

    /// The scan status kept is the first one the absorbed pages carried,
    /// one page per reply the pager received.
    pub open spec fn tracks(&self) -> bool {
        &&& self.meta.scan_status == first_present(self.statuses())
        &&& self.statuses().len() == self.pager.history().len()
    }

    /// Starts gathering with the caller's `limit` on findings, resumed from
    /// `next_token`.
    pub fn new(limit: Option<i32>, next_token: Option<String>) -> (c: Self)
        ensures
            c.pager.wf(),
            !c.pager.finished(),
            c.pager.limit() == limit,
            c.pager.token() == next_token,
            c.pager.policy() == (PagePolicy {
                sizing: PageSizing::Remaining,
                enforcement: LimitEnforcement::ServerSide,
            }),
            c.pager.received() == Seq::<T>::empty(),
            c.pager.items() == Seq::<T>::empty(),
            c.pager.start() == next_token,
            c.pager.history() == Seq::<(Seq<T>, Option<String>)>::empty(),
            c.statuses() == Seq::<Option<String>>::empty(),
            c.tracks(),
            c.meta.image_tags@.len() == 0,
            c.meta.scan_status is None,
            c.meta.scan_completed_at is None,
            c.meta.finding_severity_counts@.len() == 0,
            !c.meta.counts_collected,
    {
        ScanFindingsCollector {
            meta: ScanMetadata {
                image_tags: Vec::new(),
                scan_status: None,
                scan_completed_at: None,
                finding_severity_counts: Vec::new(),
                counts_collected: false,
            },
            pager: Pager::new(limit, next_token, PagePolicy::server_capped()),
            statuses: Ghost(Seq::empty()),
        }
    }

    /// The paging fields of the next request.
    pub fn next_request(&self) -> (r: PageRequest)
        requires
            self.pager.wf(),
            !self.pager.finished(),
        ensures
            r.token == self.pager.token(),
            r.page_size == (match page_size_for(
                self.pager.policy().sizing,
                self.pager.limit(),
                self.pager.items().len() as int,
            ) {
                Some(n) => Some(n as i32),
                None => None::<i32>,
            }),
            (match r.page_size {
                Some(n) => Some(n as int),
                None => None::<int>,
            }, r.token) == request_after(
                self.pager.policy(),
                self.pager.limit(),
                self.pager.start(),
                self.pager.history(),
            ),
    {
        self.pager.next_request()
    }

    /// Folds in one page: each metadata item keeps its first present value,
    /// the severity counts come from the first page with a findings part,
    /// and that part's findings join the listing.
    pub fn absorb(&mut self, page: ScanFindingsPage<T>, next_token: Option<String>)
        requires
            old(self).pager.wf(),
            !old(self).pager.finished(),
            old(self).tracks(),
        ensures
            final(self).pager.wf(),
            final(self).tracks(),
            final(self).statuses() == old(self).statuses().push(page.scan_status),
            final(self).pager.limit() == old(self).pager.limit(),
            final(self).pager.policy() == old(self).pager.policy(),
            final(self).pager.token() == next_token,
            final(self).pager.received() == old(self).pager.received() + (match page.findings {
                Some(b) => b.findings@,
                None => Seq::<T>::empty(),
            }),
            final(self).pager.items() == (match old(self).pager.policy().enforcement {
                LimitEnforcement::TruncatePerPage => capped(
                    final(self).pager.received(),
                    old(self).pager.limit(),
                ),
                _ => final(self).pager.received(),
            }),
            final(self).pager.start() == old(self).pager.start(),
            final(self).pager.history() == old(self).pager.history().push(
                (
                    match page.findings {
                        Some(b) => b.findings@,
                        None => Seq::<T>::empty(),
                    },
                    next_token,
                ),
            ),
            final(self).pager.finished() == (next_token is None || limit_reached(
                old(self).pager.limit(),
                final(self).pager.received().len() as int,
            )),
            final(self).meta.scan_status == (if old(self).meta.scan_status is None {
                page.scan_status
            } else {
                old(self).meta.scan_status
            }),
            final(self).meta.image_tags@ == (if old(self).meta.image_tags@.len() == 0
                && page.image_tag is Some {
                seq![page.image_tag->Some_0]
            } else {
                old(self).meta.image_tags@
            }),
            final(self).meta.scan_completed_at == (match page.findings {
                Some(b) => if old(self).meta.scan_completed_at is None {
                    b.completed_at
                } else {
                    old(self).meta.scan_completed_at
                },
                None => old(self).meta.scan_completed_at,
            }),
            final(self).meta.finding_severity_counts@ == (match page.findings {
                Some(b) => if !old(self).meta.counts_collected {
                    old(self).meta.finding_severity_counts@ + (match b.severity_counts {
                        Some(c) => c@,
                        None => Seq::<(String, i64)>::empty(),
                    })
                } else {
                    old(self).meta.finding_severity_counts@
                },
                None => old(self).meta.finding_severity_counts@,
            }),
            final(self).meta.counts_collected == (old(self).meta.counts_collected
                || page.findings is Some),
    {
        let ghost status = page.scan_status;
        let ghost old_statuses = self.statuses@;
        if self.meta.scan_status.is_none() {
            self.meta.scan_status = page.scan_status;
        }
        if self.meta.image_tags.len() == 0 {
            if let Some(tag) = page.image_tag {
                self.meta.image_tags.push(tag);
            }
        }
        let found: Vec<T> = match page.findings {
            Some(block) => {
                if self.meta.scan_completed_at.is_none() {
                    self.meta.scan_completed_at = block.completed_at;
                }
                if !self.meta.counts_collected {
                    if let Some(counts) = block.severity_counts {
                        let mut counts = counts;
                        self.meta.finding_severity_counts.append(&mut counts);
                    }
                    self.meta.counts_collected = true;
                }
                block.findings
            },
            None => Vec::new(),
        };
        self.pager.receive(found, next_token);
        self.statuses = Ghost(old_statuses.push(status));
        assert(self.statuses@.drop_last() =~= old_statuses);
    }

    /// Ends the gathering: the aggregated result and the token to resume
    /// the findings listing from.
    pub fn finish(self) -> (r: (ImageScanFindingsResult<T>, Option<String>))
        requires
            self.pager.wf(),
        ensures
            self.tracks() ==> r.0.scan_status == first_present(self.statuses()),
            r.0.findings@ == delivered(self.pager.policy(), self.pager.limit(), self.pager.received()),
            r.0.image_tags == self.meta.image_tags,
            r.0.scan_status == self.meta.scan_status,
            r.0.scan_completed_at == self.meta.scan_completed_at,
            r.0.finding_severity_counts == self.meta.finding_severity_counts,
            r.1 == self.pager.token(),
    {
        let (findings, token) = self.pager.finish();
        (
            ImageScanFindingsResult {
                image_tags: self.meta.image_tags,
                scan_status: self.meta.scan_status,
                scan_completed_at: self.meta.scan_completed_at,
                finding_severity_counts: self.meta.finding_severity_counts,
                findings,
            },
            token,
        )
    }
}

/// The whole gathering of scan findings, fed the service's pages in order
/// (each a scan status, the findings, and the continuation token): it uses
/// the pages up to the first whose token is exhausted or after which
/// `limit` findings were gathered; before the `i`-th page it uses it asks
/// for what is still missing from `limit` with the token of the page
/// before it (the caller's token first); it hands back every finding of
/// the pages used, in order, the token of the last one, and the first scan
/// status any of them carried.
pub proof fn law_scan_findings_listing<T>(
    limit: Option<i32>,
    start: Option<String>,
    pages: Seq<(Option<String>, Seq<T>, Option<String>)>,
)
    ensures
        ({
            let policy = PagePolicy {
                sizing: PageSizing::Remaining,
                enforcement: LimitEnforcement::ServerSide,
            };
            let replies = pages.map_values(|p: (Option<String>, Seq<T>, Option<String>)| (p.1, p.2));
            let statuses = pages.map_values(|p: (Option<String>, Seq<T>, Option<String>)| p.0);
            let r = listing_after(limit, start, replies);
            let used = r.3 as int;
            &&& used <= pages.len()
            &&& forall|i: int|
                0 <= i < used ==> #[trigger] request_after(policy, limit, start, replies.take(i)) == (
                    match limit {
                        Some(l) => Some(l - replies_items(replies.take(i)).len()),
                        None => None::<int>,
                    },
                    if i == 0 {
                        start
                    } else {
                        pages[i - 1].2
                    },
                )
            &&& delivered(policy, limit, r.0) == replies_items(replies.take(used))
            &&& r.1 == (if used == 0 {
                start
            } else {
                pages[used - 1].2
            })
            &&& (forall|j: int| 0 <= j < used ==> (#[trigger] pages[j]).0 is None) ==> first_present(
                statuses.take(used),
            ) is None
            &&& forall|j: int|
                0 <= j < used && (#[trigger] pages[j]).0 is Some && (forall|i: int|
                    0 <= i < j ==> pages[i].0 is None) ==> first_present(statuses.take(used))
                    == pages[j].0
        }),
{
    let policy = PagePolicy { sizing: PageSizing::Remaining, enforcement: LimitEnforcement::ServerSide };
    let replies = pages.map_values(|p: (Option<String>, Seq<T>, Option<String>)| (p.1, p.2));
    let statuses = pages.map_values(|p: (Option<String>, Seq<T>, Option<String>)| p.0);
    crate::pagination::law_listing_model(limit, start, replies);
    law_listing_requests_and_result(policy, limit, start, replies);
    let r = listing_after(limit, start, replies);
    let used = r.3 as int;
    let st = statuses.take(used);
    lemma_first_present(st);
    assert forall|j: int| 0 <= j < used implies #[trigger] st[j] == pages[j].0 by {}
    assert forall|i: int| 0 < i <= used implies #[trigger] replies[i - 1] == (pages[i - 1].1, pages[
        i - 1
    ].2) by {}
    assert(used <= pages.len());
    assert(delivered(policy, limit, r.0) == replies_items(replies.take(used)));
    assert(r.1 == (if used == 0 { start } else { pages[used - 1].2 }));
    assert((forall|j: int| 0 <= j < used ==> (#[trigger] pages[j]).0 is None) ==> first_present(st) is None) by {
        if forall|j: int| 0 <= j < used ==> (#[trigger] pages[j]).0 is None {
            assert forall|j: int| 0 <= j < st.len() implies (#[trigger] st[j]) is None by {
                assert(pages[j].0 is None);
            }
        }
    }
    assert forall|j: int|
        0 <= j < used && (#[trigger] pages[j]).0 is Some && (forall|i: int|
            0 <= i < j ==> pages[i].0 is None) implies first_present(st) == pages[j].0 by {
        assert(st[j] is Some);
        assert forall|i: int| 0 <= i < j implies (#[trigger] st[i]) is None by {
            assert(pages[i].0 is None);
        }
    }
}

} // verus!
