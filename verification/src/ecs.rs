//! ECS: which ARNs a describe call covers, and how they are split into the
//! batches the describe APIs accept.
use vstd::prelude::*;
use crate::request::clone_strings;

verus! {

/// `DescribeClusters` accepts at most this many clusters per call.
pub const CLUSTER_BATCH: usize = 100;

/// `DescribeServices` accepts at most this many services per call.
pub const SERVICE_BATCH: usize = 10;

/// `DescribeTasks` accepts at most this many tasks per call.
pub const TASK_BATCH: usize = 100;

/// The characters of each batch, in order.
pub open spec fn batches_view(batches: Seq<Vec<String>>) -> Seq<Seq<String>> {
    batches.map_values(|b: Vec<String>| b@)
}

/// The `k`-th batch of `size` items of `s`: the items from `k * size` on,
/// up to `size` of them (fewer at the end of `s`).
pub open spec fn chunk<A>(s: Seq<A>, size: int, k: int) -> Seq<A> {
    s.subrange(
        k * size,
        if (k + 1) * size < s.len() {
            (k + 1) * size
        } else {
            s.len() as int
        },
    )
}

/// How many batches of `size` items `len` items make: `len / size` rounded up.
pub open spec fn chunk_count(len: int, size: int) -> int {
    (len + size - 1) / size
}

/// `n` items, gathered into `c` batches of `size` with the last one not
/// empty, make `chunk_count(n, size)` batches.
proof fn lemma_chunk_count(n: int, size: int, c: int)
    requires
        size > 0,
        c >= 0,
        c == 0 ==> n == 0,
        c > 0 ==> (c - 1) * size < n <= c * size,
    ensures
        chunk_count(n, size) == c,
{
    vstd::arithmetic::mul::lemma_mul_is_distributive_add_other_way(size, c - 1, 1);
    vstd::arithmetic::div_mod::lemma_fundamental_div_mod_converse(
        n + size - 1,
        size,
        c,
        n + size - 1 - c * size,
    );
}

/// Splits `ids` into consecutive batches of `size`, the last one possibly
/// shorter (`slice::chunks`): batch `k` is `chunk(ids, size, k)`.
pub fn batches(ids: &Vec<String>, size: usize) -> (r: Vec<Vec<String>>)
    requires
        size > 0,
    ensures
        r@.len() == chunk_count(ids@.len() as int, size as int),
        forall|k: int| 0 <= k < r@.len() ==> (#[trigger] r@[k])@ == chunk(ids@, size as int, k),
        batches_view(r@).flatten() == ids@,
        forall|k: int| 0 <= k < r@.len() ==> 1 <= (#[trigger] r@[k])@.len() <= size,
        forall|k: int| 0 <= k < r@.len() - 1 ==> (#[trigger] r@[k])@.len() == size,
{
    let n = ids.len();
    let mut out: Vec<Vec<String>> = Vec::new();
    let mut start: usize = 0;
    assert(batches_view(out@).flatten() =~= ids@.take(0));
    while start < n
        invariant
            n == ids@.len(),
            start <= n,
            size > 0,
            batches_view(out@).flatten() == ids@.take(start as int),
            forall|k: int| 0 <= k < out@.len() ==> 1 <= (#[trigger] out@[k])@.len() <= size,
            forall|k: int| 0 <= k < out@.len() - 1 ==> (#[trigger] out@[k])@.len() == size,
            out@.len() > 0 && out@.last()@.len() < size ==> start == n,
            start <= out@.len() * size,
            out@.len() > 0 ==> (out@.len() - 1) * size < start,
            start < n ==> start == out@.len() * size,
            forall|k: int| 0 <= k < out@.len() ==> (#[trigger] out@[k])@ == chunk(ids@, size as int, k),
        decreases n - start,
    {
        let end: usize = if n - start > size {
            start + size
        } else {
            n
        };
        let mut batch: Vec<String> = Vec::new();
        let mut j: usize = start;
        while j < end
            invariant
                start <= j <= end <= n,
                n == ids@.len(),
                batch@ == ids@.subrange(start as int, j as int),
            decreases end - j,
        {
            batch.push(ids[j].clone());
            assert(ids@.subrange(start as int, j + 1) =~= ids@.subrange(start as int, j as int).push(
                ids@[j as int],
            ));
            j += 1;
        }
        let ghost before = out@;
        proof {
            vstd::arithmetic::mul::lemma_mul_is_distributive_add_other_way(
                size as int,
                before.len() as int,
                1,
            );
            assert(batch@ == chunk(ids@, size as int, before.len() as int));
        }
        out.push(batch);
        proof {
            assert(batches_view(out@) =~= batches_view(before).push(batch@));
            batches_view(before).lemma_flatten_push(batch@);
            assert(ids@.take(end as int) =~= ids@.take(start as int) + ids@.subrange(
                start as int,
                end as int,
            ));
            assert forall|k: int| 0 <= k < out@.len() - 1 implies (#[trigger] out@[k])@.len()
                == size by {
                if k < before.len() - 1 {
                } else {
                    assert(k == before.len() - 1);
                    assert(before.last() == out@[k]);
                }
            }
        }
        start = end;
    }
    assert(ids@.take(n as int) =~= ids@);
    proof {
        lemma_chunk_count(n as int, size as int, out@.len() as int);
    }
    out
}

/// The ARNs a describe call covers and the token handed back with them:
/// caller-supplied ARNs are described as given, with no token; otherwise
/// the ARNs found by the paginated listing, with its token.
pub fn describe_targets(
    given: Option<Vec<String>>,
    discovered: Option<(Vec<String>, Option<String>)>,
) -> (r: (Vec<String>, Option<String>))
    requires
        given is None ==> discovered is Some,
    ensures
        given is Some ==> r == (given->Some_0, None::<String>),
        given is None ==> r == discovered->Some_0,
{
    match given {
        Some(arns) => (arns, None),
        None => match discovered {
            Some(d) => d,
            None => (Vec::new(), None),
        },
    }
}

/// Whether the ARNs to describe must first be found by listing: only when
/// the caller gave none.
pub fn needs_discovery(given: &Option<Vec<String>>) -> (b: bool)
    ensures
        b == given is None,
{
    given.is_none()
}

/// A describe call made batch by batch over a list of ARNs: batch `k`
/// asks for `chunk(ids, size, k)`, the batches are asked for in order, and
/// what each reply returns is appended to the result, which is handed back
/// with the token the ARNs came with.
pub struct BatchedDescribe<T> {
    batches: Vec<Vec<String>>,
    answered: usize,
    results: Vec<T>,
    token: Option<String>,
    ids: Ghost<Seq<String>>,
    size: Ghost<int>,
    replies: Ghost<Seq<Seq<T>>>,
}

impl<T> BatchedDescribe<T> {
    /// The ARNs to describe.
    pub closed spec fn ids(&self) -> Seq<String> {
        self.ids@
    }

    /// The most ARNs one call takes.
    pub closed spec fn size(&self) -> int {
        self.size@
    }

    /// The token handed back with the result.
    pub closed spec fn token(&self) -> Option<String> {
        self.token
    }

    /// What each answered batch returned, in order.
    pub closed spec fn replies(&self) -> Seq<Seq<T>> {
        self.replies@
    }

    /// Every batch has been answered.
    pub open spec fn done(&self) -> bool {
        self.replies().len() == chunk_count(self.ids().len() as int, self.size())
    }

    pub closed spec fn wf(&self) -> bool {
        &&& self.size@ > 0
        &&& self.batches@.len() == chunk_count(self.ids@.len() as int, self.size@)
        &&& forall|k: int|
            0 <= k < self.batches@.len() ==> (#[trigger] self.batches@[k])@ == chunk(
                self.ids@,
                self.size@,
                k,
            )
        &&& batches_view(self.batches@).flatten() == self.ids@
        &&& self.answered == self.replies@.len()
        &&& self.answered <= self.batches@.len()
        &&& self.results@ == self.replies@.flatten()
    }

    /// The batches asked for, in order, cover the ARNs exactly, in order.
    pub proof fn lemma_batches_cover_ids(&self)
        requires
            self.wf(),
        ensures
            Seq::new(
                chunk_count(self.ids().len() as int, self.size()) as nat,
                |k: int| chunk(self.ids(), self.size(), k),
            ).flatten() == self.ids(),
    {
        assert(batches_view(self.batches@) =~= Seq::new(
            chunk_count(self.ids@.len() as int, self.size@) as nat,
            |k: int| chunk(self.ids@, self.size@, k),
        ));
    }

    /// Starts describing `ids` in batches of `size`, to be handed back
    /// with `token`.
    pub fn new(ids: Vec<String>, size: usize, token: Option<String>) -> (d: Self)
        requires
            size > 0,
        ensures
            d.wf(),
            d.ids() == ids@,
            d.size() == size,
            d.token() == token,
            d.replies() == Seq::<Seq<T>>::empty(),
    {
        let all = batches(&ids, size);
        let d = BatchedDescribe {
            batches: all,
            answered: 0,
            results: Vec::new(),
            token,
            ids: Ghost(ids@),
            size: Ghost(size as int),
            replies: Ghost(Seq::empty()),
        };
        assert(d.replies@.flatten() =~= Seq::<T>::empty());
        d
    }

    /// Whether every batch has been answered.
    pub fn is_done(&self) -> (b: bool)
        requires
            self.wf(),
        ensures
            b == self.done(),
    {
        self.answered == self.batches.len()
    }

    /// The ARNs of the next call: the batch after those answered.
    pub fn next_batch(&self) -> (r: Vec<String>)
        requires
            self.wf(),
            !self.done(),
        ensures
            r@ == chunk(self.ids(), self.size(), self.replies().len() as int),
    {
        clone_strings(&self.batches[self.answered])
    }

    /// Appends what the call for the next batch returned.
    pub fn absorb(&mut self, found: Vec<T>)
        requires
            old(self).wf(),
            !old(self).done(),
        ensures
            final(self).wf(),
            final(self).ids() == old(self).ids(),
            final(self).size() == old(self).size(),
            final(self).token() == old(self).token(),
            final(self).replies() == old(self).replies().push(found@),
    {
        let ghost before = self.replies@;
        let ghost got = found@;
        let n: usize = self.batches.len();
        assert(self.answered < n);
        let mut found = found;
        self.results.append(&mut found);
        self.answered = self.answered + 1;
        self.replies = Ghost(before.push(got));
        proof {
            before.lemma_flatten_push(got);
        }
    }

    /// The result: everything the calls returned, batch after batch, with
    /// the token the ARNs came with.
    pub fn finish(self) -> (r: (Vec<T>, Option<String>))
        requires
            self.wf(),
            self.done(),
        ensures
            r.0@ == self.replies().flatten(),
            r.1 == self.token(),
    {
        (self.results, self.token)
    }
}

/// A batched describe that is done made one call per batch of `size`, in
/// order, and those batches are exactly the ARNs, in order; `finish` then
/// hands back every reply's items, batch after batch.
pub proof fn law_batched_describe_sequence<T>(d: BatchedDescribe<T>)
    requires
        d.wf(),
        d.done(),
    ensures
        d.replies().len() == chunk_count(d.ids().len() as int, d.size()),
        Seq::new(
            chunk_count(d.ids().len() as int, d.size()) as nat,
            |k: int| chunk(d.ids(), d.size(), k),
        ).flatten() == d.ids(),
{
    d.lemma_batches_cover_ids();
}

} // verus!
