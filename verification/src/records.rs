//! Shaping of the plain values read off service replies into the library's
//! records.
use vstd::prelude::*;

verus! {

/// The values that are present, in order.
pub open spec fn present(values: Seq<Option<String>>) -> Seq<Seq<char>>
    decreases values.len(),
{
    if values.len() == 0 {
        seq![]
    } else {
        let rest = present(values.drop_last());
        match values.last() {
            Some(v) => rest.push(v@),
            None => rest,
        }
    }
}

/// Keeps the values that are present, in order (`filter_map` over optional
/// ids).
pub fn present_strings(values: Vec<Option<String>>) -> (r: Vec<String>)
    ensures
        r@.map_values(|s: String| s@) == present(values@),
{
    let mut out: Vec<String> = Vec::new();
    let mut i: usize = 0;
    while i < values.len()
        invariant
            i <= values@.len(),
            out@.map_values(|s: String| s@) == present(values@.take(i as int)),
        decreases values@.len() - i,
    {
        let ghost before = out@;
        assert(values@.take(i + 1).drop_last() =~= values@.take(i as int));
        match &values[i] {
            Some(v) => {
                out.push(v.clone());
                assert(out@.map_values(|s: String| s@) =~= before.map_values(|s: String| s@).push(
                    v@,
                ));
            },
            None => {},
        }
        i += 1;
    }
    assert(values@.take(values@.len() as int) =~= values@);
    out
}

/// The text, or the empty text when absent (`unwrap_or_default`).
pub fn text_or_empty(value: Option<String>) -> (r: String)
    ensures
        r@ == (match value {
            Some(v) => v@,
            None => Seq::<char>::empty(),
        }),
{
    match value {
        Some(v) => v,
        None => String::new(),
    }
}

/// Each key/value pair with absent parts read as empty text.
pub open spec fn pairs_or_empty(tags: Seq<(Option<String>, Option<String>)>) -> Seq<
    (Seq<char>, Seq<char>),
> {
    tags.map_values(
        |t: (Option<String>, Option<String>)|
            (
                match t.0 {
                    Some(k) => k@,
                    None => Seq::<char>::empty(),
                },
                match t.1 {
                    Some(v) => v@,
                    None => Seq::<char>::empty(),
                },
            ),
    )
}

fn clone_or_empty(value: &Option<String>) -> (r: String)
    ensures
        r@ == (match *value {
            Some(v) => v@,
            None => Seq::<char>::empty(),
        }),
{
    match value {
        Some(v) => v.clone(),
        None => String::new(),
    }
}

/// Tags as `(key, value)` pairs, an absent key or value read as empty text.
pub fn tag_pairs(tags: Vec<(Option<String>, Option<String>)>) -> (r: Vec<(String, String)>)
    ensures
        r@.map_values(|p: (String, String)| (p.0@, p.1@)) == pairs_or_empty(tags@),
{
    let mut out: Vec<(String, String)> = Vec::new();
    let mut i: usize = 0;
    while i < tags.len()
        invariant
            i <= tags@.len(),
            out@.map_values(|p: (String, String)| (p.0@, p.1@)) == pairs_or_empty(
                tags@.take(i as int),
            ),
        decreases tags@.len() - i,
    {
        let ghost before = out@;
        let k = clone_or_empty(&tags[i].0);
        let v = clone_or_empty(&tags[i].1);
        out.push((k, v));
        assert(out@.map_values(|p: (String, String)| (p.0@, p.1@)) =~= before.map_values(
            |p: (String, String)| (p.0@, p.1@),
        ).push((k@, v@)));
        assert(pairs_or_empty(tags@.take(i + 1)) =~= pairs_or_empty(tags@.take(i as int)).push(
            (k@, v@),
        ));
        i += 1;
    }
    assert(tags@.take(tags@.len() as int) =~= tags@);
    out
}

/// Keeping the present values of two runs of values one after the other
/// keeps those of the first run, then those of the second: nothing is
/// dropped or reordered because of what stands next to it.
pub proof fn law_present_concat(a: Seq<Option<String>>, b: Seq<Option<String>>)
    ensures
        present(a + b) == present(a) + present(b),
    decreases b.len(),
{
    if b.len() == 0 {
        assert(a + b =~= a);
        assert(present(a) + present(b) =~= present(a));
    } else {
        law_present_concat(a, b.drop_last());
        assert((a + b).drop_last() =~= a + b.drop_last());
        assert((a + b).last() == b.last());
        assert(present(a + b) =~= present(a) + present(b));
    }
}

/// A single value is kept exactly when it is present.
pub proof fn law_present_single(x: Option<String>)
    ensures
        present(seq![x]) == (match x {
            Some(v) => seq![v@],
            None => Seq::<Seq<char>>::empty(),
        }),
{
    assert(seq![x].drop_last() =~= Seq::<Option<String>>::empty());
    assert(present(Seq::<Option<String>>::empty()) == Seq::<Seq<char>>::empty());
    if let Some(v) = x {
        assert(Seq::<Seq<char>>::empty().push(v@) =~= seq![v@]);
    }
}

/// Keeping the present values: as many as the values that are present;
/// all of them when every value is present, each in its place; none when
/// none is present.
pub proof fn law_present_counts(values: Seq<Option<String>>)
    ensures
        present(values).len() == values.filter(|o: Option<String>| o is Some).len(),
        (forall|i: int| 0 <= i < values.len() ==> (#[trigger] values[i]) is Some) ==> {
            &&& present(values).len() == values.len()
            &&& forall|i: int| 0 <= i < values.len() ==> #[trigger] present(values)[i] == values[i]->Some_0@
        },
    decreases values.len(),
{
    reveal(Seq::filter);
    if values.len() > 0 {
        let prev = values.drop_last();
        law_present_counts(prev);
        assert forall|i: int| 0 <= i < prev.len() implies #[trigger] prev[i] == values[i] by {}
        if forall|i: int| 0 <= i < values.len() ==> (#[trigger] values[i]) is Some {
            assert(forall|i: int| 0 <= i < prev.len() ==> (#[trigger] prev[i]) is Some);
            assert(values[values.len() - 1] is Some);
        }
    }
}

/// Reading tags as pairs: one pair per tag, in order; the key of the
/// `i`-th pair is the `i`-th tag's key and its value the `i`-th tag's
/// value, each read as empty text only when absent, the one regardless of
/// the other.
pub proof fn law_tag_pairs(tags: Seq<(Option<String>, Option<String>)>)
    ensures
        pairs_or_empty(tags).len() == tags.len(),
        forall|i: int|
            0 <= i < tags.len() ==> {
                &&& (tags[i].0 is Some ==> (#[trigger] pairs_or_empty(tags)[i]).0 == tags[i].0->Some_0@)
                &&& (tags[i].0 is None ==> pairs_or_empty(tags)[i].0.len() == 0)
                &&& (tags[i].1 is Some ==> pairs_or_empty(tags)[i].1 == tags[i].1->Some_0@)
                &&& (tags[i].1 is None ==> pairs_or_empty(tags)[i].1.len() == 0)
            },
        forall|a: Seq<(Option<String>, Option<String>)>, b: Seq<(Option<String>, Option<String>)>|
            #[trigger] pairs_or_empty(a + b) == pairs_or_empty(a) + pairs_or_empty(b),
{
    assert forall|a: Seq<(Option<String>, Option<String>)>, b: Seq<(Option<String>, Option<String>)>|
        #[trigger] pairs_or_empty(a + b) == pairs_or_empty(a) + pairs_or_empty(b) by {
        assert(pairs_or_empty(a + b) =~= pairs_or_empty(a) + pairs_or_empty(b));
    }
}

} // verus!
