//! Request pieces shared by the service clients: name/value filters and
//! optional list parameters.
use vstd::prelude::*;

verus! {

/// A name/values filter of a describe request (EC2's and DMS's `Filter`).
#[derive(Debug, PartialEq, Eq)]
pub struct FilterSpec {
    pub name: String,
    pub values: Vec<String>,
}

/// The characters of each string.
pub open spec fn strings_view(v: Seq<String>) -> Seq<Seq<char>> {
    v.map_values(|s: String| s@)
}

/// A filter as its name and the characters of its values.
pub open spec fn filter_view(f: FilterSpec) -> (Seq<char>, Seq<Seq<char>>) {
    (f.name@, strings_view(f.values@))
}

/// Filters as names and values.
pub open spec fn filters_view(fs: Seq<FilterSpec>) -> Seq<(Seq<char>, Seq<Seq<char>>)> {
    fs.map_values(|f: FilterSpec| filter_view(f))
}

/// The filter `name = value` when a value is given, nothing otherwise.
pub open spec fn optional_filter(name: Seq<char>, value: Option<String>) -> Seq<
    (Seq<char>, Seq<Seq<char>>),
> {
    match value {
        Some(v) => seq![(name, seq![v@])],
        None => seq![],
    }
}

/// One `tag:<key>` filter per requested tag, matching any of its values.
pub open spec fn tag_filters(tags: Option<Vec<(String, Vec<String>)>>) -> Seq<
    (Seq<char>, Seq<Seq<char>>),
> {
    match tags {
        Some(t) => t@.map_values(
            |p: (String, Vec<String>)| ("tag:"@ + p.0@, strings_view(p.1@)),
        ),
        None => seq![],
    }
}

/// The tag filters: one per requested tag, in order, named `tag:` and the
/// tag's key, matching exactly that tag's values, in order; none without
/// tags.
pub proof fn law_tag_filters(tags: Option<Vec<(String, Vec<String>)>>)
    ensures
        tags is None ==> tag_filters(tags).len() == 0,
        tags matches Some(t) ==> {
            &&& tag_filters(tags).len() == t@.len()
            &&& forall|i: int|
                0 <= i < t@.len() ==> {
                    &&& (#[trigger] tag_filters(tags)[i]).0 == "tag:"@ + t@[i].0@
                    &&& tag_filters(tags)[i].1.len() == t@[i].1@.len()
                    &&& forall|k: int|
                        0 <= k < t@[i].1@.len() ==> tag_filters(tags)[i].1[k] == t@[i].1@[k]@
                }
        },
{
}

/// An optional filter is there exactly when its value is, with that one
/// value under the given name.
pub proof fn law_optional_filter(name: Seq<char>, value: Option<String>)
    ensures
        value is None ==> optional_filter(name, value).len() == 0,
        value matches Some(v) ==> optional_filter(name, value).len() == 1 && optional_filter(
            name,
            value,
        )[0] == (name, seq![v@]),
{
}

/// A copy of a list of strings.
pub fn clone_strings(v: &Vec<String>) -> (r: Vec<String>)
    ensures
        r@ == v@,
{
    let mut out: Vec<String> = Vec::new();
    let mut i: usize = 0;
    while i < v.len()
        invariant
            i <= v@.len(),
            out@ == v@.take(i as int),
        decreases v@.len() - i,
    {
        out.push(v[i].clone());
        assert(v@.take(i + 1) =~= v@.take(i as int).push(v@[i as int]));
        i += 1;
    }
    assert(v@.take(v@.len() as int) =~= v@);
    out
}

/// Appends the filter `name = value` when a value is given.
pub fn push_optional_filter(filters: &mut Vec<FilterSpec>, name: &str, value: Option<String>)
    ensures
        filters_view(final(filters)@) == filters_view(old(filters)@) + optional_filter(
            name@,
            value,
        ),
{
    let ghost before = filters@;
    match value {
        Some(v) => {
            let mut values: Vec<String> = Vec::new();
            values.push(v);
            let f = FilterSpec { name: String::from_str(name), values };
            filters.push(f);
            assert(strings_view(f.values@) =~= seq![v@]);
            assert(filters_view(filters@) =~= filters_view(before) + seq![filter_view(f)]);
        },
        None => {
            assert(filters_view(filters@) =~= filters_view(before) + seq![]);
        },
    }
}

/// Appends one `tag:<key>` filter per requested tag.
pub fn push_tag_filters(filters: &mut Vec<FilterSpec>, tags: &Option<Vec<(String, Vec<String>)>>)
    ensures
        filters_view(final(filters)@) == filters_view(old(filters)@) + tag_filters(*tags),
{
    let ghost before = filters@;
    match tags {
        Some(t) => {
            let ghost want = tag_filters(*tags);
            let mut i: usize = 0;
            while i < t.len()
                invariant
                    i <= t@.len(),
                    want == t@.map_values(
                        |p: (String, Vec<String>)| ("tag:"@ + p.0@, strings_view(p.1@)),
                    ),
                    filters_view(filters@) == filters_view(before) + want.take(i as int),
                decreases t@.len() - i,
            {
                let name = String::from_str("tag:").concat(t[i].0.as_str());
                let values = clone_strings(&t[i].1);
                let f = FilterSpec { name, values };
                let ghost mid = filters@;
                filters.push(f);
                assert(filters_view(filters@) =~= filters_view(mid).push(filter_view(f)));
                assert(want.take(i + 1) =~= want.take(i as int).push(want[i as int]));
                i += 1;
            }
            assert(want.take(t@.len() as int) =~= want);
        },
        None => {
            assert(filters_view(filters@) =~= filters_view(before) + seq![]);
        },
    }
}

/// A list parameter that is only set when it has elements.
pub fn non_empty<T>(v: Vec<T>) -> (r: Option<Vec<T>>)
    ensures
        r == (if v@.len() == 0 {
            None
        } else {
            Some(v)
        }),
{
    if v.len() == 0 {
        None
    } else {
        Some(v)
    }
}

} // verus!
