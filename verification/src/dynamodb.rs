//! DynamoDB: listing plan, and the conversion of item attribute values to
//! JSON.
use vstd::prelude::*;
use base64::Engine;
use crate::error::VaporError;

verus! {

/// A DynamoDB attribute value (the content of
/// `aws_sdk_dynamodb::types::AttributeValue`). A map's entries are listed in
/// the order the SDK handed them over.
#[derive(Debug)]
pub enum AttributeValue {
    S(String),
    N(String),
    Bool(bool),
    Null(bool),
    B(Vec<u8>),
    L(Vec<AttributeValue>),
    M(Vec<(String, AttributeValue)>),
    Ss(Vec<String>),
    Ns(Vec<String>),
    Bs(Vec<Vec<u8>>),
    /// A variant this library does not know.
    Unknown,
}

/// A JSON value (the content of a `serde_json::Value`).
#[derive(Debug)]
pub enum JsonValue {
    Null,
    Bool(bool),
    /// An integer number.
    Int(i64),
    /// A number given as decimal text that is not an `i64`: rendered as a
    /// floating-point JSON number when it reads as a finite `f64`, and as a
    /// JSON string of the same text otherwise.
    NumberText(String),
    String(String),
    Array(Vec<JsonValue>),
    Object(Vec<(String, JsonValue)>),
}

/// Whether `c` is one of `0`..`9`.
pub open spec fn is_ascii_digit(c: char) -> bool {
    '0' <= c && c <= '9'
}

/// Whether every character of `s` is a decimal digit.
pub open spec fn all_digits(s: Seq<char>) -> bool {
    forall|i: int| 0 <= i < s.len() ==> is_ascii_digit(#[trigger] s[i])
}

/// The value of a string of decimal digits.
pub open spec fn digits_value(s: Seq<char>) -> int
    decreases s.len(),
{
    if s.len() == 0 {
        0
    } else {
        digits_value(s.drop_last()) * 10 + (s.last() as int - '0' as int)
    }
}

/// What `str::parse::<i64>` accepts: an optional `+` or `-`, then one or
/// more decimal digits, denoting a value inside the `i64` range.
pub open spec fn parse_i64_spec(s: Seq<char>) -> Option<int> {
    let signed = s.len() > 0 && (s[0] == '-' || s[0] == '+');
    let digits = if signed {
        s.drop_first()
    } else {
        s
    };
    if digits.len() == 0 || !all_digits(digits) {
        None
    } else {
        let v = if s[0] == '-' {
            -digits_value(digits)
        } else {
            digits_value(digits)
        };
        if i64::MIN <= v <= i64::MAX {
            Some(v)
        } else {
            None
        }
    }
}

/// Reading `i64` text: a run of digits, unsigned or after `+`, reads as
/// its decimal value and after `-` as its negation, when that lies in the
/// `i64` range; an empty text, a lone sign, or any other character makes
/// it unreadable.
pub proof fn law_parse_i64(d: Seq<char>, s: Seq<char>)
    ensures
        all_digits(d) && d.len() > 0 ==> {
            &&& parse_i64_spec(d) == (if digits_value(d) <= i64::MAX {
                Some(digits_value(d))
            } else {
                None::<int>
            })
            &&& parse_i64_spec(seq!['+'] + d) == parse_i64_spec(d)
            &&& parse_i64_spec(seq!['-'] + d) == (if -digits_value(d) >= i64::MIN {
                Some(-digits_value(d))
            } else {
                None::<int>
            })
        },
        parse_i64_spec(Seq::<char>::empty()) is None,
        parse_i64_spec(seq!['-']) is None,
        parse_i64_spec(seq!['+']) is None,
        (exists|i: int|
            0 <= i < s.len() && !is_ascii_digit(#[trigger] s[i]) && !(i == 0 && (s[0] == '-' || s[0]
                == '+'))) ==> parse_i64_spec(s) is None,
        forall|c: char| is_ascii_digit(c) ==> #[trigger] digits_value(seq![c]) == c as int - '0' as int,
{
    if all_digits(d) && d.len() > 0 {
        lemma_digits_value_nonneg(d);
        assert((seq!['+'] + d).drop_first() =~= d);
        assert((seq!['-'] + d).drop_first() =~= d);
        assert(d[0] != '-' && d[0] != '+') by {
            assert(is_ascii_digit(d[0]));
        }
    }
    assert(seq!['-'].drop_first().len() == 0);
    assert(seq!['+'].drop_first().len() == 0);
    assert forall|c: char| is_ascii_digit(c) implies #[trigger] digits_value(seq![c]) == c as int
        - '0' as int by {
        assert(seq![c].drop_last() =~= Seq::<char>::empty());
        assert(digits_value(Seq::<char>::empty()) == 0);
        assert(seq![c].last() == c);
        assert(digits_value(seq![c]) == digits_value(seq![c].drop_last()) * 10 + (seq![c].last() as int
            - '0' as int));
    }
    if exists|i: int|
        0 <= i < s.len() && !is_ascii_digit(#[trigger] s[i]) && !(i == 0 && (s[0] == '-' || s[0]
            == '+')) {
        let i = choose|i: int|
            0 <= i < s.len() && !is_ascii_digit(#[trigger] s[i]) && !(i == 0 && (s[0] == '-' || s[0]
                == '+'));
        let signed = s.len() > 0 && (s[0] == '-' || s[0] == '+');
        if signed {
            assert(i > 0);
            assert(s.drop_first()[i - 1] == s[i]);
        } else {
            assert(s[i] == s[i]);
        }
    }
}

proof fn lemma_digits_value_nonneg(s: Seq<char>)
    requires
        all_digits(s),
    ensures
        digits_value(s) >= 0,
    decreases s.len(),
{
    if s.len() > 0 {
        assert(all_digits(s.drop_last())) by {
            assert forall|i: int| 0 <= i < s.drop_last().len() implies is_ascii_digit(
                #[trigger] s.drop_last()[i],
            ) by {
                assert(s.drop_last()[i] == s[i]);
            }
        }
        lemma_digits_value_nonneg(s.drop_last());
        assert(is_ascii_digit(s[s.len() - 1]));
    }
}

proof fn lemma_digits_value_grows(s: Seq<char>, k: int)
    requires
        all_digits(s),
        0 <= k <= s.len(),
    ensures
        digits_value(s) >= digits_value(s.take(k)),
    decreases s.len(),
{
    if k < s.len() {
        let t = s.drop_last();
        assert(all_digits(t)) by {
            assert forall|i: int| 0 <= i < t.len() implies is_ascii_digit(#[trigger] t[i]) by {
                assert(t[i] == s[i]);
            }
        }
        lemma_digits_value_grows(t, k);
        assert(t.take(k) =~= s.take(k));
        lemma_digits_value_nonneg(t);
        assert(is_ascii_digit(s[s.len() - 1]));
        assert(digits_value(s) == digits_value(t) * 10 + (s.last() as int - '0' as int));
    } else {
        assert(s.take(k) =~= s);
    }
}

/// Parses a decimal `i64` exactly as `str::parse::<i64>` does.
pub fn parse_i64(s: &str) -> (r: Option<i64>)
    ensures
        (match parse_i64_spec(s@) {
            Some(v) => r == Some(v as i64),
            None => r is None,
        }),
{
    let len = s.unicode_len();
    if len == 0 {
        return None;
    }
    let first = s.get_char(0);
    let start: usize = if first == '-' || first == '+' {
        1
    } else {
        0
    };
    let ghost digits = s@.subrange(start as int, len as int);
    assert(s@[0] == first);
    assert(digits =~= (if start == 1 {
        s@.drop_first()
    } else {
        s@
    }));
    assert(parse_i64_spec(s@) == (if digits.len() == 0 || !all_digits(digits) {
        None
    } else {
        let v = if first == '-' {
            -digits_value(digits)
        } else {
            digits_value(digits)
        };
        if i64::MIN <= v <= i64::MAX {
            Some(v)
        } else {
            None
        }
    }));
    if start == len {
        return None;
    }
    let mut acc: i128 = 0;
    let mut i: usize = start;
    while i < len
        invariant
            len == s@.len(),
            start <= i <= len,
            digits == s@.subrange(start as int, len as int),
            parse_i64_spec(s@) == (if digits.len() == 0 || !all_digits(digits) {
                None
            } else {
                let v = if first == '-' {
                    -digits_value(digits)
                } else {
                    digits_value(digits)
                };
                if i64::MIN <= v <= i64::MAX {
                    Some(v)
                } else {
                    None
                }
            }),
            all_digits(s@.subrange(start as int, i as int)),
            acc == digits_value(s@.subrange(start as int, i as int)),
            0 <= acc <= 9223372036854775808,
        decreases len - i,
    {
        let c = s.get_char(i);
        let prefix = Ghost(s@.subrange(start as int, i as int));
        let next = Ghost(s@.subrange(start as int, i + 1));
        assert(next@.drop_last() =~= prefix@);
        assert(next@.last() == c);
        if c < '0' || c > '9' {
            assert(!all_digits(digits)) by {
                assert(digits[i - start] == c);
            }
            return None;
        }
        assert(all_digits(next@)) by {
            assert forall|k: int| 0 <= k < next@.len() implies is_ascii_digit(#[trigger] next@[k]) by {
                if k < prefix@.len() {
                    assert(next@[k] == prefix@[k]);
                }
            }
        }
        let d: i128 = (c as u32 - '0' as u32) as i128;
        acc = acc * 10 + d;
        if acc > 9223372036854775808 {
            proof {
                if all_digits(digits) {
                    lemma_digits_value_grows(digits, (i + 1 - start) as int);
                    assert(digits.take((i + 1 - start) as int) =~= next@);
                }
            }
            return None;
        }
        i += 1;
    }
    assert(s@.subrange(start as int, len as int) =~= digits);
    let v: i128 = if first == '-' {
        -acc
    } else {
        acc
    };
    if v > 9223372036854775807 {
        return None;
    }
    Some(v as i64)
}

/// The longest byte string the base64 encoder accepts: longer inputs make
/// its output length overflow `usize`, and it panics.
pub open spec fn max_encodable() -> int {
    (usize::MAX as int / 4) * 3
}

/// The character of a 6-bit value in the standard base64 alphabet
/// (`A`-`Z`, `a`-`z`, `0`-`9`, `+`, `/`).
pub open spec fn base64_char(v: int) -> char {
    if v < 26 {
        ('A' as int + v) as char
    } else if v < 52 {
        ('a' as int + (v - 26)) as char
    } else if v < 62 {
        ('0' as int + (v - 52)) as char
    } else if v == 62 {
        '+'
    } else {
        '/'
    }
}

/// Standard base64 with padding (RFC 4648): each group of three bytes
/// becomes four characters of six bits each; a final group of one or two
/// bytes is padded with `=` to four characters.
pub open spec fn base64_standard(bytes: Seq<u8>) -> Seq<char>
    decreases bytes.len(),
{
    if bytes.len() == 0 {
        seq![]
    } else if bytes.len() == 1 {
        let b0 = bytes[0] as int;
        seq![base64_char(b0 / 4), base64_char((b0 % 4) * 16), '=', '=']
    } else if bytes.len() == 2 {
        let b0 = bytes[0] as int;
        let b1 = bytes[1] as int;
        seq![
            base64_char(b0 / 4),
            base64_char((b0 % 4) * 16 + b1 / 16),
            base64_char((b1 % 16) * 4),
            '=',
        ]
    } else {
        let b0 = bytes[0] as int;
        let b1 = bytes[1] as int;
        let b2 = bytes[2] as int;
        seq![
            base64_char(b0 / 4),
            base64_char((b0 % 4) * 16 + b1 / 16),
            base64_char((b1 % 16) * 4 + b2 / 64),
            base64_char(b2 % 64),
        ] + base64_standard(bytes.skip(3))
    }
}

/// Calls `base64::engine::general_purpose::STANDARD.encode`. Claimed: the
/// result is the standard padded base64 text of the bytes
/// (`base64_standard`). The encoder panics when the encoded length
/// overflows `usize`, which `requires` rules out.
#[verifier::external_body]
fn encode_base64(bytes: &Vec<u8>) -> (r: String)
    requires
        bytes@.len() <= max_encodable(),
    ensures
        r@ == base64_standard(bytes@),
{
    base64::engine::general_purpose::STANDARD.encode(bytes)
}

/// Whether every binary payload inside `av` can be base64-encoded.
pub open spec fn encodable(av: AttributeValue) -> bool
    decreases av,
{
    match av {
        AttributeValue::B(bytes) => bytes@.len() <= max_encodable(),
        AttributeValue::Bs(blobs) => forall|i: int|
            0 <= i < blobs@.len() ==> (#[trigger] blobs@[i])@.len() <= max_encodable(),
        AttributeValue::L(list) => all_encodable(list@),
        AttributeValue::M(entries) => all_entries_encodable(entries@),
        _ => true,
    }
}

/// Whether every value of `values` is [`encodable`].
pub open spec fn all_encodable(values: Seq<AttributeValue>) -> bool
    decreases values,
{
    if values.len() == 0 {
        true
    } else {
        encodable(values.last()) && all_encodable(values.drop_last())
    }
}

/// Whether the value of every entry of `entries` is [`encodable`].
pub open spec fn all_entries_encodable(entries: Seq<(String, AttributeValue)>) -> bool
    decreases entries,
{
    if entries.len() == 0 {
        true
    } else {
        encodable(entries.last().1) && all_entries_encodable(entries.drop_last())
    }
}

/// Whether a byte string is short enough to be base64-encoded.
fn bytes_encodable(bytes: &Vec<u8>) -> (b: bool)
    ensures
        b == (bytes@.len() <= max_encodable()),
{
    bytes.len() <= usize::MAX / 4 * 3
}

/// Whether every binary payload inside `av` can be base64-encoded: the
/// condition under which [`attribute_value_to_json`] may be called.
pub fn is_encodable(av: &AttributeValue) -> (b: bool)
    ensures
        b == encodable(*av),
    decreases *av,
{
    match av {
        AttributeValue::B(bytes) => bytes_encodable(bytes),
        AttributeValue::Bs(blobs) => {
            let mut i: usize = 0;
            assert(encodable(*av) <==> forall|k: int|
                0 <= k < blobs@.len() ==> (#[trigger] blobs@[k])@.len() <= max_encodable());
            while i < blobs.len()
                invariant
                    encodable(*av) <==> forall|k: int|
                        0 <= k < blobs@.len() ==> (#[trigger] blobs@[k])@.len() <= max_encodable(),
                    i <= blobs@.len(),
                    forall|k: int| 0 <= k < i ==> (#[trigger] blobs@[k])@.len() <= max_encodable(),
                decreases blobs@.len() - i,
            {
                if !bytes_encodable(&blobs[i]) {
                    assert(!((#[trigger] blobs@[i as int])@.len() <= max_encodable()));
                    return false;
                }
                i += 1;
            }
            true
        },
        AttributeValue::L(list) => {
            let mut i: usize = 0;
            assert(list@.take(0) =~= Seq::<AttributeValue>::empty());
            while i < list.len()
                invariant
                    *av == AttributeValue::L(*list),
                    i <= list@.len(),
                    all_encodable(list@.take(i as int)),
                decreases list@.len() - i,
            {
                assert(decreases_to!(*av => (*av)->L_0));
                assert(decreases_to!(*av => list@[i as int]));
                assert(list@.take(i + 1).drop_last() =~= list@.take(i as int));
                if !is_encodable(&list[i]) {
                    proof {
                        if all_encodable(list@) {
                            lemma_all_encodable_take(list@, i as int);
                        }
                    }
                    return false;
                }
                i += 1;
            }
            assert(list@.take(list@.len() as int) =~= list@);
            true
        },
        AttributeValue::M(entries) => {
            let mut i: usize = 0;
            assert(entries@.take(0) =~= Seq::<(String, AttributeValue)>::empty());
            while i < entries.len()
                invariant
                    *av == AttributeValue::M(*entries),
                    i <= entries@.len(),
                    all_entries_encodable(entries@.take(i as int)),
                decreases entries@.len() - i,
            {
                assert(decreases_to!(*av => (*av)->M_0));
                assert(decreases_to!(*av => entries@[i as int].1));
                assert(entries@.take(i + 1).drop_last() =~= entries@.take(i as int));
                if !is_encodable(&entries[i].1) {
                    proof {
                        if all_entries_encodable(entries@) {
                            lemma_all_entries_encodable_at(entries@, i as int);
                        }
                    }
                    return false;
                }
                i += 1;
            }
            assert(entries@.take(entries@.len() as int) =~= entries@);
            true
        },
        _ => true,
    }
}

/// `j` is a JSON string holding the characters `text`.
pub open spec fn is_json_string(j: JsonValue, text: Seq<char>) -> bool {
    j matches JsonValue::String(t) && t@ == text
}

/// `j` is the JSON form of the attribute value `av`: strings stay strings;
/// numbers become integers when they parse as `i64` and stay number text
/// otherwise; booleans stay booleans; null becomes null; binaries become
/// their base64 text; lists and sets become arrays, element by element;
/// maps become objects with the same keys in the same order; an unknown
/// variant becomes null.
pub open spec fn json_of(av: AttributeValue, j: JsonValue) -> bool
    decreases av,
{
    match av {
        AttributeValue::S(s) => is_json_string(j, s@),
        AttributeValue::N(n) => match parse_i64_spec(n@) {
            Some(v) => j == JsonValue::Int(v as i64),
            None => j matches JsonValue::NumberText(t) && t@ == n@,
        },
        AttributeValue::Bool(b) => j == JsonValue::Bool(b),
        AttributeValue::Null(_) => j == JsonValue::Null,
        AttributeValue::B(bytes) => is_json_string(j, base64_standard(bytes@)),
        AttributeValue::L(list) => j matches JsonValue::Array(items) && list_json(list@, items@),
        AttributeValue::M(entries) => j matches JsonValue::Object(fields) && entries_json(
            entries@,
            fields@,
        ),
        AttributeValue::Ss(ss) => j matches JsonValue::Array(items) && items@.len() == ss@.len()
            && forall|i: int| 0 <= i < ss@.len() ==> is_json_string(#[trigger] items@[i], ss@[i]@),
        AttributeValue::Ns(ns) => j matches JsonValue::Array(items) && items@.len() == ns@.len()
            && forall|i: int| 0 <= i < ns@.len() ==> is_json_string(#[trigger] items@[i], ns@[i]@),
        AttributeValue::Bs(blobs) => j matches JsonValue::Array(items) && items@.len()
            == blobs@.len() && forall|i: int|
            0 <= i < blobs@.len() ==> is_json_string(
                #[trigger] items@[i],
                base64_standard(blobs@[i]@),
            ),
        AttributeValue::Unknown => j == JsonValue::Null,
    }
}

/// `items` is `values` converted element by element ([`json_of`]).
pub open spec fn list_json(values: Seq<AttributeValue>, items: Seq<JsonValue>) -> bool
    decreases values,
{
    if values.len() == 0 {
        items.len() == 0
    } else {
        &&& items.len() == values.len()
        &&& json_of(values.last(), items.last())
        &&& list_json(values.drop_last(), items.drop_last())
    }
}

/// `fields` is `entries` converted entry by entry: same keys, values
/// converted by [`json_of`].
pub open spec fn entries_json(entries: Seq<(String, AttributeValue)>, fields: Seq<(String, JsonValue)>) -> bool
    decreases entries,
{
    if entries.len() == 0 {
        fields.len() == 0
    } else {
        &&& fields.len() == entries.len()
        &&& fields.last().0@ == entries.last().0@
        &&& json_of(entries.last().1, fields.last().1)
        &&& entries_json(entries.drop_last(), fields.drop_last())
    }
}

/// The element-wise reading of [`list_json`].
pub proof fn lemma_list_json_elementwise(values: Seq<AttributeValue>, items: Seq<JsonValue>)
    requires
        list_json(values, items),
    ensures
        items.len() == values.len(),
        forall|k: int| 0 <= k < values.len() ==> json_of(#[trigger] values[k], items[k]),
    decreases values.len(),
{
    if values.len() > 0 {
        lemma_list_json_elementwise(values.drop_last(), items.drop_last());
        assert forall|k: int| 0 <= k < values.len() implies json_of(#[trigger] values[k], items[k]) by {
            if k < values.len() - 1 {
                assert(values.drop_last()[k] == values[k]);
                assert(items.drop_last()[k] == items[k]);
            }
        }
    }
}

/// The entry-wise reading of [`entries_json`].
pub proof fn lemma_entries_json_entrywise(entries: Seq<(String, AttributeValue)>, fields: Seq<(String, JsonValue)>)
    requires
        entries_json(entries, fields),
    ensures
        fields.len() == entries.len(),
        forall|k: int|
            0 <= k < entries.len() ==> (#[trigger] fields[k]).0@ == entries[k].0@ && json_of(
                entries[k].1,
                fields[k].1,
            ),
    decreases entries.len(),
{
    if entries.len() > 0 {
        lemma_entries_json_entrywise(entries.drop_last(), fields.drop_last());
        assert forall|k: int| 0 <= k < entries.len() implies (#[trigger] fields[k]).0@ == entries[k].0@
            && json_of(entries[k].1, fields[k].1) by {
            if k < entries.len() - 1 {
                assert(entries.drop_last()[k] == entries[k]);
                assert(fields.drop_last()[k] == fields[k]);
            }
        }
    }
}

/// No two entries share a key, as in the maps DynamoDB and JSON hold.
pub open spec fn keys_distinct<V>(entries: Seq<(String, V)>) -> bool {
    forall|i: int, j: int|
        0 <= i < j < entries.len() ==> (#[trigger] entries[i]).0@ != (#[trigger] entries[j]).0@
}

/// Converting a map keeps its keys apart: when no two entries share a key,
/// no two fields of the JSON object do.
pub proof fn law_object_keys_stay_distinct(
    entries: Seq<(String, AttributeValue)>,
    fields: Seq<(String, JsonValue)>,
)
    requires
        entries_json(entries, fields),
        keys_distinct(entries),
    ensures
        keys_distinct(fields),
{
    lemma_entries_json_entrywise(entries, fields);
    assert forall|i: int, j: int| 0 <= i < j < fields.len() implies (#[trigger] fields[i]).0@
        != (#[trigger] fields[j]).0@ by {
        assert(entries[i].0@ != entries[j].0@);
    }
}

/// A set or list becomes an array with one element per member, in order:
/// a string set's and a number set's members as JSON strings of the same
/// text, a binary set's as the standard base64 text of each blob, a
/// list's as the JSON form of each value; a map becomes an object with one
/// field per entry, in order, under the same key, holding the JSON form of
/// the entry's value.
pub proof fn law_json_collections(av: AttributeValue, j: JsonValue)
    requires
        json_of(av, j),
    ensures
        av matches AttributeValue::Bs(blobs) ==> j matches JsonValue::Array(items) && items@.len()
            == blobs@.len() && forall|i: int|
            0 <= i < blobs@.len() ==> ((#[trigger] items@[i]) matches JsonValue::String(t) && t@
                == base64_standard(blobs@[i]@)),
        av matches AttributeValue::Ss(ss) ==> j matches JsonValue::Array(items) && items@.len()
            == ss@.len() && forall|i: int|
            0 <= i < ss@.len() ==> ((#[trigger] items@[i]) matches JsonValue::String(t) && t@
                == ss@[i]@),
        av matches AttributeValue::Ns(ns) ==> j matches JsonValue::Array(items) && items@.len()
            == ns@.len() && forall|i: int|
            0 <= i < ns@.len() ==> ((#[trigger] items@[i]) matches JsonValue::String(t) && t@
                == ns@[i]@),
        av matches AttributeValue::L(list) ==> j matches JsonValue::Array(items) && items@.len()
            == list@.len() && forall|i: int|
            0 <= i < list@.len() ==> json_of(list@[i], #[trigger] items@[i]),
        av matches AttributeValue::M(entries) ==> j matches JsonValue::Object(fields)
            && fields@.len() == entries@.len() && forall|i: int|
            0 <= i < entries@.len() ==> (#[trigger] fields@[i]).0@ == entries@[i].0@ && json_of(
                entries@[i].1,
                fields@[i].1,
            ),
{
    match av {
        AttributeValue::L(list) => {
            if let JsonValue::Array(items) = j {
                lemma_list_json_elementwise(list@, items@);
            }
        },
        AttributeValue::M(entries) => {
            if let JsonValue::Object(fields) = j {
                lemma_entries_json_entrywise(entries@, fields@);
            }
        },
        _ => {},
    }
}

/// A scalar keeps its value: a string stays that string, a boolean that
/// boolean, null and an unknown variant become null, a binary becomes its
/// standard base64 text, and a number becomes the integer its text denotes
/// when that text is an `i64`, else stays number text of the same
/// characters.
pub proof fn law_json_scalars(av: AttributeValue, j: JsonValue)
    requires
        json_of(av, j),
    ensures
        av matches AttributeValue::S(s) ==> j matches JsonValue::String(t) && t@ == s@,
        av matches AttributeValue::Bool(b) ==> j == JsonValue::Bool(b),
        av is Null ==> j == JsonValue::Null,
        av is Unknown ==> j == JsonValue::Null,
        av matches AttributeValue::B(bytes) ==> j matches JsonValue::String(t) && t@
            == base64_standard(bytes@),
        av matches AttributeValue::N(n) ==> (parse_i64_spec(n@) matches Some(v) ==> j
            == JsonValue::Int(v as i64)),
        av matches AttributeValue::N(n) ==> (parse_i64_spec(n@) is None ==> (
        j matches JsonValue::NumberText(t) && t@ == n@)),
{
}

/// The alphabet runs `A`-`Z`, `a`-`z`, `0`-`9`, `+`, `/`, and no two of the
/// 64 six-bit values share a character.
pub proof fn law_base64_alphabet()
    ensures
        base64_char(0) == 'A' && base64_char(25) == 'Z',
        base64_char(26) == 'a' && base64_char(51) == 'z',
        base64_char(52) == '0' && base64_char(61) == '9',
        base64_char(62) == '+' && base64_char(63) == '/',
        forall|v: int, w: int|
            0 <= v < 64 && 0 <= w < 64 && v != w ==> #[trigger] base64_char(v) != #[trigger] base64_char(
                w,
            ),
{
    assert forall|v: int, w: int|
        0 <= v < 64 && 0 <= w < 64 && v != w implies #[trigger] base64_char(v) != #[trigger] base64_char(
            w,
        ) by {
        assert(base64_char(v) as int != base64_char(w) as int);
    }
}

/// Standard base64 turns every started group of three bytes into four
/// characters.
pub proof fn law_base64_length(bytes: Seq<u8>)
    ensures
        base64_standard(bytes).len() == 4 * ((bytes.len() + 2) / 3),
    decreases bytes.len(),
{
    if bytes.len() >= 3 {
        law_base64_length(bytes.skip(3));
        assert(bytes.skip(3).len() == bytes.len() - 3);
        assert((bytes.len() + 2) / 3 == (bytes.len() - 3 + 2) / 3 + 1);
    }
}

/// Standard base64 works group by group: bytes that split after a whole
/// number of three-byte groups encode as the two parts' encodings, one
/// after the other.
pub proof fn law_base64_blocks(a: Seq<u8>, b: Seq<u8>)
    requires
        a.len() % 3 == 0,
    ensures
        base64_standard(a + b) == base64_standard(a) + base64_standard(b),
    decreases a.len(),
{
    if a.len() == 0 {
        assert(a + b =~= b);
        assert(base64_standard(a) + base64_standard(b) =~= base64_standard(b));
    } else {
        law_base64_blocks(a.skip(3), b);
        assert((a + b).skip(3) =~= a.skip(3) + b);
        assert((a + b)[0] == a[0] && (a + b)[1] == a[1] && (a + b)[2] == a[2]);
        assert(base64_standard(a + b) =~= base64_standard(a) + base64_standard(b));
    }
}

proof fn lemma_all_encodable_take(values: Seq<AttributeValue>, n: int)
    requires
        all_encodable(values),
        0 <= n < values.len(),
    ensures
        encodable(values[n]),
        all_encodable(values.take(n + 1)),
    decreases values.len(),
{
    if n == values.len() - 1 {
        assert(values.take(n + 1) =~= values);
    } else {
        lemma_all_encodable_take(values.drop_last(), n);
        assert(values.drop_last()[n] == values[n]);
        assert(values.drop_last().take(n + 1) =~= values.take(n + 1));
    }
}

proof fn lemma_all_entries_encodable_at(entries: Seq<(String, AttributeValue)>, n: int)
    requires
        all_entries_encodable(entries),
        0 <= n < entries.len(),
    ensures
        encodable(entries[n].1),
    decreases entries.len(),
{
    if n < entries.len() - 1 {
        lemma_all_entries_encodable_at(entries.drop_last(), n);
        assert(entries.drop_last()[n] == entries[n]);
    }
}

fn strings_to_json(values: &Vec<String>) -> (r: Vec<JsonValue>)
    ensures
        r@.len() == values@.len(),
        forall|i: int| 0 <= i < values@.len() ==> is_json_string(#[trigger] r@[i], values@[i]@),
{
    let mut out: Vec<JsonValue> = Vec::new();
    let mut i: usize = 0;
    while i < values.len()
        invariant
            i <= values@.len(),
            out@.len() == i,
            forall|k: int| 0 <= k < i ==> is_json_string(#[trigger] out@[k], values@[k]@),
        decreases values@.len() - i,
    {
        out.push(JsonValue::String(values[i].clone()));
        i += 1;
    }
    out
}

/// Recursively converts a DynamoDB attribute value to JSON. Binary values
/// (`B`, `BS`) become base64-encoded strings.
pub fn attribute_value_to_json(av: &AttributeValue) -> (j: JsonValue)
    requires
        encodable(*av),
    ensures
        json_of(*av, j),
        (*av matches AttributeValue::M(entries) && keys_distinct(entries@)) ==> (
        j matches JsonValue::Object(fields) && keys_distinct(fields@)),
    decreases *av,
{
    match av {
        AttributeValue::S(s) => JsonValue::String(s.clone()),
        AttributeValue::N(n) => match parse_i64(n.as_str()) {
            Some(v) => JsonValue::Int(v),
            None => JsonValue::NumberText(n.clone()),
        },
        AttributeValue::Bool(b) => JsonValue::Bool(*b),
        AttributeValue::Null(_) => JsonValue::Null,
        AttributeValue::B(bytes) => JsonValue::String(encode_base64(bytes)),
        AttributeValue::L(list) => {
            let mut items: Vec<JsonValue> = Vec::new();
            let mut i: usize = 0;
            while i < list.len()
                invariant
                    *av == AttributeValue::L(*list),
                    all_encodable(list@),
                    i <= list@.len(),
                    list_json(list@.take(i as int), items@),
                decreases list@.len() - i,
            {
                proof {
                    lemma_all_encodable_take(list@, i as int);
                }
                assert(decreases_to!(*av => (*av)->L_0));
                assert(decreases_to!(*av => list@[i as int]));
                let item = attribute_value_to_json(&list[i]);
                let ghost before = items@;
                items.push(item);
                assert(list@.take(i + 1).drop_last() =~= list@.take(i as int));
                assert(items@.drop_last() =~= before);
                i += 1;
            }
            assert(list@.take(list@.len() as int) =~= list@);
            JsonValue::Array(items)
        },
        AttributeValue::M(entries) => {
            let mut fields: Vec<(String, JsonValue)> = Vec::new();
            let mut i: usize = 0;
            while i < entries.len()
                invariant
                    *av == AttributeValue::M(*entries),
                    all_entries_encodable(entries@),
                    i <= entries@.len(),
                    entries_json(entries@.take(i as int), fields@),
                decreases entries@.len() - i,
            {
                proof {
                    lemma_all_entries_encodable_at(entries@, i as int);
                }
                assert(decreases_to!(*av => (*av)->M_0));
                assert(decreases_to!(*av => entries@[i as int].1));
                let key = entries[i].0.clone();
                let value = attribute_value_to_json(&entries[i].1);
                let ghost before = fields@;
                fields.push((key, value));
                assert(entries@.take(i + 1).drop_last() =~= entries@.take(i as int));
                assert(fields@.drop_last() =~= before);
                i += 1;
            }
            assert(entries@.take(entries@.len() as int) =~= entries@);
            proof {
                if keys_distinct(entries@) {
                    law_object_keys_stay_distinct(entries@, fields@);
                }
            }
            JsonValue::Object(fields)
        },
        AttributeValue::Ss(ss) => JsonValue::Array(strings_to_json(ss)),
        AttributeValue::Ns(ns) => JsonValue::Array(strings_to_json(ns)),
        AttributeValue::Bs(blobs) => {
            let mut items: Vec<JsonValue> = Vec::new();
            let mut i: usize = 0;
            while i < blobs.len()
                invariant
                    forall|k: int|
                        0 <= k < blobs@.len() ==> (#[trigger] blobs@[k])@.len() <= max_encodable(),
                    i <= blobs@.len(),
                    items@.len() == i,
                    forall|k: int|
                        0 <= k < i ==> is_json_string(
                            #[trigger] items@[k],
                            base64_standard(blobs@[k]@),
                        ),
                decreases blobs@.len() - i,
            {
                assert(blobs@[i as int]@.len() <= max_encodable());
                items.push(JsonValue::String(encode_base64(&blobs[i])));
                i += 1;
            }
            JsonValue::Array(items)
        },
        AttributeValue::Unknown => JsonValue::Null,
    }
}

/// The error for a `DescribeTable` reply without a table.
pub fn table_not_found(name: &str) -> (e: VaporError)
    ensures
        e == (VaporError::AwsSdk {
            code: None,
            message: e->message,
        }),
        e->message@ == "Table '"@ + name@ + "' not found"@,
{
    let message = String::from_str("Table '").concat(name).concat("' not found");
    VaporError::without_code(message)
}

} // verus!
