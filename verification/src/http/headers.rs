//! Header names, header values and the header map of the `http` crate
use vstd::prelude::*;

verus! {

/// A header value of the `http` crate.
#[verifier::external_type_specification]
#[verifier::external_body]
pub struct ExHeaderValue(::http::HeaderValue);

/// The header map of the `http` crate.
#[verifier::external_type_specification]
#[verifier::external_body]
#[verifier::reject_recursive_types(T)]
pub struct ExHeaderMap<T>(::http::HeaderMap<T>);

/// The names and values that a header map holds, in the order in which it is walked.
pub uninterp spec fn header_entries(map: ::http::HeaderMap) -> Seq<(Seq<u8>, Seq<u8>)>;

/// The lower case form of an ASCII letter, and any other byte unchanged.
pub open spec fn lower(b: u8) -> u8 {
    if 65 <= b <= 90 {
        (b + 32) as u8
    } else {
        b
    }
}

/// The lower case form of each byte.
pub open spec fn lowercase(bytes: Seq<u8>) -> Seq<u8> {
    bytes.map_values(|b: u8| lower(b))
}

/// Whether a byte may stand in a header name: an ASCII letter, a digit, or one of ``!#$%&'*+-.^_`|~``.
pub open spec fn is_token(b: u8) -> bool {
    ||| 48 <= b <= 57
    ||| 65 <= b <= 90
    ||| 97 <= b <= 122
    ||| b == 33
    ||| 35 <= b <= 39
    ||| b == 42
    ||| b == 43
    ||| b == 45
    ||| b == 46
    ||| 94 <= b <= 96
    ||| b == 124
    ||| b == 126
}

/// Whether bytes are a header name.
pub open spec fn is_header_name(bytes: Seq<u8>) -> bool {
    0 < bytes.len() <= 65535 && forall|i: int| 0 <= i < bytes.len() ==> is_token(#[trigger] bytes[i])
}

/// Whether bytes are a header value: no control character but the tab.
pub open spec fn is_header_value(bytes: Seq<u8>) -> bool {
    forall|i: int| 0 <= i < bytes.len() ==> (#[trigger] bytes[i] >= 32 && bytes[i] != 127) || bytes[i] == 9
}

/// Whether the bytes of a header value are text: visible ASCII characters, spaces and tabs.
pub open spec fn is_header_text(bytes: Seq<u8>) -> bool {
    forall|i: int| 0 <= i < bytes.len() ==> 32 <= #[trigger] bytes[i] < 127 || bytes[i] == 9
}

/// Where the first entry of that name is, or the number of entries when there is none.
pub open spec fn name_index(entries: Seq<(Seq<u8>, Seq<u8>)>, name: Seq<u8>) -> nat
    decreases entries.len(),
{
    if entries.len() == 0 || entries[0].0 == name {
        0
    } else {
        1 + name_index(entries.drop_first(), name)
    }
}

/// The first value of that name.
pub open spec fn first_value(entries: Seq<(Seq<u8>, Seq<u8>)>, name: Seq<u8>) -> Option<Seq<u8>> {
    let i = name_index(entries, name);
    if i < entries.len() {
        Some(entries[i as int].1)
    } else {
        None
    }
}

/// The entries of other names.
pub open spec fn not_named(name: Seq<u8>) -> spec_fn((Seq<u8>, Seq<u8>)) -> bool {
    |e: (Seq<u8>, Seq<u8>)| e.0 != name
}

/// The entries with `value` as the only value of `name`: in the place of its first value, or behind all others.
pub open spec fn with_value(
    entries: Seq<(Seq<u8>, Seq<u8>)>,
    name: Seq<u8>,
    value: Seq<u8>,
) -> Seq<(Seq<u8>, Seq<u8>)> {
    let i = name_index(entries, name) as int;
    if i < entries.len() {
        entries.take(i).push((name, value)) + entries.skip(i + 1).filter(not_named(name))
    } else {
        entries.push((name, value))
    }
}

/// How many entries a header map holds at least when it refuses another one.
pub open spec fn header_limit() -> nat {
    6554
}

/// [`::http::HeaderMap::new`] holds nothing.
#[verifier::external_body]
pub(crate) fn headers_new() -> (r: ::http::HeaderMap)
    ensures
        header_entries(r) == Seq::<(Seq<u8>, Seq<u8>)>::empty(),
{
    ::http::HeaderMap::new()
}

/// [`::http::HeaderMap::try_insert`] makes `value` the only value of `name`, in lower case, or refuses and
/// changes nothing. It refuses only a map that already has many names: growing its table beyond the largest size
/// is tried no sooner than with a fifth of that size, 32768, in use.
#[verifier::external_body]
pub(crate) fn headers_try_insert(map: &mut ::http::HeaderMap, name: &[u8], value: &[u8]) -> (r: bool)
    requires
        is_header_name(name@),
        is_header_value(value@),
    ensures
        header_entries(*final(map)) == if r {
            with_value(header_entries(*old(map)), lowercase(name@), value@)
        } else {
            header_entries(*old(map))
        },
        header_entries(*old(map)).len() < header_limit() ==> r,
{
    let name = ::http::HeaderName::from_bytes(name).unwrap();
    map.try_insert(name, ::http::HeaderValue::from_bytes(value).unwrap()).is_ok()
}

/// [`::http::HeaderMap::get`] gives the first value of that name, whatever the case of its letters.
#[verifier::external_body]
pub(crate) fn headers_get(map: &::http::HeaderMap, name: &str) -> (r: Option<Vec<u8>>)
    requires
        is_header_name(vstd::utf8::encode_utf8(name@)),
    ensures
        match r {
            Some(value) => first_value(header_entries(*map), lowercase(vstd::utf8::encode_utf8(name@))) == Some(
                value@,
            ),
            None => first_value(header_entries(*map), lowercase(vstd::utf8::encode_utf8(name@))) is None,
        },
{
    map.get(name).map(|value| value.as_bytes().to_vec())
}

/// The bytes of names and values.
pub open spec fn entries_view(headers: Seq<(String, Vec<u8>)>) -> Seq<(Seq<u8>, Seq<u8>)> {
    headers.map_values(|e: (String, Vec<u8>)| (vstd::utf8::encode_utf8(e.0@), e.1@))
}

/// [`::http::HeaderMap::iter`] walks all names and values.
#[verifier::external_body]
pub(crate) fn headers_list(map: &::http::HeaderMap) -> (r: Vec<(String, Vec<u8>)>)
    ensures
        entries_view(r@) == header_entries(*map),
{
    map.iter().map(|(n, v)| (n.as_str().to_owned(), v.as_bytes().to_vec())).collect()
}

/// [`::http::HeaderName::from_bytes`] takes the bytes that are a header name.
#[verifier::external_body]
pub(crate) fn is_name(bytes: &[u8]) -> (r: bool)
    ensures
        r == is_header_name(bytes@),
{
    ::http::HeaderName::from_bytes(bytes).is_ok()
}

/// [`::http::HeaderValue::from_bytes`] takes the bytes that are a header value.
#[verifier::external_body]
pub(crate) fn is_value(bytes: &[u8]) -> (r: bool)
    ensures
        r == is_header_value(bytes@),
{
    ::http::HeaderValue::from_bytes(bytes).is_ok()
}

/// The value that was inserted is the value that is found.
pub proof fn inserted_value_is_found(
    entries: Seq<(Seq<u8>, Seq<u8>)>,
    name: Seq<u8>,
    value: Seq<u8>,
)
    ensures
        first_value(with_value(entries, name, value), name) == Some(value),
{
    lemma_name_index(entries, name);
    lemma_name_index(with_value(entries, name, value), name);
    let after = with_value(entries, name, value);
    let i = name_index(entries, name) as int;
    let j = name_index(after, name) as int;
    assert(after[i] == (name, value));
    assert forall|k: int| 0 <= k < i implies after[k].0 != name by {
        assert(after[k] == entries[k]);
    }
    assert(j == i);
}

/// Inserting a value changes the values of no other name.
pub proof fn inserting_keeps_other_names(
    entries: Seq<(Seq<u8>, Seq<u8>)>,
    name: Seq<u8>,
    value: Seq<u8>,
    other: Seq<u8>,
)
    requires
        other != name,
    ensures
        first_value(with_value(entries, name, value), other) == first_value(entries, other),
{
    let is_other = |e: (Seq<u8>, Seq<u8>)| e.0 == other;
    let kept = not_named(name);
    let after = with_value(entries, name, value);
    let i = name_index(entries, name) as int;
    lemma_first_value_of_filter(entries, other);
    lemma_first_value_of_filter(after, other);
    if i < entries.len() {
        lemma_name_index(entries, name);
        let front = entries.take(i);
        let back = entries.skip(i + 1);
        assert(entries =~= front.push(entries[i]) + back);
        assert(after =~= front.push((name, value)) + back.filter(kept));
        Seq::filter_distributes_over_add(front.push(entries[i]), back, is_other);
        Seq::filter_distributes_over_add(front.push((name, value)), back.filter(kept), is_other);
        lemma_filter_push(front, entries[i], is_other);
        lemma_filter_push(front, (name, value), is_other);
        lemma_filter_twice(back, kept, is_other);
    } else {
        lemma_filter_push(entries, (name, value), is_other);
    }
}

/// The first value of a name is that of the first entry that has the name.
proof fn lemma_first_value_of_filter(entries: Seq<(Seq<u8>, Seq<u8>)>, name: Seq<u8>)
    ensures
        ({
            let found = entries.filter(|e: (Seq<u8>, Seq<u8>)| e.0 == name);
            first_value(entries, name) == if found.len() > 0 {
                Some(found[0].1)
            } else {
                None
            }
        }),
    decreases entries.len(),
{
    let has_name = |e: (Seq<u8>, Seq<u8>)| e.0 == name;
    if entries.len() > 0 {
        let rest = entries.drop_first();
        lemma_first_value_of_filter(rest, name);
        assert(entries =~= seq![entries[0]] + rest);
        Seq::filter_distributes_over_add(seq![entries[0]], rest, has_name);
        lemma_filter_push(Seq::empty(), entries[0], has_name);
        assert(Seq::<(Seq<u8>, Seq<u8>)>::empty().push(entries[0]) =~= seq![entries[0]]);
        reveal(Seq::filter);
    } else {
        reveal(Seq::filter);
    }
}

proof fn lemma_filter_push(
    s: Seq<(Seq<u8>, Seq<u8>)>,
    e: (Seq<u8>, Seq<u8>),
    pred: spec_fn((Seq<u8>, Seq<u8>)) -> bool,
)
    ensures
        s.push(e).filter(pred) == if pred(e) {
            s.filter(pred).push(e)
        } else {
            s.filter(pred)
        },
{
    reveal(Seq::filter);
    assert(s.push(e).drop_last() =~= s);
}

/// Filtering by the second predicate gives the same when entries that it drops anyway were dropped before.
proof fn lemma_filter_twice(
    s: Seq<(Seq<u8>, Seq<u8>)>,
    first: spec_fn((Seq<u8>, Seq<u8>)) -> bool,
    second: spec_fn((Seq<u8>, Seq<u8>)) -> bool,
)
    requires
        forall|e: (Seq<u8>, Seq<u8>)| #[trigger] second(e) ==> first(e),
    ensures
        s.filter(first).filter(second) == s.filter(second),
    decreases s.len(),
{
    reveal(Seq::filter);
    if s.len() > 0 {
        lemma_filter_twice(s.drop_last(), first, second);
        assert(s =~= s.drop_last().push(s.last()));
        lemma_filter_push(s.drop_last(), s.last(), first);
        lemma_filter_push(s.drop_last(), s.last(), second);
        if first(s.last()) {
            lemma_filter_push(s.drop_last().filter(first), s.last(), second);
        }
    }
}

/// No entry before the index of a name has the name, and the entry there has it.
proof fn lemma_name_index(entries: Seq<(Seq<u8>, Seq<u8>)>, name: Seq<u8>)
    ensures
        name_index(entries, name) <= entries.len(),
        forall|k: int| 0 <= k < name_index(entries, name) ==> (#[trigger] entries[k]).0 != name,
        name_index(entries, name) < entries.len() ==> entries[name_index(entries, name) as int].0 == name,
    decreases entries.len(),
{
    if entries.len() > 0 && entries[0].0 != name {
        lemma_name_index(entries.drop_first(), name);
        assert forall|k: int| 0 <= k < name_index(entries, name) implies (#[trigger] entries[k]).0
            != name by {
            if k > 0 {
                assert(entries.drop_first()[k - 1] == entries[k]);
            }
        }
    }
}

/// The first value of a name is the value of the entry that has the name and has none before it that does.
pub proof fn first_value_is_of_first_entry(entries: Seq<(Seq<u8>, Seq<u8>)>, name: Seq<u8>)
    ensures
        match first_value(entries, name) {
            Some(value) => exists|i: int|
                0 <= i < entries.len() && #[trigger] entries[i] == (name, value) && forall|k: int|
                    0 <= k < i ==> (#[trigger] entries[k]).0 != name,
            None => forall|k: int| 0 <= k < entries.len() ==> (#[trigger] entries[k]).0 != name,
        },
{
    lemma_name_index(entries, name);
    let i = name_index(entries, name) as int;
    if i < entries.len() {
        assert(entries[i] == (name, first_value(entries, name)->0));
    }
}

/// After inserting a value there is one entry of its name, and the entries of other names are the same, in their order.
pub proof fn inserting_leaves_one_entry(entries: Seq<(Seq<u8>, Seq<u8>)>, name: Seq<u8>, value: Seq<u8>)
    ensures
        with_value(entries, name, value).filter(|e: (Seq<u8>, Seq<u8>)| e.0 == name) == seq![(name, value)],
        with_value(entries, name, value).filter(|e: (Seq<u8>, Seq<u8>)| e.0 != name) == entries.filter(
            |e: (Seq<u8>, Seq<u8>)| e.0 != name,
        ),
{
    let named = |e: (Seq<u8>, Seq<u8>)| e.0 == name;
    let other = |e: (Seq<u8>, Seq<u8>)| e.0 != name;
    let kept = not_named(name);
    let after = with_value(entries, name, value);
    let i = name_index(entries, name) as int;
    lemma_name_index(entries, name);
    let front = entries.take(i);
    lemma_none_pass(front, named);
    lemma_filter_push(front, (name, value), named);
    lemma_filter_push(front, (name, value), other);
    if i < entries.len() {
        let back = entries.skip(i + 1);
        assert(entries =~= front.push(entries[i]) + back);
        assert(after =~= front.push((name, value)) + back.filter(kept));
        Seq::filter_distributes_over_add(front.push((name, value)), back.filter(kept), named);
        Seq::filter_distributes_over_add(front.push((name, value)), back.filter(kept), other);
        Seq::filter_distributes_over_add(front.push(entries[i]), back, other);
        lemma_filter_push(front, entries[i], other);
        assert forall|k: int| 0 <= k < back.filter(kept).len() implies !named(#[trigger] back.filter(kept)[k]) by {
            broadcast use vstd::seq_lib::group_filter_ensures;

            assert(kept(back.filter(kept)[k]));
        }
        lemma_none_pass(back.filter(kept), named);
        lemma_filter_twice(back, kept, other);
        assert(after.filter(named) =~= seq![(name, value)]);
    } else {
        assert(front =~= entries);
        assert(after.filter(named) =~= seq![(name, value)]);
    }
}

/// Filtering leaves nothing when no entry passes.
proof fn lemma_none_pass(s: Seq<(Seq<u8>, Seq<u8>)>, pred: spec_fn((Seq<u8>, Seq<u8>)) -> bool)
    requires
        forall|k: int| 0 <= k < s.len() ==> !pred(#[trigger] s[k]),
    ensures
        s.filter(pred) == Seq::<(Seq<u8>, Seq<u8>)>::empty(),
    decreases s.len(),
{
    reveal(Seq::filter);
    if s.len() > 0 {
        lemma_none_pass(s.drop_last(), pred);
    }
}

/// The lower case form changes the letters from A to Z to those from a to z, and no other byte.
pub proof fn lowercase_changes_letters(bytes: Seq<u8>, i: int)
    requires
        0 <= i < bytes.len(),
    ensures
        lowercase(bytes).len() == bytes.len(),
        'A' as u8 <= bytes[i] <= 'Z' as u8 ==> lowercase(bytes)[i] - 'a' as u8 == bytes[i] - 'A' as u8,
        !('A' as u8 <= bytes[i] <= 'Z' as u8) ==> lowercase(bytes)[i] == bytes[i],
        lowercase(lowercase(bytes)) == lowercase(bytes),
{
    assert(lowercase(lowercase(bytes)) =~= lowercase(bytes));
}

/// The bytes of names and values are those of the headers, in their order.
pub proof fn entries_are_those_of_headers(headers: Seq<(String, Vec<u8>)>, i: int)
    ensures
        entries_view(headers).len() == headers.len(),
        0 <= i < headers.len() ==> entries_view(headers)[i] == (
            vstd::utf8::encode_utf8(headers[i].0@),
            headers[i].1@,
        ),
{
}

/// A header name has at least one byte, and none that separates it from its value or its line from others. A header value
/// has no line break.
pub proof fn headers_are_in_one_line(name: Seq<u8>, value: Seq<u8>, i: int)
    ensures
        is_header_name(name) ==> name.len() > 0,
        is_header_name(name) && 0 <= i < name.len() ==> name[i] != ':' as u8 && name[i] > ' ' as u8 && name[i] < 127,
        is_header_value(value) && 0 <= i < value.len() ==> value[i] != '\r' as u8 && value[i] != '\n' as u8,
        is_header_text(value) ==> is_header_value(value),
{
    if is_header_name(name) && 0 <= i < name.len() {
        assert(is_token(name[i]));
    }
    if is_header_value(value) && 0 <= i < value.len() {
        assert(value[i] >= 32 || value[i] == 9);
    }
}

} // verus!
