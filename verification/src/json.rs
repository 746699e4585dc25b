//! Reading JSON documents.
//!
//! A document is seen as what its leaves and objects hold, each found by the path of
//! object keys that leads to it from the root.
use vstd::prelude::*;

verus! {

/// A path of object keys.
pub type Path = Seq<Seq<char>>;

/// `serde_json::Value`, a JSON document.
#[verifier::external_type_specification]
#[verifier::external_body]
pub struct ExValue(serde_json::Value);

/// `serde_json::Error`, the reason why a conversion failed.
#[verifier::external_type_specification]
#[verifier::external_body]
pub struct ExError(serde_json::Error);

/// The numbers in a document that are unsigned integers of at most 64 bits, by path.
pub uninterp spec fn json_unsigned(value: serde_json::Value) -> Map<Seq<Seq<char>>, u64>;

/// The strings in a document, by path.
pub uninterp spec fn json_text(value: serde_json::Value) -> Map<Seq<Seq<char>>, Seq<char>>;

/// The keys of each object in a document, in the order in which the object hands out
/// its entries, by the path of the object.
pub uninterp spec fn json_keys(value: serde_json::Value) -> Map<Seq<Seq<char>>, Seq<Seq<char>>>;

/// What a map by path holds at `path`.
pub open spec fn lookup<V>(map: Map<Path, V>, path: Path) -> Option<V> {
    if map.contains_key(path) {
        Some(map[path])
    } else {
        None
    }
}

/// The part of a map by path that lies under `key`.
pub open spec fn below<V>(map: Map<Path, V>, key: Seq<char>) -> Map<Path, V> {
    Map::new(
        |path: Path| map.contains_key(seq![key] + path),
        |path: Path| map[seq![key] + path],
    )
}

/// The document is an object.
pub open spec fn document_is_object(value: serde_json::Value) -> bool {
    json_keys(value).contains_key(Seq::<Seq<char>>::empty())
}

/// The document is an object with an entry for `key`.
pub open spec fn has_key(value: serde_json::Value, key: Seq<char>) -> bool {
    document_is_object(value) && json_keys(value)[Seq::<Seq<char>>::empty()].contains(key)
}

/// `child` holds exactly what `value` holds under `key`.
pub open spec fn is_child(
    value: serde_json::Value,
    key: Seq<char>,
    child: serde_json::Value,
) -> bool {
    &&& json_unsigned(child) == below(json_unsigned(value), key)
    &&& json_text(child) == below(json_text(value), key)
    &&& json_keys(child) == below(json_keys(value), key)
}

/// The document holds nothing under `key`.
pub open spec fn holds_nothing_under(value: serde_json::Value, key: Seq<char>) -> bool {
    &&& below(json_unsigned(value), key) == Map::<Path, u64>::empty()
    &&& below(json_text(value), key) == Map::<Path, Seq<char>>::empty()
    &&& below(json_keys(value), key) == Map::<Path, Seq<Seq<char>>>::empty()
}

/// The document is a string and nothing else.
pub open spec fn is_text(value: serde_json::Value, text: Seq<char>) -> bool {
    &&& json_text(value) == Map::<Path, Seq<char>>::empty().insert(
        Seq::<Seq<char>>::empty(),
        text,
    )
    &&& json_unsigned(value) == Map::<Path, u64>::empty()
    &&& json_keys(value) == Map::<Path, Seq<Seq<char>>>::empty()
}

/// Two documents hold the same.
pub open spec fn same_content(a: serde_json::Value, b: serde_json::Value) -> bool {
    &&& json_unsigned(a) == json_unsigned(b)
    &&& json_text(a) == json_text(b)
    &&& json_keys(a) == json_keys(b)
}

/// `a` comes before `b` in the order of strings: character by character.
pub open spec fn comes_before(a: Seq<char>, b: Seq<char>) -> bool {
    exists|n: int|
        #![trigger a.take(n)]
        0 <= n <= a.len() && n < b.len() && a.take(n) == b.take(n) && (n == a.len() || a[n] < b[n])
}

/// `serde_json::Value::as_u64` gives the number, if the document is an unsigned integer
/// of at most 64 bits, and nothing otherwise.
pub assume_specification[ serde_json::Value::as_u64 ](value: &serde_json::Value) -> (number: Option<
    u64,
>)
    ensures
        number == lookup(json_unsigned(*value), Seq::<Seq<char>>::empty()),
;

/// `serde_json::Value::as_str` gives the text, if the document is a string, and nothing
/// otherwise.
pub assume_specification[ serde_json::Value::as_str ](value: &serde_json::Value) -> (text: Option<
    &str,
>)
    ensures
        match text {
            Some(found) => lookup(json_text(*value), Seq::<Seq<char>>::empty()) == Some(found@),
            None => lookup(json_text(*value), Seq::<Seq<char>>::empty()) is None,
        },
;

/// `serde_json::Value::is_object` tells whether the document is an object.
pub assume_specification[ serde_json::Value::is_object ](value: &serde_json::Value) -> (answer:
    bool)
    ensures
        answer == document_is_object(*value),
;

/// `serde_json::Value::get`, called with a string: the entry of an object for that key.
/// There is none if the document is no object or has no such key, and then nothing in
/// the document is reached through the key.
#[verifier::external_body]
pub(crate) fn get<'a>(value: &'a serde_json::Value, key: &str) -> (child: Option<
    &'a serde_json::Value,
>)
    ensures
        child is Some <==> has_key(*value, key@),
        child matches Some(found) ==> is_child(*value, key@, *found),
        child is None ==> holds_nothing_under(*value, key@),
{
    value.get(key)
}

/// `serde_json::Map::iter` on the map that an object is made of: the entries, in
/// ascending order of their keys, so that no key comes twice. A document that is no
/// object has none to give.
#[verifier::external_body]
pub(crate) fn entries<'a>(value: &'a serde_json::Value) -> (all: Option<
    Vec<(&'a String, &'a serde_json::Value)>,
>)
    ensures
        all is Some <==> document_is_object(*value),
        all matches Some(found) ==> {
            let keys = json_keys(*value)[Seq::<Seq<char>>::empty()];
            &&& found@.len() == keys.len()
            &&& forall|i: int|
                #![trigger found@[i]]
                0 <= i < keys.len() ==> found@[i].0@ == keys[i] && is_child(
                    *value,
                    keys[i],
                    *found@[i].1,
                )
            &&& forall|i: int, j: int|
                0 <= i < j < keys.len() ==> comes_before(#[trigger] keys[i], #[trigger] keys[j])
        },
{
    match value {
        serde_json::Value::Object(map) => Some(map.iter().collect()),
        _ => None,
    }
}

/// `serde_json::from_value`, asked for a document: it takes a copy of the document
/// apart and builds it again, which always succeeds and changes nothing in it.
#[verifier::external_body]
pub(crate) fn rebuild(
    value: &serde_json::Value,
) -> (copy: Result<serde_json::Value, serde_json::Error>)
    ensures
        copy is Ok,
        same_content(copy->Ok_0, *value),
{
    serde_json::from_value::<serde_json::Value>(value.clone())
}

/// The variant `serde_json::Value::String`: a document that is that text and nothing
/// else.
#[verifier::external_body]
pub(crate) fn text_value(text: String) -> (value: serde_json::Value)
    ensures
        is_text(value, text@),
{
    serde_json::Value::String(text)
}

/// Law: of two texts at most one comes before the other, and none before itself.
pub proof fn order_is_strict(a: Seq<char>, b: Seq<char>)
    requires
        comes_before(a, b),
    ensures
        a != b,
        !comes_before(b, a),
{
    let n = choose|n: int|
        #![trigger a.take(n)]
        0 <= n <= a.len() && n < b.len() && a.take(n) == b.take(n) && (n == a.len() || a[n] < b[n]);
    assert forall|i: int| 0 <= i < n implies #[trigger] a[i] == b[i] by {
        assert(a.take(n)[i] == b.take(n)[i]);
    }
    if comes_before(b, a) {
        let m = choose|m: int|
            #![trigger b.take(m)]
            0 <= m <= b.len() && m < a.len() && b.take(m) == a.take(m) && (m == b.len() || b[m]
                < a[m]);
        assert forall|i: int| 0 <= i < m implies #[trigger] a[i] == b[i] by {
            assert(a.take(m)[i] == b.take(m)[i]);
        }
        if m < n {
            assert(a[m] == b[m]);
        } else if n < m {
            assert(a[n] == b[n]);
        }
    }
}

/// Law: the order of texts is decided by the first characters that differ; a text comes before
/// those that it begins.
pub proof fn order_goes_by_the_first_difference(a: Seq<char>, b: Seq<char>, n: int)
    requires
        0 <= n <= a.len(),
        n < b.len(),
        forall|i: int| 0 <= i < n ==> #[trigger] a[i] == b[i],
        n < a.len() ==> a[n] != b[n],
    ensures
        comes_before(a, b) <==> n == a.len() || a[n] < b[n],
{
    assert(a.take(n) =~= b.take(n));
    if n < a.len() && b[n] < a[n] {
        assert(b.take(n) == a.take(n));
        assert(comes_before(b, a));
        order_is_strict(b, a);
    }
}

/// Law: looking up what a document holds at a path gives it, or nothing where it holds none.
pub proof fn lookup_finds_what_is_there<V>(map: Map<Path, V>, path: Path)
    ensures
        map.contains_key(path) ==> lookup(map, path) == Some(map[path]),
        !map.contains_key(path) ==> lookup(map, path) is None,
{
}

} // verus!
