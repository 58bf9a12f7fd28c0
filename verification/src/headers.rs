//! HTTP header maps: what an `axum::http::HeaderMap` holds, and the operations on it.
//!
//! A header map is seen as a map from lower-case header names to the values of each name, in the
//! order in which they were added.
use axum::http::{HeaderMap, HeaderName, HeaderValue};
use vstd::prelude::*;

verus! {

/// The header map of `axum::http`.
#[verifier::external_type_specification]
#[verifier::external_body]
#[verifier::reject_recursive_types(T)]
pub struct ExHeaderMap<T>(axum::http::HeaderMap<T>);

/// One value of a header map.
#[verifier::external_type_specification]
#[verifier::external_body]
pub struct ExHeaderValue(axum::http::HeaderValue);

/// A header value: its bytes, and whether they are marked as not to be kept in a compression table.
pub struct Value {
    pub bytes: Seq<u8>,
    pub sensitive: bool,
}

/// A header value: its bytes, and whether they are marked as not to be kept in a compression table.
pub struct FieldValue {
    pub bytes: Vec<u8>,
    pub sensitive: bool,
}

impl View for FieldValue {
    type V = Value;

    open spec fn view(&self) -> Value {
        Value { bytes: self.bytes@, sensitive: self.sensitive }
    }
}

/// A value that is not marked.
pub open spec fn plain_value(bytes: Seq<u8>) -> Value {
    Value { bytes, sensitive: false }
}

/// The values of each header name, in the order in which they were added.
pub type Headers = Map<Seq<char>, Seq<Value>>;

/// What a header map holds.
pub uninterp spec fn header_values(map: HeaderMap) -> Headers;

/// A header map of this many names may refuse to take another one. While there are fewer, its
/// table can always grow: the table has at most 32768 slots, and it is doubled beyond that only
/// when a fifth of the slots is taken.
pub const NAME_LIMIT: usize = 6554;

/// Whether `count` more names can be added.
pub open spec fn has_room(headers: Headers, count: nat) -> bool {
    headers.dom().finite() && headers.dom().len() + count <= NAME_LIMIT
}

/// Whether the headers have this many different names.
pub open spec fn has_names(headers: Headers, count: nat) -> bool {
    headers.dom().finite() && headers.dom().len() == count
}

/// The characters of a header name.
pub open spec fn is_header_char(c: char) -> bool {
    ||| 'a' <= c <= 'z'
    ||| '0' <= c <= '9'
    ||| c == '!' || c == '"' || c == '#' || c == '$' || c == '%' || c == '&' || c == '\''
    ||| c == '*' || c == '+' || c == '-' || c == '.' || c == '^' || c == '_' || c == '`'
    ||| c == '|' || c == '~'
}

/// Whether `name` is a header name in lower case.
pub open spec fn is_header_name(name: Seq<char>) -> bool {
    &&& 0 < name.len() <= 65535
    &&& forall|i: int| 0 <= i < name.len() ==> is_header_char(#[trigger] name[i])
}

/// Whether `value` can be the value of a header: no control characters but the tab.
pub open spec fn is_header_value(value: Seq<u8>) -> bool {
    forall|i: int| 0 <= i < value.len() ==> (#[trigger] value[i] >= 32 && value[i] != 127) || value[i] == 9
}

/// No headers at all.
pub open spec fn no_headers() -> Headers {
    Map::empty()
}

/// The values of one name; none if the name does not occur.
pub open spec fn values_of(headers: Headers, name: Seq<char>) -> Seq<Value> {
    if headers.dom().contains(name) {
        headers[name]
    } else {
        Seq::empty()
    }
}

/// The headers with one value more.
pub open spec fn appended(headers: Headers, name: Seq<char>, value: Value) -> Headers {
    headers.insert(name, values_of(headers, name).push(value))
}

/// The headers with `value` as the only value of `name`.
pub open spec fn replaced(headers: Headers, name: Seq<char>, value: Value) -> Headers {
    headers.insert(name, seq![value])
}

/// What holds of every header map: finitely many names, each a header name with at least one
/// value, and every value a header value.
pub open spec fn well_formed(headers: Headers) -> bool {
    &&& headers.dom().finite()
    &&& forall|name: Seq<char>| #[trigger]
        headers.dom().contains(name) ==> {
            &&& is_header_name(name)
            &&& headers[name].len() > 0
            &&& forall|k: int|
                0 <= k < headers[name].len() ==> is_header_value(
                    (#[trigger] headers[name][k]).bytes,
                )
        }
}

/// The views of a list of values.
pub open spec fn list_of(list: Seq<FieldValue>) -> Seq<Value> {
    list.map_values(|v: FieldValue| v@)
}

/// The views of a list of names and values.
pub open spec fn entries_of(list: Seq<(String, FieldValue)>) -> Seq<(Seq<char>, Value)> {
    list.map_values(|e: (String, FieldValue)| (e.0@, e.1@))
}

/// The values that a list of names and values gives to one name, in order.
pub open spec fn values_in(entries: Seq<(Seq<char>, Value)>, name: Seq<char>) -> Seq<Value>
    decreases entries.len(),
{
    if entries.len() == 0 {
        Seq::empty()
    } else {
        let before = values_in(entries.drop_last(), name);
        if entries.last().0 == name {
            before.push(entries.last().1)
        } else {
            before
        }
    }
}

/// Whether a list of names and values gives every name the values that it has in `headers`.
pub open spec fn enumerates(entries: Seq<(Seq<char>, Value)>, headers: Headers) -> bool {
    &&& well_formed(headers)
    &&& forall|name: Seq<char>| #[trigger] values_of(headers, name) == values_in(entries, name)
    &&& forall|k: int|
        0 <= k < entries.len() ==> {
            &&& headers.dom().contains((#[trigger] entries[k]).0)
            &&& is_header_value(entries[k].1.bytes)
        }
}

/// `HeaderMap::new`: a map that holds nothing.
#[verifier::external_body]
pub(crate) fn new_headers() -> (res: HeaderMap)
    ensures
        header_values(res) == no_headers(),
{
    HeaderMap::new()
}

/// `HeaderMap::keys_len`: how many names the map holds.
#[verifier::external_body]
pub(crate) fn keys_len(map: &HeaderMap) -> (res: usize)
    ensures
        has_names(header_values(*map), res as nat),
{
    map.keys_len()
}

/// `HeaderMap::get`: the first value of a name.
#[verifier::external_body]
pub(crate) fn get(map: &HeaderMap, name: &str) -> (res: Option<FieldValue>)
    requires
        is_header_name(name@),
    ensures
        match res {
            Some(value) => values_of(header_values(*map), name@).len() > 0 && value@ == values_of(
                header_values(*map),
                name@,
            )[0] && is_header_value(value.bytes@),
            None => values_of(header_values(*map), name@).len() == 0,
        },
{
    let name = HeaderName::from_lowercase(name.as_bytes()).unwrap();
    map.get(name).map(|value| FieldValue {
        bytes: value.as_bytes().to_vec(),
        sensitive: value.is_sensitive(),
    })
}

/// `HeaderMap::get_all`: all values of a name, in the order in which they were added.
#[verifier::external_body]
pub(crate) fn get_all(map: &HeaderMap, name: &str) -> (res: Vec<FieldValue>)
    requires
        is_header_name(name@),
    ensures
        list_of(res@) == values_of(header_values(*map), name@),
{
    let name = HeaderName::from_lowercase(name.as_bytes()).unwrap();
    map.get_all(name).iter().map(|value| FieldValue {
        bytes: value.as_bytes().to_vec(),
        sensitive: value.is_sensitive(),
    }).collect()
}

/// `HeaderMap::contains_key`: whether a name occurs.
#[verifier::external_body]
pub(crate) fn contains_key(map: &HeaderMap, name: &str) -> (res: bool)
    requires
        is_header_name(name@),
    ensures
        res == header_values(*map).dom().contains(name@),
{
    map.contains_key(HeaderName::from_lowercase(name.as_bytes()).unwrap())
}

/// `HeaderMap::iter`: every value with its name. The values of one name come in the order in which
/// they were added; nothing is said of the order of the names.
#[verifier::external_body]
pub(crate) fn entries(map: &HeaderMap) -> (res: Vec<(String, FieldValue)>)
    ensures
        enumerates(entries_of(res@), header_values(*map)),
{
    map.iter().map(|(name, value)| (name.as_str().to_owned(), FieldValue {
        bytes: value.as_bytes().to_vec(),
        sensitive: value.is_sensitive(),
    })).collect()
}

/// `HeaderMap::append`: one more value for a name, behind those that it has.
#[verifier::external_body]
pub(crate) fn append(map: &mut HeaderMap, name: &str, value: &FieldValue)
    requires
        is_header_name(name@),
        is_header_value(value.bytes@),
        has_room(header_values(*old(map)), 1),
    ensures
        header_values(*final(map)) == appended(header_values(*old(map)), name@, value@),
{
    let name = HeaderName::from_lowercase(name.as_bytes()).unwrap();
    let mut field = HeaderValue::from_bytes(&value.bytes).unwrap();
    field.set_sensitive(value.sensitive);
    map.append(name, field);
}

/// `HeaderMap::insert`: one value for a name, in place of those that it has.
#[verifier::external_body]
pub(crate) fn insert(map: &mut HeaderMap, name: &str, value: &FieldValue)
    requires
        is_header_name(name@),
        is_header_value(value.bytes@),
        has_room(header_values(*old(map)), 1),
    ensures
        header_values(*final(map)) == replaced(header_values(*old(map)), name@, value@),
{
    let name = HeaderName::from_lowercase(name.as_bytes()).unwrap();
    let mut field = HeaderValue::from_bytes(&value.bytes).unwrap();
    field.set_sensitive(value.sensitive);
    map.insert(name, field);
}

/// How many different names a header map holds.
pub fn header_count(map: &HeaderMap) -> (res: usize)
    ensures
        has_names(header_values(*map), res as nat),
{
    keys_len(map)
}

/// Whether `value` can be the value of a header.
pub fn check_header_value(value: &[u8]) -> (res: bool)
    ensures
        res == is_header_value(value@),
{
    let mut i: usize = 0;
    while i < value.len()
        invariant
            i <= value@.len(),
            forall|j: int| 0 <= j < i ==> (#[trigger] value@[j] >= 32 && value@[j] != 127) || value@[j] == 9,
        decreases value@.len() - i,
    {
        let b = value[i];
        if !((b >= 32 && b != 127) || b == 9) {
            return false;
        }
        i = i + 1;
    }
    true
}

/// A value as text: `Some` if it holds nothing but visible ASCII characters, spaces and tabs.
pub open spec fn text_of(value: Seq<u8>) -> Option<Seq<char>> {
    if forall|i: int| 0 <= i < value.len() ==> (32 <= #[trigger] value[i] < 127) || value[i] == 9 {
        Some(value.map_values(|b: u8| b as char))
    } else {
        None
    }
}

/// A header value as text, if it is visible ASCII.
pub fn value_text(value: &[u8]) -> (res: Option<String>)
    ensures
        match res {
            Some(text) => text_of(value@) == Some(text@),
            None => text_of(value@) is None,
        },
{
    let mut text = String::new();
    let mut i: usize = 0;
    while i < value.len()
        invariant
            i <= value@.len(),
            text@ == value@.take(i as int).map_values(|b: u8| b as char),
            forall|j: int| 0 <= j < i ==> (32 <= #[trigger] value@[j] < 127) || value@[j] == 9,
        decreases value@.len() - i,
    {
        let b = value[i];
        if !((32 <= b && b < 127) || b == 9) {
            return None;
        }
        text.push(b as char);
        i = i + 1;
        assert(text@ =~= value@.take(i as int).map_values(|b: u8| b as char));
    }
    assert(value@.take(i as int) =~= value@);
    Some(text)
}

} // verus!
