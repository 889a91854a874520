//! The JSON reading and writing that the engine needs, each done by
//! `serde_json` behind one trusted function whose result is stated or named
//! here.

use vstd::prelude::*;
use crate::text::comma_joined;

verus! {

/// Pairs of strings seen as pairs of character sequences.
pub open spec fn pairs_view(s: Seq<(String, String)>) -> Seq<(Seq<char>, Seq<char>)> {
    s.map_values(|p: (String, String)| (p.0@, p.1@))
}

/// Strings seen as character sequences.
pub open spec fn strings_view(s: Seq<String>) -> Seq<Seq<char>> {
    s.map_values(|x: String| x@)
}

/// The members of the JSON object written in `text`, or `None` when `text`
/// is not one: each key decoded, each value written back as compact JSON.
pub uninterp spec fn json_members_of(text: Seq<char>) -> Option<Seq<(Seq<char>, Seq<char>)>>;

/// The string written as the JSON document `text`, or `None` when it is not
/// a JSON string.
pub uninterp spec fn json_string_of(text: Seq<char>) -> Option<Seq<char>>;

/// The strings of the JSON array of strings written in `text`, or `None`
/// when `text` is not such an array.
pub uninterp spec fn json_string_list_of(text: Seq<char>) -> Option<Seq<Seq<char>>>;

/// Whether `e` lists each entry of `m` exactly once, in some order.
pub open spec fn lists_entries(e: Seq<(Seq<char>, Seq<char>)>, m: Map<Seq<char>, Seq<char>>) -> bool {
    &&& forall|i: int| 0 <= i < e.len() ==> #[trigger] m.contains_key(e[i].0) && m[e[i].0] == e[i].1
    &&& forall|k: Seq<char>| #[trigger] m.contains_key(k) ==> exists|i: int| 0 <= i < e.len() && e[i].0 == k
    &&& forall|i: int, j: int| 0 <= i < j < e.len() ==> e[i].0 != e[j].0
}

/// The lower-case hexadecimal digit of `d` (0 to 15).
pub open spec fn hex_digit(d: int) -> char {
    if d < 10 {
        (48 + d) as char
    } else {
        (87 + d) as char
    }
}

/// How a character is written inside a JSON string: `"` and `\` after a
/// backslash; backspace, form feed, line feed, carriage return and tab as
/// `\b`, `\f`, `\n`, `\r`, `\t`; the other control characters below 0x20 as
/// `\u00` and two lower-case hexadecimal digits; any other character as
/// itself.
pub open spec fn json_escape(c: char) -> Seq<char> {
    let u = c as u32;
    if c == '"' {
        seq!['\\', '"']
    } else if c == '\\' {
        seq!['\\', '\\']
    } else if u == 8 {
        seq!['\\', 'b']
    } else if u == 12 {
        seq!['\\', 'f']
    } else if u == 10 {
        seq!['\\', 'n']
    } else if u == 13 {
        seq!['\\', 'r']
    } else if u == 9 {
        seq!['\\', 't']
    } else if u < 32 {
        seq!['\\', 'u', '0', '0', hex_digit((u / 16) as int), hex_digit((u % 16) as int)]
    } else {
        seq![c]
    }
}

/// A string written as a JSON string: in double quotes, each character escaped.
pub open spec fn json_quoted(s: Seq<char>) -> Seq<char> {
    seq!['"'] + s.map_values(|c: char| json_escape(c)).flatten() + seq!['"']
}

/// Whether `a` comes before `b` in the order of their characters' code points.
pub open spec fn key_before(a: Seq<char>, b: Seq<char>) -> bool
    decreases a.len(),
{
    if a.len() == 0 {
        b.len() > 0
    } else if b.len() == 0 {
        false
    } else if a[0] == b[0] {
        key_before(a.drop_first(), b.drop_first())
    } else {
        (a[0] as u32) < (b[0] as u32)
    }
}

/// The entries of `m` in ascending order of key.
pub open spec fn ascending_entries(m: Map<Seq<char>, Seq<char>>) -> Seq<(Seq<char>, Seq<char>)> {
    choose|e: Seq<(Seq<char>, Seq<char>)>|
        lists_entries(e, m) && forall|i: int, j: int|
            0 <= i < j < e.len() ==> #[trigger] key_before(e[i].0, e[j].0)
}

/// The compact JSON text of an array of strings: `[`, the quoted strings
/// joined by commas, `]`.
pub open spec fn json_array_text_of(items: Seq<Seq<char>>) -> Seq<char> {
    seq!['['] + comma_joined(items.map_values(|s: Seq<char>| json_quoted(s))) + seq![']']
}

/// One member of a compact JSON object: the quoted key, `:`, the quoted value.
pub open spec fn json_member(p: (Seq<char>, Seq<char>)) -> Seq<char> {
    json_quoted(p.0) + seq![':'] + json_quoted(p.1)
}

/// The compact JSON text of an object with the entries of `m`: `{`, the
/// members in ascending order of key joined by commas, `}`.
pub open spec fn json_object_text_of(m: Map<Seq<char>, Seq<char>>) -> Seq<char> {
    seq!['{'] + comma_joined(ascending_entries(m).map_values(|p: (Seq<char>, Seq<char>)| json_member(p)))
        + seq!['}']
}

/// Relies on `serde_json::from_str` into a `BTreeMap<String, Value>` and on
/// `Value`'s `Display` (compact JSON): `None` exactly when `text` is not a JSON
/// object, else its members in key order, one per key.
#[verifier::external_body]
pub(crate) fn json_members(text: &str) -> (r: Option<Vec<(String, String)>>)
    ensures
        r is Some <==> json_members_of(text@) is Some,
        r is Some ==> pairs_view(r->0@) == json_members_of(text@)->0,
{
    serde_json::from_str::<std::collections::BTreeMap<String, serde_json::Value>>(text).ok().map(
        |m| m.into_iter().map(|(k, v)| (k, v.to_string())).collect(),
    )
}

/// Relies on `serde_json::from_str` into a `String`: `None` exactly when
/// `text` is not a JSON string.
#[verifier::external_body]
pub(crate) fn json_string(text: &str) -> (r: Option<String>)
    ensures
        r is Some <==> json_string_of(text@) is Some,
        r is Some ==> r->0@ == json_string_of(text@)->0,
{
    serde_json::from_str::<String>(text).ok()
}

/// Relies on `serde_json::from_str` into a `Vec<String>`: `None` exactly when
/// `text` is not a JSON array of strings.
#[verifier::external_body]
pub(crate) fn json_string_list(text: &str) -> (r: Option<Vec<String>>)
    ensures
        r is Some <==> json_string_list_of(text@) is Some,
        r is Some ==> strings_view(r->0@) == json_string_list_of(text@)->0,
{
    serde_json::from_str::<Vec<String>>(text).ok()
}

/// Relies on `serde_json::to_string` of a `Vec<String>`, which cannot fail:
/// the compact JSON array of the items, escaped as its `format_escaped_str`
/// does.
#[verifier::external_body]
pub(crate) fn json_array_text(items: &Vec<String>) -> (r: String)
    ensures
        r@ == json_array_text_of(strings_view(items@)),
{
    serde_json::to_string(items).unwrap_or_default()
}

/// Relies on `serde_json::to_string` of a `BTreeMap<&String, &String>`, which
/// cannot fail: the compact JSON object of the entries, keys in ascending
/// order (the byte order of UTF-8, which is the code point order), strings
/// escaped as its `format_escaped_str` does.
#[verifier::external_body]
pub(crate) fn json_object_text(m: &std::collections::HashMap<String, String>) -> (r: String)
    ensures
        r@ == json_object_text_of(m.deep_view()),
{
    serde_json::to_string(&m.iter().collect::<std::collections::BTreeMap<_, _>>()).unwrap_or_default()
}

} // verus!
