//! JSON as the wire format of tokens and disclosures. Reading fields out of
//! JSON bytes and writing JSON text are done by `serde_json`; the library works
//! on the plain values that come back.

use vstd::prelude::*;
use vstd::utf8::encode_utf8;

verus! {

/// A value to place in a JSON object or array.
#[derive(Debug)]
pub enum JsonArg {
    /// A JSON string.
    Str(String),
    /// A JSON number.
    Int(i64),
    /// A JSON array of strings.
    StrList(Vec<String>),
    /// Embedded JSON text (placed as the value it denotes; `null` if invalid).
    Json(String),
}

impl Clone for JsonArg {
    fn clone(&self) -> (res: Self)
        ensures
            res@ == self@,
    {
        match self {
            JsonArg::Str(s) => JsonArg::Str(s.clone()),
            JsonArg::Int(i) => JsonArg::Int(*i),
            JsonArg::StrList(l) => JsonArg::StrList(crate::text::clone_strings(l)),
            JsonArg::Json(t) => JsonArg::Json(t.clone()),
        }
    }
}

/// A `JsonArg` as plain values.
pub enum JsonArgView {
    Str(Seq<char>),
    Int(i64),
    StrList(Seq<Seq<char>>),
    Json(Seq<char>),
}

impl View for JsonArg {
    type V = JsonArgView;

    open spec fn view(&self) -> JsonArgView {
        match self {
            JsonArg::Str(s) => JsonArgView::Str(s@),
            JsonArg::Int(i) => JsonArgView::Int(*i),
            JsonArg::StrList(l) => JsonArgView::StrList(l@.map_values(|x: String| x@)),
            JsonArg::Json(t) => JsonArgView::Json(t@),
        }
    }
}

pub open spec fn entry_views(s: Seq<(String, JsonArg)>) -> Seq<(Seq<char>, JsonArgView)> {
    s.map_values(|e: (String, JsonArg)| (e.0@, e.1@))
}

pub open spec fn arg_views(s: Seq<JsonArg>) -> Seq<JsonArgView> {
    s.map_values(|a: JsonArg| a@)
}

/// The compact JSON text (`Value::to_string`) of the object with these entries,
/// in this order.
pub uninterp spec fn json_object_text(entries: Seq<(Seq<char>, JsonArgView)>) -> Seq<char>;

/// The compact JSON text of the array with these items, in this order.
pub uninterp spec fn json_array_text(items: Seq<JsonArgView>) -> Seq<char>;

/// The value of the last entry with key `k`, if any (a later entry replaces an
/// earlier one in place).
pub open spec fn last_value(entries: Seq<(Seq<char>, JsonArgView)>, k: Seq<char>) -> Option<JsonArgView>
    decreases entries.len(),
{
    if entries.len() == 0 {
        None
    } else if entries.last().0 == k {
        Some(entries.last().1)
    } else {
        last_value(entries.drop_last(), k)
    }
}

/// `t` parses, and `serde_json` writes the value it parses `t` to back as
/// exactly `t`.
pub uninterp spec fn canonical_json(t: Seq<char>) -> bool;

/// A key that a JSON pointer names as itself (it holds no `/` and no `~`).
pub open spec fn pointer_token(k: Seq<char>) -> bool {
    !k.contains('/') && !k.contains('~')
}

/// Every item is a present string.
pub open spec fn all_strings(l: Seq<Seq<char>>) -> Seq<Option<Seq<char>>> {
    l.map_values(|x: Seq<char>| Some(x))
}

/// Every JSON text embedded among `entries` is canonical.
pub open spec fn embedded_canonical(entries: Seq<(Seq<char>, JsonArgView)>) -> bool {
    forall|i: int|
        0 <= i < entries.len() ==> ((#[trigger] entries[i]).1 matches JsonArgView::Json(t) ==> canonical_json(t))
}

/// How deeply arrays and objects nest in the JSON text `t`: the most `[` and
/// `{` open at once, counted outside string literals (in which `\` escapes the
/// character after it).
pub open spec fn json_depth(t: Seq<char>) -> nat {
    nesting(t, 0, false, false, 0, 0)
}

/// The scan behind `json_depth` from position `i` on: whether it is inside a
/// string literal, whether the previous character there was an escaping `\`,
/// how many containers are open, and the most that were open so far.
pub open spec fn nesting(t: Seq<char>, i: int, in_string: bool, escaped: bool, open: int, deepest: nat) -> nat
    decreases t.len() - i,
{
    if i < 0 || i >= t.len() {
        deepest
    } else {
        let c = t[i];
        if in_string {
            nesting(t, i + 1, escaped || c != '"', !escaped && c == '\\', open, deepest)
        } else if c == '"' {
            nesting(t, i + 1, true, false, open, deepest)
        } else if c == '[' || c == '{' {
            nesting(t, i + 1, false, false, open + 1, if open + 1 > deepest { (open + 1) as nat } else { deepest })
        } else if c == ']' || c == '}' {
            nesting(t, i + 1, false, false, open - 1, deepest)
        } else {
            nesting(t, i + 1, false, false, open, deepest)
        }
    }
}

/// How deeply a value nests once placed: strings and numbers not at all, a
/// list of strings one level, embedded JSON text as deeply as that text.
pub open spec fn arg_depth(a: JsonArgView) -> nat {
    match a {
        JsonArgView::Str(_) => 0,
        JsonArgView::Int(_) => 0,
        JsonArgView::StrList(_) => 1,
        JsonArgView::Json(t) => json_depth(t),
    }
}

/// No value among `entries` nests deeper than `d`.
pub open spec fn entries_within(entries: Seq<(Seq<char>, JsonArgView)>, d: nat) -> bool {
    forall|i: int| 0 <= i < entries.len() ==> arg_depth((#[trigger] entries[i]).1) <= d
}

/// No item nests deeper than `d`.
pub open spec fn items_within(items: Seq<JsonArgView>, d: nat) -> bool {
    forall|i: int| 0 <= i < items.len() ==> arg_depth(#[trigger] items[i]) <= d
}

/// The deepest nesting `serde_json` reads back: its parser refuses input with
/// more than this many arrays and objects open at once.
pub open spec fn max_read_depth() -> nat {
    127
}

/// `serde_json`: the compact text (`Value::to_string`) of a `Map` built by
/// inserting `entries` in order. Claimed: the text nests one level deeper than
/// its deepest value. When that stays within what the parser reads back (no
/// value deeper than 126): the text is valid JSON; it is its own canonical form
/// when every embedded JSON text is (strings, `i64`s and lists of strings are
/// written back exactly; a float need not be, as the default number parser may
/// not round-trip it); parsing it back gives, for each key, the value of its
/// last entry (a string, an `i64`, a list of strings), and the JSON pointer
/// `/key` (and any deeper pointer through it) reaches an embedded canonical
/// JSON value, written back as that same text. Nothing is claimed of reading
/// back a deeper object, which the parser refuses.
#[verifier::external_body]
pub(crate) fn json_object(entries: &Vec<(String, JsonArg)>) -> (res: String)
    ensures
        res@ == json_object_text(entry_views(entries@)),
        forall|d: nat| #[trigger] entries_within(entry_views(entries@), d) ==> json_depth(res@) <= d + 1,
        entries_within(entry_views(entries@), (max_read_depth() - 1) as nat) ==> json_valid(encode_utf8(res@)),
        entries_within(entry_views(entries@), (max_read_depth() - 1) as nat) && embedded_canonical(
            entry_views(entries@),
        ) ==> canonical_json(res@),
        forall|k: Seq<char>|
            entries_within(entry_views(entries@), (max_read_depth() - 1) as nat) ==> (last_value(
                entry_views(entries@),
                k,
            ) matches Some(JsonArgView::Str(v)) ==> #[trigger] json_str_member(encode_utf8(res@), k) == Some(v)),
        forall|k: Seq<char>|
            entries_within(entry_views(entries@), (max_read_depth() - 1) as nat) ==> (last_value(
                entry_views(entries@),
                k,
            ) matches Some(JsonArgView::Int(i)) ==> #[trigger] json_i64_member(encode_utf8(res@), k) == Some(i)),
        forall|k: Seq<char>|
            entries_within(entry_views(entries@), (max_read_depth() - 1) as nat) ==> (last_value(
                entry_views(entries@),
                k,
            ) matches Some(JsonArgView::StrList(l)) ==> #[trigger] json_array_member(encode_utf8(res@), k) == Some(
                all_strings(l),
            )),
        forall|k: Seq<char>|
            entries_within(entry_views(entries@), (max_read_depth() - 1) as nat) ==> (last_value(
                entry_views(entries@),
                k,
            ) matches Some(JsonArgView::Json(t)) ==> (canonical_json(t) && pointer_token(k)
                ==> #[trigger] json_at_pointer(encode_utf8(res@), "/"@ + k) == Some(encode_utf8(t)))),
        forall|k: Seq<char>, rest: Seq<char>|
            entries_within(entry_views(entries@), (max_read_depth() - 1) as nat) ==> (last_value(
                entry_views(entries@),
                k,
            ) matches Some(JsonArgView::Json(t)) ==> (canonical_json(t) && pointer_token(k) && rest.len() > 0
                && rest[0] == '/' ==> #[trigger] json_at_pointer(encode_utf8(res@), "/"@ + k + rest)
                == json_at_pointer(encode_utf8(t), rest))),
{
    let mut m = serde_json::Map::new();
    for (k, v) in entries.iter() {
        let val = match v {
            JsonArg::Str(s) => serde_json::Value::from(s.as_str()),
            JsonArg::Int(i) => serde_json::Value::from(*i),
            JsonArg::StrList(l) => serde_json::Value::from(l.clone()),
            JsonArg::Json(t) => serde_json::from_str(t).unwrap_or(serde_json::Value::Null),
        };
        m.insert(k.clone(), val);
    }
    serde_json::Value::Object(m).to_string()
}

/// `serde_json`: the compact text of an array built from `items` in order.
/// Claimed: the text is non-empty; when no item nests deeper than 126 (so the
/// array stays within what the parser reads back), it is valid JSON and
/// parsing it back gives each string item at its index.
#[verifier::external_body]
pub(crate) fn json_array(items: &Vec<JsonArg>) -> (res: String)
    ensures
        res@ == json_array_text(arg_views(items@)),
        res@.len() > 0,
        items_within(arg_views(items@), (max_read_depth() - 1) as nat) ==> json_valid(encode_utf8(res@)),
        forall|i: usize|
            items_within(arg_views(items@), (max_read_depth() - 1) as nat) && i < items@.len() ==> (
            arg_views(items@)[i as int] matches JsonArgView::Str(v) ==> #[trigger] json_str_item(
                encode_utf8(res@),
                i,
            ) == Some(v)),
{
    let mut a = Vec::new();
    for v in items.iter() {
        a.push(match v {
            JsonArg::Str(s) => serde_json::Value::from(s.as_str()),
            JsonArg::Int(i) => serde_json::Value::from(*i),
            JsonArg::StrList(l) => serde_json::Value::from(l.clone()),
            JsonArg::Json(t) => serde_json::from_str(t).unwrap_or(serde_json::Value::Null),
        });
    }
    serde_json::Value::Array(a).to_string()
}

/// The bytes are one JSON value (`serde_json::from_slice::<Value>` succeeds).
pub uninterp spec fn json_valid(bytes: Seq<u8>) -> bool;

/// The string held by member `key` of the JSON object in `bytes`
/// (`get(key).and_then(Value::as_str)`).
pub uninterp spec fn json_str_member(bytes: Seq<u8>, key: Seq<char>) -> Option<Seq<char>>;

/// The integer held by member `key` (`get(key).and_then(Value::as_i64)`).
pub uninterp spec fn json_i64_member(bytes: Seq<u8>, key: Seq<char>) -> Option<i64>;

/// The items of the array held by member `key`, each as its text when it is a
/// JSON string and `None` otherwise; `None` when `bytes` is not JSON or the
/// member is absent or not an array.
pub uninterp spec fn json_array_member(bytes: Seq<u8>, key: Seq<char>) -> Option<Seq<Option<Seq<char>>>>;

pub open spec fn opt_text(o: Option<String>) -> Option<Seq<char>> {
    match o {
        Some(s) => Some(s@),
        None => None,
    }
}

/// The texts among `items`, in order.
pub open spec fn strings_only(items: Seq<Option<Seq<char>>>) -> Seq<Seq<char>>
    decreases items.len(),
{
    if items.len() == 0 {
        Seq::empty()
    } else {
        let prev = strings_only(items.drop_last());
        match items.last() {
            Some(t) => prev.push(t),
            None => prev,
        }
    }
}

/// A list whose items are all strings gives back those strings.
pub proof fn lemma_strings_only_all(l: Seq<Seq<char>>)
    ensures
        strings_only(all_strings(l)) == l,
    decreases l.len(),
{
    if l.len() > 0 {
        lemma_strings_only_all(l.drop_last());
        assert(all_strings(l).drop_last() =~= all_strings(l.drop_last()));
        assert(all_strings(l).last() == Some(l.last()));
        assert(l.drop_last().push(l.last()) =~= l);
    } else {
        assert(all_strings(l) =~= Seq::<Option<Seq<char>>>::empty());
    }
}

/// The strings in the array held by member `key`, in order, skipping items that
/// are not strings; empty when the member is absent or not an array.
pub open spec fn json_str_items(bytes: Seq<u8>, key: Seq<char>) -> Seq<Seq<char>> {
    match json_array_member(bytes, key) {
        Some(items) => strings_only(items),
        None => Seq::empty(),
    }
}

/// The compact JSON bytes of the value at JSON pointer `ptr`, if there is one.
pub uninterp spec fn json_at_pointer(bytes: Seq<u8>, ptr: Seq<char>) -> Option<Seq<u8>>;

/// The string held by item `idx` of the JSON array in `bytes`
/// (`get(idx).and_then(Value::as_str)`).
pub uninterp spec fn json_str_item(bytes: Seq<u8>, idx: usize) -> Option<Seq<char>>;

/// `serde_json::from_slice::<Value>`: `None` when the bytes are one JSON
/// value, otherwise the text of the parser's error (not stated).
#[verifier::external_body]
pub(crate) fn json_parse_error(bytes: &[u8]) -> (res: Option<String>)
    ensures
        res is None <==> json_valid(bytes@),
{
    serde_json::from_slice::<serde_json::Value>(bytes).err().map(|e| e.to_string())
}

/// `serde_json`: member `key` of the object in `bytes`, as a string.
#[verifier::external_body]
pub(crate) fn json_str_field(bytes: &[u8], key: &str) -> (res: Option<String>)
    ensures
        res matches Some(s) ==> json_str_member(bytes@, key@) == Some(s@),
        res is None ==> json_str_member(bytes@, key@) is None,
{
    let v: serde_json::Value = serde_json::from_slice(bytes).ok()?;
    v.get(key).and_then(|x| x.as_str()).map(|s| s.to_string())
}

/// `serde_json`: member `key` of the object in `bytes`, as an `i64`.
#[verifier::external_body]
pub(crate) fn json_i64_field(bytes: &[u8], key: &str) -> (res: Option<i64>)
    ensures
        res == json_i64_member(bytes@, key@),
{
    let v: serde_json::Value = serde_json::from_slice(bytes).ok()?;
    v.get(key).and_then(|x| x.as_i64())
}

/// `serde_json`: the items of the array in member `key` (`Value::as_array`),
/// each through `Value::as_str`.
#[verifier::external_body]
fn json_array_field(bytes: &[u8], key: &str) -> (res: Option<Vec<Option<String>>>)
    ensures
        match res {
            Some(v) => json_array_member(bytes@, key@) == Some(v@.map_values(|o: Option<String>| opt_text(o))),
            None => json_array_member(bytes@, key@) is None,
        },
{
    let v: serde_json::Value = serde_json::from_slice(bytes).ok()?;
    let a = v.get(key)?.as_array()?;
    Some(a.iter().map(|d| d.as_str().map(String::from)).collect())
}

/// The string items of the array in member `key`.
pub fn json_str_list(bytes: &[u8], key: &str) -> (res: Vec<String>)
    ensures
        res@.map_values(|s: String| s@) == json_str_items(bytes@, key@),
{
    let mut out: Vec<String> = Vec::new();
    let items = match json_array_field(bytes, key) {
        Some(v) => v,
        None => {
            assert(out@.map_values(|s: String| s@) =~= Seq::<Seq<char>>::empty());
            return out;
        },
    };
    let ghost iv = items@.map_values(|o: Option<String>| opt_text(o));
    let mut i: usize = 0;
    while i < items.len()
        invariant
            i <= items@.len(),
            iv == items@.map_values(|o: Option<String>| opt_text(o)),
            out@.map_values(|s: String| s@) == strings_only(iv.take(i as int)),
        decreases items@.len() - i,
    {
        assert(iv.take(i + 1).drop_last() =~= iv.take(i as int));
        assert(iv.take(i + 1).last() == opt_text(items@[i as int]));
        match &items[i] {
            Some(t) => {
                let c = t.clone();
                assert(out@.push(c).map_values(|s: String| s@) =~= out@.map_values(|s: String| s@).push(c@));
                out.push(c);
            },
            None => {},
        }
        i = i + 1;
    }
    assert(iv.take(i as int) =~= iv);
    out
}

/// `serde_json`: the value at JSON pointer `ptr`, written back as compact bytes.
#[verifier::external_body]
pub(crate) fn json_pointer(bytes: &[u8], ptr: &str) -> (res: Option<Vec<u8>>)
    ensures
        res matches Some(b) ==> json_at_pointer(bytes@, ptr@) == Some(b@),
        res is None ==> json_at_pointer(bytes@, ptr@) is None,
{
    let v: serde_json::Value = serde_json::from_slice(bytes).ok()?;
    v.pointer(ptr).map(|x| serde_json::to_vec(x).unwrap_or_default())
}

/// `serde_json`: item `idx` of the array in `bytes`, as a string.
#[verifier::external_body]
pub(crate) fn json_str_at(bytes: &[u8], idx: usize) -> (res: Option<String>)
    ensures
        res matches Some(s) ==> json_str_item(bytes@, idx) == Some(s@),
        res is None ==> json_str_item(bytes@, idx) is None,
{
    let v: serde_json::Value = serde_json::from_slice(bytes).ok()?;
    v.get(idx).and_then(|x| x.as_str()).map(|s| s.to_string())
}

} // verus!
