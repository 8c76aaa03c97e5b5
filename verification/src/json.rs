//! JSON documents as plain values of the crate, and the bridge to `serde_json`,
//! which parses and prints them.
use vstd::prelude::*;
use crate::text::owned;

verus! {

broadcast use vstd::std_specs::vec::group_vec_axioms;

#[verifier::external_type_specification]
#[verifier::external_body]
pub struct ExSerdeValue(serde_json::Value);

#[verifier::external_type_specification]
#[verifier::external_body]
pub struct ExSerdeNumber(serde_json::Number);

/// A JSON document. Numbers are carried as `serde_json` numbers; object
/// members keep their order.
#[derive(Debug, PartialEq)]
pub enum JsonValue {
    Null,
    Bool(bool),
    Number(serde_json::Number),
    Str(String),
    Array(Vec<JsonValue>),
    Object(Vec<(String, JsonValue)>),
}

/// The mathematical model of a JSON document.
pub enum Json {
    Null,
    Bool(bool),
    Number(serde_json::Number),
    Str(Seq<char>),
    Array(Seq<Json>),
    Object(Seq<(Seq<char>, Json)>),
}

/// How a JSON number is represented.
#[derive(Debug, Clone, Copy, PartialEq, Eq)]
pub enum NumberKind {
    PosInt(u64),
    NegInt(i64),
    Float,
}

/// The models of the first `n` items of `items`.
pub open spec fn view_items(items: Seq<JsonValue>, n: nat) -> Seq<Json>
    decreases items, n,
{
    if n == 0 || n > items.len() {
        Seq::empty()
    } else {
        view_items(items, (n - 1) as nat).push(json_view(items[n - 1]))
    }
}

/// The models of the first `n` members of `entries`.
pub open spec fn view_entries(entries: Seq<(String, JsonValue)>, n: nat) -> Seq<(Seq<char>, Json)>
    decreases entries, n,
{
    if n == 0 || n > entries.len() {
        Seq::empty()
    } else {
        view_entries(entries, (n - 1) as nat).push((entries[n - 1].0@, json_view(entries[n - 1].1)))
    }
}

/// The model of a document.
pub open spec fn json_view(v: JsonValue) -> Json
    decreases v, 0nat,
{
    match v {
        JsonValue::Null => Json::Null,
        JsonValue::Bool(b) => Json::Bool(b),
        JsonValue::Number(n) => Json::Number(n),
        JsonValue::Str(s) => Json::Str(s@),
        JsonValue::Array(items) => Json::Array(view_items(items@, items@.len())),
        JsonValue::Object(entries) => Json::Object(view_entries(entries@, entries@.len())),
    }
}

impl View for JsonValue {
    type V = Json;

    open spec fn view(&self) -> Json {
        json_view(*self)
    }
}

/// `a` comes strictly before `b` in code-point order.
pub open spec fn key_lt(a: Seq<char>, b: Seq<char>) -> bool {
    exists|k: int|
        0 <= k <= a.len() && k <= b.len() && a.take(k) == b.take(k) && ((k == a.len() && k
            < b.len()) || (k < a.len() && k < b.len() && (a[k] as u32) < (b[k] as u32)))
}

/// The member names of an object are strictly ascending, as in a `serde_json` map.
pub open spec fn keys_ascending(entries: Seq<(Seq<char>, Json)>) -> bool {
    forall|i: int, j: int|
        0 <= i < j < entries.len() ==> key_lt(#[trigger] entries[i].0, #[trigger] entries[j].0)
}

/// The first `n` items are canonical.
pub open spec fn items_canonical(items: Seq<Json>, n: nat) -> bool
    decreases items, n,
{
    if n == 0 || n > items.len() {
        true
    } else {
        items_canonical(items, (n - 1) as nat) && canonical(items[n - 1])
    }
}

/// The values of the first `n` members are canonical.
pub open spec fn members_canonical(entries: Seq<(Seq<char>, Json)>, n: nat) -> bool
    decreases entries, n,
{
    if n == 0 || n > entries.len() {
        true
    } else {
        members_canonical(entries, (n - 1) as nat) && canonical(entries[n - 1].1)
    }
}

/// Every object in the document has strictly ascending member names.
pub open spec fn canonical(j: Json) -> bool
    decreases j, 0nat,
{
    match j {
        Json::Array(items) => items_canonical(items, items.len()),
        Json::Object(entries) => keys_ascending(entries) && members_canonical(entries, entries.len()),
        _ => true,
    }
}

proof fn lemma_items_canonical(items: Seq<Json>, n: nat)
    requires
        n <= items.len(),
    ensures
        items_canonical(items, n) <==> forall|i: int| 0 <= i < n ==> #[trigger] canonical(items[i]),
    decreases n,
{
    if n > 0 {
        lemma_items_canonical(items, (n - 1) as nat);
        assert(items_canonical(items, n) == (items_canonical(items, (n - 1) as nat) && canonical(
            items[n - 1],
        )));
        if forall|i: int| 0 <= i < n ==> #[trigger] canonical(items[i]) {
            assert(canonical(items[n - 1]));
        }
    }
}

proof fn lemma_members_canonical(entries: Seq<(Seq<char>, Json)>, n: nat)
    requires
        n <= entries.len(),
    ensures
        members_canonical(entries, n) <==> forall|i: int|
            0 <= i < n ==> #[trigger] canonical(entries[i].1),
    decreases n,
{
    if n > 0 {
        lemma_members_canonical(entries, (n - 1) as nat);
        assert(members_canonical(entries, n) == (members_canonical(entries, (n - 1) as nat)
            && canonical(entries[n - 1].1)));
        if forall|i: int| 0 <= i < n ==> #[trigger] canonical(entries[i].1) {
            assert(canonical(entries[n - 1].1));
        }
    }
}

/// A document is canonical exactly when its parts are, and its objects list
/// their members by ascending name.
pub proof fn lemma_canonical_parts(j: Json)
    ensures
        j matches Json::Array(items) ==> (canonical(j) <==> forall|i: int|
            0 <= i < items.len() ==> #[trigger] canonical(items[i])),
        j matches Json::Object(entries) ==> (canonical(j) <==> keys_ascending(entries) && forall|i: int|
            0 <= i < entries.len() ==> #[trigger] canonical(entries[i].1)),
{
    match j {
        Json::Array(items) => lemma_items_canonical(items, items.len()),
        Json::Object(entries) => lemma_members_canonical(entries, entries.len()),
        _ => {},
    }
}

/// The member of object `j` named `key` (the first one, if several).
pub open spec fn member_index(entries: Seq<(Seq<char>, Json)>, key: Seq<char>, i: int) -> bool {
    &&& 0 <= i < entries.len()
    &&& entries[i].0 == key
    &&& forall|k: int| 0 <= k < i ==> entries[k].0 != key
}

/// The value of member `key` of object `j`, if `j` is an object that has one.
pub open spec fn json_get(j: Json, key: Seq<char>) -> Option<Json> {
    match j {
        Json::Object(entries) => if exists|i: int| member_index(entries, key, i) {
            Some(entries[choose|i: int| member_index(entries, key, i)].1)
        } else {
            None
        },
        _ => None,
    }
}

/// The text of `j`, if `j` is a string.
pub open spec fn json_str(j: Json) -> Option<Seq<char>> {
    match j {
        Json::Str(s) => Some(s),
        _ => None,
    }
}

/// The text of member `key` of `j`, if that member exists and is a string.
pub open spec fn member_str(j: Json, key: Seq<char>) -> Option<Seq<char>> {
    match json_get(j, key) {
        Some(m) => json_str(m),
        None => None,
    }
}

/// The document that a `serde_json` value holds.
pub uninterp spec fn serde_tree(v: serde_json::Value) -> Json;

/// How `serde_json` represents a number.
pub uninterp spec fn number_kind(n: serde_json::Number) -> NumberKind;

/// The document that `serde_json` parses from a text, if the text is JSON.
pub uninterp spec fn json_parse(text: Seq<char>) -> Option<Json>;

/// The message of the error that `serde_json` reports for a text that is not JSON.
pub uninterp spec fn json_error_text(text: Seq<char>) -> Seq<char>;

/// The compact text that `serde_json` prints for a document.
pub uninterp spec fn json_text(j: Json) -> Seq<char>;

/// One level of a `serde_json` value.
pub enum JsonShape<'a> {
    Null,
    Bool(bool),
    Number(serde_json::Number),
    Str(String),
    Array(Vec<&'a serde_json::Value>),
    Object(Vec<(String, &'a serde_json::Value)>),
}

/// Reads the outermost level of a `serde_json::Value`. A `serde_json` object is
/// a map ordered by key, so its members come out by ascending name.
#[verifier::external_body]
fn json_shape(v: &serde_json::Value) -> (r: JsonShape<'_>)
    ensures
        match r {
            JsonShape::Null => serde_tree(*v) == Json::Null,
            JsonShape::Bool(b) => serde_tree(*v) == Json::Bool(b),
            JsonShape::Number(n) => serde_tree(*v) == Json::Number(n),
            JsonShape::Str(s) => serde_tree(*v) == Json::Str(s@),
            JsonShape::Array(items) => serde_tree(*v) == Json::Array(
                Seq::new(items@.len(), |i: int| serde_tree(*items@[i])),
            ),
            JsonShape::Object(entries) => serde_tree(*v) == Json::Object(
                Seq::new(entries@.len(), |i: int| (entries@[i].0@, serde_tree(*entries@[i].1))),
            ) && keys_ascending(
                Seq::new(entries@.len(), |i: int| (entries@[i].0@, serde_tree(*entries@[i].1))),
            ),
        },
{
    match v {
        serde_json::Value::Null => JsonShape::Null,
        serde_json::Value::Bool(b) => JsonShape::Bool(*b),
        serde_json::Value::Number(n) => JsonShape::Number(n.clone()),
        serde_json::Value::String(s) => JsonShape::Str(s.clone()),
        serde_json::Value::Array(a) => JsonShape::Array(a.iter().collect()),
        serde_json::Value::Object(m) => JsonShape::Object(m.iter().map(|(k, x)| (k.clone(), x)).collect()),
    }
}

/// `Number::as_u64` and `Number::as_i64`: a non-negative integer is a `PosInt`,
/// a negative integer a `NegInt`, anything else a float.
#[verifier::external_body]
pub(crate) fn number_kind_of(n: &serde_json::Number) -> (r: NumberKind)
    ensures
        r == number_kind(*n),
{
    match n.as_u64() {
        Some(u) => NumberKind::PosInt(u),
        None => match n.as_i64() {
            Some(i) => NumberKind::NegInt(i),
            None => NumberKind::Float,
        },
    }
}

/// `Number::clone`: the copy is the same number.
pub assume_specification[ <serde_json::Number as Clone>::clone ](n: &serde_json::Number) -> (r:
    serde_json::Number)
    ensures
        r == *n,
;

/// `Number::from(u64)`: a `PosInt` holding `u`.
#[verifier::external_body]
pub(crate) fn number_from_u64(u: u64) -> (r: serde_json::Number)
    ensures
        number_kind(r) == NumberKind::PosInt(u),
{
    serde_json::Number::from(u)
}

/// `serde_json::from_str`: the parsed value, or `None` where the text is not JSON.
#[verifier::external_body]
fn serde_parse(text: &str) -> (r: Option<serde_json::Value>)
    ensures
        match r {
            Some(v) => json_parse(text@) == Some(serde_tree(v)),
            None => json_parse(text@) is None,
        },
{
    serde_json::from_str::<serde_json::Value>(text).ok()
}

/// `serde_json::from_str`: the parsed value, or the text of the error where
/// the text is not JSON.
#[verifier::external_body]
fn serde_parse_or_error(text: &str) -> (r: Result<serde_json::Value, String>)
    ensures
        match r {
            Ok(v) => json_parse(text@) == Some(serde_tree(v)),
            Err(m) => json_parse(text@) is None && m@ == json_error_text(text@),
        },
{
    serde_json::from_str::<serde_json::Value>(text).map_err(|e| e.to_string())
}

/// `Value`'s `Display`: the compact JSON text of the value.
#[verifier::external_body]
fn serde_text(v: &serde_json::Value) -> (r: String)
    ensures
        r@ == json_text(serde_tree(*v)),
{
    v.to_string()
}

/// `Value::Null`.
#[verifier::external_body]
fn serde_null() -> (r: serde_json::Value)
    ensures
        serde_tree(r) == Json::Null,
{
    serde_json::Value::Null
}

/// `Value::Bool`.
#[verifier::external_body]
fn serde_bool(b: bool) -> (r: serde_json::Value)
    ensures
        serde_tree(r) == Json::Bool(b),
{
    serde_json::Value::Bool(b)
}

/// `Value::Number`.
#[verifier::external_body]
fn serde_number(n: serde_json::Number) -> (r: serde_json::Value)
    ensures
        serde_tree(r) == Json::Number(n),
{
    serde_json::Value::Number(n)
}

/// `Value::String`.
#[verifier::external_body]
fn serde_string(s: String) -> (r: serde_json::Value)
    ensures
        serde_tree(r) == Json::Str(s@),
{
    serde_json::Value::String(s)
}

/// `Value::Array`.
#[verifier::external_body]
fn serde_array(items: Vec<serde_json::Value>) -> (r: serde_json::Value)
    ensures
        serde_tree(r) == Json::Array(Seq::new(items@.len(), |i: int| serde_tree(items@[i]))),
{
    serde_json::Value::Array(items)
}

/// `Value::Object` built from a list of members (`Map::from_iter`). A map keeps
/// its members ordered by name, so where the names are already strictly
/// ascending the object holds exactly the given members in the given order.
#[verifier::external_body]
fn serde_object(entries: Vec<(String, serde_json::Value)>) -> (r: serde_json::Value)
    ensures
        keys_ascending(Seq::new(entries@.len(), |i: int| (entries@[i].0@, serde_tree(entries@[i].1))))
            ==> serde_tree(r) == Json::Object(
            Seq::new(entries@.len(), |i: int| (entries@[i].0@, serde_tree(entries@[i].1))),
        ),
{
    serde_json::Value::Object(entries.into_iter().collect())
}

pub proof fn lemma_view_items(items: Seq<JsonValue>, n: nat)
    requires
        n <= items.len(),
    ensures
        view_items(items, n).len() == n,
        forall|i: int| 0 <= i < n ==> #[trigger] view_items(items, n)[i] == json_view(items[i]),
    decreases n,
{
    if n > 0 {
        lemma_view_items(items, (n - 1) as nat);
    }
}

pub proof fn lemma_view_entries(entries: Seq<(String, JsonValue)>, n: nat)
    requires
        n <= entries.len(),
    ensures
        view_entries(entries, n).len() == n,
        forall|i: int|
            0 <= i < n ==> #[trigger] view_entries(entries, n)[i] == (
                entries[i].0@,
                json_view(entries[i].1),
            ),
    decreases n,
{
    if n > 0 {
        lemma_view_entries(entries, (n - 1) as nat);
    }
}

/// The model of an array document, item by item.
pub proof fn lemma_array_view(items: Vec<JsonValue>)
    ensures
        JsonValue::Array(items)@ == Json::Array(Seq::new(items@.len(), |i: int| items@[i]@)),
{
    lemma_view_items(items@, items@.len());
    assert(view_items(items@, items@.len()) =~= Seq::new(items@.len(), |i: int| items@[i]@));
}

/// The model of an object document, member by member.
pub proof fn lemma_object_view(entries: Vec<(String, JsonValue)>)
    ensures
        JsonValue::Object(entries)@ == Json::Object(
            Seq::new(entries@.len(), |i: int| (entries@[i].0@, entries@[i].1@)),
        ),
{
    lemma_view_entries(entries@, entries@.len());
    assert(view_entries(entries@, entries@.len()) =~= Seq::new(
        entries@.len(),
        |i: int| (entries@[i].0@, entries@[i].1@),
    ));
}

/// Converts a `serde_json` value into a document of the crate.
pub fn from_serde(v: &serde_json::Value) -> (r: JsonValue)
    ensures
        r@ == serde_tree(*v),
        canonical(r@),
    decreases serde_tree(*v),
{
    match json_shape(v) {
        JsonShape::Null => JsonValue::Null,
        JsonShape::Bool(b) => JsonValue::Bool(b),
        JsonShape::Number(n) => JsonValue::Number(n),
        JsonShape::Str(s) => JsonValue::Str(s),
        JsonShape::Array(items) => {
            let ghost tree = serde_tree(*v);
            let mut out: Vec<JsonValue> = Vec::new();
            let mut i: usize = 0;
            while i < items.len()
                invariant
                    i <= items@.len(),
                    out@.len() == i,
                    tree == serde_tree(*v),
                    tree == Json::Array(Seq::new(items@.len(), |k: int| serde_tree(*items@[k]))),
                    forall|k: int| 0 <= k < i ==> #[trigger] out@[k]@ == serde_tree(*items@[k]),
                    forall|k: int| 0 <= k < i ==> canonical(#[trigger] out@[k]@),
                decreases items@.len() - i,
            {
                proof {
                    let ts = Seq::new(items@.len(), |k: int| serde_tree(*items@[k]));
                    assert(tree->Array_0 == ts);
                    assert(decreases_to!(tree => tree->Array_0));
                    assert(decreases_to!(tree->Array_0 => tree->Array_0[i as int]));
                    assert(ts[i as int] == serde_tree(*items@[i as int]));
                }
                let x = from_serde(items[i]);
                out.push(x);
                i = i + 1;
            }
            proof {
                lemma_array_view(out);
                assert(Seq::new(out@.len(), |k: int| out@[k]@) =~= Seq::new(
                    items@.len(),
                    |k: int| serde_tree(*items@[k]),
                ));
                lemma_canonical_parts(JsonValue::Array(out)@);
            }
            JsonValue::Array(out)
        },
        JsonShape::Object(entries) => {
            let ghost tree = serde_tree(*v);
            let mut out: Vec<(String, JsonValue)> = Vec::new();
            let mut i: usize = 0;
            while i < entries.len()
                invariant
                    i <= entries@.len(),
                    out@.len() == i,
                    tree == serde_tree(*v),
                    tree == Json::Object(
                        Seq::new(
                            entries@.len(),
                            |k: int| (entries@[k].0@, serde_tree(*entries@[k].1)),
                        ),
                    ),
                    forall|k: int|
                        0 <= k < i ==> #[trigger] out@[k].1@ == serde_tree(*entries@[k].1) && out@[k].0@
                            == entries@[k].0@,
                    forall|k: int| 0 <= k < i ==> canonical(#[trigger] out@[k].1@),
                decreases entries@.len() - i,
            {
                proof {
                    let ts = Seq::new(
                        entries@.len(),
                        |k: int| (entries@[k].0@, serde_tree(*entries@[k].1)),
                    );
                    assert(tree->Object_0 == ts);
                    assert(decreases_to!(tree => tree->Object_0));
                    assert(decreases_to!(tree->Object_0 => tree->Object_0[i as int]));
                    assert(decreases_to!(tree->Object_0[i as int] => tree->Object_0[i as int].1));
                    assert(ts[i as int].1 == serde_tree(*entries@[i as int].1));
                }
                let x = from_serde(entries[i].1);
                out.push((entries[i].0.clone(), x));
                i = i + 1;
            }
            proof {
                lemma_object_view(out);
                assert(Seq::new(out@.len(), |k: int| (out@[k].0@, out@[k].1@)) =~= Seq::new(
                    entries@.len(),
                    |k: int| (entries@[k].0@, serde_tree(*entries@[k].1)),
                ));
                lemma_canonical_parts(JsonValue::Object(out)@);
            }
            JsonValue::Object(out)
        },
    }
}

/// Converts a document of the crate into a `serde_json` value. For a document
/// whose objects list their members by ascending name, the value holds exactly
/// that document.
pub fn to_serde(j: &JsonValue) -> (r: serde_json::Value)
    ensures
        canonical(j@) ==> serde_tree(r) == j@,
    decreases j@,
{
    match j {
        JsonValue::Null => serde_null(),
        JsonValue::Bool(b) => serde_bool(*b),
        JsonValue::Number(n) => serde_number(n.clone()),
        JsonValue::Str(s) => serde_string(s.clone()),
        JsonValue::Array(items) => {
            proof {
                lemma_array_view(*items);
            }
            let ghost js = Seq::new(items@.len(), |i: int| items@[i]@);
            assert(j@ == Json::Array(js));
            let mut out: Vec<serde_json::Value> = Vec::new();
            let mut i: usize = 0;
            while i < items.len()
                invariant
                    i <= items@.len(),
                    out@.len() == i,
                    j@ == Json::Array(js),
                    js == Seq::new(items@.len(), |i: int| items@[i]@),
                    forall|k: int|
                        0 <= k < i ==> canonical(items@[k]@) ==> #[trigger] serde_tree(out@[k])
                            == items@[k]@,
                decreases items@.len() - i,
            {
                proof {
                    assert(decreases_to!(j@ => j@->Array_0));
                    assert(decreases_to!(j@->Array_0 => j@->Array_0[i as int]));
                    assert(js[i as int] == items@[i as int]@);
                }
                let x = to_serde(&items[i]);
                out.push(x);
                i = i + 1;
            }
            let ghost outs = out@;
            let r = serde_array(out);
            proof {
                if canonical(j@) {
                    lemma_canonical_parts(j@);
                    assert forall|k: int| 0 <= k < items@.len() implies canonical(items@[k]@) by {
                        assert(canonical(js[k]));
                        assert(js[k] == items@[k]@);
                    }
                    assert(Seq::new(outs.len(), |i: int| serde_tree(outs[i])) =~= Seq::new(
                        items@.len(),
                        |i: int| items@[i]@,
                    ));
                }
            }
            r
        },
        JsonValue::Object(entries) => {
            proof {
                lemma_object_view(*entries);
            }
            let ghost members = Seq::new(entries@.len(), |i: int| (entries@[i].0@, entries@[i].1@));
            assert(j@ == Json::Object(members));
            let mut out: Vec<(String, serde_json::Value)> = Vec::new();
            let mut i: usize = 0;
            while i < entries.len()
                invariant
                    i <= entries@.len(),
                    out@.len() == i,
                    j@ == Json::Object(members),
                    members == Seq::new(entries@.len(), |i: int| (entries@[i].0@, entries@[i].1@)),
                    forall|k: int|
                        0 <= k < i ==> #[trigger] out@[k].0@ == entries@[k].0@ && (canonical(
                            entries@[k].1@,
                        ) ==> serde_tree(out@[k].1) == entries@[k].1@),
                decreases entries@.len() - i,
            {
                proof {
                    assert(decreases_to!(j@ => j@->Object_0));
                    assert(decreases_to!(j@->Object_0 => j@->Object_0[i as int]));
                    assert(decreases_to!(j@->Object_0[i as int] => j@->Object_0[i as int].1));
                    assert(members[i as int].1 == entries@[i as int].1@);
                }
                let x = to_serde(&entries[i].1);
                out.push((entries[i].0.clone(), x));
                i = i + 1;
            }
            let ghost outs = out@;
            let r = serde_object(out);
            proof {
                if canonical(j@) {
                    lemma_canonical_parts(j@);
                    assert forall|k: int| 0 <= k < entries@.len() implies canonical(entries@[k].1@) by {
                        assert(canonical(members[k].1));
                        assert(members[k].1 == entries@[k].1@);
                    }
                    assert(Seq::new(outs.len(), |i: int| (outs[i].0@, serde_tree(outs[i].1)))
                        =~= members);
                }
            }
            r
        },
    }
}

impl JsonValue {
    /// Parses a JSON text (`serde_json::from_str`).
    pub fn parse(text: &str) -> (r: Option<JsonValue>)
        ensures
            match r {
                Some(j) => json_parse(text@) == Some(j@) && canonical(j@),
                None => json_parse(text@) is None,
            },
    {
        match serde_parse(text) {
            Some(v) => Some(from_serde(&v)),
            None => None,
        }
    }

    /// Parses a JSON text, or gives the parser's error message.
    pub fn parse_or_error(text: &str) -> (r: Result<JsonValue, String>)
        ensures
            match r {
                Ok(j) => json_parse(text@) == Some(j@) && canonical(j@),
                Err(m) => json_parse(text@) is None && m@ == json_error_text(text@),
            },
    {
        match serde_parse_or_error(text) {
            Ok(v) => Ok(from_serde(&v)),
            Err(m) => Err(m),
        }
    }

    /// The compact JSON text of a document whose objects list their members by
    /// ascending name.
    pub fn to_text(&self) -> (r: String)
        ensures
            canonical(self@) ==> r@ == json_text(self@),
    {
        let v = to_serde(self);
        serde_text(&v)
    }

    /// A copy of the document.
    pub fn deep_copy(&self) -> (r: JsonValue)
        ensures
            r@ == self@,
        decreases self@,
    {
        match self {
            JsonValue::Null => JsonValue::Null,
            JsonValue::Bool(b) => JsonValue::Bool(*b),
            JsonValue::Number(n) => JsonValue::Number(n.clone()),
            JsonValue::Str(s) => JsonValue::Str(s.clone()),
            JsonValue::Array(items) => {
                proof {
                    lemma_array_view(*items);
                }
                let ghost js = Seq::new(items@.len(), |i: int| items@[i]@);
                let mut out: Vec<JsonValue> = Vec::new();
                let mut i: usize = 0;
                while i < items.len()
                    invariant
                        i <= items@.len(),
                        out@.len() == i,
                        self@ == Json::Array(js),
                        js == Seq::new(items@.len(), |i: int| items@[i]@),
                        forall|k: int| 0 <= k < i ==> #[trigger] out@[k]@ == items@[k]@,
                    decreases items@.len() - i,
                {
                    proof {
                        assert(decreases_to!(self@ => self@->Array_0));
                        assert(decreases_to!(self@->Array_0 => self@->Array_0[i as int]));
                        assert(js[i as int] == items@[i as int]@);
                    }
                    out.push(items[i].deep_copy());
                    i = i + 1;
                }
                proof {
                    lemma_array_view(out);
                    lemma_array_view(*items);
                    assert(Seq::new(out@.len(), |k: int| out@[k]@) =~= Seq::new(
                        items@.len(),
                        |k: int| items@[k]@,
                    ));
                }
                JsonValue::Array(out)
            },
            JsonValue::Object(entries) => {
                proof {
                    lemma_object_view(*entries);
                }
                let ghost members = Seq::new(entries@.len(), |i: int| (entries@[i].0@, entries@[i].1@));
                let mut out: Vec<(String, JsonValue)> = Vec::new();
                let mut i: usize = 0;
                while i < entries.len()
                    invariant
                        i <= entries@.len(),
                        out@.len() == i,
                        self@ == Json::Object(members),
                        members == Seq::new(entries@.len(), |i: int| (entries@[i].0@, entries@[i].1@)),
                        forall|k: int|
                            0 <= k < i ==> #[trigger] out@[k].1@ == entries@[k].1@ && out@[k].0@
                                == entries@[k].0@,
                    decreases entries@.len() - i,
                {
                    proof {
                        assert(decreases_to!(self@ => self@->Object_0));
                        assert(decreases_to!(self@->Object_0 => self@->Object_0[i as int]));
                        assert(decreases_to!(self@->Object_0[i as int] => self@->Object_0[i as int].1));
                        assert(members[i as int].1 == entries@[i as int].1@);
                    }
                    out.push((entries[i].0.clone(), entries[i].1.deep_copy()));
                    i = i + 1;
                }
                proof {
                    lemma_object_view(out);
                    lemma_object_view(*entries);
                    assert(Seq::new(out@.len(), |k: int| (out@[k].0@, out@[k].1@)) =~= Seq::new(
                        entries@.len(),
                        |k: int| (entries@[k].0@, entries@[k].1@),
                    ));
                }
                JsonValue::Object(out)
            },
        }
    }

    /// The member named `key`, if this is an object that has one (`Value::get`).
    pub fn get(&self, key: &str) -> (r: Option<&JsonValue>)
        ensures
            match r {
                Some(m) => json_get(self@, key@) == Some(m@),
                None => json_get(self@, key@) is None,
            },
    {
        match self {
            JsonValue::Object(entries) => {
                proof {
                    lemma_object_view(*entries);
                }
                let ghost members = Seq::new(entries@.len(), |i: int| (entries@[i].0@, entries@[i].1@));
                assert(self@ == Json::Object(members));
                let k = owned(key);
                let mut i: usize = 0;
                while i < entries.len()
                    invariant
                        i <= entries@.len(),
                        k@ == key@,
                        self@ == Json::Object(members),
                        members == Seq::new(entries@.len(), |i: int| (entries@[i].0@, entries@[i].1@)),
                        forall|m: int| 0 <= m < i ==> members[m].0 != key@,
                    decreases entries@.len() - i,
                {
                    if entries[i].0 == k {
                        assert(member_index(members, key@, i as int));
                        assert forall|m: int| member_index(members, key@, m) implies m == i by {
                            if m < i {
                            } else if m > i {
                                assert(members[i as int].0 == key@);
                            }
                        }
                        assert(members[i as int].1 == entries@[i as int].1@);
                        assert(self@ == Json::Object(members));
                        return Some(&entries[i].1);
                    }
                    i = i + 1;
                }
                None
            },
            _ => None,
        }
    }

    /// The text of a string document (`Value::as_str`).
    pub fn as_str(&self) -> (r: Option<&String>)
        ensures
            match r {
                Some(s) => json_str(self@) == Some(s@),
                None => json_str(self@) is None,
            },
    {
        match self {
            JsonValue::Str(s) => Some(s),
            _ => None,
        }
    }

    /// The text of member `key`, if it exists and is a string.
    pub fn get_str(&self, key: &str) -> (r: Option<&String>)
        ensures
            match r {
                Some(s) => member_str(self@, key@) == Some(s@),
                None => member_str(self@, key@) is None,
            },
    {
        match self.get(key) {
            Some(m) => m.as_str(),
            None => None,
        }
    }

    /// A number document holding `u`.
    pub fn from_u64(u: u64) -> (r: JsonValue)
        ensures
            r matches JsonValue::Number(n) && number_kind(n) == NumberKind::PosInt(u),
    {
        JsonValue::Number(number_from_u64(u))
    }

    /// A string document.
    pub fn from_str(s: &str) -> (r: JsonValue)
        ensures
            r@ == Json::Str(s@),
    {
        JsonValue::Str(owned(s))
    }

    /// An empty object.
    pub fn empty_object() -> (r: JsonValue)
        ensures
            r@ == Json::Object(Seq::empty()),
    {
        let entries: Vec<(String, JsonValue)> = Vec::new();
        proof {
            lemma_object_view(entries);
        }
        let r = JsonValue::Object(entries);
        assert(r@ == Json::Object(Seq::empty()));
        r
    }
}

} // verus!
