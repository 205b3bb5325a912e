//! JSON documents as plain values, and the two ways between them and text.

use vstd::prelude::*;

use crate::text::{before, same};

verus! {

/// A JSON document. An object lists its members in ascending key order.
#[derive(Debug)]
pub enum Json {
    Null,
    Bool(bool),
    Number(serde_json::Number),
    Text(String),
    List(Vec<Json>),
    Object(Vec<(String, Json)>),
}

/// The mathematical content of a [`Json`].
pub enum JsonView {
    Null,
    Bool(bool),
    Number(serde_json::Number),
    Text(Seq<char>),
    List(Seq<JsonView>),
    Object(Seq<(Seq<char>, JsonView)>),
}

/// `serde_json::Number`, carried through as it is.
#[verifier::external_type_specification]
#[verifier::external_body]
pub struct ExNumber(serde_json::Number);

pub open spec fn json_view(j: Json) -> JsonView
    decreases j,
{
    match j {
        Json::Null => JsonView::Null,
        Json::Bool(b) => JsonView::Bool(b),
        Json::Number(n) => JsonView::Number(n),
        Json::Text(s) => JsonView::Text(s@),
        Json::List(v) => JsonView::List(
            Seq::new(
                v@.len(),
                |i: int|
                    if 0 <= i < v@.len() {
                        json_view(v@[i])
                    } else {
                        JsonView::Null
                    },
            ),
        ),
        Json::Object(v) => JsonView::Object(
            Seq::new(
                v@.len(),
                |i: int|
                    if 0 <= i < v@.len() {
                        (v@[i].0@, json_view(v@[i].1))
                    } else {
                        (Seq::empty(), JsonView::Null)
                    },
            ),
        ),
    }
}

impl View for Json {
    type V = JsonView;

    open spec fn view(&self) -> JsonView {
        json_view(*self)
    }
}

/// `Number::clone` of serde_json copies the number.
pub assume_specification[ <serde_json::Number as Clone>::clone ](
    n: &serde_json::Number,
) -> (r: serde_json::Number)
    ensures
        r == *n,
;

/// Whether keys stand in strictly ascending order.
pub open spec fn ascending(fields: Seq<(Seq<char>, JsonView)>) -> bool {
    forall|i: int, j: int|
        0 <= i < j < fields.len() ==> before((#[trigger] fields[i]).0, (#[trigger] fields[j]).0)
}

/// Whether every object of a document lists its members in ascending order.
pub open spec fn well_formed(j: JsonView) -> bool
    decreases j,
{
    match j {
        JsonView::List(items) => forall|i: int|
            0 <= i < items.len() ==> well_formed(#[trigger] items[i]),
        JsonView::Object(fields) => ascending(fields) && forall|i: int|
            0 <= i < fields.len() ==> well_formed((#[trigger] fields[i]).1),
        _ => true,
    }
}

proof fn well_formed_item(j: JsonView, i: int)
    requires
        j is List,
        well_formed(j),
        0 <= i < j->List_0.len(),
    ensures
        well_formed(j->List_0[i]),
{
}

// ------------------------------------------------- the text of a document ----

/// `serde_json::Value`, the parsed form of a document.
#[verifier::external_type_specification]
#[verifier::external_body]
pub struct ExValue(serde_json::Value);

/// `serde_json::Error`.
#[verifier::external_type_specification]
#[verifier::external_body]
pub struct ExError(serde_json::Error);

/// What a `serde_json::Value` holds, member by member.
pub uninterp spec fn held(v: serde_json::Value) -> JsonView;

/// What `serde_json::from_str` reads from a text; `None` where it is not JSON.
pub uninterp spec fn parsed(text: Seq<char>) -> Option<JsonView>;

/// What `serde_json::to_string` writes for a document.
pub uninterp spec fn rendered(j: JsonView) -> Option<Seq<char>>;

/// One level of a `serde_json::Value`.
pub enum Level {
    Null,
    Bool(bool),
    Number(serde_json::Number),
    Text(String),
    List(Vec<serde_json::Value>),
    Object(Vec<(String, serde_json::Value)>),
}

pub open spec fn level_view(l: Level) -> JsonView {
    match l {
        Level::Null => JsonView::Null,
        Level::Bool(b) => JsonView::Bool(b),
        Level::Number(n) => JsonView::Number(n),
        Level::Text(s) => JsonView::Text(s@),
        Level::List(v) => JsonView::List(Seq::new(v@.len(), |i: int| held(v@[i]))),
        Level::Object(v) => JsonView::Object(
            Seq::new(v@.len(), |i: int| (v@[i].0@, held(v@[i].1))),
        ),
    }
}

/// `serde_json::from_str` into a `Value`. Claims that the text alone decides
/// what is read and whether it is JSON.
#[verifier::external_body]
fn value_from_text(text: &str) -> (r: Result<serde_json::Value, serde_json::Error>)
    ensures
        match r {
            Ok(v) => parsed(text@) == Some(held(v)),
            Err(_) => parsed(text@) is None,
        },
{
    serde_json::from_str::<serde_json::Value>(text)
}

/// `serde_json::to_string` of a `Value`. Claims that what the value holds
/// alone decides what is written.
#[verifier::external_body]
fn text_from_value(v: &serde_json::Value) -> (r: Result<String, serde_json::Error>)
    ensures
        match r {
            Ok(s) => rendered(held(*v)) == Some(s@),
            Err(_) => rendered(held(*v)) is None,
        },
{
    serde_json::to_string(v)
}

/// Takes one level of a `Value` apart by its variants. A `Map` without the
/// `preserve_order` feature hands its members out in ascending key order,
/// each key once.
#[verifier::external_body]
fn open_value(v: serde_json::Value) -> (r: Level)
    ensures
        level_view(r) == held(v),
        match level_view(r) {
            JsonView::Object(fields) => ascending(fields),
            _ => true,
        },
{
    match v {
        serde_json::Value::Null => Level::Null,
        serde_json::Value::Bool(b) => Level::Bool(b),
        serde_json::Value::Number(n) => Level::Number(n),
        serde_json::Value::String(s) => Level::Text(s),
        serde_json::Value::Array(items) => Level::List(items),
        serde_json::Value::Object(fields) => Level::Object(fields.into_iter().collect()),
    }
}

/// Puts one level of a `Value` together. Members that stand in ascending key
/// order stand so in the `Map`.
#[verifier::external_body]
fn close_value(l: Level) -> (r: serde_json::Value)
    requires
        match level_view(l) {
            JsonView::Object(fields) => ascending(fields),
            _ => true,
        },
    ensures
        held(r) == level_view(l),
{
    match l {
        Level::Null => serde_json::Value::Null,
        Level::Bool(b) => serde_json::Value::Bool(b),
        Level::Number(n) => serde_json::Value::Number(n),
        Level::Text(s) => serde_json::Value::String(s),
        Level::List(items) => serde_json::Value::Array(items),
        Level::Object(fields) => serde_json::Value::Object(fields.into_iter().collect()),
    }
}

/// The document that a `Value` holds.
fn json_of(v: serde_json::Value) -> (r: Json)
    ensures
        r@ == held(v),
        well_formed(r@),
    decreases held(v),
{
    match open_value(v) {
        Level::Null => Json::Null,
        Level::Bool(b) => Json::Bool(b),
        Level::Number(n) => Json::Number(n),
        Level::Text(s) => Json::Text(s),
        Level::List(items) => {
            let ghost all = items@;
            let ghost hv = held(v)->List_0;
            let mut rest = items;
            let mut out: Vec<Json> = Vec::new();
            let n: usize = rest.len();
            while rest.len() > 0
                invariant
                    held(v) == JsonView::List(hv),
                    hv =~= Seq::new(all.len(), |i: int| held(all[i])),
                    n == all.len(),
                    out.len() + rest.len() == n,
                    rest@ =~= all.skip(out@.len() as int),
                    forall|i: int|
                        0 <= i < out@.len() ==> json_view(#[trigger] out@[i]) == hv[i]
                            && well_formed(hv[i]),
                decreases rest.len(),
            {
                let item = rest.remove(0);
                proof {
                    assert(item == all[out@.len() as int]);
                    assert(hv[out@.len() as int] == held(item));
                    assert(decreases_to!(held(v) => held(v)->List_0));
                    assert(decreases_to!(hv => hv[out@.len() as int]));
                }
                let j = json_of(item);
                out.push(j);
            }
            let r = Json::List(out);
            proof {
                assert(r@->List_0 =~= hv);
            }
            r
        },
        Level::Object(fields) => {
            let ghost all = fields@;
            let ghost hv = held(v)->Object_0;
            let mut rest = fields;
            let mut out: Vec<(String, Json)> = Vec::new();
            let n: usize = rest.len();
            while rest.len() > 0
                invariant
                    held(v) == JsonView::Object(hv),
                    hv =~= Seq::new(all.len(), |i: int| (all[i].0@, held(all[i].1))),
                    n == all.len(),
                    out.len() + rest.len() == n,
                    rest@ =~= all.skip(out@.len() as int),
                    forall|i: int|
                        0 <= i < out@.len() ==> (#[trigger] out@[i]).0@ == hv[i].0 && json_view(
                            out@[i].1,
                        ) == hv[i].1 && well_formed(hv[i].1),
                decreases rest.len(),
            {
                let (key, item) = rest.remove(0);
                proof {
                    let k = out@.len() as int;
                    assert(all[k] == (key, item));
                    assert(hv[k] == (key@, held(item)));
                    assert(decreases_to!(held(v) => held(v)->Object_0));
                    assert(decreases_to!(hv => hv[k]));
                    assert(decreases_to!(hv[k] => hv[k].1));
                }
                let j = json_of(item);
                out.push((key, j));
            }
            let r = Json::Object(out);
            proof {
                assert(r@->Object_0 =~= hv);
            }
            r
        },
    }
}

impl Json {
    /// The same document again.
    pub fn copy(&self) -> (r: Json)
        ensures
            r@ == self@,
        decreases self,
    {
        match self {
            Json::Null => Json::Null,
            Json::Bool(b) => Json::Bool(*b),
            Json::Number(n) => Json::Number(n.clone()),
            Json::Text(s) => Json::Text(s.clone()),
            Json::List(items) => {
                let mut out: Vec<Json> = Vec::new();
                let mut i: usize = 0;
                while i < items.len()
                    invariant
                        *self == Json::List(*items),
                        i <= items.len(),
                        out.len() == i,
                        forall|k: int|
                            0 <= k < i ==> json_view(#[trigger] out@[k]) == json_view(items@[k]),
                    decreases items.len() - i,
                {
                    proof {
                        assert(decreases_to!(*self => self->List_0));
                        assert(decreases_to!(*items => items[i as int]));
                    }
                    let j = items[i].copy();
                    out.push(j);
                    i = i + 1;
                }
                let r = Json::List(out);
                proof {
                    assert(r@->List_0 =~= self@->List_0);
                }
                r
            },
            Json::Object(fields) => {
                let mut out: Vec<(String, Json)> = Vec::new();
                let mut i: usize = 0;
                while i < fields.len()
                    invariant
                        *self == Json::Object(*fields),
                        i <= fields.len(),
                        out.len() == i,
                        forall|k: int|
                            0 <= k < i ==> (#[trigger] out@[k]).0@ == fields@[k].0@ && json_view(
                                out@[k].1,
                            ) == json_view(fields@[k].1),
                    decreases fields.len() - i,
                {
                    proof {
                        assert(decreases_to!(*self => self->Object_0));
                        assert(decreases_to!(*fields => fields[i as int]));
                        assert(decreases_to!(fields[i as int] => fields[i as int].1));
                    }
                    let j = fields[i].1.copy();
                    out.push((fields[i].0.clone(), j));
                    i = i + 1;
                }
                let r = Json::Object(out);
                proof {
                    assert(r@->Object_0 =~= self@->Object_0);
                }
                r
            },
        }
    }
}

/// The `Value` that holds a document.
fn value_of(j: &Json) -> (r: serde_json::Value)
    requires
        well_formed(j@),
    ensures
        held(r) == j@,
    decreases j,
{
    match j {
        Json::Null => close_value(Level::Null),
        Json::Bool(b) => close_value(Level::Bool(*b)),
        Json::Number(n) => close_value(Level::Number(n.clone())),
        Json::Text(s) => close_value(Level::Text(s.clone())),
        Json::List(items) => {
            let ghost jv = j@->List_0;
            let mut out: Vec<serde_json::Value> = Vec::new();
            let mut i: usize = 0;
            while i < items.len()
                invariant
                    *j == Json::List(*items),
                    well_formed(j@),
                    j@ == JsonView::List(jv),
                    jv.len() == items@.len(),
                    i <= items.len(),
                    out.len() == i,
                    forall|k: int| 0 <= k < i ==> held(#[trigger] out@[k]) == jv[k],
                decreases items.len() - i,
            {
                proof {
                    assert(decreases_to!(*j => j->List_0));
                    well_formed_item(JsonView::List(jv), i as int);
                    assert(decreases_to!(*items => items[i as int]));
                    assert(jv[i as int] == json_view(items@[i as int]));
                }
                let v = value_of(&items[i]);
                out.push(v);
                i = i + 1;
            }
            let l = Level::List(out);
            proof {
                assert(level_view(l)->List_0 =~= jv);
            }
            close_value(l)
        },
        Json::Object(fields) => {
            let ghost jv = j@->Object_0;
            let mut out: Vec<(String, serde_json::Value)> = Vec::new();
            let mut i: usize = 0;
            while i < fields.len()
                invariant
                    *j == Json::Object(*fields),
                    well_formed(j@),
                    j@ == JsonView::Object(jv),
                    jv.len() == fields@.len(),
                    i <= fields.len(),
                    out.len() == i,
                    forall|k: int|
                        0 <= k < i ==> (#[trigger] out@[k]).0@ == jv[k].0 && held(out@[k].1)
                            == jv[k].1,
                decreases fields.len() - i,
            {
                proof {
                    assert(decreases_to!(*j => j->Object_0));
                    assert(well_formed(JsonView::Object(jv)));
                    assert(decreases_to!(*fields => fields[i as int]));
                    assert(decreases_to!(fields[i as int] => fields[i as int].1));
                    assert(jv[i as int] == (fields@[i as int].0@, json_view(fields@[i as int].1)));
                    assert(well_formed(jv[i as int].1));
                }
                let v = value_of(&fields[i].1);
                out.push((fields[i].0.clone(), v));
                i = i + 1;
            }
            let l = Level::Object(out);
            proof {
                assert(level_view(l)->Object_0 =~= jv);
            }
            close_value(l)
        },
    }
}

/// Reads a document; `None` where the text is not JSON.
pub fn parse(text: &str) -> (r: Option<Json>)
    ensures
        match r {
            Some(j) => parsed(text@) == Some(j@) && well_formed(j@),
            None => parsed(text@) is None,
        },
{
    match value_from_text(text) {
        Ok(v) => Some(json_of(v)),
        Err(_) => None,
    }
}

/// Writes a document.
pub fn render(j: &Json) -> (r: Option<String>)
    requires
        well_formed(j@),
    ensures
        match r {
            Some(s) => rendered(j@) == Some(s@),
            None => rendered(j@) is None,
        },
{
    let v = value_of(j);
    match text_from_value(&v) {
        Ok(s) => Some(s),
        Err(_) => None,
    }
}

// ---------------------------------------------------------- its members ----

/// The position of the member under `key`, if there is one.
pub open spec fn member_at(fields: Seq<(Seq<char>, JsonView)>, key: Seq<char>) -> Option<int>
    decreases fields.len(),
{
    if fields.len() == 0 {
        None
    } else if fields.last().0 == key {
        Some(fields.len() - 1)
    } else {
        member_at(fields.drop_last(), key)
    }
}

/// The member under `key` of an object.
pub open spec fn member(j: JsonView, key: Seq<char>) -> Option<JsonView> {
    match j {
        JsonView::Object(fields) => match member_at(fields, key) {
            Some(i) => Some(fields[i].1),
            None => None,
        },
        _ => None,
    }
}

/// The text of a document that is one.
pub open spec fn text_value(j: Option<JsonView>) -> Option<Seq<char>> {
    match j {
        Some(JsonView::Text(s)) => Some(s),
        _ => None,
    }
}

/// Finds the member under `key` of an object.
pub fn get<'a>(j: &'a Json, key: &str) -> (r: Option<&'a Json>)
    ensures
        match r {
            Some(m) => member(j@, key@) == Some(m@),
            None => member(j@, key@) is None,
        },
{
    match j {
        Json::Object(fields) => {
            let ghost jv = j@->Object_0;
            let mut i: usize = fields.len();
            proof {
                assert(jv.take(jv.len() as int) =~= jv);
            }
            while i > 0
                invariant
                    *j == Json::Object(*fields),
                    j@ == JsonView::Object(jv),
                    jv.len() == fields@.len(),
                    i <= fields.len(),
                    member_at(jv, key@) == member_at(jv.take(i as int), key@),
                decreases i,
            {
                i = i - 1;
                proof {
                    assert(jv.take(i + 1).drop_last() =~= jv.take(i as int));
                    assert(jv.take(i + 1).last() == jv[i as int]);
                    assert(jv[i as int] == (fields@[i as int].0@, json_view(fields@[i as int].1)));
                }
                if same(fields[i].0.as_str(), key) {
                    return Some(&fields[i].1);
                }
            }
            None
        },
        _ => None,
    }
}

/// The text of a document that is one.
pub fn as_text<'a>(j: Option<&'a Json>) -> (r: Option<&'a String>)
    ensures
        match r {
            Some(s) => j is Some && text_value(Some(j->0@)) == Some(s@),
            None => j is None || text_value(Some(j->0@)) is None,
        },
{
    match j {
        Some(Json::Text(s)) => Some(s),
        _ => None,
    }
}

/// The JSON number of an unsigned integer.
pub uninterp spec fn number_of(n: u64) -> serde_json::Number;

/// `Number::from` of serde_json. Claims that the integer alone decides it.
#[verifier::external_body]
pub(crate) fn number(n: u64) -> (r: serde_json::Number)
    ensures
        r == number_of(n),
{
    serde_json::Number::from(n)
}

// ------------------------------------------------------------- building ----

/// The members of an object under construction.
pub open spec fn members(v: Seq<(String, Json)>) -> Seq<(Seq<char>, JsonView)> {
    Seq::new(v.len(), |i: int| (v[i].0@, json_view(v[i].1)))
}

/// Appends a member.
pub fn put(v: &mut Vec<(String, Json)>, key: &str, value: Json)
    ensures
        members(final(v)@) == members(old(v)@).push((key@, value@)),
{
    let ghost before = v@;
    let k = key.to_owned();
    v.push((k, value));
    proof {
        assert(members(v@) =~= members(before).push((key@, value@)));
    }
}

/// A member that is there only where the text is.
pub open spec fn optional(key: Seq<char>, text: Option<Seq<char>>) -> Seq<(Seq<char>, JsonView)> {
    match text {
        Some(s) => seq![(key, JsonView::Text(s))],
        None => Seq::empty(),
    }
}

/// Appends a text member where there is a text.
pub fn put_optional(v: &mut Vec<(String, Json)>, key: &str, text: &Option<String>)
    ensures
        members(final(v)@) == members(old(v)@) + optional(key@, crate::text::opt_view(*text)),
{
    let ghost before = members(v@);
    if let Some(s) = text {
        put(v, key, Json::Text(s.clone()));
        proof {
            assert(members(v@) =~= before + seq![(key@, JsonView::Text(s@))]);
        }
    } else {
        proof {
            assert(before + Seq::empty() =~= before);
        }
    }
}

/// The object of some members.
pub fn object(v: Vec<(String, Json)>) -> (r: Json)
    ensures
        r@ == JsonView::Object(members(v@)),
{
    let r = Json::Object(v);
    proof {
        assert(r@->Object_0 =~= members(v@));
    }
    r
}

/// A text member.
pub open spec fn text_member(key: Seq<char>, text: Seq<char>) -> (Seq<char>, JsonView) {
    (key, JsonView::Text(text))
}

/// A number member.
pub open spec fn number_member(key: Seq<char>, n: u64) -> (Seq<char>, JsonView) {
    (key, JsonView::Number(number_of(n)))
}

/// A member that says yes or no.
pub open spec fn bool_member(key: Seq<char>, b: bool) -> (Seq<char>, JsonView) {
    (key, JsonView::Bool(b))
}

/// A text, or null where there is none.
pub open spec fn nullable(text: Option<Seq<char>>) -> JsonView {
    match text {
        Some(s) => JsonView::Text(s),
        None => JsonView::Null,
    }
}

/// A list of texts.
pub open spec fn text_list(texts: Seq<Seq<char>>) -> JsonView {
    JsonView::List(Seq::new(texts.len(), |i: int| JsonView::Text(texts[i])))
}

/// The document that a stored text holds; null where it is not JSON.
pub open spec fn stored(text: Seq<char>) -> JsonView {
    match parsed(text) {
        Some(j) => j,
        None => JsonView::Null,
    }
}

/// Appends a text member.
pub fn put_text(v: &mut Vec<(String, Json)>, key: &str, text: &str)
    ensures
        members(final(v)@) == members(old(v)@).push(text_member(key@, text@)),
{
    put(v, key, Json::Text(text.to_owned()));
}

/// Appends a number member.
pub fn put_number(v: &mut Vec<(String, Json)>, key: &str, n: u64)
    ensures
        members(final(v)@) == members(old(v)@).push(number_member(key@, n)),
{
    put(v, key, Json::Number(number(n)));
}

/// Appends a member that says yes or no.
pub fn put_bool(v: &mut Vec<(String, Json)>, key: &str, b: bool)
    ensures
        members(final(v)@) == members(old(v)@).push(bool_member(key@, b)),
{
    put(v, key, Json::Bool(b));
}

/// The text of an option, or null.
pub fn nullable_text(text: &Option<String>) -> (r: Json)
    ensures
        r@ == nullable(crate::text::opt_view(*text)),
{
    match text {
        Some(s) => Json::Text(s.clone()),
        None => Json::Null,
    }
}

/// The list of some texts.
pub fn list_of_texts(texts: &Vec<String>) -> (r: Json)
    ensures
        r@ == text_list(crate::text::views(texts@)),
{
    let mut v: Vec<Json> = Vec::new();
    let mut i: usize = 0;
    while i < texts.len()
        invariant
            i <= texts.len(),
            v.len() == i,
            forall|k: int|
                0 <= k < i ==> json_view(#[trigger] v@[k]) == JsonView::Text(texts@[k]@),
        decreases texts.len() - i,
    {
        v.push(Json::Text(texts[i].clone()));
        i = i + 1;
    }
    let r = Json::List(v);
    proof {
        assert(r@->List_0 =~= text_list(crate::text::views(texts@))->List_0);
    }
    r
}

/// The document that a stored text holds, or null.
pub fn read_stored(text: &str) -> (r: Json)
    ensures
        r@ == stored(text@),
{
    match parse(text) {
        Some(j) => j,
        None => Json::Null,
    }
}

/// The list without items.
pub fn empty_list() -> (r: Json)
    ensures
        r@ == JsonView::List(Seq::empty()),
{
    let r = Json::List(Vec::new());
    proof {
        assert(r@->List_0 =~= Seq::<JsonView>::empty());
    }
    r
}

/// The object without members.
pub fn empty_object() -> (r: Json)
    ensures
        r@ == JsonView::Object(Seq::empty()),
{
    let r = Json::Object(Vec::new());
    proof {
        assert(r@->Object_0 =~= Seq::<(Seq<char>, JsonView)>::empty());
    }
    r
}

/// The list of some documents.
pub open spec fn listed(items: Seq<Json>) -> JsonView {
    JsonView::List(Seq::new(items.len(), |i: int| json_view(items[i])))
}

/// The list of some documents, copied.
pub fn list_of(items: &Vec<Json>) -> (r: Json)
    ensures
        r@ == listed(items@),
{
    let mut v: Vec<Json> = Vec::new();
    let mut i: usize = 0;
    while i < items.len()
        invariant
            i <= items.len(),
            v.len() == i,
            forall|k: int| 0 <= k < i ==> json_view(#[trigger] v@[k]) == json_view(items@[k]),
        decreases items.len() - i,
    {
        v.push(items[i].copy());
        i = i + 1;
    }
    let r = Json::List(v);
    proof {
        assert(r@->List_0 =~= listed(items@)->List_0);
    }
    r
}

/// Members put side by side are the members of both, and no others.
pub proof fn members_together(
    a: Seq<(Seq<char>, JsonView)>,
    b: Seq<(Seq<char>, JsonView)>,
    x: (Seq<char>, JsonView),
)
    ensures
        (a + b).contains(x) == (a.contains(x) || b.contains(x)),
{
    if a.contains(x) {
        let i = choose|i: int| 0 <= i < a.len() && a[i] == x;
        assert((a + b)[i] == x);
    }
    if b.contains(x) {
        let i = choose|i: int| 0 <= i < b.len() && b[i] == x;
        assert((a + b)[a.len() + i] == x);
    }
    if (a + b).contains(x) {
        let i = choose|i: int| 0 <= i < (a + b).len() && (a + b)[i] == x;
        if i < a.len() {
            assert(a[i] == x);
        } else {
            assert(b[i - a.len()] == x);
        }
    }
}

/// A member is found under its name, the last of two of one name; what is no
/// object has none, and another member does not hide it.
pub proof fn a_member_is_found_by_its_name(
    fields: Seq<(Seq<char>, JsonView)>,
    name: Seq<char>,
    other: Seq<char>,
    value: JsonView,
)
    ensures
        member(JsonView::Object(fields.push((name, value))), name) == Some(value),
        other != name ==> member(JsonView::Object(fields.push((name, value))), other) == member(
            JsonView::Object(fields),
            other,
        ),
        member(JsonView::Object(Seq::empty()), name) is None,
        value !is Object ==> member(value, name) is None,
{
    let f = fields.push((name, value));
    assert(f.drop_last() =~= fields);
    assert(f.last() == (name, value));
    member_in_range(fields, other);
}

proof fn member_in_range(fields: Seq<(Seq<char>, JsonView)>, name: Seq<char>)
    ensures
        member_at(fields, name) is Some ==> 0 <= member_at(fields, name)->0 < fields.len()
            && fields[member_at(fields, name)->0].0 == name,
    decreases fields.len(),
{
    if fields.len() > 0 && fields.last().0 != name {
        member_in_range(fields.drop_last(), name);
    }
}

/// A text that may be missing is written as itself or as nothing, and two are
/// written alike only where they are one; so are lists of texts.
pub proof fn what_is_written_can_be_told(
    a: Option<Seq<char>>,
    b: Option<Seq<char>>,
    x: Seq<Seq<char>>,
    y: Seq<Seq<char>>,
    name: Seq<char>,
)
    ensures
        nullable(a) == nullable(b) ==> a == b,
        a is None ==> nullable(a) is Null && optional(name, a).len() == 0,
        a is Some ==> nullable(a) == JsonView::Text(a->0) && optional(name, a) == seq![
            (name, JsonView::Text(a->0)),
        ],
        optional(name, a) == optional(name, b) ==> a == b,
        text_list(x) == text_list(y) ==> x == y,
{
    if optional(name, a) == optional(name, b) {
        if a is Some {
            assert(optional(name, a)[0].1 == JsonView::Text(a->0));
            assert(optional(name, a).len() == 1);
        }
        if b is Some {
            assert(optional(name, b)[0].1 == JsonView::Text(b->0));
            assert(optional(name, b).len() == 1);
        }
    }
    if text_list(x) == text_list(y) {
        let p = Seq::new(x.len(), |i: int| JsonView::Text(x[i]));
        let q = Seq::new(y.len(), |i: int| JsonView::Text(y[i]));
        assert(p == q);
        assert(x.len() == y.len());
        assert forall|i: int| 0 <= i < x.len() implies x[i] == y[i] by {
            assert(p[i] == JsonView::Text(x[i]));
            assert(q[i] == JsonView::Text(y[i]));
        }
        assert(x =~= y);
    }
}

/// A stored text is read back as the value it holds, and as nothing where it
/// holds none.
pub proof fn a_stored_text_is_read_back(text: Seq<char>)
    ensures
        parsed(text) is Some ==> stored(text) == parsed(text)->0,
        parsed(text) is None ==> stored(text) is Null,
{
}

} // verus!
