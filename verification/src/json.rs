//! JSON values.

use vstd::prelude::*;
use crate::table::Table;
use crate::text::same;

verus! {

/// A JSON value.
#[derive(Debug, PartialEq, Eq)]
pub enum Json {
    Null,
    Bool(bool),
    /// An integer that is not negative.
    UInt(u64),
    /// A negative integer.
    Int(i64),
    /// Any other number, as its decimal text.
    Real(String),
    Str(String),
    Array(Vec<Json>),
    /// The members in their order.
    Object(Vec<(String, Json)>),
}

/// What a JSON value says.
pub enum JsonView {
    Null,
    Bool(bool),
    UInt(u64),
    Int(i64),
    Real(Seq<char>),
    Str(Seq<char>),
    Array(Seq<JsonView>),
    Object(Seq<(Seq<char>, JsonView)>),
}

/// What a JSON value says.
pub open spec fn json_view(j: Json) -> JsonView
    decreases j,
{
    match j {
        Json::Null => JsonView::Null,
        Json::Bool(b) => JsonView::Bool(b),
        Json::UInt(n) => JsonView::UInt(n),
        Json::Int(n) => JsonView::Int(n),
        Json::Real(s) => JsonView::Real(s@),
        Json::Str(s) => JsonView::Str(s@),
        Json::Array(v) => JsonView::Array(
            Seq::new(
                v@.len(),
                |i: int|
                    if 0 <= i < v@.len() {
                        json_view(v@[i])
                    } else {
                        JsonView::Null
                    },
            ),
        ),
        Json::Object(m) => JsonView::Object(
            Seq::new(
                m@.len(),
                |i: int|
                    if 0 <= i < m@.len() {
                        (m@[i].0@, json_view(m@[i].1))
                    } else {
                        (Seq::<char>::empty(), JsonView::Null)
                    },
            ),
        ),
    }
}

impl View for Json {
    type V = JsonView;

    open spec fn view(&self) -> JsonView {
        json_view(*self)
    }
}

/// The view of an optional value.
pub open spec fn opt_json(o: Option<Json>) -> Option<JsonView> {
    match o {
        None => None,
        Some(j) => Some(j@),
    }
}

/// The view of an optional borrowed value.
pub open spec fn opt_json_ref(o: Option<&Json>) -> Option<JsonView> {
    match o {
        None => None,
        Some(j) => Some(j@),
    }
}

/// The views of a sequence of values.
pub open spec fn json_views(v: Seq<Json>) -> Seq<JsonView> {
    v.map_values(|j: Json| j@)
}

/// The views of a sequence of members.
pub open spec fn member_views(m: Seq<(String, Json)>) -> Seq<(Seq<char>, JsonView)> {
    m.map_values(|p: (String, Json)| (p.0@, p.1@))
}

/// The view of an array is the array of the views.
pub broadcast proof fn lemma_array_view(v: Vec<Json>)
    ensures
        #[trigger] (Json::Array(v)).view() == JsonView::Array(json_views(v@)),
{
    let a = Json::Array(v);
    assert(a@->Array_0 =~= json_views(v@));
}

/// The view of an object is the object of the views.
pub broadcast proof fn lemma_object_view(m: Vec<(String, Json)>)
    ensures
        #[trigger] (Json::Object(m)).view() == JsonView::Object(member_views(m@)),
{
    let a = Json::Object(m);
    assert(a@->Object_0 =~= member_views(m@));
}

// ---- reading -------------------------------------------------------------------

/// The value of the first member with the given key.
pub open spec fn member(m: Seq<(Seq<char>, JsonView)>, key: Seq<char>) -> Option<JsonView>
    decreases m.len(),
{
    if m.len() == 0 {
        None
    } else if m[0].0 == key {
        Some(m[0].1)
    } else {
        member(m.drop_first(), key)
    }
}

/// The value that an object has under a key; nothing for any other value.
pub open spec fn field(v: JsonView, key: Seq<char>) -> Option<JsonView> {
    match v {
        JsonView::Object(m) => member(m, key),
        _ => None,
    }
}

/// The text of a string; nothing for any other value.
pub open spec fn string(v: Option<JsonView>) -> Option<Seq<char>> {
    match v {
        Some(JsonView::Str(s)) => Some(s),
        _ => None,
    }
}

/// The text that an object has under a key.
pub open spec fn text_field(v: JsonView, key: Seq<char>) -> Option<Seq<char>> {
    string(field(v, key))
}

/// The number that an object has under a key, when it is an integer that is not
/// negative.
pub open spec fn uint_field(v: JsonView, key: Seq<char>) -> Option<u64> {
    match field(v, key) {
        Some(JsonView::UInt(n)) => Some(n),
        _ => None,
    }
}

/// The decimal text of an integer.
pub open spec fn integer_text(n: int) -> Seq<char> {
    if n < 0 {
        seq!['-'] + crate::text::decimal((-n) as nat)
    } else {
        crate::text::decimal(n as nat)
    }
}

/// The decimal text of the number that an object has under a key.
pub open spec fn number_field(v: JsonView, key: Seq<char>) -> Option<Seq<char>> {
    match field(v, key) {
        Some(JsonView::UInt(n)) => Some(integer_text(n as int)),
        Some(JsonView::Int(n)) => Some(integer_text(n as int)),
        Some(JsonView::Real(s)) => Some(s),
        _ => None,
    }
}

impl Json {
    /// The value of a JSON text; nothing for a text that is none.
    pub fn parse(text: &str) -> (r: Option<Json>)
        ensures
            opt_json(r) == parsed_json(text@),
    {
        parse_json(text)
    }

    /// The JSON text of the value.
    pub fn to_text(&self) -> (r: String)
        ensures
            r@ == json_text(self@),
    {
        render_json(self)
    }

    /// The value under a key, of an object.
    pub fn get(&self, key: &str) -> (r: Option<&Json>)
        ensures
            opt_json_ref(r) == field(self@, key@),
    {
        match self {
            Json::Object(m) => {
                let ghost all = member_views(m@);
                proof {
                    lemma_object_view(*m);
                    assert(all.skip(0) =~= all);
                }
                let mut i: usize = 0;
                while i < m.len()
                    invariant
                        i <= m@.len(),
                        all == member_views(m@),
                        self@ == JsonView::Object(all),
                        member(all.skip(i as int), key@) == member(all, key@),
                    decreases m@.len() - i,
                {
                    assert(all.skip(i as int)[0] == all[i as int]);
                    if same(&m[i].0, key) {
                        return Some(&m[i].1);
                    }
                    assert(all.skip(i as int).drop_first() =~= all.skip(i + 1));
                    i = i + 1;
                }
                None
            },
            _ => None,
        }
    }

    /// The text of a string.
    pub fn as_str(&self) -> (r: Option<&str>)
        ensures
            crate::text::opt_str_view(r) == string(Some(self@)),
    {
        match self {
            Json::Str(s) => Some(s.as_str()),
            _ => None,
        }
    }

    /// The elements of an array.
    pub fn as_array(&self) -> (r: Option<&Vec<Json>>)
        ensures
            match r {
                Some(v) => self@ == JsonView::Array(json_views(v@)),
                None => !(self@ is Array),
            },
    {
        match self {
            Json::Array(v) => {
                proof {
                    lemma_array_view(*v);
                }
                Some(v)
            },
            _ => None,
        }
    }

    /// The text under a key, of an object.
    pub fn get_str(&self, key: &str) -> (r: Option<String>)
        ensures
            crate::text::opt_view(r) == text_field(self@, key@),
    {
        match self.get(key) {
            Some(Json::Str(s)) => Some(s.clone()),
            _ => None,
        }
    }

    /// The integer under a key, of an object, when it is not negative.
    pub fn get_uint(&self, key: &str) -> (r: Option<u64>)
        ensures
            r == uint_field(self@, key@),
    {
        match self.get(key) {
            Some(Json::UInt(n)) => Some(*n),
            _ => None,
        }
    }

    /// The decimal text of the number under a key, of an object.
    pub fn get_number(&self, key: &str) -> (r: Option<String>)
        ensures
            crate::text::opt_view(r) == number_field(self@, key@),
    {
        match self.get(key) {
            Some(Json::UInt(n)) => Some(crate::text::decimal_text(*n)),
            Some(Json::Int(n)) => Some(signed_text(*n)),
            Some(Json::Real(s)) => Some(s.clone()),
            _ => None,
        }
    }

    /// A copy.
    pub fn dup(&self) -> (r: Json)
        ensures
            r@ == self@,
        decreases self,
    {
        match self {
            Json::Null => Json::Null,
            Json::Bool(b) => Json::Bool(*b),
            Json::UInt(n) => Json::UInt(*n),
            Json::Int(n) => Json::Int(*n),
            Json::Real(s) => Json::Real(s.clone()),
            Json::Str(s) => Json::Str(s.clone()),
            Json::Array(v) => {
                let mut out: Vec<Json> = Vec::new();
                let mut i: usize = 0;
                while i < v.len()
                    invariant
                        i <= v@.len(),
                        *self == Json::Array(*v),
                        out@.len() == i,
                        forall|k: int| 0 <= k < i ==> (#[trigger] out@[k])@ == v@[k]@,
                    decreases v@.len() - i,
                {
                    assert(decreases_to!(*self => self->Array_0));
                    assert(decreases_to!(*v => v@));
                    assert(decreases_to!(v@ => v@[i as int]));
                    let item: Json = v[i].dup();
                    out.push(item);
                    i = i + 1;
                }
                proof {
                    lemma_array_view(*v);
                    lemma_array_view(out);
                    assert(json_views(out@) =~= json_views(v@));
                }
                Json::Array(out)
            },
            Json::Object(m) => {
                let mut out: Vec<(String, Json)> = Vec::new();
                let mut i: usize = 0;
                while i < m.len()
                    invariant
                        i <= m@.len(),
                        *self == Json::Object(*m),
                        out@.len() == i,
                        forall|k: int|
                            0 <= k < i ==> (#[trigger] out@[k]).0@ == m@[k].0@ && out@[k].1@
                                == m@[k].1@,
                    decreases m@.len() - i,
                {
                    assert(decreases_to!(*self => self->Object_0));
                    assert(decreases_to!(*m => m@));
                    assert(decreases_to!(m@ => m@[i as int]));
                    assert(decreases_to!(m@[i as int] => m@[i as int].1));
                    let key: String = m[i].0.clone();
                    let item: Json = m[i].1.dup();
                    out.push((key, item));
                    i = i + 1;
                }
                proof {
                    lemma_object_view(*m);
                    lemma_object_view(out);
                    assert(member_views(out@) =~= member_views(m@));
                }
                Json::Object(out)
            },
        }
    }
}

/// The decimal text of a signed integer.
pub fn signed_text(n: i64) -> (r: String)
    ensures
        r@ == integer_text(n as int),
{
    if n < 0 {
        let mut out: String = String::new();
        out.push('-');
        let m: u64 = (-(n + 1)) as u64 + 1;
        out.append(crate::text::decimal_text(m).as_str());
        assert(out@ =~= integer_text(n as int));
        out
    } else {
        crate::text::decimal_text(n as u64)
    }
}

// ---- building ------------------------------------------------------------------

/// An empty object.
pub fn object() -> (r: Vec<(String, Json)>)
    ensures
        member_views(r@) == Seq::<(Seq<char>, JsonView)>::empty(),
{
    let r: Vec<(String, Json)> = Vec::new();
    assert(member_views(r@) =~= Seq::<(Seq<char>, JsonView)>::empty());
    r
}

/// Appends a member to an object.
pub fn put(m: Vec<(String, Json)>, key: &str, value: Json) -> (r: Vec<(String, Json)>)
    ensures
        member_views(r@) == member_views(m@).push((key@, value@)),
{
    let mut m: Vec<(String, Json)> = m;
    let ghost before = m@;
    m.push((key.to_string(), value));
    assert(member_views(m@) =~= member_views(before).push((key@, value@)));
    m
}

/// The object with the given members.
pub fn close(m: Vec<(String, Json)>) -> (r: Json)
    ensures
        r@ == JsonView::Object(member_views(m@)),
{
    proof {
        lemma_object_view(m);
    }
    Json::Object(m)
}

/// The string with the given text.
pub fn text_value(s: &str) -> (r: Json)
    ensures
        r@ == JsonView::Str(s@),
{
    Json::Str(s.to_string())
}

/// The string of an optional text, or null.
pub open spec fn text_or_null(o: Option<Seq<char>>) -> JsonView {
    match o {
        None => JsonView::Null,
        Some(s) => JsonView::Str(s),
    }
}

/// The string of an optional text, or null.
pub fn text_or_null_value(o: &Option<String>) -> (r: Json)
    ensures
        r@ == text_or_null(crate::text::opt_view(*o)),
{
    match o {
        None => Json::Null,
        Some(s) => Json::Str(s.clone()),
    }
}

/// The array of the given texts.
pub open spec fn text_array(v: Seq<Seq<char>>) -> JsonView {
    JsonView::Array(v.map_values(|s: Seq<char>| JsonView::Str(s)))
}

/// The array of the given texts.
pub fn text_array_value(v: &Vec<String>) -> (r: Json)
    ensures
        r@ == text_array(crate::text::views(v@)),
{
    let mut out: Vec<Json> = Vec::new();
    let mut i: usize = 0;
    while i < v.len()
        invariant
            i <= v@.len(),
            out@.len() == i,
            forall|k: int| 0 <= k < i ==> (#[trigger] out@[k])@ == JsonView::Str(v@[k]@),
        decreases v@.len() - i,
    {
        out.push(Json::Str(v[i].clone()));
        i = i + 1;
    }
    proof {
        lemma_array_view(out);
        assert(json_views(out@) =~= crate::text::views(v@).map_values(
            |s: Seq<char>| JsonView::Str(s),
        ));
    }
    Json::Array(out)
}

/// An array.
pub fn array_value(v: Vec<Json>) -> (r: Json)
    ensures
        r@ == JsonView::Array(json_views(v@)),
{
    proof {
        lemma_array_view(v);
    }
    Json::Array(v)
}

/// The object with the members of a map, in the order of their keys.
pub open spec fn sorted_object(m: Map<Seq<char>, JsonView>) -> JsonView {
    JsonView::Object(
        crate::table::sorted(m.dom()).map_values(|k: Seq<char>| (k, m[k])),
    )
}

/// The object with the members of a table.
pub fn object_of(t: &Table<Json>) -> (r: Json)
    requires
        t.wf(),
    ensures
        r@ == sorted_object(t.map().map_values(|j: Json| j@)),
{
    let ghost m = t.map().map_values(|j: Json| j@);
    let ghost keys = t.keys();
    proof {
        t.lemma_keys();
        assert(m.dom() =~= t.map().dom());
    }
    let mut out: Vec<(String, Json)> = object();
    let mut i: usize = 0;
    while i < t.len()
        invariant
            t.wf(),
            keys == t.keys(),
            m == t.map().map_values(|j: Json| j@),
            crate::table::lists(keys, t.map().dom()),
            keys.len() == t.values().len(),
            forall|j: int| 0 <= j < keys.len() ==> #[trigger] t.values()[j] == t.map()[keys[j]],
            i <= keys.len(),
            member_views(out@) == keys.take(i as int).map_values(|k: Seq<char>| (k, m[k])),
        decreases keys.len() - i,
    {
        assert(keys.contains(keys[i as int]));
        let value: Json = t.value_at(i).dup();
        out = put(out, t.key_at(i), value);
        assert(keys.take(i + 1).map_values(|k: Seq<char>| (k, m[k])) =~= keys.take(
            i as int,
        ).map_values(|k: Seq<char>| (k, m[k])).push((keys[i as int], m[keys[i as int]])));
        i = i + 1;
    }
    assert(keys.take(keys.len() as int) =~= keys);
    close(out)
}

// ---- text ------------------------------------------------------------------------

/// The value that a JSON text denotes; nothing for a text that is not JSON.
pub uninterp spec fn parsed_json(s: Seq<char>) -> Option<JsonView>;

/// The compact JSON text of a value, with the members of objects in their order.
pub uninterp spec fn json_text(v: JsonView) -> Seq<char>;

/// `serde_json::Value`, which a JSON text is parsed into.
#[verifier::external_type_specification]
#[verifier::external_body]
pub struct ExValue(serde_json::Value);

/// A parsed `serde_json::Value` as a value of this crate, variant by variant.
#[verifier::external_body]
fn from_serde(v: serde_json::Value) -> Json {
    match v {
        serde_json::Value::Null => Json::Null,
        serde_json::Value::Bool(b) => Json::Bool(b),
        serde_json::Value::Number(n) => match (n.as_u64(), n.as_i64()) {
            (Some(u), _) => Json::UInt(u),
            (None, Some(i)) => Json::Int(i),
            (None, None) => Json::Real(n.to_string()),
        },
        serde_json::Value::String(s) => Json::Str(s),
        serde_json::Value::Array(v) => Json::Array(v.into_iter().map(from_serde).collect()),
        serde_json::Value::Object(m) =>
            Json::Object(m.into_iter().map(|p| (p.0, from_serde(p.1))).collect()),
    }
}

/// A value of this crate as a `serde_json::Value`, variant by variant.
#[verifier::external_body]
fn to_serde(j: &Json) -> serde_json::Value {
    match j {
        Json::Null => serde_json::Value::Null,
        Json::Bool(b) => serde_json::Value::from(*b),
        Json::UInt(n) => serde_json::Value::from(*n),
        Json::Int(n) => serde_json::Value::from(*n),
        Json::Real(s) => serde_json::from_str(s).unwrap_or_default(),
        Json::Str(s) => serde_json::Value::from(s.as_str()),
        Json::Array(v) => v.iter().map(to_serde).collect(),
        Json::Object(m) =>
            serde_json::Value::Object(m.iter().map(|p| (p.0.clone(), to_serde(&p.1))).collect()),
    }
}

/// `serde_json::from_str` into a `serde_json::Value`: the value that the text
/// denotes, or nothing when it is not JSON. The result is only named.
#[verifier::external_body]
pub(crate) fn parse_json(s: &str) -> (r: Option<Json>)
    ensures
        opt_json(r) == parsed_json(s@),
{
    serde_json::from_str::<serde_json::Value>(s).ok().map(from_serde)
}

/// The `Display` of a `serde_json::Value`: its compact JSON text. The result is
/// only named.
#[verifier::external_body]
pub(crate) fn render_json(j: &Json) -> (r: String)
    ensures
        r@ == json_text(j@),
{
    to_serde(j).to_string()
}

// ---- laws --------------------------------------------------------------------------

/// A value under a key of an object is that of the first member with the key; an object
/// without such a member, and what is no object, has none.
pub proof fn members_are_found_by_key(
    a: Seq<(Seq<char>, JsonView)>,
    key: Seq<char>,
    v: JsonView,
    b: Seq<(Seq<char>, JsonView)>,
)
    requires
        forall|i: int| 0 <= i < a.len() ==> (#[trigger] a[i]).0 != key,
    ensures
        field(JsonView::Object(a.push((key, v)) + b), key) == Some(v),
        field(JsonView::Object(a), key) is None,
        !(v is Object) ==> field(v, key) is None,
    decreases a.len(),
{
    let m = a.push((key, v)) + b;
    if a.len() > 0 {
        let rest = a.drop_first();
        assert forall|i: int| 0 <= i < rest.len() implies (#[trigger] rest[i]).0 != key by {
            assert(rest[i] == a[i + 1]);
        }
        members_are_found_by_key(rest, key, v, b);
        assert(m.drop_first() =~= rest.push((key, v)) + b);
        assert(m[0] == a[0]);
    } else {
        assert(m[0] == (key, v));
    }
}

/// A text under a key is a value that is a text, and an integer under a key one that is not
/// negative.
pub proof fn fields_have_their_kind(v: JsonView, key: Seq<char>)
    ensures
        text_field(v, key) == (match field(v, key) {
            Some(JsonView::Str(s)) => Some(s),
            _ => None,
        }),
        uint_field(v, key) == (match field(v, key) {
            Some(JsonView::UInt(n)) => Some(n),
            _ => None,
        }),
{
}

/// The model of a value has its kind and its parts.
pub proof fn values_are_viewed_part_by_part(j: Json, i: int)
    ensures
        match j {
            Json::Null => j@ == JsonView::Null,
            Json::Bool(b) => j@ == JsonView::Bool(b),
            Json::UInt(n) => j@ == JsonView::UInt(n),
            Json::Int(n) => j@ == JsonView::Int(n),
            Json::Real(s) => j@ == JsonView::Real(s@),
            Json::Str(s) => j@ == JsonView::Str(s@),
            Json::Array(v) => j@ matches JsonView::Array(w) && w.len() == v@.len() && (0 <= i
                < v@.len() ==> w[i] == v@[i]@),
            Json::Object(m) => j@ matches JsonView::Object(w) && w.len() == m@.len() && (0 <= i
                < m@.len() ==> w[i].0 == m@[i].0@ && w[i].1 == m@[i].1@),
        },
{
}

/// An object of a map has a member for each key, in the order of the keys.
pub proof fn sorted_objects_have_every_member(m: Map<Seq<char>, JsonView>, key: Seq<char>)
    requires
        crate::table::lists(crate::table::sorted(m.dom()), m.dom()),
    ensures
        field(sorted_object(m), key) == (if m.dom().contains(key) {
            Some(m[key])
        } else {
            None
        }),
        sorted_object(m) matches JsonView::Object(w) && forall|i: int, j: int|
            0 <= i < j < w.len() ==> crate::table::before(
                (#[trigger] w[i]).0,
                (#[trigger] w[j]).0,
            ),
{
    let keys = crate::table::sorted(m.dom());
    let w = keys.map_values(|k: Seq<char>| (k, m[k]));
    crate::table::listings_are_in_order(keys, m.dom(), key);
    if m.dom().contains(key) {
        let i = choose|i: int| 0 <= i < keys.len() && #[trigger] keys[i] == key;
        let a = w.take(i);
        assert forall|j: int| 0 <= j < a.len() implies (#[trigger] a[j]).0 != key by {
            assert(a[j].0 == keys[j]);
            assert(keys[j] != keys[i]);
        }
        members_are_found_by_key(a, key, m[key], w.skip(i + 1));
        assert(w =~= a.push((key, m[key])) + w.skip(i + 1));
    } else {
        assert forall|j: int| 0 <= j < w.len() implies (#[trigger] w[j]).0 != key by {
            assert(w[j].0 == keys[j]);
        }
        members_are_found_by_key(w, key, JsonView::Null, Seq::empty());
    }
    assert forall|i: int, j: int| 0 <= i < j < w.len() implies crate::table::before(
        (#[trigger] w[i]).0,
        (#[trigger] w[j]).0,
    ) by {
        assert(w[i].0 == keys[i] && w[j].0 == keys[j]);
    }
}

/// A number is told in decimal, with a minus in front of a negative one; a number with a fraction
/// is told as it was written.
pub proof fn numbers_are_told(v: &Json, key: &str, r: Option<String>)
    requires
        call_ensures(Json::get_number, (v, key), r),
    ensures
        match field(v@, key@) {
            Some(JsonView::UInt(n)) => r matches Some(t) && t@ == crate::text::decimal(n as nat),
            Some(JsonView::Int(n)) => r matches Some(t) && (if n < 0 {
                t@ == seq!['-'] + crate::text::decimal((-n) as nat)
            } else {
                t@ == crate::text::decimal(n as nat)
            }),
            Some(JsonView::Real(s)) => r matches Some(t) && t@ == s,
            _ => r is None,
        },
{
}

} // verus!
