//! JSON values, as the protocol code reads and builds them.

use crate::text::same_text;
use serde_json::Value;
use vstd::prelude::*;
use vstd::string::*;

verus! {

/// A JSON number. A number with a fraction or an exponent is kept as text.
#[derive(Debug, PartialEq)]
pub enum Number {
    Unsigned(u64),
    Negative(i64),
    /// A number that is no 64-bit integer, as it is written. A text that is no
    /// number stands for one that is not finite, and is written as null.
    Decimal(String),
}

/// What a [`Number`] is.
pub enum NumberView {
    Unsigned(u64),
    Negative(i64),
    Decimal(Seq<char>),
}

/// A JSON value. The fields of an object keep the order they were added in.
#[derive(Debug, PartialEq)]
pub enum Json {
    Null,
    Bool(bool),
    Number(Number),
    Text(String),
    List(Vec<Json>),
    Object(Vec<(String, Json)>),
}

/// What a [`Json`] value is.
pub enum JsonView {
    Null,
    Bool(bool),
    Number(NumberView),
    Text(Seq<char>),
    List(Seq<JsonView>),
    Object(Seq<(Seq<char>, JsonView)>),
}

impl View for Number {
    type V = NumberView;

    open spec fn view(&self) -> NumberView {
        match *self {
            Number::Unsigned(n) => NumberView::Unsigned(n),
            Number::Negative(n) => NumberView::Negative(n),
            Number::Decimal(s) => NumberView::Decimal(s@),
        }
    }
}

/// What a JSON value is.
pub open spec fn json_view(j: Json) -> JsonView
    decreases j,
{
    match j {
        Json::Null => JsonView::Null,
        Json::Bool(b) => JsonView::Bool(b),
        Json::Number(n) => JsonView::Number(n@),
        Json::Text(s) => JsonView::Text(s@),
        Json::List(v) => JsonView::List(
            Seq::new(
                v@.len(),
                |i: int|
                    if 0 <= i < v@.len() {
                        json_view(v@[i])
                    } else {
                        JsonView::Null
                    },
            ),
        ),
        Json::Object(v) => JsonView::Object(
            Seq::new(
                v@.len(),
                |i: int|
                    if 0 <= i < v@.len() {
                        (v@[i].0@, json_view(v@[i].1))
                    } else {
                        (Seq::<char>::empty(), JsonView::Null)
                    },
            ),
        ),
    }
}

impl View for Json {
    type V = JsonView;

    open spec fn view(&self) -> JsonView {
        json_view(*self)
    }
}

/// The values of a list.
pub open spec fn items(v: Seq<Json>) -> Seq<JsonView> {
    v.map_values(|j: Json| j@)
}

/// The fields of an object.
pub open spec fn fields(v: Seq<(String, Json)>) -> Seq<(Seq<char>, JsonView)> {
    v.map_values(|f: (String, Json)| (f.0@, f.1@))
}

/// A list is the sequence of its items.
pub broadcast proof fn lemma_list_view(v: Vec<Json>)
    ensures
        #[trigger] json_view(Json::List(v)) == JsonView::List(items(v@)),
{
    assert(json_view(Json::List(v))->List_0 =~= items(v@));
}

/// An object is the sequence of its fields.
pub broadcast proof fn lemma_object_view(v: Vec<(String, Json)>)
    ensures
        #[trigger] json_view(Json::Object(v)) == JsonView::Object(fields(v@)),
{
    assert(json_view(Json::Object(v))->Object_0 =~= fields(v@));
}

/// The position of the first field called `key`, or the number of fields.
pub open spec fn field_at(f: Seq<(Seq<char>, JsonView)>, key: Seq<char>, from: int) -> int
    decreases f.len() - from,
{
    if from >= f.len() {
        f.len() as int
    } else if f[from].0 == key {
        from
    } else {
        field_at(f, key, from + 1)
    }
}

/// The value of a field.
pub open spec fn field(f: Seq<(Seq<char>, JsonView)>, key: Seq<char>) -> Option<JsonView> {
    let i = field_at(f, key, 0);
    if 0 <= i < f.len() {
        Some(f[i].1)
    } else {
        None
    }
}

impl JsonView {
    /// The value of a field, where this is an object that has it.
    pub open spec fn get(self, key: Seq<char>) -> Option<JsonView> {
        match self {
            JsonView::Object(f) => field(f, key),
            _ => None,
        }
    }
}

/// These fields with `key` set to `value`: in its old place, or at the end.
pub open spec fn with_field(
    f: Seq<(Seq<char>, JsonView)>,
    key: Seq<char>,
    value: JsonView,
) -> Seq<(Seq<char>, JsonView)> {
    let i = field_at(f, key, 0);
    if 0 <= i < f.len() {
        f.update(i, (key, value))
    } else {
        f.push((key, value))
    }
}

/// What `field_at` finds.
pub proof fn lemma_field_at(f: Seq<(Seq<char>, JsonView)>, key: Seq<char>, from: int)
    requires
        0 <= from <= f.len(),
    ensures
        from <= field_at(f, key, from) <= f.len(),
        field_at(f, key, from) < f.len() ==> f[field_at(f, key, from)].0 == key,
        forall|k: int| from <= k < field_at(f, key, from) ==> (#[trigger] f[k]).0 != key,
    decreases f.len() - from,
{
    if from < f.len() && f[from].0 != key {
        lemma_field_at(f, key, from + 1);
    }
}

/// A field that was set has the value it was set to, and every other field has
/// the value it had.
pub proof fn lemma_with_field(
    f: Seq<(Seq<char>, JsonView)>,
    key: Seq<char>,
    value: JsonView,
    other: Seq<char>,
)
    ensures
        field(with_field(f, key, value), key) == Some(value),
        other != key ==> field(with_field(f, key, value), other) == field(f, other),
{
    let g = with_field(f, key, value);
    lemma_field_at(f, key, 0);
    lemma_field_at(g, key, 0);
    lemma_field_at(f, other, 0);
    lemma_field_at(g, other, 0);
    let at = field_at(f, key, 0);
    assert(g[at] == (key, value));
    assert(forall|k: int| 0 <= k < f.len() && k != at ==> g[k] == f[k]);
    if field_at(g, key, 0) < at {
        assert(f[field_at(g, key, 0)].0 != key);
    }
    if other != key {
        let a = field_at(f, other, 0);
        let b = field_at(g, other, 0);
        if a < f.len() {
            assert(g[a] == f[a]);
        }
        if b < a {
            assert(b != at);
            assert(b < f.len());
            assert(f[b].0 != other);
        } else if a < b && a < f.len() {
            assert(g[a].0 != other);
        }
    }
}

/// Where the field called `key` is.
pub fn find_field(v: &Vec<(String, Json)>, key: &str) -> (r: usize)
    ensures
        r == field_at(fields(v@), key@, 0),
        r <= v@.len(),
{
    let mut i: usize = 0;
    while i < v.len()
        invariant
            i <= v@.len(),
            field_at(fields(v@), key@, 0) == field_at(fields(v@), key@, i as int),
        decreases v@.len() - i,
    {
        if same_text(v[i].0.as_str(), key) {
            return i;
        }
        i = i + 1;
    }
    i
}

/// Adds a field at the end.
pub fn push_field(v: &mut Vec<(String, Json)>, key: &str, value: Json)
    ensures
        fields(final(v)@) == fields(old(v)@).push((key@, value@)),
{
    v.push((key.to_owned(), value));
    assert(fields(v@) =~= fields(old(v)@).push((key@, value@)));
}

/// Sets a field, in its old place where the object has it.
pub fn set_field(v: &mut Vec<(String, Json)>, key: &str, value: Json)
    ensures
        fields(final(v)@) == with_field(fields(old(v)@), key@, value@),
{
    let i = find_field(v, key);
    if i < v.len() {
        v.set(i, (key.to_owned(), value));
        assert(fields(v@) =~= with_field(fields(old(v)@), key@, value@));
    } else {
        push_field(v, key, value);
    }
}

/// A JSON string.
pub fn text(s: &str) -> (r: Json)
    ensures
        r@ == JsonView::Text(s@),
{
    Json::Text(s.to_owned())
}

/// A JSON object with no fields.
pub fn empty_object() -> (r: Json)
    ensures
        r@ == JsonView::Object(Seq::empty()),
{
    broadcast use lemma_object_view;

    let v: Vec<(String, Json)> = Vec::new();
    assert(fields(v@) =~= Seq::empty());
    Json::Object(v)
}

/// A JSON object with these fields.
pub fn object(v: Vec<(String, Json)>) -> (r: Json)
    ensures
        r@ == JsonView::Object(fields(v@)),
{
    broadcast use lemma_object_view;

    Json::Object(v)
}

/// A JSON array of these values.
pub fn list(v: Vec<Json>) -> (r: Json)
    ensures
        r@ == JsonView::List(items(v@)),
{
    broadcast use lemma_list_view;

    Json::List(v)
}

impl Number {
    /// An equal number.
    pub fn copy(&self) -> (r: Number)
        ensures
            r@ == self@,
    {
        match self {
            Number::Unsigned(n) => Number::Unsigned(*n),
            Number::Negative(n) => Number::Negative(*n),
            Number::Decimal(s) => Number::Decimal(s.clone()),
        }
    }
}

impl Json {
    /// An equal value.
    pub fn copy(&self) -> (r: Json)
        ensures
            r@ == self@,
        decreases self,
    {
        broadcast use {lemma_list_view, lemma_object_view};

        match self {
            Json::Null => Json::Null,
            Json::Bool(b) => Json::Bool(*b),
            Json::Number(n) => Json::Number(n.copy()),
            Json::Text(s) => Json::Text(s.clone()),
            Json::List(v) => {
                let mut out: Vec<Json> = Vec::new();
                let mut i: usize = 0;
                while i < v.len()
                    invariant
                        i <= v@.len(),
                        decreases_to!(*self => *v),
                        items(out@) == items(v@).take(i as int),
                    decreases v@.len() - i,
                {
                    assert(decreases_to!(*v => v@[i as int]));
                    let item = v[i].copy();
                    let ghost done = out@;
                    out.push(item);
                    i = i + 1;
                    assert(items(out@) =~= items(done).push(item@));
                    assert(items(out@) =~= items(v@).take(i as int));
                }
                assert(items(out@) =~= items(v@));
                Json::List(out)
            },
            Json::Object(v) => {
                let mut out: Vec<(String, Json)> = Vec::new();
                let mut i: usize = 0;
                while i < v.len()
                    invariant
                        i <= v@.len(),
                        decreases_to!(*self => *v),
                        fields(out@) == fields(v@).take(i as int),
                    decreases v@.len() - i,
                {
                    assert(decreases_to!(*v => v@[i as int]));
                    assert(decreases_to!(v@[i as int] => v@[i as int].1));
                    let item = (v[i].0.clone(), v[i].1.copy());
                    let ghost done = out@;
                    out.push(item);
                    i = i + 1;
                    assert(fields(out@) =~= fields(done).push((item.0@, item.1@)));
                    assert(fields(out@) =~= fields(v@).take(i as int));
                }
                assert(fields(out@) =~= fields(v@));
                Json::Object(out)
            },
        }
    }

    /// The value of a field, where this is an object that has it.
    pub fn get(&self, key: &str) -> (r: Option<&Json>)
        ensures
            match r {
                Some(j) => self@.get(key@) == Some(j@),
                None => self@.get(key@) is None,
            },
    {
        broadcast use lemma_object_view;

        match self {
            Json::Object(v) => {
                let i = find_field(v, key);
                if i < v.len() {
                    assert(fields(v@)[i as int] == (v@[i as int].0@, v@[i as int].1@));
                    Some(&v[i].1)
                } else {
                    None
                }
            },
            _ => None,
        }
    }
}

/// A whole number as JSON.
pub open spec fn count(n: u64) -> JsonView {
    JsonView::Number(NumberView::Unsigned(n))
}

/// A field that is left out where there is nothing to say.
pub open spec fn maybe(key: Seq<char>, value: Option<JsonView>) -> Seq<(Seq<char>, JsonView)> {
    match value {
        Some(v) => seq![(key, v)],
        None => Seq::empty(),
    }
}

/// The view of an optional value.
pub open spec fn optional(j: Option<Json>) -> Option<JsonView> {
    match j {
        Some(v) => Some(v@),
        None => None,
    }
}

/// The view of an optional text, as JSON.
pub open spec fn optional_text(s: Option<String>) -> Option<JsonView> {
    match s {
        Some(s) => Some(JsonView::Text(s@)),
        None => None,
    }
}

/// Adds a field at the end, where there is something to say.
pub fn push_maybe(v: &mut Vec<(String, Json)>, key: &str, value: Option<Json>)
    ensures
        fields(final(v)@) == fields(old(v)@) + maybe(key@, optional(value)),
{
    match value {
        Some(value) => {
            push_field(v, key, value);
            assert(fields(v@) =~= fields(old(v)@) + maybe(key@, Some(value@)));
        },
        None => {
            assert(fields(v@) =~= fields(old(v)@) + maybe(key@, None));
        },
    }
}

/// An equal optional value.
pub fn copy_of(j: &Option<Json>) -> (r: Option<Json>)
    ensures
        optional(r) == optional(*j),
{
    match j {
        Some(v) => Some(v.copy()),
        None => None,
    }
}

/// An optional text, as JSON.
pub fn text_if(s: &Option<String>) -> (r: Option<Json>)
    ensures
        optional(r) == optional_text(*s),
{
    match s {
        Some(s) => Some(text(s.as_str())),
        None => None,
    }
}

/// Equal values, one for one.
pub fn copy_all(v: &Vec<Json>) -> (r: Vec<Json>)
    ensures
        items(r@) == items(v@),
        r@.len() == v@.len(),
{
    let mut out: Vec<Json> = Vec::new();
    let mut i: usize = 0;
    while i < v.len()
        invariant
            i <= v@.len(),
            out@.len() == i,
            items(out@) == items(v@).take(i as int),
        decreases v@.len() - i,
    {
        let item = v[i].copy();
        let ghost done = out@;
        out.push(item);
        i = i + 1;
        assert(items(out@) =~= items(done).push(item@));
        assert(items(out@) =~= items(v@).take(i as int));
    }
    assert(items(out@) =~= items(v@));
    out
}

/// The value type of `serde_json`.
#[verifier::external_type_specification]
#[verifier::external_body]
pub struct ExValue(serde_json::Value);

/// What `serde_json` reads in a text: a value, or the words of its complaint.
pub uninterp spec fn json_read(text: Seq<char>) -> Result<JsonView, Seq<char>>;

/// What `serde_json` writes for a value.
pub uninterp spec fn json_written(value: JsonView) -> Seq<char>;

/// A value that says the same when it is written and read again: no key comes
/// twice in an object, no number has a fraction, and nothing is nested deeper
/// than `depth`.
pub open spec fn plain(v: JsonView, depth: nat) -> bool
    decreases depth,
{
    match v {
        JsonView::Number(NumberView::Negative(n)) => n < 0,
        JsonView::Number(NumberView::Decimal(_)) => false,
        JsonView::List(s) => depth > 0 && forall|i: int|
            0 <= i < s.len() ==> plain(#[trigger] s[i], (depth - 1) as nat),
        JsonView::Object(f) => depth > 0 && (forall|i: int|
            0 <= i < f.len() ==> plain((#[trigger] f[i]).1, (depth - 1) as nat)) && forall|
            i: int,
            j: int,
        |
            0 <= i < j < f.len() ==> (#[trigger] f[i]).0 != (#[trigger] f[j]).0,
        _ => true,
    }
}

/// Whether a text is read as a value.
pub open spec fn says(text: Seq<char>, v: JsonView) -> bool {
    json_read(text) == Ok::<JsonView, Seq<char>>(v)
}

/// Turns a `serde_json::Value` into the same value as a [`Json`], variant by
/// variant. Nothing is claimed of it: [`parse`] states what its callers need.
#[verifier::external_body]
fn from_value(value: Value) -> (r: Json) {
    match value {
        Value::Null => Json::Null,
        Value::Bool(b) => Json::Bool(b),
        Value::Number(n) => match (n.as_u64(), n.as_i64()) {
            (Some(u), _) => Json::Number(Number::Unsigned(u)),
            (None, Some(i)) => Json::Number(Number::Negative(i)),
            (None, None) => Json::Number(Number::Decimal(n.to_string())),
        },
        Value::String(s) => Json::Text(s),
        Value::Array(v) => Json::List(v.into_iter().map(from_value).collect()),
        Value::Object(m) => Json::Object(m.into_iter().map(|(k, v)| (k, from_value(v))).collect()),
    }
}

/// Turns a [`Json`] into the same value as a `serde_json::Value`, variant by
/// variant. A decimal whose text `serde_json` reads as no number is null, which
/// is what `serde_json` makes of a number that is not finite. Nothing is claimed
/// of it: [`write`] states what its callers need.
#[verifier::external_body]
fn to_value(value: &Json) -> (r: Value) {
    match value {
        Json::Null => Value::Null,
        Json::Bool(b) => Value::Bool(*b),
        Json::Number(Number::Unsigned(n)) => Value::from(*n),
        Json::Number(Number::Negative(n)) => Value::from(*n),
        Json::Number(Number::Decimal(s)) => {
            serde_json::from_str(s).map_or(Value::Null, Value::Number)
        },
        Json::Text(s) => Value::String(s.clone()),
        Json::List(v) => Value::Array(v.iter().map(to_value).collect()),
        Json::Object(v) => {
            Value::Object(v.iter().map(|(k, v)| (k.clone(), to_value(v))).collect())
        },
    }
}

/// Reads a JSON text with `serde_json::from_str`. What it reads, or the words
/// of its error, depends on the text alone.
#[verifier::external_body]
pub(crate) fn parse(text: &str) -> (r: Result<Json, String>)
    ensures
        match r {
            Ok(value) => json_read(text@) == Ok::<JsonView, Seq<char>>(value@),
            Err(why) => json_read(text@) == Err::<JsonView, Seq<char>>(why@),
        },
{
    match serde_json::from_str::<Value>(text) {
        Ok(value) => Ok(from_value(value)),
        Err(why) => Err(why.to_string()),
    }
}

/// Writes a value with `serde_json`, in its compact form and with the fields
/// of an object in their order. What is written depends on the value alone. It
/// never holds a line break: the compact form puts none between tokens, and
/// inside strings control characters are escaped. An object begins with a
/// brace. A plain value that is not nested deeper than `serde_json::from_str`
/// follows is read back from what is written, with or without a line break
/// after it.
#[verifier::external_body]
pub(crate) fn write(value: &Json) -> (r: String)
    ensures
        r@ == json_written(value@),
        !r@.contains('\n'),
        value@ is Object ==> r@.len() > 0 && r@[0] == '{',
        plain(value@, 127) ==> says(r@, value@) && says(r@.push('\n'), value@),
{
    to_value(value).to_string()
}

} // verus!
