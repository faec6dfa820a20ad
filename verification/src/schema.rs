//! Whether a tool keeps the promise that its output schema makes.
//!
//! Of JSON Schema, `type`, `required`, `properties` and `items` are looked at,
//! down to a depth; everything else is taken on trust.

use crate::json::{Json, JsonView, Number, NumberView};
use crate::text::{chars_of, decimal_text, ends_with, join, join3, same_text};
use vstd::prelude::*;
use vstd::string::*;

verus! {

/// How deep a schema is followed.
pub const SCHEMA_DEPTH: u32 = 64;

/// Whether a number with a fraction is whole all the same.
pub open spec fn whole(s: Seq<char>) -> bool {
    s.len() >= 2 && s.skip(s.len() - 2) == ".0"@
}

/// Whether a value is of the kind that a schema names. A kind that nobody
/// knows is taken on trust.
pub open spec fn kind_fits(kind: Seq<char>, v: JsonView) -> bool {
    if kind == "object"@ {
        v is Object
    } else if kind == "array"@ {
        v is List
    } else if kind == "string"@ {
        v is Text
    } else if kind == "boolean"@ {
        v is Bool
    } else if kind == "null"@ {
        v is Null
    } else if kind == "number"@ {
        v is Number
    } else if kind == "integer"@ {
        match v {
            JsonView::Number(NumberView::Decimal(s)) => whole(s),
            other => other is Number,
        }
    } else {
        true
    }
}

/// Whether a value is of one of the kinds in a list.
pub open spec fn some_kind_fits(kinds: Seq<JsonView>, v: JsonView, from: int) -> bool
    decreases kinds.len() - from,
{
    if from >= kinds.len() {
        false
    } else {
        ||| kinds[from] matches JsonView::Text(kind) && kind_fits(kind, v)
        ||| some_kind_fits(kinds, v, from + 1)
    }
}

/// Whether a value is of the type that a schema gives: a kind, or one of
/// several.
pub open spec fn type_fits(t: Option<JsonView>, v: JsonView) -> bool {
    match t {
        Some(JsonView::Text(kind)) => kind_fits(kind, v),
        Some(JsonView::List(kinds)) => some_kind_fits(kinds, v, 0),
        _ => true,
    }
}

/// The first name in a list that an object lacks.
pub open spec fn missing_key(names: Seq<JsonView>, content: JsonView, from: int) -> Option<Seq<char>>
    decreases names.len() - from,
{
    if from >= names.len() {
        None
    } else {
        match names[from] {
            JsonView::Text(name) => if content.get(name) is None {
                Some(name)
            } else {
                missing_key(names, content, from + 1)
            },
            _ => missing_key(names, content, from + 1),
        }
    }
}

/// The name that a schema requires and a value lacks, if any. Only objects
/// lack names.
pub open spec fn lacking(schema: JsonView, v: JsonView) -> Option<Seq<char>> {
    match (schema.get("required"@), v) {
        (Some(JsonView::List(names)), JsonView::Object(_)) => missing_key(names, v, 0),
        _ => None,
    }
}

/// What is wrong with a value, if anything, given its schema and where it is.
pub open spec fn problem(schema: JsonView, v: JsonView, at: Seq<char>, depth: nat) -> Option<
    Seq<char>,
>
    decreases depth, 1int, 0int,
{
    if !type_fits(schema.get("type"@), v) {
        Some(at + " that is not of the declared type"@)
    } else if lacking(schema, v) is Some {
        Some(at + " without the required property `"@ + lacking(schema, v)->0 + "`"@)
    } else if depth == 0 {
        None
    } else {
        match (schema.get("properties"@), schema.get("items"@), v) {
            (Some(JsonView::Object(props)), _, JsonView::Object(_)) => property_problem(
                props,
                v,
                at,
                depth,
                0,
            ),
            (_, Some(items), JsonView::List(values)) => item_problem(items, values, at, depth, 0),
            _ => None,
        }
    }
}

/// What is wrong with the properties of an object that a schema speaks of,
/// from the `from`th on.
pub open spec fn property_problem(
    props: Seq<(Seq<char>, JsonView)>,
    v: JsonView,
    at: Seq<char>,
    depth: nat,
    from: int,
) -> Option<Seq<char>>
    decreases depth, 0int, props.len() - from,
{
    if from >= props.len() || depth == 0 {
        None
    } else {
        let here = match v.get(props[from].0) {
            Some(inner) => problem(
                props[from].1,
                inner,
                at + "."@ + props[from].0,
                (depth - 1) as nat,
            ),
            None => None,
        };
        match here {
            Some(why) => Some(why),
            None => property_problem(props, v, at, depth, from + 1),
        }
    }
}

/// What is wrong with the items of a list, from the `from`th on.
pub open spec fn item_problem(
    items: JsonView,
    values: Seq<JsonView>,
    at: Seq<char>,
    depth: nat,
    from: int,
) -> Option<Seq<char>>
    decreases depth, 0int, values.len() - from,
{
    if from >= values.len() || depth == 0 {
        None
    } else {
        match problem(
            items,
            values[from],
            at + "["@ + crate::text::decimal(from) + "]"@,
            (depth - 1) as nat,
        ) {
            Some(why) => Some(why),
            None => item_problem(items, values, at, depth, from + 1),
        }
    }
}

/// What is wrong with structured output, if anything, given the schema that it
/// was declared to have.
pub open spec fn output_problem(schema: JsonView, content: Option<JsonView>) -> Option<Seq<char>> {
    match content {
        None => Some("no structuredContent"@),
        Some(c) => problem(schema, c, "structuredContent"@, SCHEMA_DEPTH as nat),
    }
}

fn is_whole(s: &str) -> (r: bool)
    ensures
        r == whole(s@),
{
    proof {
        reveal_strlit(".0");
        assert(".0"@.len() == 2);
    }
    ends_with(&chars_of(s), &chars_of(".0"))
}

fn kind_matches(kind: &str, v: &Json) -> (r: bool)
    ensures
        r == kind_fits(kind@, v@),
{
    if same_text(kind, "object") {
        matches!(v, Json::Object(_))
    } else if same_text(kind, "array") {
        matches!(v, Json::List(_))
    } else if same_text(kind, "string") {
        matches!(v, Json::Text(_))
    } else if same_text(kind, "boolean") {
        matches!(v, Json::Bool(_))
    } else if same_text(kind, "null") {
        matches!(v, Json::Null)
    } else if same_text(kind, "number") {
        matches!(v, Json::Number(_))
    } else if same_text(kind, "integer") {
        match v {
            Json::Number(Number::Decimal(s)) => is_whole(s.as_str()),
            Json::Number(_) => true,
            _ => false,
        }
    } else {
        true
    }
}

fn type_matches(t: Option<&Json>, v: &Json) -> (r: bool)
    ensures
        r == type_fits(
            match t {
                Some(t) => Some(t@),
                None => None,
            },
            v@,
        ),
{
    broadcast use crate::json::lemma_list_view;

    match t {
        Some(Json::Text(kind)) => kind_matches(kind.as_str(), v),
        Some(Json::List(kinds)) => {
            let ghost all = crate::json::items(kinds@);
            let mut i: usize = 0;
            while i < kinds.len()
                invariant
                    i <= kinds@.len(),
                    all == crate::json::items(kinds@),
                    t matches Some(x) && x@ == JsonView::List(all),
                    some_kind_fits(all, v@, 0) == some_kind_fits(all, v@, i as int),
                decreases kinds@.len() - i,
            {
                assert(all[i as int] == kinds@[i as int]@);
                if let Json::Text(kind) = &kinds[i] {
                    if kind_matches(kind.as_str(), v) {
                        return true;
                    }
                }
                i = i + 1;
            }
            false
        },
        _ => true,
    }
}

fn first_missing(names: &Vec<Json>, content: &Json) -> (r: Option<String>)
    ensures
        match r {
            Some(name) => missing_key(crate::json::items(names@), content@, 0) == Some(name@),
            None => missing_key(crate::json::items(names@), content@, 0) is None,
        },
{
    let ghost all = crate::json::items(names@);
    let mut i: usize = 0;
    while i < names.len()
        invariant
            i <= names@.len(),
            all == crate::json::items(names@),
            missing_key(all, content@, 0) == missing_key(all, content@, i as int),
        decreases names@.len() - i,
    {
        assert(all[i as int] == names@[i as int]@);
        if let Json::Text(name) = &names[i] {
            if content.get(name.as_str()).is_none() {
                return Some(name.clone());
            }
        }
        i = i + 1;
    }
    None
}

/// The view of a complaint.
pub open spec fn complaint_view(c: Option<String>) -> Option<Seq<char>> {
    match c {
        Some(c) => Some(c@),
        None => None,
    }
}

fn find_problem(schema: &Json, v: &Json, at: &str, depth: u32) -> (r: Option<String>)
    ensures
        complaint_view(r) == problem(schema@, v@, at@, depth as nat),
    decreases depth,
{
    broadcast use {crate::json::lemma_list_view, crate::json::lemma_object_view};

    if !type_matches(schema.get("type"), v) {
        return Some(join(at, " that is not of the declared type"));
    }
    if let (Some(Json::List(names)), Json::Object(_)) = (schema.get("required"), v) {
        if let Some(name) = first_missing(names, v) {
            let mut why = join3(at, " without the required property `", name.as_str());
            why.append("`");
            return Some(why);
        }
    }
    assert(lacking(schema@, v@) is None);
    if depth == 0 {
        return None;
    }
    if let (Some(Json::Object(props)), Json::Object(_)) = (schema.get("properties"), v) {
        let ghost all = crate::json::fields(props@);
        let ghost d = depth as nat;
        let mut i: usize = 0;
        while i < props.len()
            invariant
                i <= props@.len(),
                depth > 0,
                d == depth as nat,
                all == crate::json::fields(props@),
                problem(schema@, v@, at@, d) == property_problem(all, v@, at@, d, 0),
                property_problem(all, v@, at@, d, 0) == property_problem(
                    all,
                    v@,
                    at@,
                    d,
                    i as int,
                ),
            decreases props@.len() - i,
        {
            assert(all[i as int] == (props@[i as int].0@, props@[i as int].1@));
            if let Some(inner) = v.get(props[i].0.as_str()) {
                let place = join3(at, ".", props[i].0.as_str());
                let found = find_problem(&props[i].1, inner, place.as_str(), depth - 1);
                if found.is_some() {
                    return found;
                }
            }
            i = i + 1;
        }
        return None;
    }
    if let (Some(items), Json::List(values)) = (schema.get("items"), v) {
        let ghost all = crate::json::items(values@);
        let ghost d = depth as nat;
        let mut i: usize = 0;
        while i < values.len()
            invariant
                i <= values@.len(),
                depth > 0,
                d == depth as nat,
                all == crate::json::items(values@),
                problem(schema@, v@, at@, d) == item_problem(items@, all, at@, d, 0),
                item_problem(items@, all, at@, d, 0) == item_problem(
                    items@,
                    all,
                    at@,
                    d,
                    i as int,
                ),
            decreases values@.len() - i,
        {
            assert(all[i as int] == values@[i as int]@);
            let mut place = join3(at, "[", decimal_text(i as u64).as_str());
            place.append("]");
            let found = find_problem(items, &values[i], place.as_str(), depth - 1);
            if found.is_some() {
                return found;
            }
            i = i + 1;
        }
        return None;
    }
    None
}

/// What is wrong with structured output, if anything.
pub fn validate_structured_output(schema: &Json, content: &Option<Json>) -> (r: Option<String>)
    ensures
        complaint_view(r) == output_problem(schema@, crate::json::optional(*content)),
{
    match content {
        None => Some("no structuredContent".to_owned()),
        Some(c) => find_problem(schema, c, "structuredContent", SCHEMA_DEPTH),
    }
}

/// A value that passes is what it was declared to be, and so is everything in
/// it that the schema speaks of, down to the depth.
pub proof fn law_what_passes_keeps_the_promise(
    schema: JsonView,
    v: JsonView,
    at: Seq<char>,
    depth: nat,
    key: Seq<char>,
)
    requires
        problem(schema, v, at, depth) is None,
    ensures
        type_fits(schema.get("type"@), v),
        lacking(schema, v) is None,
        depth > 0 && v is Object && v.get(key) is Some && (schema.get("properties"@) matches Some(
            JsonView::Object(props),
        ) && crate::json::field(props, key) is Some) ==> problem(
            schema.get("properties"@)->0.get(key)->0,
            v.get(key)->0,
            at + "."@ + key,
            (depth - 1) as nat,
        ) is None,
{
    if depth > 0 && v is Object && v.get(key) is Some {
        if let Some(JsonView::Object(props)) = schema.get("properties"@) {
            if crate::json::field(props, key) is Some {
                crate::json::lemma_field_at(props, key, 0);
                let i = crate::json::field_at(props, key, 0);
                lemma_no_property_is_wrong(props, v, at, depth, 0, i);
            }
        }
    }
}

/// Where nothing is wrong with any property, nothing is wrong with this one.
proof fn lemma_no_property_is_wrong(
    props: Seq<(Seq<char>, JsonView)>,
    v: JsonView,
    at: Seq<char>,
    depth: nat,
    from: int,
    i: int,
)
    requires
        depth > 0,
        0 <= from <= i < props.len(),
        property_problem(props, v, at, depth, from) is None,
        v.get(props[i].0) is Some,
    ensures
        problem(
            props[i].1,
            v.get(props[i].0)->0,
            at + "."@ + props[i].0,
            (depth - 1) as nat,
        ) is None,
    decreases i - from,
{
    if from < i {
        lemma_no_property_is_wrong(props, v, at, depth, from + 1, i);
    }
}

} // verus!
