//! Structured output, and what it was declared to be.

use crate::calls::ExecutedView;
use crate::json::{JsonView, NumberView};
use crate::protocol::CallToolResultView;
use vstd::prelude::*;
use vstd::string::*;

verus! {

/// Whether a value is of a kind, by the name of the kind. A kind without a name
/// here is any.
pub open spec fn of_kind(kind: Seq<char>, v: JsonView) -> bool {
    &&& kind == "object"@ ==> v is Object
    &&& kind == "array"@ ==> v is List
    &&& kind == "string"@ ==> v is Text
    &&& kind == "boolean"@ ==> v is Bool
    &&& kind == "null"@ ==> v is Null
    &&& kind == "number"@ ==> v is Number
    &&& kind == "integer"@ ==> v is Number
    &&& kind == "integer"@ ==> (v matches JsonView::Number(NumberView::Decimal(s)) ==> s.len() >= 2
        && s[s.len() - 2] == '.' && s[s.len() - 1] == '0')
}

/// Whether a value is of the type that a schema gives: none, one kind, or one of
/// several.
pub open spec fn of_type(t: Option<JsonView>, v: JsonView) -> bool {
    match t {
        Some(JsonView::Text(kind)) => of_kind(kind, v),
        Some(JsonView::List(kinds)) => exists|k: int|
            0 <= k < kinds.len() && ((#[trigger] kinds[k]) matches JsonView::Text(kind) && of_kind(
                kind,
                v,
            )),
        _ => true,
    }
}

/// Whether an object has every property that a schema requires.
pub open spec fn has_required(schema: JsonView, v: JsonView) -> bool {
    schema.get("required"@) matches Some(JsonView::List(names)) ==> (v is Object ==> forall|k: int|
        0 <= k < names.len() ==> ((#[trigger] names[k]) matches JsonView::Text(name) ==> v.get(name)
            is Some))
}

/// Nothing is wrong with a value exactly where it is of its type, has what is
/// required, and nothing is wrong with the properties or items in it that the
/// schema speaks of, down to the depth that is looked at.
pub proof fn law_a_value_passes_for_cause(
    schema: JsonView,
    v: JsonView,
    at: Seq<char>,
    depth: nat,
)
    ensures
        !of_type(schema.get("type"@), v) || !has_required(schema, v) ==> crate::schema::problem(
            schema,
            v,
            at,
            depth,
        ) is Some,
        depth == 0 && of_type(schema.get("type"@), v) && has_required(schema, v)
            ==> crate::schema::problem(schema, v, at, depth) is None,
        depth > 0 && of_type(schema.get("type"@), v) && has_required(schema, v) && v is Object ==> (
        crate::schema::problem(schema, v, at, depth) is None <==> (
        schema.get("properties"@) matches Some(JsonView::Object(props)) ==> forall|k: int|
            0 <= k < props.len() && v.get((#[trigger] props[k]).0) is Some
                ==> crate::schema::problem(
                props[k].1,
                v.get(props[k].0)->0,
                at + "."@ + props[k].0,
                (depth - 1) as nat,
            ) is None)),
        depth > 0 && of_type(schema.get("type"@), v) && has_required(schema, v) && v is List ==> (
        crate::schema::problem(schema, v, at, depth) is None <==> (
        schema.get("items"@) matches Some(items) ==> forall|k: int|
            0 <= k < v->List_0.len() ==> crate::schema::problem(
                items,
                #[trigger] v->List_0[k],
                at + "["@ + crate::text::decimal(k) + "]"@,
                (depth - 1) as nat,
            ) is None)),
        depth > 0 && of_type(schema.get("type"@), v) && has_required(schema, v) && !(v is List) && !(
        v is Object) ==> crate::schema::problem(schema, v, at, depth) is None,
{
    lemma_type(schema.get("type"@), v);
    if let (Some(JsonView::List(names)), JsonView::Object(_)) = (schema.get("required"@), v) {
        lemma_required(names, v, 0);
        let lacking = crate::schema::missing_key(names, v, 0);
        if lacking is None {
            assert(has_required(schema, v));
        } else {
            let k = choose|k: int|
                0 <= k < names.len() && (#[trigger] names[k]) == JsonView::Text(lacking->0);
            assert(!has_required(schema, v));
        }
    }
    if depth > 0 && of_type(schema.get("type"@), v) && has_required(schema, v) {
        if v is Object {
            if let Some(JsonView::Object(props)) = schema.get("properties"@) {
                lemma_properties(props, v, at, depth, 0);
            }
        }
        if let JsonView::List(values) = v {
            if let Some(items) = schema.get("items"@) {
                lemma_items(items, values, at, depth, 0);
            }
        }
    }
}

proof fn lemma_kind(kind: Seq<char>, v: JsonView)
    ensures
        crate::schema::kind_fits(kind, v) == of_kind(kind, v),
{
    crate::laws::words::lemma_kinds_differ();
    reveal_strlit(".0");
    assert(".0"@.len() == 2 && ".0"@[0] == '.' && ".0"@[1] == '0');
    if let JsonView::Number(NumberView::Decimal(s)) = v {
        if s.len() >= 2 {
            let end = s.skip(s.len() - 2);
            assert(end[0] == s[s.len() - 2] && end[1] == s[s.len() - 1]);
            if s[s.len() - 2] == '.' && s[s.len() - 1] == '0' {
                assert(end =~= ".0"@);
            }
        }
    }
}

proof fn lemma_some_kind(kinds: Seq<JsonView>, v: JsonView, from: int)
    requires
        0 <= from <= kinds.len(),
    ensures
        crate::schema::some_kind_fits(kinds, v, from) <==> exists|k: int|
            from <= k < kinds.len() && ((#[trigger] kinds[k]) matches JsonView::Text(kind)
                && of_kind(kind, v)),
    decreases kinds.len() - from,
{
    if from < kinds.len() {
        lemma_some_kind(kinds, v, from + 1);
        if let JsonView::Text(kind) = kinds[from] {
            lemma_kind(kind, v);
        }
    }
}

proof fn lemma_type(t: Option<JsonView>, v: JsonView)
    ensures
        crate::schema::type_fits(t, v) == of_type(t, v),
{
    match t {
        Some(JsonView::Text(kind)) => {
            lemma_kind(kind, v);
        },
        Some(JsonView::List(kinds)) => {
            lemma_some_kind(kinds, v, 0);
        },
        _ => {},
    }
}

proof fn lemma_required(names: Seq<JsonView>, v: JsonView, from: int)
    requires
        0 <= from <= names.len(),
    ensures
        match crate::schema::missing_key(names, v, from) {
            None => forall|k: int|
                from <= k < names.len() ==> ((#[trigger] names[k]) matches JsonView::Text(name)
                    ==> v.get(name) is Some),
            Some(name) => v.get(name) is None && exists|k: int|
                from <= k < names.len() && (#[trigger] names[k]) == JsonView::Text(name),
        },
    decreases names.len() - from,
{
    if from < names.len() {
        lemma_required(names, v, from + 1);
    }
}

proof fn lemma_properties(
    props: Seq<(Seq<char>, JsonView)>,
    v: JsonView,
    at: Seq<char>,
    depth: nat,
    from: int,
)
    requires
        depth > 0,
        0 <= from <= props.len(),
    ensures
        crate::schema::property_problem(props, v, at, depth, from) is None <==> forall|k: int|
            from <= k < props.len() && v.get((#[trigger] props[k]).0) is Some
                ==> crate::schema::problem(
                props[k].1,
                v.get(props[k].0)->0,
                at + "."@ + props[k].0,
                (depth - 1) as nat,
            ) is None,
    decreases props.len() - from,
{
    if from < props.len() {
        lemma_properties(props, v, at, depth, from + 1);
    }
}

proof fn lemma_items(
    items: JsonView,
    values: Seq<JsonView>,
    at: Seq<char>,
    depth: nat,
    from: int,
)
    requires
        depth > 0,
        0 <= from <= values.len(),
    ensures
        crate::schema::item_problem(items, values, at, depth, from) is None <==> forall|k: int|
            from <= k < values.len() ==> crate::schema::problem(
                items,
                #[trigger] values[k],
                at + "["@ + crate::text::decimal(k) + "]"@,
                (depth - 1) as nat,
            ) is None,
    decreases values.len() - from,
{
    if from < values.len() {
        lemma_items(items, values, at, depth, from + 1);
    }
}

/// A tool that declares what its output is and does not fail is answered exactly
/// where its structured output is there and is of the declared type with what is
/// required in it; otherwise the call is an error, and so is the task that ran
/// it. Nothing is changed in an output that passes.
pub proof fn law_declared_output_is_checked(
    name: Seq<char>,
    schema: JsonView,
    result: CallToolResultView,
)
    requires
        !result.is_error,
    ensures
        ({
            let answer = crate::calls::call_answer(
                name,
                Some(schema),
                ExecutedView::Returned(Ok(result)),
            );
            &&& answer matches Ok(j) ==> j == result.json() && (
            result.structured_content matches Some(c) && of_type(schema.get("type"@), c)
                && has_required(schema, c))
            &&& answer matches Err(e) ==> e is Internal
            &&& result.structured_content is None ==> answer is Err
            &&& result.structured_content matches Some(c) ==> (answer is Ok
                <==> crate::schema::problem(
                schema,
                c,
                "structuredContent"@,
                64,
            ) is None)
        }),
{
    if let Some(c) = result.structured_content {
        law_a_value_passes_for_cause(schema, c, "structuredContent"@, 64);
    }
}

} // verus!
