//! Checks a model's tool call against the tools on offer and their argument
//! schemas (a subset of JSON Schema: `type`, `required`, `properties`, `items`).
use vstd::prelude::*;
use crate::json::{Json, JsonValue, NumberKind, json_get, member_str, number_kind, number_kind_of};
use crate::providers::{ToolCall, ToolDefinition};
use crate::text::{decimal, owned, append_str, push_decimal, str_is};

verus! {

/// Why a tool call was refused.
#[derive(Debug)]
pub enum ValidationError {
    /// No tool on offer has the call's name.
    ToolNotFound(String),
    /// The arguments do not fit the tool's schema.
    InvalidArguments { tool: String, message: String },
}

/// A number without a fractional representation.
pub open spec fn is_integer(j: Json) -> bool {
    j matches Json::Number(n) && !(number_kind(n) is Float)
}

/// A member that a lookup in `j` finds is part of `j`.
pub proof fn lemma_member_smaller(j: Json, key: Seq<char>)
    ensures
        json_get(j, key) matches Some(m) ==> decreases_to!(j => m),
        json_get(j, key) matches Some(Json::Object(p)) ==> decreases_to!(j => p),
{
    if let Json::Object(entries) = j {
        if exists|i: int| crate::json::member_index(entries, key, i) {
            let i = choose|i: int| crate::json::member_index(entries, key, i);
            assert(decreases_to!(j => entries));
            assert(decreases_to!(entries => entries[i]));
            assert(decreases_to!(entries[i] => entries[i].1));
            if let Json::Object(p) = entries[i].1 {
                assert(decreases_to!(entries[i].1 => p));
            }
        }
    }
}

/// Why `value` does not fit `schema`, if it does not. A schema without a
/// `type` string, or with a type other than those below, admits anything.
pub open spec fn schema_error(value: Json, schema: Json) -> Option<Seq<char>>
    decreases schema, 1int,
{
    match member_str(schema, "type"@) {
        Some(t) => if t == "object"@ {
            object_error(value, schema)
        } else if t == "array"@ {
            array_error(value, schema)
        } else if t == "string"@ && !(value is Str) {
            Some("expected string"@)
        } else if t == "number"@ && !(value is Number) {
            Some("expected number"@)
        } else if t == "integer"@ && !is_integer(value) {
            Some("expected integer"@)
        } else if t == "boolean"@ && !(value is Bool) {
            Some("expected boolean"@)
        } else if t == "null"@ && !(value is Null) {
            Some("expected null"@)
        } else {
            None
        },
        None => None,
    }
}

/// Why `value` does not fit an object schema: it is no object, it lacks a
/// required member, or one of its members does not fit that member's schema.
pub open spec fn object_error(value: Json, schema: Json) -> Option<Seq<char>>
    decreases schema, 0int,
{
    if value is Object {
        let missing = match json_get(schema, "required"@) {
            Some(Json::Array(required)) => missing_required(value, required, 0),
            _ => None,
        };
        if missing is Some {
            missing
        } else {
            match json_get(schema, "properties"@) {
                Some(Json::Object(props)) => {
                    proof {
                        lemma_member_smaller(schema, "properties"@);
                    }
                    property_error(value, props, 0)
                },
                _ => None,
            }
        }
    } else {
        Some("expected object"@)
    }
}

/// The first required name among `required[i..]` that `value` has no member for.
pub open spec fn missing_required(value: Json, required: Seq<Json>, i: int) -> Option<Seq<char>>
    decreases required.len() - i,
{
    if i < 0 || i >= required.len() {
        None
    } else {
        match required[i] {
            Json::Str(key) => if json_get(value, key) is None {
                Some("missing required field '"@ + key + "'"@)
            } else {
                missing_required(value, required, i + 1)
            },
            _ => missing_required(value, required, i + 1),
        }
    }
}

/// The first member among `props[i..]` whose value in `value` does not fit its schema.
pub open spec fn property_error(value: Json, props: Seq<(Seq<char>, Json)>, i: int) -> Option<
    Seq<char>,
>
    decreases props, props.len() - i,
{
    if i < 0 || i >= props.len() {
        None
    } else {
        match json_get(value, props[i].0) {
            Some(member) => {
                proof {
                    assert(decreases_to!(props => props[i]));
                    assert(decreases_to!(props[i] => props[i].1));
                }
                match schema_error(member, props[i].1) {
                    Some(e) => Some("field '"@ + props[i].0 + "' "@ + e),
                    None => property_error(value, props, i + 1),
                }
            },
            None => property_error(value, props, i + 1),
        }
    }
}

/// Why `value` does not fit an array schema: it is no array, or one of its
/// items does not fit the `items` schema.
pub open spec fn array_error(value: Json, schema: Json) -> Option<Seq<char>>
    decreases schema, 0int,
{
    match value {
        Json::Array(items) => match json_get(schema, "items"@) {
            Some(item_schema) => {
                proof {
                    lemma_member_smaller(schema, "items"@);
                }
                item_error(items, item_schema, 0)
            },
            None => None,
        },
        _ => Some("expected array"@),
    }
}

/// The first item among `items[i..]` that does not fit `item_schema`.
pub open spec fn item_error(items: Seq<Json>, item_schema: Json, i: int) -> Option<Seq<char>>
    decreases item_schema, items.len() - i + 2,
{
    if i < 0 || i >= items.len() {
        None
    } else {
        match schema_error(items[i], item_schema) {
            Some(e) => Some("item "@ + decimal(i as nat) + " "@ + e),
            None => item_error(items, item_schema, i + 1),
        }
    }
}

/// A schema of a scalar type admits exactly the values of that kind and
/// refuses any other with a message naming the kind; an object or array
/// schema refuses a value of another kind; a schema without a type admits
/// anything.
pub proof fn law_schema_kinds(value: Json, schema: Json)
    ensures
        member_str(schema, "type"@) == Some("string"@) ==> schema_error(value, schema) == (if value is Str {
            None::<Seq<char>>
        } else {
            Some("expected string"@)
        }),
        member_str(schema, "type"@) == Some("number"@) ==> schema_error(value, schema) == (if value is Number {
            None::<Seq<char>>
        } else {
            Some("expected number"@)
        }),
        member_str(schema, "type"@) == Some("integer"@) ==> schema_error(value, schema) == (if value matches Json::Number(n) && !(number_kind(n) is Float) {
            None::<Seq<char>>
        } else {
            Some("expected integer"@)
        }),
        member_str(schema, "type"@) == Some("boolean"@) ==> schema_error(value, schema) == (if value is Bool {
            None::<Seq<char>>
        } else {
            Some("expected boolean"@)
        }),
        member_str(schema, "type"@) == Some("null"@) ==> schema_error(value, schema) == (if value is Null {
            None::<Seq<char>>
        } else {
            Some("expected null"@)
        }),
        member_str(schema, "type"@) == Some("object"@) && !(value is Object) ==> schema_error(value, schema)
            == Some("expected object"@),
        member_str(schema, "type"@) == Some("array"@) && !(value is Array) ==> schema_error(value, schema)
            == Some("expected array"@),
        member_str(schema, "type"@) is None ==> schema_error(value, schema) is None,
{
    lemma_words_differ();
    if member_str(schema, "type"@) == Some("string"@) {
        lemma_kind_string(value, schema);
    }
    if member_str(schema, "type"@) == Some("number"@) {
        lemma_kind_number(value, schema);
    }
    if member_str(schema, "type"@) == Some("integer"@) {
        lemma_kind_integer(value, schema);
    }
}

/// The type names differ from one another.
proof fn lemma_words_differ()
    ensures
        "array"@ != "object"@,
        "string"@ != "object"@ && "string"@ != "array"@,
        "number"@ != "object"@ && "number"@ != "array"@ && "number"@ != "string"@,
        "integer"@ != "object"@ && "integer"@ != "array"@ && "integer"@ != "string"@ && "integer"@
            != "number"@,
        "boolean"@ != "object"@ && "boolean"@ != "array"@ && "boolean"@ != "string"@ && "boolean"@
            != "number"@ && "boolean"@ != "integer"@,
        "null"@ != "object"@ && "null"@ != "array"@ && "null"@ != "string"@ && "null"@ != "number"@
            && "null"@ != "integer"@ && "null"@ != "boolean"@,
{
    reveal_strlit("string");
    reveal_strlit("number");
    reveal_strlit("integer");
    reveal_strlit("boolean");
    reveal_strlit("null");
    reveal_strlit("object");
    reveal_strlit("array");
    assert("null"@.len() == 4 && "array"@.len() == 5 && "object"@.len() == 6);
    assert("string"@.len() == 6 && "number"@.len() == 6 && "integer"@.len() == 7);
    assert("boolean"@.len() == 7);
    assert("string"@[0] != "object"@[0]);
    assert("number"@[0] != "object"@[0] && "number"@[0] != "string"@[0]);
    assert("boolean"@[0] != "integer"@[0]);
}

proof fn lemma_kind_string(value: Json, schema: Json)
    requires
        member_str(schema, "type"@) == Some("string"@),
    ensures
        schema_error(value, schema) == (if value is Str {
            None::<Seq<char>>
        } else {
            Some("expected string"@)
        }),
{
    lemma_words_differ();
}

proof fn lemma_kind_number(value: Json, schema: Json)
    requires
        member_str(schema, "type"@) == Some("number"@),
    ensures
        schema_error(value, schema) == (if value is Number {
            None::<Seq<char>>
        } else {
            Some("expected number"@)
        }),
{
    lemma_words_differ();
}

proof fn lemma_kind_integer(value: Json, schema: Json)
    requires
        member_str(schema, "type"@) == Some("integer"@),
    ensures
        schema_error(value, schema) == (if value matches Json::Number(n) && !(number_kind(n) is Float) {
            None::<Seq<char>>
        } else {
            Some("expected integer"@)
        }),
{
    lemma_words_differ();
}

/// Within an object, the first listed property whose member does not fit its
/// schema is reported under the property's name, when all listed before it
/// fit.
pub proof fn law_property_reported_by_name(
    value: Json,
    props: Seq<(Seq<char>, Json)>,
    i: int,
    member: Json,
    e: Seq<char>,
)
    requires
        0 <= i < props.len(),
        json_get(value, props[i].0) == Some(member),
        schema_error(member, props[i].1) == Some(e),
        forall|k: int|
            0 <= k < i ==> match json_get(value, #[trigger] props[k].0) {
                Some(m) => schema_error(m, props[k].1) is None,
                None => true,
            },
    ensures
        property_error(value, props, 0) == Some("field '"@ + props[i].0 + "' "@ + e),
{
    lemma_property_from(value, props, 0, i, member, e);
}

proof fn lemma_property_from(
    value: Json,
    props: Seq<(Seq<char>, Json)>,
    j: int,
    i: int,
    member: Json,
    e: Seq<char>,
)
    requires
        0 <= j <= i < props.len(),
        json_get(value, props[i].0) == Some(member),
        schema_error(member, props[i].1) == Some(e),
        forall|k: int|
            0 <= k < i ==> match json_get(value, #[trigger] props[k].0) {
                Some(m) => schema_error(m, props[k].1) is None,
                None => true,
            },
    ensures
        property_error(value, props, j) == Some("field '"@ + props[i].0 + "' "@ + e),
    decreases i - j,
{
    if j < i {
        lemma_property_from(value, props, j + 1, i, member, e);
        assert(match json_get(value, props[j].0) {
            Some(m) => schema_error(m, props[j].1) is None,
            None => true,
        });
    }
}

/// Within an array, the first item that does not fit the item schema is
/// reported under its position, when all items before it fit.
pub proof fn law_item_reported_by_position(items: Seq<Json>, item_schema: Json, i: int, e: Seq<char>)
    requires
        0 <= i < items.len(),
        schema_error(items[i], item_schema) == Some(e),
        forall|k: int| 0 <= k < i ==> schema_error(#[trigger] items[k], item_schema) is None,
    ensures
        item_error(items, item_schema, 0) == Some("item "@ + decimal(i as nat) + " "@ + e),
{
    lemma_item_from(items, item_schema, 0, i, e);
}

proof fn lemma_item_from(items: Seq<Json>, item_schema: Json, j: int, i: int, e: Seq<char>)
    requires
        0 <= j <= i < items.len(),
        schema_error(items[i], item_schema) == Some(e),
        forall|k: int| 0 <= k < i ==> schema_error(#[trigger] items[k], item_schema) is None,
    ensures
        item_error(items, item_schema, j) == Some("item "@ + decimal(i as nat) + " "@ + e),
    decreases i - j,
{
    if j < i {
        lemma_item_from(items, item_schema, j + 1, i, e);
        assert(schema_error(items[j], item_schema) is None);
    }
}

/// An object that lacks a member that its object schema requires is refused.
pub proof fn law_missing_required_field(value: Json, schema: Json, required: Seq<Json>, i: int)
    requires
        member_str(schema, "type"@) == Some("object"@),
        value is Object,
        json_get(schema, "required"@) == Some(Json::Array(required)),
        0 <= i < required.len(),
        required[i] matches Json::Str(key) && json_get(value, key) is None,
    ensures
        schema_error(value, schema) is Some,
{
    lemma_missing_from(value, required, 0, i);
}

proof fn lemma_missing_from(value: Json, required: Seq<Json>, j: int, i: int)
    requires
        0 <= j <= i < required.len(),
        required[i] matches Json::Str(key) && json_get(value, key) is None,
    ensures
        missing_required(value, required, j) is Some,
    decreases i - j,
{
    if j < i {
        lemma_missing_from(value, required, j + 1, i);
    }
}

/// Checks `value` against `schema`.
pub fn validate_against_schema(value: &JsonValue, schema: &JsonValue) -> (r: Result<(), String>)
    ensures
        match r {
            Ok(()) => schema_error(value@, schema@) is None,
            Err(e) => schema_error(value@, schema@) == Some(e@),
        },
    decreases schema@, 1int,
{
    match schema.get_str("type") {
        Some(t) => {
            let t = t.as_str();
            if str_is(t, "object") {
                validate_object(value, schema)
            } else if str_is(t, "array") {
                validate_array(value, schema)
            } else if str_is(t, "string") && !matches!(value, JsonValue::Str(..)) {
                Err(owned("expected string"))
            } else if str_is(t, "number") && !matches!(value, JsonValue::Number(..)) {
                Err(owned("expected number"))
            } else if str_is(t, "integer") && !is_integer_value(value) {
                Err(owned("expected integer"))
            } else if str_is(t, "boolean") && !matches!(value, JsonValue::Bool(..)) {
                Err(owned("expected boolean"))
            } else if str_is(t, "null") && !matches!(value, JsonValue::Null) {
                Err(owned("expected null"))
            } else {
                Ok(())
            }
        },
        None => Ok(()),
    }
}

/// Whether a document is a number with an integer representation.
fn is_integer_value(value: &JsonValue) -> (r: bool)
    ensures
        r == is_integer(value@),
{
    match value {
        JsonValue::Number(n) => match number_kind_of(n) {
            NumberKind::Float => false,
            _ => true,
        },
        _ => false,
    }
}

/// Checks `value` against an object schema.
fn validate_object(value: &JsonValue, schema: &JsonValue) -> (r: Result<(), String>)
    ensures
        match r {
            Ok(()) => object_error(value@, schema@) is None,
            Err(e) => object_error(value@, schema@) == Some(e@),
        },
    decreases schema@, 0int,
{
    if !matches!(value, JsonValue::Object(..)) {
        return Err(owned("expected object"));
    }
    if let Some(JsonValue::Array(required)) = schema.get("required") {
        proof {
            crate::json::lemma_array_view(*required);
        }
        let ghost req = Seq::new(required@.len(), |k: int| required@[k]@);
        let mut i: usize = 0;
        while i < required.len()
            invariant
                i <= required@.len(),
                value@ is Object,
                json_get(schema@, "required"@) == Some(Json::Array(req)),
                req == Seq::new(required@.len(), |k: int| required@[k]@),
                missing_required(value@, req, 0) == missing_required(value@, req, i as int),
            decreases required@.len() - i,
        {
            assert(req[i as int] == required@[i as int]@);
            if let JsonValue::Str(key) = &required[i] {
                if value.get(key.as_str()).is_none() {
                    assert(req[i as int] == Json::Str(key@));
                    assert(missing_required(value@, req, i as int) == Some(
                        "missing required field '"@ + key@ + "'"@,
                    ));
                    let mut m = owned("missing required field '");
                    append_str(&mut m, key.as_str());
                    append_str(&mut m, "'");
                    return Err(m);
                }
            }
            i = i + 1;
        }
    }
    if let Some(JsonValue::Object(props)) = schema.get("properties") {
        proof {
            crate::json::lemma_object_view(*props);
            lemma_member_smaller(schema@, "properties"@);
        }
        let ghost ps = Seq::new(props@.len(), |k: int| (props@[k].0@, props@[k].1@));
        let mut i: usize = 0;
        while i < props.len()
            invariant
                i <= props@.len(),
                json_get(schema@, "properties"@) == Some(Json::Object(ps)),
                decreases_to!(schema@ => ps),
                ps == Seq::new(props@.len(), |k: int| (props@[k].0@, props@[k].1@)),
                object_error(value@, schema@) == property_error(value@, ps, i as int),
            decreases props@.len() - i,
        {
            assert(ps[i as int].1 == props@[i as int].1@);
            assert(ps[i as int].0 == props@[i as int].0@);
            let key = &props[i].0;
            if let Some(member) = value.get(key.as_str()) {
                proof {
                    assert(decreases_to!(ps => ps[i as int]));
                    assert(decreases_to!(ps[i as int] => ps[i as int].1));
                }
                match validate_against_schema(member, &props[i].1) {
                    Ok(()) => {},
                    Err(e) => {
                        let mut m = owned("field '");
                        append_str(&mut m, key.as_str());
                        append_str(&mut m, "' ");
                        append_str(&mut m, e.as_str());
                        return Err(m);
                    },
                }
            }
            i = i + 1;
        }
    }
    Ok(())
}

/// Checks `value` against an array schema.
fn validate_array(value: &JsonValue, schema: &JsonValue) -> (r: Result<(), String>)
    ensures
        match r {
            Ok(()) => array_error(value@, schema@) is None,
            Err(e) => array_error(value@, schema@) == Some(e@),
        },
    decreases schema@, 0int,
{
    let items = match value {
        JsonValue::Array(items) => items,
        _ => {
            return Err(owned("expected array"));
        },
    };
    proof {
        crate::json::lemma_array_view(*items);
    }
    let ghost js = Seq::new(items@.len(), |k: int| items@[k]@);
    assert(value@ == Json::Array(js));
    if let Some(item_schema) = schema.get("items") {
        proof {
            lemma_member_smaller(schema@, "items"@);
        }
        let mut i: usize = 0;
        while i < items.len()
            invariant
                i <= items@.len(),
                value@ == Json::Array(js),
                js == Seq::new(items@.len(), |k: int| items@[k]@),
                json_get(schema@, "items"@) == Some(item_schema@),
                decreases_to!(schema@ => item_schema@),
                array_error(value@, schema@) == item_error(js, item_schema@, i as int),
            decreases items@.len() - i,
        {
            assert(js[i as int] == items@[i as int]@);
            match validate_against_schema(&items[i], item_schema) {
                Ok(()) => {},
                Err(e) => {
                    let mut m = owned("item ");
                    push_decimal(&mut m, i as u64);
                    append_str(&mut m, " ");
                    append_str(&mut m, e.as_str());
                    return Err(m);
                },
            }
            i = i + 1;
        }
    }
    Ok(())
}

/// `i` is the first tool named `name`.
pub open spec fn first_tool_named(tools: Seq<ToolDefinition>, name: Seq<char>, i: int) -> bool {
    &&& 0 <= i < tools.len()
    &&& tools[i].name@ == name
    &&& forall|k: int| 0 <= k < i ==> tools[k].name@ != name
}

/// A call of tool `name` with arguments `args` is valid against `tools`: a
/// tool of that name is on offer and the arguments fit the schema of the
/// first such tool.
pub open spec fn call_valid(name: Seq<char>, args: Json, tools: Seq<ToolDefinition>) -> bool {
    exists|i: int| first_tool_named(tools, name, i) && schema_error(args, tools[i].parameters@) is None
}

/// Checks a call: a tool of that name must be on offer, and the arguments must
/// fit the schema of the first such tool.
pub fn validate_tool_call(call: &ToolCall, tools: &[ToolDefinition]) -> (r: Result<
    (),
    ValidationError,
>)
    ensures
        r is Ok <==> call_valid(call.name@, call.arguments@, tools@),
        (forall|k: int| 0 <= k < tools@.len() ==> tools@[k].name@ != call.name@) ==> (r matches Err(
            ValidationError::ToolNotFound(n),
        ) && n@ == call.name@),
        forall|i: int|
            first_tool_named(tools@, call.name@, i) ==> match schema_error(
                call.arguments@,
                tools@[i].parameters@,
            ) {
                None => r is Ok,
                Some(m) => r matches Err(ValidationError::InvalidArguments { tool, message })
                    && tool@ == call.name@ && message@ == m,
            },
{
    let mut i: usize = 0;
    while i < tools.len()
        invariant
            i <= tools@.len(),
            forall|k: int| 0 <= k < i ==> tools@[k].name@ != call.name@,
        decreases tools@.len() - i,
    {
        if tools[i].name == call.name {
            assert(first_tool_named(tools@, call.name@, i as int));
            assert forall|j: int| first_tool_named(tools@, call.name@, j) implies j == i by {
                if j < i {
                } else if j > i {
                    assert(tools@[i as int].name@ == call.name@);
                }
            }
            return match validate_against_schema(&call.arguments, &tools[i].parameters) {
                Ok(()) => Ok(()),
                Err(message) => Err(
                    ValidationError::InvalidArguments { tool: call.name.clone(), message },
                ),
            };
        }
        i = i + 1;
    }
    assert(!call_valid(call.name@, call.arguments@, tools@)) by {
        if call_valid(call.name@, call.arguments@, tools@) {
            let j = choose|j: int| first_tool_named(tools@, call.name@, j) && schema_error(
                call.arguments@,
                tools@[j].parameters@,
            ) is None;
            assert(tools@[j].name@ != call.name@);
        }
    }
    Err(ValidationError::ToolNotFound(call.name.clone()))
}

impl ValidationError {
    /// The message that explains the refusal.
    pub fn message(&self) -> (r: String)
        ensures
            r@ == match self {
                ValidationError::ToolNotFound(n) => "Tool '"@ + n@
                    + "' not found in available tools"@,
                ValidationError::InvalidArguments { tool, message } => "Invalid arguments for tool '"@
                    + tool@ + "': "@ + message@,
            },
    {
        match self {
            ValidationError::ToolNotFound(n) => {
                let mut m = owned("Tool '");
                append_str(&mut m, n.as_str());
                append_str(&mut m, "' not found in available tools");
                m
            },
            ValidationError::InvalidArguments { tool, message } => {
                let mut m = owned("Invalid arguments for tool '");
                append_str(&mut m, tool.as_str());
                append_str(&mut m, "': ");
                append_str(&mut m, message.as_str());
                m
            },
        }
    }
}

} // verus!
