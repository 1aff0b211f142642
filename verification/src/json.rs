use vstd::prelude::*;

use crate::errors::NerfError;

verus! {

broadcast use vstd::std_specs::vec::axiom_vec_index_decreases, vstd::seq::axiom_seq_index_decreases;

/// A JSON document, with numbers carried as their literal text.
pub enum JsonValue {
    Null,
    Bool(bool),
    Num(String),
    Str(String),
    Arr(Vec<JsonValue>),
    Obj(Vec<(String, JsonValue)>),
}

/// The mathematical shape of a JSON document.
#[verifier::ext_equal]
pub ghost enum JsonSpec {
    Null,
    Bool(bool),
    Num(Seq<char>),
    Str(Seq<char>),
    Arr(Seq<JsonSpec>),
    Obj(Seq<(Seq<char>, JsonSpec)>),
}

/// The shapes of the elements of a JSON array.
pub open spec fn arr_view(items: Vec<JsonValue>) -> Seq<JsonSpec>
    decreases items,
{
    Seq::new(
        items@.len(),
        |i: int|
            if 0 <= i < items@.len() {
                items[i].deep_view()
            } else {
                JsonSpec::Null
            },
    )
}

/// The shapes of the fields of a JSON object, in order.
pub open spec fn obj_view(fields: Vec<(String, JsonValue)>) -> Seq<(Seq<char>, JsonSpec)>
    decreases fields,
{
    Seq::new(
        fields@.len(),
        |i: int|
            if 0 <= i < fields@.len() {
                (fields[i].0@, fields[i].1.deep_view())
            } else {
                (Seq::empty(), JsonSpec::Null)
            },
    )
}

impl JsonValue {
    /// The shape of the document.
    pub open spec fn deep_view(self) -> JsonSpec
        decreases self,
    {
        match self {
            JsonValue::Null => JsonSpec::Null,
            JsonValue::Bool(b) => JsonSpec::Bool(b),
            JsonValue::Num(s) => JsonSpec::Num(s@),
            JsonValue::Str(s) => JsonSpec::Str(s@),
            JsonValue::Arr(items) => JsonSpec::Arr(arr_view(items)),
            JsonValue::Obj(fields) => JsonSpec::Obj(obj_view(fields)),
        }
    }
}

/// Whether the document holds no number anywhere.
pub open spec fn num_free(v: JsonSpec) -> bool
    decreases v,
{
    match v {
        JsonSpec::Null => true,
        JsonSpec::Bool(_) => true,
        JsonSpec::Num(_) => false,
        JsonSpec::Str(_) => true,
        JsonSpec::Arr(items) => forall|i: int| 0 <= i < items.len() ==> num_free(#[trigger] items[i]),
        JsonSpec::Obj(fields) => forall|i: int|
            0 <= i < fields.len() ==> num_free(#[trigger] fields[i].1),
    }
}

/// The value of the first field named `key`, if the object has one.
pub open spec fn field_lookup(fields: Seq<(Seq<char>, JsonSpec)>, key: Seq<char>) -> Option<
    JsonSpec,
>
    decreases fields.len(),
{
    if fields.len() == 0 {
        None
    } else if fields[0].0 == key {
        Some(fields[0].1)
    } else {
        field_lookup(fields.skip(1), key)
    }
}

/// While no field among the first `j` is named `key`, the lookup is settled
/// by the rest alone.
proof fn lemma_field_lookup_skip(fields: Seq<(Seq<char>, JsonSpec)>, key: Seq<char>, j: int)
    requires
        0 <= j <= fields.len(),
        forall|k: int| 0 <= k < j ==> (#[trigger] fields[k]).0 != key,
    ensures
        field_lookup(fields, key) == field_lookup(fields.skip(j), key),
    decreases j,
{
    if j > 0 {
        assert forall|k: int| 0 <= k < j - 1 implies (#[trigger] fields.skip(1)[k]).0 != key by {
            assert(fields.skip(1)[k] == fields[k + 1]);
        }
        lemma_field_lookup_skip(fields.skip(1), key, j - 1);
        assert(fields.skip(1).skip(j - 1) =~= fields.skip(j));
        assert(fields[0].0 != key);
    } else {
        assert(fields.skip(0) =~= fields);
    }
}

/// The content of the first choice's message, when the document has the
/// expected shape: an object whose `choices` field is a non-empty array whose
/// first element carries a `message` object with a string `content` field.
pub open spec fn content_of(v: JsonSpec) -> Option<Seq<char>> {
    match v {
        JsonSpec::Obj(fields) => match field_lookup(fields, "choices"@) {
            Some(JsonSpec::Arr(choices)) => if choices.len() > 0 {
                match choices[0] {
                    JsonSpec::Obj(cfields) => match field_lookup(cfields, "message"@) {
                        Some(JsonSpec::Obj(mfields)) => match field_lookup(mfields, "content"@) {
                            Some(JsonSpec::Str(s)) => Some(s),
                            _ => None,
                        },
                        _ => None,
                    },
                    _ => None,
                }
            } else {
                None
            },
            _ => None,
        },
        _ => None,
    }
}

/// The first field of the object named `key`, if any.
fn obj_lookup<'a>(fields: &'a Vec<(String, JsonValue)>, key: &String) -> (r: Option<
    &'a JsonValue,
>)
    ensures
        match r {
            Some(v) => field_lookup(obj_view(*fields), key@) == Some(v.deep_view()),
            None => field_lookup(obj_view(*fields), key@) is None,
        },
{
    let ghost fs = obj_view(*fields);
    let mut j: usize = 0;
    while j < fields.len()
        invariant
            fs == obj_view(*fields),
            0 <= j <= fields@.len(),
            forall|k: int| 0 <= k < j ==> (#[trigger] fs[k]).0 != key@,
        decreases fields@.len() - j,
    {
        let hit = fields[j].0 == *key;
        proof {
            assert(fs[j as int] == (fields@[j as int].0@, fields@[j as int].1.deep_view()));
        }
        if hit {
            proof {
                lemma_field_lookup_skip(fs, key@, j as int);
                assert(fs.skip(j as int)[0] == fs[j as int]);
                assert(field_lookup(fs.skip(j as int), key@) == Some(fs[j as int].1));
            }
            return Some(&fields[j].1);
        }
        j += 1;
    }
    proof {
        lemma_field_lookup_skip(fs, key@, j as int);
        assert(fs.skip(j as int) =~= Seq::<(Seq<char>, JsonSpec)>::empty());
    }
    None
}

/// The extraction step on a parsed response document: the first choice's
/// message content, or the parse error where the shape is not the expected
/// one — among others, where the `choices` list is empty.
pub fn extract_from_json(doc: &JsonValue) -> (r: Result<String, NerfError>)
    ensures
        match content_of(doc.deep_view()) {
            Some(c) => r matches Ok(s) && s@ == c,
            None => r == Err::<String, NerfError>(NerfError::Parse),
        },
{
    match doc {
        JsonValue::Obj(fields) => {
            let key_choices = String::from_str("choices");
            match obj_lookup(fields, &key_choices) {
                Some(JsonValue::Arr(choices)) => {
                    if choices.len() > 0 {
                        proof {
                            assert(arr_view(*choices)[0] == choices[0].deep_view());
                        }
                        match &choices[0] {
                            JsonValue::Obj(cfields) => {
                                let key_message = String::from_str("message");
                                match obj_lookup(cfields, &key_message) {
                                    Some(JsonValue::Obj(mfields)) => {
                                        let key_content = String::from_str("content");
                                        match obj_lookup(mfields, &key_content) {
                                            Some(JsonValue::Str(s)) => Ok(s.clone()),
                                            Some(_) => Err(NerfError::Parse),
                                            None => Err(NerfError::Parse),
                                        }
                                    },
                                    Some(_) => Err(NerfError::Parse),
                                    None => Err(NerfError::Parse),
                                }
                            },
                            _ => Err(NerfError::Parse),
                        }
                    } else {
                        Err(NerfError::Parse)
                    }
                },
                Some(_) => Err(NerfError::Parse),
                None => Err(NerfError::Parse),
            }
        },
        _ => Err(NerfError::Parse),
    }
}

/// serde_json's document tree, declared so the conversion functions below
/// can take and return it; the library never looks inside it.
#[verifier::external_type_specification]
#[verifier::external_body]
pub struct ExValue(serde_json::Value);

/// The document a string denotes under the JSON grammar, if it denotes one.
pub uninterp spec fn json_of(s: Seq<char>) -> Option<JsonSpec>;

/// The document rendered as compact JSON text, fields sorted by name.
pub uninterp spec fn json_text_of(v: JsonSpec) -> Seq<char>;

/// The document rendered as indented JSON text, fields sorted by name.
pub uninterp spec fn pretty_text_of(v: JsonSpec) -> Seq<char>;

/// Carries a parsed `serde_json` tree over into the library's document type,
/// variant by variant; numbers keep their literal text.
#[verifier::external_body]
fn value_to_json(v: serde_json::Value) -> JsonValue {
    match v {
        serde_json::Value::Null => JsonValue::Null,
        serde_json::Value::Bool(b) => JsonValue::Bool(b),
        serde_json::Value::Number(n) => JsonValue::Num(n.to_string()),
        serde_json::Value::String(s) => JsonValue::Str(s),
        serde_json::Value::Array(a) => JsonValue::Arr(a.into_iter().map(value_to_json).collect()),
        serde_json::Value::Object(o) => JsonValue::Obj(
            o.into_iter().map(|(k, x)| (k, value_to_json(x))).collect(),
        ),
    }
}

/// Carries a document of the library back into a `serde_json` tree, variant
/// by variant; a number whose text is not a JSON number cannot be carried.
#[verifier::external_body]
fn json_to_value(v: &JsonValue) -> Option<serde_json::Value> {
    match v {
        JsonValue::Null => Some(serde_json::Value::Null),
        JsonValue::Bool(b) => Some(serde_json::Value::Bool(*b)),
        JsonValue::Num(s) => s.parse().ok().map(serde_json::Value::Number),
        JsonValue::Str(s) => Some(serde_json::Value::String(s.clone())),
        JsonValue::Arr(a) => a.iter().map(json_to_value).collect::<Option<Vec<_>>>().map(
            serde_json::Value::Array,
        ),
        JsonValue::Obj(o) => o.iter().map(|(k, x)| json_to_value(x).map(|xv| (k.clone(), xv)))
            .collect::<Option<serde_json::Map<_, _>>>().map(serde_json::Value::Object),
    }
}

/// Relies on serde_json::from_str::<Value>: whether a string parses as JSON,
/// and the document it then denotes, depend on the string alone.
#[verifier::external_body]
fn parse_json(s: &str) -> (r: Option<JsonValue>)
    ensures
        match r {
            Some(v) => json_of(s@) == Some(v.deep_view()),
            None => json_of(s@) is None,
        },
{
    match serde_json::from_str::<serde_json::Value>(s) {
        Ok(v) => Some(value_to_json(v)),
        Err(_) => None,
    }
}

/// Relies on serde_json::to_string on a Value: the rendering depends on the
/// document alone (fields sit in maps ordered by name), and on a document
/// without numbers it does not fail.
#[verifier::external_body]
pub(crate) fn to_json_text(v: &JsonValue) -> (r: String)
    requires
        num_free(v.deep_view()),
    ensures
        r@ == json_text_of(v.deep_view()),
{
    serde_json::to_string(&json_to_value(v).unwrap()).unwrap()
}

/// Relies on serde_json::to_string_pretty on a Value: the rendering depends
/// on the document alone (fields sit in maps ordered by name).
#[verifier::external_body]
fn to_pretty_text(v: &JsonValue) -> (r: Option<String>)
    ensures
        r matches Some(t) ==> t@ == pretty_text_of(v.deep_view()),
{
    json_to_value(v).and_then(|w| serde_json::to_string_pretty(&w).ok())
}

/// The response-to-text step of the remote exchange: parse the body as JSON,
/// then take the first choice's message content. A body that is not JSON, or
/// whose document lacks that content — among others, one whose `choices`
/// list is empty — gives the parse error.
pub fn extract_reworded_text(response: &str) -> (r: Result<String, NerfError>)
    ensures
        match json_of(response@) {
            None => r == Err::<String, NerfError>(NerfError::Parse),
            Some(doc) => match content_of(doc) {
                Some(c) => r matches Ok(s) && s@ == c,
                None => r == Err::<String, NerfError>(NerfError::Parse),
            },
        },
{
    match parse_json(response) {
        None => Err(NerfError::Parse),
        Some(doc) => extract_from_json(&doc),
    }
}

/// A response document of the expected shape yields exactly the content
/// string of its first choice's message, character for character.
pub proof fn lemma_content_extracted(
    fields: Seq<(Seq<char>, JsonSpec)>,
    choices: Seq<JsonSpec>,
    cfields: Seq<(Seq<char>, JsonSpec)>,
    mfields: Seq<(Seq<char>, JsonSpec)>,
    s: Seq<char>,
)
    requires
        field_lookup(fields, "choices"@) == Some(JsonSpec::Arr(choices)),
        choices.len() > 0,
        choices[0] == JsonSpec::Obj(cfields),
        field_lookup(cfields, "message"@) == Some(JsonSpec::Obj(mfields)),
        field_lookup(mfields, "content"@) == Some(JsonSpec::Str(s)),
    ensures
        content_of(JsonSpec::Obj(fields)) == Some(s),
{
}

/// A response document whose `choices` field is an empty list carries no
/// content: the extraction step rejects it with the parse error.
pub proof fn lemma_empty_choices_rejected(doc: JsonSpec)
    requires
        doc matches JsonSpec::Obj(fields) && field_lookup(fields, "choices"@) == Some(
            JsonSpec::Arr(Seq::<JsonSpec>::empty()),
        ),
    ensures
        content_of(doc) is None,
{
}

/// A JSON string rendered with indentation, for display; a string that is
/// not JSON gives the parse error.
pub fn pretty_json(s: &str) -> (r: Result<String, NerfError>)
    ensures
        json_of(s@) is None ==> r == Err::<String, NerfError>(NerfError::Parse),
        r matches Ok(t) ==> json_of(s@) matches Some(doc) && t@ == pretty_text_of(doc),
        r is Err ==> r == Err::<String, NerfError>(NerfError::Parse),
{
    match parse_json(s) {
        None => Err(NerfError::Parse),
        Some(doc) => match to_pretty_text(&doc) {
            Some(t) => Ok(t),
            None => Err(NerfError::Parse),
        },
    }
}

} // verus!
