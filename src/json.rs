//! A flat JSON document type that the wire envelopes are written in, and the
//! two places where serde_json renders and parses it.
use vstd::prelude::*;

verus! {

/// A value that may stand in a field of a document or in one of its lists.
pub enum JsonScalar {
    Null,
    Bool(bool),
    Number(u64),
    Text(String),
    /// A negative or fractional number, or a nested array or object.
    Other,
}

/// The value of one field of a document.
pub enum JsonField {
    Scalar(JsonScalar),
    List(Vec<JsonScalar>),
    /// A nested object, or an array that holds one.
    Other,
}

/// A JSON object whose fields hold scalars or lists of scalars.
pub struct JsonObject {
    pub fields: Vec<(String, JsonField)>,
}

pub ghost enum ScalarModel {
    Null,
    Bool(bool),
    Number(u64),
    Text(Seq<char>),
    Other,
}

pub ghost enum FieldModel {
    Scalar(ScalarModel),
    List(Seq<ScalarModel>),
    Other,
}

pub type ObjectModel = Seq<(Seq<char>, FieldModel)>;

impl View for JsonScalar {
    type V = ScalarModel;

    open spec fn view(&self) -> ScalarModel {
        match self {
            JsonScalar::Null => ScalarModel::Null,
            JsonScalar::Bool(b) => ScalarModel::Bool(*b),
            JsonScalar::Number(n) => ScalarModel::Number(*n),
            JsonScalar::Text(t) => ScalarModel::Text(t@),
            JsonScalar::Other => ScalarModel::Other,
        }
    }
}

impl View for JsonField {
    type V = FieldModel;

    open spec fn view(&self) -> FieldModel {
        match self {
            JsonField::Scalar(s) => FieldModel::Scalar(s@),
            JsonField::List(items) => FieldModel::List(items@.map_values(|x: JsonScalar| x@)),
            JsonField::Other => FieldModel::Other,
        }
    }
}

impl View for JsonObject {
    type V = ObjectModel;

    open spec fn view(&self) -> ObjectModel {
        self.fields@.map_values(|p: (String, JsonField)| (p.0@, p.1@))
    }
}

/// Strict lexicographic order on strings, by code point: the order in which
/// serde_json keeps the keys of an object.
pub open spec fn key_lt(a: Seq<char>, b: Seq<char>) -> bool
    decreases a.len(),
{
    if b.len() == 0 {
        false
    } else if a.len() == 0 {
        true
    } else if a[0] != b[0] {
        (a[0] as u32) < (b[0] as u32)
    } else {
        key_lt(a.drop_first(), b.drop_first())
    }
}

pub open spec fn scalar_canonical(s: ScalarModel) -> bool {
    !(s is Other)
}

pub open spec fn field_canonical(f: FieldModel) -> bool {
    match f {
        FieldModel::Scalar(s) => scalar_canonical(s),
        FieldModel::List(items) => forall|i: int| 0 <= i < items.len() ==> scalar_canonical(#[trigger] items[i]),
        FieldModel::Other => false,
    }
}

/// A document that parsing gives back exactly as it was rendered: its keys
/// are strictly ascending and it holds no value that the model leaves open.
pub open spec fn canonical(m: ObjectModel) -> bool {
    &&& forall|i: int, j: int| 0 <= i < j < m.len() ==> key_lt(#[trigger] m[i].0, #[trigger] m[j].0)
    &&& forall|i: int| 0 <= i < m.len() ==> field_canonical(#[trigger] m[i].1)
}

/// The compact text that serde_json writes for a document.
pub uninterp spec fn json_text(m: ObjectModel) -> Seq<char>;

pub open spec fn has_no_line_break(s: Seq<char>) -> bool {
    forall|i: int| 0 <= i < s.len() ==> s[i] != '\r' && s[i] != '\n'
}

#[verifier::external_type_specification]
#[verifier::external_body]
pub struct ExJsonValue(serde_json::Value);

/// Relies on serde_json's `Value` variants: builds the value that a scalar
/// stands for.
#[verifier::external_body]
fn scalar_value(s: &JsonScalar) -> serde_json::Value {
    match s {
        JsonScalar::Null => serde_json::Value::Null,
        JsonScalar::Bool(b) => serde_json::Value::Bool(*b),
        JsonScalar::Number(n) => serde_json::Value::from(*n),
        JsonScalar::Text(t) => serde_json::Value::String(t.clone()),
        JsonScalar::Other => serde_json::Value::Null,
    }
}

/// Relies on serde_json's `Value` variants: builds the value that a field
/// stands for.
#[verifier::external_body]
fn field_value(f: &JsonField) -> serde_json::Value {
    match f {
        JsonField::Scalar(s) => scalar_value(s),
        JsonField::List(items) => serde_json::Value::Array(items.iter().map(scalar_value).collect()),
        JsonField::Other => serde_json::Value::Null,
    }
}

/// Relies on serde_json's `Value` variants and `Number::as_u64`: tells the
/// variants of a parsed value apart.
#[verifier::external_body]
fn scalar_of(v: serde_json::Value) -> JsonScalar {
    match v {
        serde_json::Value::Null => JsonScalar::Null,
        serde_json::Value::Bool(b) => JsonScalar::Bool(b),
        serde_json::Value::Number(n) => n.as_u64().map_or(JsonScalar::Other, JsonScalar::Number),
        serde_json::Value::String(t) => JsonScalar::Text(t),
        serde_json::Value::Array(_) => JsonScalar::Other,
        serde_json::Value::Object(_) => JsonScalar::Other,
    }
}

/// Relies on serde_json's `Value` variants: tells apart a scalar, an array
/// and an object.
#[verifier::external_body]
fn field_of(v: serde_json::Value) -> JsonField {
    match v {
        serde_json::Value::Array(items) => JsonField::List(items.into_iter().map(scalar_of).collect()),
        serde_json::Value::Object(_) => JsonField::Other,
        other => JsonField::Scalar(scalar_of(other)),
    }
}

/// Relies on serde_json's `Value::to_string`: compact output, no whitespace
/// between tokens, and control characters inside strings written as escapes.
#[verifier::external_body]
pub fn render_object(obj: &JsonObject) -> (r: String)
    ensures
        r@ == json_text(obj@),
        has_no_line_break(r@),
{
    let mut m = serde_json::Map::new();
    for (k, f) in obj.fields.iter() {
        m.insert(k.clone(), field_value(f));
    }
    serde_json::Value::Object(m).to_string()
}

/// Relies on serde_json's `from_str` into a `Map`: a document that
/// `render_object` wrote, with its keys in the order that the map keeps,
/// parses back to the same fields.
#[verifier::external_body]
pub fn parse_object(text: &str) -> (r: Option<JsonObject>)
    ensures
        forall|m: ObjectModel|
            #![trigger json_text(m)]
            canonical(m) && text@ == json_text(m) ==> r is Some && r->Some_0@ == m,
{
    let m = serde_json::from_str::<serde_json::Map<String, serde_json::Value>>(text).ok()?;
    let mut fields = Vec::new();
    for (k, v) in m {
        fields.push((k, field_of(v)));
    }
    Some(JsonObject { fields })
}

} // verus!
