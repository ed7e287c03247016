use vstd::prelude::*;

verus! {

/// A JSON document as this library models it: scalars, arrays and objects,
/// with integer numbers only.  A number that fits no integer type (a
/// fraction) is modeled as `Null`; the controller's telemetry fields are
/// integers, booleans and strings throughout.
pub enum JsonValue {
    Null,
    Bool(bool),
    UInt(u64),
    Int(i64),
    Str(String),
    Arr(Vec<JsonValue>),
    Obj(Vec<(String, JsonValue)>),
}

/// The mathematical shape of a `JsonValue`: strings become sequences of
/// characters, vectors become sequences.
pub enum JsonView {
    Null,
    Bool(bool),
    UInt(u64),
    Int(i64),
    Str(Seq<char>),
    Arr(Seq<JsonView>),
    Obj(Seq<(Seq<char>, JsonView)>),
}

impl JsonValue {
    pub open spec fn view(self) -> JsonView
        decreases self,
        via Self::view_decreases
    {
        match self {
            JsonValue::Null => JsonView::Null,
            JsonValue::Bool(b) => JsonView::Bool(b),
            JsonValue::UInt(u) => JsonView::UInt(u),
            JsonValue::Int(i) => JsonView::Int(i),
            JsonValue::Str(s) => JsonView::Str(s@),
            JsonValue::Arr(a) => JsonView::Arr(Self::seq_view(a@)),
            JsonValue::Obj(o) => JsonView::Obj(Self::fields_view(o@)),
        }
    }

    /// The views of a sequence of JSON values, element by element.
    pub open spec fn seq_view(s: Seq<JsonValue>) -> Seq<JsonView>
        decreases s,
        via Self::seq_view_decreases
    {
        if s.len() == 0 {
            Seq::empty()
        } else {
            seq![s[0].view()] + Self::seq_view(s.drop_first())
        }
    }

    /// The views of the fields of a JSON object, in order.
    pub open spec fn fields_view(s: Seq<(String, JsonValue)>) -> Seq<(Seq<char>, JsonView)>
        decreases s,
        via Self::fields_view_decreases
    {
        if s.len() == 0 {
            Seq::empty()
        } else {
            seq![(s[0].0@, s[0].1.view())] + Self::fields_view(s.drop_first())
        }
    }

    #[via_fn]
    proof fn view_decreases(self) {
        match self {
            JsonValue::Arr(a) => {
                vstd::std_specs::vec::axiom_vec_decreases_to_view(a);
            },
            JsonValue::Obj(o) => {
                vstd::std_specs::vec::axiom_vec_decreases_to_view(o);
            },
            _ => {},
        }
    }

    #[via_fn]
    proof fn seq_view_decreases(s: Seq<JsonValue>) {
        if s.len() > 0 {
            vstd::seq::axiom_seq_index_decreases(s, 0);
            vstd::seq::axiom_seq_subrange_decreases(s, 1, s.len() as int);
        }
    }

    #[via_fn]
    proof fn fields_view_decreases(s: Seq<(String, JsonValue)>) {
        if s.len() > 0 {
            vstd::seq::axiom_seq_index_decreases(s, 0);
            vstd::seq::axiom_seq_subrange_decreases(s, 1, s.len() as int);
        }
    }
}

impl View for JsonValue {
    type V = JsonView;

    open spec fn view(&self) -> JsonView {
        JsonValue::view(*self)
    }
}

impl JsonValue {
    pub proof fn lemma_seq_view_index(s: Seq<JsonValue>)
        ensures
            Self::seq_view(s).len() == s.len(),
            forall|i: int| 0 <= i < s.len() ==> Self::seq_view(s)[i] == s[i].view(),
        decreases s.len(),
    {
        if s.len() > 0 {
            Self::lemma_seq_view_index(s.drop_first());
        }
    }

    pub proof fn lemma_fields_view_index(s: Seq<(String, JsonValue)>)
        ensures
            Self::fields_view(s).len() == s.len(),
            forall|i: int|
                0 <= i < s.len() ==> Self::fields_view(s)[i] == (s[i].0@, s[i].1.view()),
        decreases s.len(),
    {
        if s.len() > 0 {
            Self::lemma_fields_view_index(s.drop_first());
        }
    }
}

/// How the controller reports one page or record that this library cannot read.
#[derive(Debug)]
pub enum DecodeError {
    /// The body was not well-formed JSON; carries the column offset of the
    /// syntax error for offline diagnosis.
    Syntax { column: usize },
    /// The decoded value was not the JSON object the schema calls for.
    NotObject,
    /// A field was missing, or held a value of a type the schema rules out;
    /// carries the field's name for offline diagnosis.
    Field { name: String },
}

/// The first field of `fields` named `key`, if any.
pub open spec fn spec_lookup(fields: Seq<(Seq<char>, JsonView)>, key: Seq<char>) -> Option<
    JsonView,
>
    decreases fields.len(),
{
    if fields.len() == 0 {
        None
    } else if fields[0].0 == key {
        Some(fields[0].1)
    } else {
        spec_lookup(fields.drop_first(), key)
    }
}

/// A numeric field read as `u64`: a present number reads as itself, an
/// explicit `null` reads as zero, anything else fails.
pub open spec fn spec_field_u64(fields: Seq<(Seq<char>, JsonView)>, key: Seq<char>) -> Option<
    u64,
> {
    match spec_lookup(fields, key) {
        Some(JsonView::UInt(u)) => Some(u),
        Some(JsonView::Null) => Some(0),
        _ => None,
    }
}

/// A numeric field read as `i64`; `null` reads as zero.
pub open spec fn spec_field_i64(fields: Seq<(Seq<char>, JsonView)>, key: Seq<char>) -> Option<
    i64,
> {
    match spec_lookup(fields, key) {
        Some(JsonView::UInt(u)) => if u <= i64::MAX as u64 {
            Some(u as i64)
        } else {
            None
        },
        Some(JsonView::Int(i)) => Some(i),
        Some(JsonView::Null) => Some(0),
        _ => None,
    }
}

/// A boolean field; `null` reads as `false`.
pub open spec fn spec_field_bool(fields: Seq<(Seq<char>, JsonView)>, key: Seq<char>) -> Option<
    bool,
> {
    match spec_lookup(fields, key) {
        Some(JsonView::Bool(b)) => Some(b),
        Some(JsonView::Null) => Some(false),
        _ => None,
    }
}

/// A string field; `null` reads as the empty string.
pub open spec fn spec_field_string(fields: Seq<(Seq<char>, JsonView)>, key: Seq<char>) -> Option<
    Seq<char>,
> {
    match spec_lookup(fields, key) {
        Some(JsonView::Str(s)) => Some(s),
        Some(JsonView::Null) => Some(Seq::empty()),
        _ => None,
    }
}

proof fn lemma_lookup_skip(fields: Seq<(Seq<char>, JsonView)>, key: Seq<char>, i: int)
    requires
        0 <= i <= fields.len(),
        forall|j: int| 0 <= j < i ==> fields[j].0 != key,
    ensures
        spec_lookup(fields, key) == spec_lookup(fields.skip(i), key),
    decreases i,
{
    if i == 0 {
        assert(fields.skip(0) =~= fields);
    } else {
        lemma_lookup_skip(fields.drop_first(), key, i - 1);
        assert(fields.drop_first().skip(i - 1) =~= fields.skip(i));
    }
}

impl JsonValue {
    /// The first field of `fields` named `key`, by a forward scan.
    pub fn lookup<'a>(fields: &'a Vec<(String, JsonValue)>, key: &String) -> (r: Option<
        &'a JsonValue,
    >)
        ensures
            match r {
                Some(v) => spec_lookup(Self::fields_view(fields@), key@) == Some(v@),
                None => spec_lookup(Self::fields_view(fields@), key@) is None,
            },
    {
        proof {
            Self::lemma_fields_view_index(fields@);
        }
        let ghost fv = Self::fields_view(fields@);
        let mut i: usize = 0;
        while i < fields.len()
            invariant
                0 <= i <= fields.len(),
                fv == Self::fields_view(fields@),
                fv.len() == fields@.len(),
                forall|j: int| 0 <= j < fields@.len() ==> fv[j] == (fields@[j].0@, fields@[j].1.view()),
                forall|j: int| 0 <= j < i ==> fv[j].0 != key@,
            decreases fields@.len() - i,
        {
            if fields[i].0 == *key {
                proof {
                    lemma_lookup_skip(fv, key@, i as int);
                    assert(fv.skip(i as int)[0] == fv[i as int]);
                }
                return Some(&fields[i].1);
            }
            i = i + 1;
        }
        proof {
            lemma_lookup_skip(fv, key@, fields@.len() as int);
        }
        None
    }

    /// Reads the field `key` of `fields` as a `u64`, taking `null` for zero.
    pub fn field_u64(fields: &Vec<(String, JsonValue)>, key: &String) -> (r: Option<u64>)
        ensures
            r == spec_field_u64(Self::fields_view(fields@), key@),
    {
        match Self::lookup(fields, key) {
            Some(JsonValue::UInt(u)) => Some(*u),
            Some(JsonValue::Null) => Some(0),
            _ => None,
        }
    }

    /// Reads the field `key` of `fields` as an `i64`, taking `null` for zero.
    pub fn field_i64(fields: &Vec<(String, JsonValue)>, key: &String) -> (r: Option<i64>)
        ensures
            r == spec_field_i64(Self::fields_view(fields@), key@),
    {
        match Self::lookup(fields, key) {
            Some(JsonValue::UInt(u)) => if *u <= i64::MAX as u64 {
                Some(*u as i64)
            } else {
                None
            },
            Some(JsonValue::Int(i)) => Some(*i),
            Some(JsonValue::Null) => Some(0),
            _ => None,
        }
    }

    /// Reads the field `key` of `fields` as a `bool`, taking `null` for `false`.
    pub fn field_bool(fields: &Vec<(String, JsonValue)>, key: &String) -> (r: Option<bool>)
        ensures
            r == spec_field_bool(Self::fields_view(fields@), key@),
    {
        match Self::lookup(fields, key) {
            Some(JsonValue::Bool(b)) => Some(*b),
            Some(JsonValue::Null) => Some(false),
            _ => None,
        }
    }

    /// Reads the field `key` of `fields` as a `String`, taking `null` for the
    /// empty string.
    pub fn field_string(fields: &Vec<(String, JsonValue)>, key: &String) -> (r: Option<String>)
        ensures
            match r {
                Some(s) => spec_field_string(Self::fields_view(fields@), key@) == Some(s@),
                None => spec_field_string(Self::fields_view(fields@), key@) is None,
            },
    {
        match Self::lookup(fields, key) {
            Some(JsonValue::Str(s)) => Some(s.clone()),
            Some(JsonValue::Null) => Some(String::new()),
            _ => None,
        }
    }
}

impl JsonValue {
    /// Reads a required `u64` field, or reports the field's name.
    pub fn req_u64(fields: &Vec<(String, JsonValue)>, key: &str) -> (r: Result<u64, DecodeError>)
        ensures
            match r {
                Ok(u) => spec_field_u64(Self::fields_view(fields@), key@) == Some(u),
                Err(e) => spec_field_u64(Self::fields_view(fields@), key@) is None && e is Field,
            },
    {
        match Self::field_u64(fields, &String::from_str(key)) {
            Some(u) => Ok(u),
            None => Err(DecodeError::Field { name: String::from_str(key) }),
        }
    }

    /// Reads a required `i64` field, or reports the field's name.
    pub fn req_i64(fields: &Vec<(String, JsonValue)>, key: &str) -> (r: Result<i64, DecodeError>)
        ensures
            match r {
                Ok(u) => spec_field_i64(Self::fields_view(fields@), key@) == Some(u),
                Err(e) => spec_field_i64(Self::fields_view(fields@), key@) is None && e is Field,
            },
    {
        match Self::field_i64(fields, &String::from_str(key)) {
            Some(u) => Ok(u),
            None => Err(DecodeError::Field { name: String::from_str(key) }),
        }
    }

    /// Reads a required `bool` field, or reports the field's name.
    pub fn req_bool(fields: &Vec<(String, JsonValue)>, key: &str) -> (r: Result<bool, DecodeError>)
        ensures
            match r {
                Ok(b) => spec_field_bool(Self::fields_view(fields@), key@) == Some(b),
                Err(e) => spec_field_bool(Self::fields_view(fields@), key@) is None && e is Field,
            },
    {
        match Self::field_bool(fields, &String::from_str(key)) {
            Some(b) => Ok(b),
            None => Err(DecodeError::Field { name: String::from_str(key) }),
        }
    }

    /// Reads a required string field, or reports the field's name.
    pub fn req_string(fields: &Vec<(String, JsonValue)>, key: &str) -> (r: Result<
        String,
        DecodeError,
    >)
        ensures
            match r {
                Ok(s) => spec_field_string(Self::fields_view(fields@), key@) == Some(s@),
                Err(e) => spec_field_string(Self::fields_view(fields@), key@) is None
                    && e is Field,
            },
    {
        match Self::field_string(fields, &String::from_str(key)) {
            Some(s) => Ok(s),
            None => Err(DecodeError::Field { name: String::from_str(key) }),
        }
    }
}

/// Null-tolerant reading, stated once for every field type: a field that is
/// present and `null` reads as the type's zero value, and a field that is
/// present with a value of the right type reads as that value unchanged.
pub proof fn lemma_null_reads_as_zero(fields: Seq<(Seq<char>, JsonView)>, key: Seq<char>)
    ensures
        spec_lookup(fields, key) == Some(JsonView::Null) ==> {
            &&& spec_field_u64(fields, key) == Some(0u64)
            &&& spec_field_i64(fields, key) == Some(0i64)
            &&& spec_field_bool(fields, key) == Some(false)
            &&& spec_field_string(fields, key) == Some(Seq::<char>::empty())
        },
        forall|u: u64|
            spec_lookup(fields, key) == Some(JsonView::UInt(u)) ==> spec_field_u64(fields, key)
                == Some(u),
        forall|i: i64|
            spec_lookup(fields, key) == Some(JsonView::Int(i)) ==> spec_field_i64(fields, key)
                == Some(i),
        forall|b: bool|
            spec_lookup(fields, key) == Some(JsonView::Bool(b)) ==> spec_field_bool(fields, key)
                == Some(b),
        forall|s: Seq<char>|
            spec_lookup(fields, key) == Some(JsonView::Str(s)) ==> spec_field_string(fields, key)
                == Some(s),
{
}

/// Declares serde_json's document type so that the parse boundary below
/// can hand values of it through; the library never looks inside one.
#[verifier::external_type_specification]
#[verifier::external_body]
pub struct ExValue(serde_json::Value);

/// The document that the text `s` parses to, if it is well-formed JSON, as
/// this library models documents.
pub uninterp spec fn spec_parse_json(s: Seq<char>) -> Option<JsonView>;

/// The document held by a parsed `serde_json::Value`, as this library models
/// documents.
pub uninterp spec fn spec_value_tree(v: serde_json::Value) -> JsonView;

/// Relies on serde_json::from_str: whether text parses, and what it parses
/// to, depend on the text alone; a failure carries the column offset of the
/// syntax error.
#[verifier::external_body]
fn parse_document(s: &str) -> (r: Result<serde_json::Value, usize>)
    ensures
        match r {
            Ok(v) => spec_parse_json(s@) == Some(spec_value_tree(v)),
            Err(_) => spec_parse_json(s@) is None,
        },
{
    match serde_json::from_str::<serde_json::Value>(s) {
        Ok(v) => Ok(v),
        Err(e) => Err(e.column()),
    }
}

/// Relies on serde_json::Value: the conversion tells the document's variants
/// apart and moves their fields; a number that fits no integer type is
/// modeled as null.
#[verifier::external_body]
fn document_tree(v: serde_json::Value) -> (r: JsonValue)
    ensures
        r@ == spec_value_tree(v),
{
    match v {
        serde_json::Value::Null => JsonValue::Null,
        serde_json::Value::Bool(b) => JsonValue::Bool(b),
        serde_json::Value::Number(n) => match (n.as_u64(), n.as_i64()) {
            (Some(u), _) => JsonValue::UInt(u),
            (_, Some(i)) => JsonValue::Int(i),
            _ => JsonValue::Null,
        },
        serde_json::Value::String(s) => JsonValue::Str(s),
        serde_json::Value::Array(a) => JsonValue::Arr(a.into_iter().map(document_tree).collect()),
        serde_json::Value::Object(o) => JsonValue::Obj(
            o.into_iter().map(|(k, x)| (k, document_tree(x))).collect(),
        ),
    }
}

/// Parses one JSON document, or reports the column offset of the syntax
/// error for offline diagnosis.
pub fn parse_json(s: &str) -> (r: Result<JsonValue, DecodeError>)
    ensures
        match r {
            Ok(t) => spec_parse_json(s@) == Some(t@),
            Err(e) => spec_parse_json(s@) is None && e is Syntax,
        },
{
    match parse_document(s) {
        Ok(v) => Ok(document_tree(v)),
        Err(column) => Err(DecodeError::Syntax { column }),
    }
}

} // verus!
