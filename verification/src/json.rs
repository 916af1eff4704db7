//! A JSON document as a tree of plain values, with the polymorphic field
//! normalizers, and the boundary that turns response text into such trees.

use vstd::prelude::*;

use crate::text::str_eq;
use crate::{JsonDecodeError, ParseError};

verus! {

/// A JSON document. Numbers are integral: the payloads this client reads
/// carry only integer numbers, and a document with any other number is
/// refused at the parsing boundary.
#[derive(Debug)]
pub enum Json {
    Null,
    Bool(bool),
    Int(i64),
    Str(String),
    Arr(Vec<Json>),
    Obj(Vec<(String, Json)>),
}

/// The value of the first field named `key`.
pub open spec fn lookup(fields: Seq<(String, Json)>, key: Seq<char>) -> Option<Json>
    decreases fields.len(),
{
    if fields.len() == 0 {
        None
    } else if fields[0].0@ == key {
        Some(fields[0].1)
    } else {
        lookup(fields.drop_first(), key)
    }
}

/// The value of field `key`: `None` for a non-object document or a missing
/// field.
pub open spec fn field_of(j: Json, key: Seq<char>) -> Option<Json> {
    match j {
        Json::Obj(fields) => lookup(fields@, key),
        _ => None,
    }
}

/// The characters of a JSON string node, empty for any other node.
pub open spec fn str_of(j: Json) -> Seq<char> {
    match j {
        Json::Str(s) => s@,
        _ => Seq::empty(),
    }
}

/// A short name for the shape of a document, used in error payloads.
pub open spec fn snippet_of(j: Json) -> Seq<char> {
    match j {
        Json::Null => "null"@,
        Json::Bool(_) => "a boolean"@,
        Json::Int(_) => "a number"@,
        Json::Str(_) => "a string"@,
        Json::Arr(_) => "an array"@,
        Json::Obj(_) => "an object"@,
    }
}

proof fn lookup_skip_step(fields: Seq<(String, Json)>, key: Seq<char>, i: int)
    requires
        0 <= i < fields.len(),
        fields[i].0@ != key,
        lookup(fields, key) == lookup(fields.skip(i), key),
    ensures
        lookup(fields, key) == lookup(fields.skip(i + 1), key),
{
    assert(fields.skip(i).drop_first() =~= fields.skip(i + 1));
    assert(fields.skip(i)[0] == fields[i]);
}

impl Json {
    /// The value of field `key` of an object document.
    #[verifier::loop_isolation(false)]
    pub fn get<'a>(&'a self, key: &str) -> (r: Option<&'a Json>)
        ensures
            match r {
                Some(v) => field_of(*self, key@) == Some(*v),
                None => field_of(*self, key@) is None,
            },
    {
        match self {
            Json::Obj(fields) => {
                let mut i: usize = 0;
                proof {
                    assert(fields@.skip(0) =~= fields@);
                }
                while i < fields.len()
                    invariant
                        i <= fields.len(),
                        lookup(fields@, key@) == lookup(fields@.skip(i as int), key@),
                    decreases fields.len() - i,
                {
                    let pair = &fields[i];
                    if str_eq(pair.0.as_str(), key) {
                        proof {
                            assert(fields@.skip(i as int)[0] == fields@[i as int]);
                        }
                        return Some(&pair.1);
                    }
                    proof {
                        lookup_skip_step(fields@, key@, i as int);
                    }
                    i += 1;
                }
                proof {
                    assert(fields@.skip(fields@.len() as int).len() == 0);
                }
                None
            },
            _ => None,
        }
    }

    /// A short name for the shape of this document.
    pub fn snippet(&self) -> (r: String)
        ensures
            r@ == snippet_of(*self),
    {
        match self {
            Json::Null => String::from_str("null"),
            Json::Bool(_) => String::from_str("a boolean"),
            Json::Int(_) => String::from_str("a number"),
            Json::Str(_) => String::from_str("a string"),
            Json::Arr(_) => String::from_str("an array"),
            Json::Obj(_) => String::from_str("an object"),
        }
    }
}

/// Whether every element is a JSON string.
pub open spec fn all_strings(v: Seq<Json>) -> bool {
    forall|i: int| 0 <= i < v.len() ==> (#[trigger] v[i]) is Str
}

/// The characters of each element of a string array.
pub open spec fn str_values(v: Seq<Json>) -> Seq<Seq<char>> {
    v.map_values(|j: Json| str_of(j))
}

/// An entity object: a record carrying a required string `name` and an
/// optional string `url`. Other fields are ignored.
pub open spec fn is_entity(j: Json) -> bool {
    &&& match field_of(j, "name"@) {
        Some(n) => n is Str,
        None => false,
    }
    &&& match field_of(j, "url"@) {
        None => true,
        Some(u) => u is Str || u is Null,
    }
}

/// The name carried by an entity object.
pub open spec fn entity_name(j: Json) -> Seq<char> {
    match field_of(j, "name"@) {
        Some(n) => str_of(n),
        None => Seq::empty(),
    }
}

pub open spec fn all_entities(v: Seq<Json>) -> bool {
    forall|i: int| 0 <= i < v.len() ==> is_entity(#[trigger] v[i])
}

pub open spec fn entity_names(v: Seq<Json>) -> Seq<Seq<char>> {
    v.map_values(|j: Json| entity_name(j))
}

/// The canonical value of a field that is either an array of strings or an
/// array of entity objects, strings taking priority: the list of strings,
/// or the list of entity names.
pub open spec fn strings_or_entities_of(j: Json) -> Option<Seq<Seq<char>>> {
    match j {
        Json::Arr(v) => if all_strings(v@) {
            Some(str_values(v@))
        } else if all_entities(v@) {
            Some(entity_names(v@))
        } else {
            None
        },
        _ => None,
    }
}

/// The canonical value of a field that is either one string or an array of
/// strings: always the list form.
pub open spec fn scalar_or_list_of(j: Json) -> Option<Seq<Seq<char>>> {
    match j {
        Json::Str(s) => Some(seq![s@]),
        Json::Arr(v) => if all_strings(v@) {
            Some(str_values(v@))
        } else {
            None
        },
        _ => None,
    }
}

/// The name of an entity object, or `None` where the document is not an
/// entity object.
fn entity_name_exec(j: &Json) -> (r: Option<String>)
    ensures
        match r {
            Some(s) => is_entity(*j) && s@ == entity_name(*j),
            None => !is_entity(*j),
        },
{
    let name = match j.get("name") {
        Some(Json::Str(s)) => s.clone(),
        Some(_) => {
            return None;
        },
        None => {
            return None;
        },
    };
    match j.get("url") {
        None => Some(name),
        Some(Json::Str(_)) => Some(name),
        Some(Json::Null) => Some(name),
        Some(_) => None,
    }
}

/// Normalizes a field that the API serves either as an array of strings or
/// as an array of `{name, url}` entity objects, to the flat list of strings.
/// The string shape is tried first; entity objects contribute their `name`
/// and the `url` is discarded. A field of any other shape is refused —
/// never defaulted.
#[verifier::loop_isolation(false)]
pub fn strings_or_entities(field: &str, j: &Json) -> (r: Result<Vec<String>, ParseError>)
    ensures
        match r {
            Ok(out) => strings_or_entities_of(*j) == Some(out@.map_values(|s: String| s@)),
            Err(ParseError::UnrecognizedFieldShape { field: f, raw_snippet }) => f@ == field@
                && raw_snippet@ == snippet_of(*j) && strings_or_entities_of(*j) is None,
            Err(_) => false,
        },
{
    let v = match j {
        Json::Arr(v) => v,
        _ => {
            return Err(
                ParseError::UnrecognizedFieldShape {
                    field: String::from_str(field),
                    raw_snippet: j.snippet(),
                },
            );
        },
    };
    let mut strings: Vec<String> = Vec::new();
    let mut i: usize = 0;
    let mut all_str = true;
    while i < v.len()
        invariant
            i <= v.len(),
            all_str ==> forall|k: int| 0 <= k < i ==> (#[trigger] v@[k]) is Str,
            all_str ==> strings@.map_values(|s: String| s@) =~~= str_values(v@.subrange(0, i as int)),
            !all_str ==> !all_strings(v@),
        decreases v.len() - i,
    {
        if all_str {
            match &v[i] {
                Json::Str(s) => {
                    let ghost prev = strings@.map_values(|s: String| s@);
                    strings.push(s.clone());
                    proof {
                        assert(strings@.map_values(|s: String| s@) =~~= prev.push(str_of(
                            v@[i as int],
                        )));
                        assert(str_values(v@.subrange(0, i as int + 1)) =~~= str_values(
                            v@.subrange(0, i as int),
                        ).push(str_of(v@[i as int])));
                    }
                },
                _ => {
                    all_str = false;
                },
            }
        }
        i += 1;
    }
    if all_str {
        proof {
            assert(v@.subrange(0, v@.len() as int) =~= v@);
            assert(all_strings(v@));
        }
        return Ok(strings);
    }
    let mut names: Vec<String> = Vec::new();
    let mut i: usize = 0;
    while i < v.len()
        invariant
            i <= v.len(),
            !all_strings(v@),
            forall|k: int| 0 <= k < i ==> is_entity(#[trigger] v@[k]),
            names@.map_values(|s: String| s@) =~~= entity_names(v@.subrange(0, i as int)),
        decreases v.len() - i,
    {
        let ghost prev = names@.map_values(|s: String| s@);
        match entity_name_exec(&v[i]) {
            Some(name) => {
                names.push(name);
                proof {
                    assert(names@.map_values(|s: String| s@) =~~= prev.push(entity_name(
                        v@[i as int],
                    )));
                    assert(entity_names(v@.subrange(0, i as int + 1)) =~~= entity_names(
                        v@.subrange(0, i as int),
                    ).push(entity_name(v@[i as int])));
                }
            },
            None => {
                proof {
                    assert(!is_entity(v@[i as int]));
                    assert(!all_entities(v@));
                }
                return Err(
                    ParseError::UnrecognizedFieldShape {
                        field: String::from_str(field),
                        raw_snippet: j.snippet(),
                    },
                );
            },
        }
        i += 1;
    }
    proof {
        assert(v@.subrange(0, v@.len() as int) =~= v@);
        assert(all_entities(v@));
    }
    Ok(names)
}

/// Normalizes a field that the API serves either as one string or as an
/// array of strings, to the list form: a lone string becomes a
/// single-element list. A field of any other shape is refused — never
/// defaulted.
#[verifier::loop_isolation(false)]
pub fn scalar_or_list(field: &str, j: &Json) -> (r: Result<Vec<String>, ParseError>)
    ensures
        match r {
            Ok(out) => scalar_or_list_of(*j) == Some(out@.map_values(|s: String| s@)),
            Err(ParseError::UnrecognizedFieldShape { field: f, raw_snippet }) => f@ == field@
                && raw_snippet@ == snippet_of(*j) && scalar_or_list_of(*j) is None,
            Err(_) => false,
        },
{
    match j {
        Json::Str(s) => {
            let mut out: Vec<String> = Vec::new();
            out.push(s.clone());
            proof {
                assert(out@.map_values(|s: String| s@) =~~= seq![s@]);
            }
            Ok(out)
        },
        Json::Arr(v) => {
            let mut out: Vec<String> = Vec::new();
            let mut i: usize = 0;
            while i < v.len()
                invariant
                    i <= v.len(),
                    forall|k: int| 0 <= k < i ==> (#[trigger] v@[k]) is Str,
                    out@.map_values(|s: String| s@) =~~= str_values(v@.subrange(0, i as int)),
                decreases v.len() - i,
            {
                let ghost prev = out@.map_values(|s: String| s@);
                match &v[i] {
                    Json::Str(s) => {
                        out.push(s.clone());
                        proof {
                            assert(out@.map_values(|s: String| s@) =~~= prev.push(str_of(
                                v@[i as int],
                            )));
                            assert(str_values(v@.subrange(0, i as int + 1)) =~~= str_values(
                                v@.subrange(0, i as int),
                            ).push(str_of(v@[i as int])));
                        }
                    },
                    _ => {
                        proof {
                            assert(!(v@[i as int] is Str));
                            assert(!all_strings(v@));
                        }
                        return Err(
                            ParseError::UnrecognizedFieldShape {
                                field: String::from_str(field),
                                raw_snippet: j.snippet(),
                            },
                        );
                    },
                }
                i += 1;
            }
            proof {
                assert(v@.subrange(0, v@.len() as int) =~= v@);
                assert(all_strings(v@));
            }
            Ok(out)
        },
        _ => Err(
            ParseError::UnrecognizedFieldShape {
                field: String::from_str(field),
                raw_snippet: j.snippet(),
            },
        ),
    }
}

/// The characters of a string field, empty where the field is missing or
/// not a string.
pub open spec fn str_field_val(j: Json, key: Seq<char>) -> Seq<char> {
    match field_of(j, key) {
        Some(v) => str_of(v),
        None => Seq::empty(),
    }
}

/// The elements of an array field, empty where the field is missing or not
/// an array.
pub open spec fn arr_field(j: Json, key: Seq<char>) -> Seq<Json> {
    match field_of(j, key) {
        Some(Json::Arr(v)) => v@,
        _ => Seq::empty(),
    }
}

/// A required string field is present and a string.
pub open spec fn req_str_ok(j: Json, key: Seq<char>) -> bool {
    match field_of(j, key) {
        Some(v) => v is Str,
        None => false,
    }
}

/// An optional string field is absent, null, or a string.
pub open spec fn opt_str_ok(j: Json, key: Seq<char>) -> bool {
    match field_of(j, key) {
        None => true,
        Some(v) => v is Str || v is Null,
    }
}

/// An optional integer field is absent, null, or an integer in `[lo, hi]`.
pub open spec fn opt_int_ok(j: Json, key: Seq<char>, lo: int, hi: int) -> bool {
    match field_of(j, key) {
        None => true,
        Some(Json::Null) => true,
        Some(Json::Int(v)) => lo <= v <= hi,
        Some(_) => false,
    }
}

/// A required string-array field is present and an array of strings.
pub open spec fn req_str_array_ok(j: Json, key: Seq<char>) -> bool {
    match field_of(j, key) {
        Some(Json::Arr(v)) => all_strings(v@),
        _ => false,
    }
}

/// The integer value of field `key`, when it lies in `[lo, hi]`.
pub open spec fn int_in_range(j: Json, key: Seq<char>, lo: int, hi: int) -> Option<int> {
    match field_of(j, key) {
        Some(Json::Int(v)) => if lo <= v <= hi {
            Some(v as int)
        } else {
            None
        },
        _ => None,
    }
}

/// Reads a required string field.
pub fn req_string(j: &Json, key: &str) -> (r: Result<String, JsonDecodeError>)
    ensures
        match r {
            Ok(s) => field_of(*j, key@) matches Some(v) && v == Json::Str(s),
            Err(e) => e.field@ == key@ && !(field_of(*j, key@) matches Some(v) && v is Str),
        },
{
    match j.get(key) {
        Some(Json::Str(s)) => Ok(s.clone()),
        _ => Err(JsonDecodeError { field: String::from_str(key) }),
    }
}

/// Reads an optional string field: an absent or null field is `None`.
pub fn opt_string(j: &Json, key: &str) -> (r: Result<Option<String>, JsonDecodeError>)
    ensures
        match r {
            Ok(Some(s)) => field_of(*j, key@) == Some(Json::Str(s)),
            Ok(None) => field_of(*j, key@) is None || field_of(*j, key@) == Some(Json::Null),
            Err(e) => e.field@ == key@ && match field_of(*j, key@) {
                Some(v) => !(v is Str) && !(v is Null),
                None => false,
            },
        },
{
    match j.get(key) {
        Some(Json::Str(s)) => Ok(Some(s.clone())),
        Some(Json::Null) => Ok(None),
        Some(_) => Err(JsonDecodeError { field: String::from_str(key) }),
        None => Ok(None),
    }
}

/// Reads a required integer field whose value must lie in `[lo, hi]`.
pub fn req_int(j: &Json, key: &str, lo: i64, hi: i64) -> (r: Result<i64, JsonDecodeError>)
    ensures
        match r {
            Ok(v) => int_in_range(*j, key@, lo as int, hi as int) == Some(v as int),
            Err(e) => e.field@ == key@ && int_in_range(*j, key@, lo as int, hi as int) is None,
        },
{
    match j.get(key) {
        Some(Json::Int(v)) => {
            if lo <= *v && *v <= hi {
                Ok(*v)
            } else {
                Err(JsonDecodeError { field: String::from_str(key) })
            }
        },
        _ => Err(JsonDecodeError { field: String::from_str(key) }),
    }
}

/// Reads an optional integer field whose value, when present and non-null,
/// must lie in `[lo, hi]`.
pub fn opt_int(j: &Json, key: &str, lo: i64, hi: i64) -> (r: Result<
    Option<i64>,
    JsonDecodeError,
>)
    ensures
        match r {
            Ok(Some(v)) => int_in_range(*j, key@, lo as int, hi as int) == Some(v as int),
            Ok(None) => field_of(*j, key@) is None || field_of(*j, key@) == Some(Json::Null),
            Err(e) => e.field@ == key@ && match field_of(*j, key@) {
                Some(Json::Int(v)) => !(lo <= v <= hi),
                Some(v) => !(v is Null),
                None => false,
            },
        },
{
    match j.get(key) {
        Some(Json::Int(v)) => {
            if lo <= *v && *v <= hi {
                Ok(Some(*v))
            } else {
                Err(JsonDecodeError { field: String::from_str(key) })
            }
        },
        Some(Json::Null) => Ok(None),
        Some(_) => Err(JsonDecodeError { field: String::from_str(key) }),
        None => Ok(None),
    }
}

/// The string elements of an array field, when every element is a string.
pub open spec fn str_array_of(j: Json, key: Seq<char>) -> Option<Seq<Seq<char>>> {
    match field_of(j, key) {
        Some(Json::Arr(v)) => if all_strings(v@) {
            Some(str_values(v@))
        } else {
            None
        },
        _ => None,
    }
}

/// Reads a string-array field that the schema defaults: an absent field is
/// the empty list, a present field must be an array of strings.
#[verifier::loop_isolation(false)]
pub fn str_array_or_empty(j: &Json, key: &str) -> (r: Result<Vec<String>, JsonDecodeError>)
    ensures
        match r {
            Ok(out) => (field_of(*j, key@) is None && out@.len() == 0) || str_array_of(*j, key@)
                == Some(out@.map_values(|s: String| s@)),
            Err(e) => e.field@ == key@ && field_of(*j, key@) is Some && str_array_of(*j, key@)
                is None,
        },
{
    let arr = match j.get(key) {
        None => {
            let out: Vec<String> = Vec::new();
            proof {
                assert(out@.len() == 0);
            }
            return Ok(out);
        },
        Some(Json::Arr(v)) => v,
        Some(_) => {
            return Err(JsonDecodeError { field: String::from_str(key) });
        },
    };
    let mut out: Vec<String> = Vec::new();
    let mut i: usize = 0;
    while i < arr.len()
        invariant
            i <= arr.len(),
            forall|k: int| 0 <= k < i ==> (#[trigger] arr@[k]) is Str,
            out@.map_values(|s: String| s@) =~~= str_values(arr@.subrange(0, i as int)),
        decreases arr.len() - i,
    {
        let ghost prev = out@.map_values(|s: String| s@);
        match &arr[i] {
            Json::Str(s) => {
                out.push(s.clone());
                proof {
                    assert(out@.map_values(|s: String| s@) =~~= prev.push(str_of(arr@[i as int])));
                    assert(str_values(arr@.subrange(0, i as int + 1)) =~~= str_values(
                        arr@.subrange(0, i as int),
                    ).push(str_of(arr@[i as int])));
                }
            },
            _ => {
                proof {
                    assert(!(arr@[i as int] is Str));
                    assert(!all_strings(arr@));
                }
                return Err(JsonDecodeError { field: String::from_str(key) });
            },
        }
        i += 1;
    }
    proof {
        assert(arr@.subrange(0, arr@.len() as int) =~= arr@);
        assert(all_strings(arr@));
    }
    Ok(out)
}

/// Reads a required string-array field.
#[verifier::loop_isolation(false)]
pub fn req_str_array(j: &Json, key: &str) -> (r: Result<Vec<String>, JsonDecodeError>)
    ensures
        match r {
            Ok(out) => req_str_array_ok(*j, key@) && out@.map_values(|s: String| s@) == str_values(
                arr_field(*j, key@),
            ),
            Err(e) => e.field@ == key@ && !req_str_array_ok(*j, key@),
        },
{
    let arr = match j.get(key) {
        Some(Json::Arr(v)) => v,
        _ => {
            return Err(JsonDecodeError { field: String::from_str(key) });
        },
    };
    let mut out: Vec<String> = Vec::new();
    let mut i: usize = 0;
    while i < arr.len()
        invariant
            i <= arr.len(),
            forall|k: int| 0 <= k < i ==> (#[trigger] arr@[k]) is Str,
            out@.map_values(|s: String| s@) =~~= str_values(arr@.subrange(0, i as int)),
        decreases arr.len() - i,
    {
        let ghost prev = out@.map_values(|s: String| s@);
        match &arr[i] {
            Json::Str(s) => {
                out.push(s.clone());
                proof {
                    assert(out@.map_values(|s: String| s@) =~~= prev.push(str_of(arr@[i as int])));
                    assert(str_values(arr@.subrange(0, i as int + 1)) =~~= str_values(
                        arr@.subrange(0, i as int),
                    ).push(str_of(arr@[i as int])));
                }
            },
            _ => {
                proof {
                    assert(!(arr@[i as int] is Str));
                    assert(!all_strings(arr@));
                }
                return Err(JsonDecodeError { field: String::from_str(key) });
            },
        }
        i += 1;
    }
    proof {
        assert(arr@.subrange(0, arr@.len() as int) =~= arr@);
        assert(all_strings(arr@));
        assert(str_values(arr@) == str_values(arr_field(*j, key@)));
    }
    Ok(out)
}

/// The elements of an array node, empty for any other node.
pub open spec fn elems_of(j: Json) -> Seq<Json> {
    match j {
        Json::Arr(v) => v@,
        _ => Seq::empty(),
    }
}

/// The fields of an object field, empty where the field is missing or not
/// an object.
pub open spec fn obj_fields(j: Json, key: Seq<char>) -> Seq<(String, Json)> {
    match field_of(j, key) {
        Some(Json::Obj(fs)) => fs@,
        _ => Seq::empty(),
    }
}

/// Reads an array-of-strings node.
#[verifier::loop_isolation(false)]
pub fn str_array_node(j: &Json, context: &str) -> (r: Result<Vec<String>, JsonDecodeError>)
    ensures
        match r {
            Ok(out) => (*j matches Json::Arr(v) && all_strings(v@)) && out@.map_values(
                |s: String| s@,
            ) == str_values(elems_of(*j)),
            Err(e) => e.field@ == context@ && !(*j matches Json::Arr(v) && all_strings(v@)),
        },
{
    let arr = match j {
        Json::Arr(v) => v,
        _ => {
            return Err(JsonDecodeError { field: String::from_str(context) });
        },
    };
    let mut out: Vec<String> = Vec::new();
    let mut i: usize = 0;
    while i < arr.len()
        invariant
            i <= arr.len(),
            forall|k: int| 0 <= k < i ==> (#[trigger] arr@[k]) is Str,
            out@.map_values(|s: String| s@) =~~= str_values(arr@.subrange(0, i as int)),
        decreases arr.len() - i,
    {
        let ghost prev = out@.map_values(|s: String| s@);
        match &arr[i] {
            Json::Str(s) => {
                out.push(s.clone());
                proof {
                    assert(out@.map_values(|s: String| s@) =~~= prev.push(str_of(arr@[i as int])));
                    assert(str_values(arr@.subrange(0, i as int + 1)) =~~= str_values(
                        arr@.subrange(0, i as int),
                    ).push(str_of(arr@[i as int])));
                }
            },
            _ => {
                proof {
                    assert(!(arr@[i as int] is Str));
                    assert(!all_strings(arr@));
                }
                return Err(JsonDecodeError { field: String::from_str(context) });
            },
        }
        i += 1;
    }
    proof {
        assert(arr@.subrange(0, arr@.len() as int) =~= arr@);
        assert(all_strings(arr@));
    }
    Ok(out)
}

/// An array field of integers in `[lo, hi]`, absent fields defaulting to
/// the empty array.
pub open spec fn int_array_ok(j: Json, key: Seq<char>, lo: int, hi: int) -> bool {
    match field_of(j, key) {
        None => true,
        Some(Json::Arr(v)) => forall|i: int|
            0 <= i < v@.len() ==> ((#[trigger] v@[i]) matches Json::Int(n) && lo <= n <= hi),
        Some(_) => false,
    }
}

/// The integer elements of an array field.
pub open spec fn int_values(v: Seq<Json>) -> Seq<int> {
    v.map_values(
        |j: Json|
            match j {
                Json::Int(n) => n as int,
                _ => 0,
            },
    )
}

/// Reads an array of unsigned 32-bit integers, an absent field giving the
/// empty list.
#[verifier::loop_isolation(false)]
pub fn u32_array_or_empty(j: &Json, key: &str) -> (r: Result<Vec<u32>, JsonDecodeError>)
    ensures
        match r {
            Ok(out) => int_array_ok(*j, key@, 0, u32::MAX as int) && out@.map_values(
                |n: u32| n as int,
            ) == int_values(arr_field(*j, key@)),
            Err(e) => e.field@ == key@ && !int_array_ok(*j, key@, 0, u32::MAX as int),
        },
{
    let arr = match j.get(key) {
        None => {
            let out: Vec<u32> = Vec::new();
            proof {
                assert(out@.map_values(|n: u32| n as int) =~= int_values(arr_field(*j, key@)));
            }
            return Ok(out);
        },
        Some(Json::Arr(v)) => v,
        Some(_) => {
            return Err(JsonDecodeError { field: String::from_str(key) });
        },
    };
    let mut out: Vec<u32> = Vec::new();
    let mut i: usize = 0;
    while i < arr.len()
        invariant
            i <= arr.len(),
            forall|k: int|
                0 <= k < i ==> ((#[trigger] arr@[k]) matches Json::Int(n) && 0 <= n <= u32::MAX
                    as int),
            out@.map_values(|n: u32| n as int) =~~= int_values(arr@.subrange(0, i as int)),
        decreases arr.len() - i,
    {
        let ghost prev = out@.map_values(|n: u32| n as int);
        match &arr[i] {
            Json::Int(n) => {
                if 0 <= *n && *n <= u32::MAX as i64 {
                    out.push(*n as u32);
                    proof {
                        assert(out@.map_values(|n: u32| n as int) =~~= prev.push(
                            int_values(arr@)[i as int],
                        ));
                        assert(int_values(arr@.subrange(0, i as int + 1)) =~~= int_values(
                            arr@.subrange(0, i as int),
                        ).push(int_values(arr@)[i as int]));
                    }
                } else {
                    return Err(JsonDecodeError { field: String::from_str(key) });
                }
            },
            _ => {
                return Err(JsonDecodeError { field: String::from_str(key) });
            },
        }
        i += 1;
    }
    proof {
        assert(arr@.subrange(0, arr@.len() as int) =~= arr@);
    }
    Ok(out)
}

/// Reads a required boolean field.
pub fn req_bool(j: &Json, key: &str) -> (r: Result<bool, JsonDecodeError>)
    ensures
        match r {
            Ok(b) => field_of(*j, key@) == Some(Json::Bool(b)),
            Err(e) => e.field@ == key@ && !(field_of(*j, key@) matches Some(v) && v is Bool),
        },
{
    match j.get(key) {
        Some(Json::Bool(b)) => Ok(*b),
        _ => Err(JsonDecodeError { field: String::from_str(key) }),
    }
}

/// Reads an array of signed 32-bit integers, an absent field giving the
/// empty list.
#[verifier::loop_isolation(false)]
pub fn i32_array_or_empty(j: &Json, key: &str) -> (r: Result<Vec<i32>, JsonDecodeError>)
    ensures
        match r {
            Ok(out) => int_array_ok(*j, key@, i32::MIN as int, i32::MAX as int) && out@.map_values(
                |n: i32| n as int,
            ) == int_values(arr_field(*j, key@)),
            Err(e) => e.field@ == key@ && !int_array_ok(*j, key@, i32::MIN as int, i32::MAX as int),
        },
{
    let arr = match j.get(key) {
        None => {
            let out: Vec<i32> = Vec::new();
            proof {
                assert(out@.map_values(|n: i32| n as int) =~= int_values(arr_field(*j, key@)));
            }
            return Ok(out);
        },
        Some(Json::Arr(v)) => v,
        Some(_) => {
            return Err(JsonDecodeError { field: String::from_str(key) });
        },
    };
    let mut out: Vec<i32> = Vec::new();
    let mut i: usize = 0;
    while i < arr.len()
        invariant
            i <= arr.len(),
            forall|k: int|
                0 <= k < i ==> ((#[trigger] arr@[k]) matches Json::Int(n) && i32::MIN as int <= n
                    <= i32::MAX as int),
            out@.map_values(|n: i32| n as int) =~~= int_values(arr@.subrange(0, i as int)),
        decreases arr.len() - i,
    {
        let ghost prev = out@.map_values(|n: i32| n as int);
        match &arr[i] {
            Json::Int(n) => {
                if i32::MIN as i64 <= *n && *n <= i32::MAX as i64 {
                    out.push(*n as i32);
                    proof {
                        assert(out@.map_values(|n: i32| n as int) =~~= prev.push(
                            int_values(arr@)[i as int],
                        ));
                        assert(int_values(arr@.subrange(0, i as int + 1)) =~~= int_values(
                            arr@.subrange(0, i as int),
                        ).push(int_values(arr@)[i as int]));
                    }
                } else {
                    return Err(JsonDecodeError { field: String::from_str(key) });
                }
            },
            _ => {
                return Err(JsonDecodeError { field: String::from_str(key) });
            },
        }
        i += 1;
    }
    proof {
        assert(arr@.subrange(0, arr@.len() as int) =~= arr@);
    }
    Ok(out)
}

/// Shape of an object field whose values are all strings.
pub open spec fn str_map_ok(j: Json, key: Seq<char>) -> bool {
    match field_of(j, key) {
        Some(Json::Obj(fs)) => forall|i: int| 0 <= i < fs@.len() ==> (#[trigger] fs@[i]).1 is Str,
        _ => false,
    }
}

/// Reads a required object field whose values are all strings, as ordered
/// key/value pairs.
#[verifier::loop_isolation(false)]
pub fn req_str_map(j: &Json, key: &str) -> (r: Result<Vec<(String, String)>, JsonDecodeError>)
    ensures
        match r {
            Ok(out) => ({
                let fs = obj_fields(*j, key@);
                &&& str_map_ok(*j, key@)
                &&& out@.len() == fs.len()
                &&& forall|i: int|
                    0 <= i < out@.len() ==> (#[trigger] out@[i]).0@ == fs[i].0@ && out@[i].1@
                        == str_of(fs[i].1)
            }),
            Err(e) => e.field@ == key@ && !str_map_ok(*j, key@),
        },
{
    let fields = match j.get(key) {
        Some(Json::Obj(fs)) => fs,
        _ => {
            return Err(JsonDecodeError { field: String::from_str(key) });
        },
    };
    let mut out: Vec<(String, String)> = Vec::new();
    let mut i: usize = 0;
    while i < fields.len()
        invariant
            i <= fields.len(),
            out@.len() == i,
            forall|k: int| 0 <= k < i ==> (#[trigger] fields@[k]).1 is Str,
            forall|k: int|
                0 <= k < i ==> (#[trigger] out@[k]).0@ == fields@[k].0@ && out@[k].1@ == str_of(
                    fields@[k].1,
                ),
        decreases fields.len() - i,
    {
        let pair = &fields[i];
        match &pair.1 {
            Json::Str(s) => {
                out.push((pair.0.clone(), s.clone()));
            },
            _ => {
                return Err(JsonDecodeError { field: String::from_str(key) });
            },
        }
        i += 1;
    }
    Ok(out)
}

#[verifier::external_type_specification]
#[verifier::external_body]
pub struct ExSerdeValue(serde_json::Value);

/// Relies on serde_json::Value's variants and on Number::as_i64: translates
/// one parsed node per arm, one-for-one; a number that is not an i64 integer
/// makes the whole translation fail.
#[verifier::external_body]
fn convert_value(v: &serde_json::Value) -> (r: Option<Json>) {
    match v {
        serde_json::Value::Null => Some(Json::Null),
        serde_json::Value::Bool(b) => Some(Json::Bool(*b)),
        serde_json::Value::Number(n) => n.as_i64().map(Json::Int),
        serde_json::Value::String(s) => Some(Json::Str(s.clone())),
        serde_json::Value::Array(a) => {
            a.iter().map(convert_value).collect::<Option<Vec<Json>>>().map(Json::Arr)
        },
        serde_json::Value::Object(o) => {
            o.iter().map(
                |(k, x)| convert_value(x).map(|j| (k.clone(), j)),
            ).collect::<Option<Vec<(String, Json)>>>().map(Json::Obj)
        },
    }
}

/// The document that JSON text parses to, `None` where the text is not
/// JSON or holds a number this crate's tree cannot carry. Parsing is
/// deterministic in the text alone, so the result carries a name rather
/// than the JSON grammar.
pub uninterp spec fn parsed_json(s: Seq<char>) -> Option<Json>;

/// Relies on serde_json::from_str::<serde_json::Value>: parses JSON text
/// into a value tree. The error string is serde_json's message, or names
/// the one construct this crate's tree cannot hold.
#[verifier::external_body]
pub(crate) fn json_from_str(s: &str) -> (r: Result<Json, String>)
    ensures
        match r {
            Ok(j) => parsed_json(s@) == Some(j),
            Err(_) => parsed_json(s@) is None,
        },
{
    match serde_json::from_str::<serde_json::Value>(s) {
        Ok(v) => match convert_value(&v) {
            Some(j) => Ok(j),
            None => Err(String::from("number out of integer range")),
        },
        Err(e) => Err(e.to_string()),
    }
}

} // verus!
