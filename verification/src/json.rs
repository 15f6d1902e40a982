//! Structured request and response bodies.
//!
//! The body codec itself is an external collaborator: `serde_json`
//! serializes and parses the bytes.  This module models a body as a
//! list of named fields whose values are plain — null, boolean, or
//! text — with any nested or numeric value carried through as its raw
//! JSON text, and trusts `serde_json` for the byte form alone.

use vstd::prelude::*;
use vstd::string::StringExecFns;

verus! {

/// One JSON field value, as the body model carries it.
pub enum JsonVal {
    /// JSON `null`.
    Null,
    /// A JSON boolean.
    Bool(bool),
    /// A JSON string.
    Str(String),
    /// Any other JSON value — a number, array or object — as its raw
    /// JSON text.
    Raw(String),
}

/// The mathematical value of a [`JsonVal`].
pub enum JsonV {
    Null,
    Bool(bool),
    Str(Seq<char>),
    Raw(Seq<char>),
}

impl View for JsonVal {
    type V = JsonV;

    open spec fn view(&self) -> JsonV {
        match self {
            JsonVal::Null => JsonV::Null,
            JsonVal::Bool(b) => JsonV::Bool(*b),
            JsonVal::Str(s) => JsonV::Str(s@),
            JsonVal::Raw(s) => JsonV::Raw(s@),
        }
    }
}

impl Clone for JsonVal {
    fn clone(&self) -> (r: Self)
        ensures
            r@ == self@,
    {
        match self {
            JsonVal::Null => JsonVal::Null,
            JsonVal::Bool(b) => JsonVal::Bool(*b),
            JsonVal::Str(s) => JsonVal::Str(s.clone()),
            JsonVal::Raw(s) => JsonVal::Raw(s.clone()),
        }
    }
}

/// The views of a list of named body fields.
pub open spec fn json_field_views(fields: Seq<(String, JsonVal)>) -> Seq<(Seq<char>, JsonV)> {
    fields.map(|i: int, f: (String, JsonVal)| (f.0@, f.1@))
}

/// The bytes `serde_json` serializes a JSON object with the given
/// fields to.  A function of the fields alone.
pub uninterp spec fn json_object_encoding(fields: Seq<(Seq<char>, JsonV)>) -> Seq<u8>;

/// The fields `serde_json` parses the given bytes to, under this
/// module's field model, or `None` when the bytes are not a JSON
/// object.  A function of the bytes alone.
pub uninterp spec fn json_object_parsing(bytes: Seq<u8>) -> Option<Seq<(Seq<char>, JsonV)>>;

/// The view of an optional field list.
pub open spec fn opt_field_views(r: Option<Vec<(String, JsonVal)>>) -> Option<
    Seq<(Seq<char>, JsonV)>,
> {
    match r {
        Option::Some(fields) => Option::Some(json_field_views(fields@)),
        Option::None => Option::None,
    }
}

/// Relies on `serde_json::to_vec`: the serialization of a JSON object
/// is a function of its fields alone.  A `Raw` field that does not hold
/// well-formed JSON text serializes as `null`.
#[verifier::external_body]
pub fn json_object_bytes(fields: &Vec<(String, JsonVal)>) -> (r: Vec<u8>)
    ensures
        r@ == json_object_encoding(json_field_views(fields@)),
{
    let mut map = serde_json::Map::new();
    for (k, v) in fields.iter() {
        let val = match v {
            JsonVal::Null => serde_json::Value::Null,
            JsonVal::Bool(b) => serde_json::Value::Bool(*b),
            JsonVal::Str(s) => serde_json::Value::String(s.clone()),
            JsonVal::Raw(s) => serde_json::from_str(s).unwrap_or(serde_json::Value::Null),
        };
        map.insert(k.clone(), val);
    }
    serde_json::to_vec(&serde_json::Value::Object(map)).unwrap_or_default()
}

/// Relies on `serde_json::from_slice`: the parse of a byte string is a
/// function of the bytes alone, and fails exactly when they are not a
/// JSON object.  Nested and numeric values come back as raw JSON text.
#[verifier::external_body]
pub fn json_object_fields(bytes: &[u8]) -> (r: Option<Vec<(String, JsonVal)>>)
    ensures
        opt_field_views(r) == json_object_parsing(bytes@),
{
    let map: serde_json::Map<String, serde_json::Value> = match serde_json::from_slice(bytes) {
        Ok(m) => m,
        Err(_) => return None,
    };
    let mut out = Vec::new();
    for (k, v) in map {
        let val = match v {
            serde_json::Value::Null => JsonVal::Null,
            serde_json::Value::Bool(b) => JsonVal::Bool(b),
            serde_json::Value::String(s) => JsonVal::Str(s),
            other => JsonVal::Raw(other.to_string()),
        };
        out.push((k, val));
    }
    Some(out)
}

/// The value of the first field under `name`, or `None` when no field
/// carries it.
pub open spec fn spec_field_lookup(fields: Seq<(Seq<char>, JsonV)>, name: Seq<char>) -> Option<
    JsonV,
>
    decreases fields.len(),
{
    if fields.len() == 0 {
        Option::None
    } else if fields[0].0 == name {
        Option::Some(fields[0].1)
    } else {
        spec_field_lookup(fields.skip(1), name)
    }
}

/// Looks a field up by name.
pub fn field_lookup<'a>(fields: &'a Vec<(String, JsonVal)>, name: &str) -> (r: Option<
    &'a JsonVal,
>)
    ensures
        match r {
            Option::Some(v) => spec_field_lookup(json_field_views(fields@), name@)
                == Option::Some(v@),
            Option::None => spec_field_lookup(json_field_views(fields@), name@) is None,
        },
{
    let ghost fv = json_field_views(fields@);
    let mut i: usize = 0;
    proof {
        assert(fv.skip(0) =~= fv);
    }
    while i < fields.len()
        invariant
            i <= fields.len(),
            fv == json_field_views(fields@),
            fv.len() == fields@.len(),
            spec_field_lookup(fv, name@) == spec_field_lookup(fv.skip(i as int), name@),
        decreases fields.len() - i,
    {
        let ghost rest = fv.skip(i as int);
        proof {
            assert(rest[0] == fv[i as int]);
            assert(rest.skip(1) =~= fv.skip(i + 1));
        }
        if fields[i].0.eq(&String::from_str(name)) {
            return Some(&fields[i].1);
        }
        i = i + 1;
    }
    proof {
        assert(fv.skip(fv.len() as int) =~= Seq::<(Seq<char>, JsonV)>::empty());
    }
    None
}

} // verus!
