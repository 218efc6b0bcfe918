use vstd::prelude::*;

verus! {

/// A parsed JSON value. Numbers keep the literal text they were written with,
/// and object members keep the order of the document.
pub enum JsonValue {
    Null,
    Bool(bool),
    Number(String),
    Str(String),
    Array(Vec<JsonValue>),
    Object(Vec<(String, JsonValue)>),
}

} // verus!
