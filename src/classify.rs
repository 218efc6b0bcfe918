use vstd::prelude::*;
use crate::error::{ErrorModel, GenerateError};
use crate::tree::{Repr, TokenVariant};
use crate::value::JsonValue;

verus! {

pub open spec fn hex_digit(d: u32) -> char {
    seq!['0', '1', '2', '3', '4', '5', '6', '7', '8', '9', 'a', 'b', 'c', 'd', 'e', 'f'][d as int]
}

/// How one character is written inside a JSON string: the quote, the
/// backslash and the control characters are escaped, the rest kept.
pub open spec fn json_char_escape(c: char) -> Seq<char> {
    if c == '"' {
        seq!['\\', '"']
    } else if c == '\\' {
        seq!['\\', '\\']
    } else if c == '\u{8}' {
        seq!['\\', 'b']
    } else if c == '\t' {
        seq!['\\', 't']
    } else if c == '\n' {
        seq!['\\', 'n']
    } else if c == '\u{c}' {
        seq!['\\', 'f']
    } else if c == '\r' {
        seq!['\\', 'r']
    } else if (c as u32) < 0x20 {
        seq!['\\', 'u', '0', '0', hex_digit((c as u32) / 16), hex_digit((c as u32) % 16)]
    } else {
        seq![c]
    }
}

pub open spec fn json_escaped(s: Seq<char>) -> Seq<char>
    decreases s.len(),
{
    if s.len() == 0 {
        Seq::empty()
    } else {
        json_escaped(s.drop_last()) + json_char_escape(s.last())
    }
}

/// A text as a JSON string: quoted, with its characters escaped.
pub open spec fn json_quoted(s: Seq<char>) -> Seq<char> {
    seq!['"'] + json_escaped(s) + seq!['"']
}

/// Relies on `serde_json::to_string` on a `str`: the text in quotes, with
/// `"`, `\\` and the control characters escaped as `json_char_escape` says.
/// Writing a `str` into its in-memory buffer does not fail.
#[verifier::external_body]
fn json_quote(s: &str) -> (r: String)
    ensures
        r@ == json_quoted(s@),
{
    serde_json::to_string(s).unwrap_or_default()
}

/// The parts written one after another, with `sep` between two neighbours.
pub open spec fn joined(parts: Seq<Seq<char>>, sep: Seq<char>) -> Seq<char>
    decreases parts.len(),
{
    if parts.len() == 0 {
        Seq::empty()
    } else if parts.len() == 1 {
        parts[0]
    } else {
        joined(parts.drop_last(), sep) + sep + parts.last()
    }
}

pub proof fn lemma_joined_push(parts: Seq<Seq<char>>, sep: Seq<char>, i: int)
    requires
        0 <= i < parts.len(),
    ensures
        joined(parts.take(i + 1), sep) == if i == 0 {
            parts[0]
        } else {
            joined(parts.take(i), sep) + sep + parts[i]
        },
{
    assert(parts.take(i + 1).drop_last() =~= parts.take(i));
}

pub open spec fn bool_text(b: bool) -> Seq<char> {
    if b {
        "true"@
    } else {
        "false"@
    }
}

/// Compact JSON text of a value, as `serde_json` writes it.
pub open spec fn json_text(v: JsonValue) -> Seq<char>
    decreases v,
{
    match v {
        JsonValue::Null => "null"@,
        JsonValue::Bool(b) => bool_text(b),
        JsonValue::Number(t) => t@,
        JsonValue::Str(s) => json_quoted(s@),
        JsonValue::Array(a) => "["@ + joined(element_texts(a@), ","@) + "]"@,
        JsonValue::Object(m) => "{"@ + joined(member_texts(m@), ","@) + "}"@,
    }
}

/// The JSON texts of the elements of an array.
pub open spec fn element_texts(a: Seq<JsonValue>) -> Seq<Seq<char>>
    decreases a,
{
    Seq::new(
        a.len(),
        |i: int|
            if 0 <= i < a.len() {
                json_text(a[i])
            } else {
                Seq::empty()
            },
    )
}

/// The JSON texts `"key":value` of the members of an object.
pub open spec fn member_texts(m: Seq<(String, JsonValue)>) -> Seq<Seq<char>>
    decreases m,
{
    Seq::new(
        m.len(),
        |i: int|
            if 0 <= i < m.len() {
                json_quoted(m[i].0@) + ":"@ + json_text(m[i].1)
            } else {
                Seq::empty()
            },
    )
}

/// The text a value renders to as a constant or as an array element: a string
/// verbatim, a number as its literal, a boolean as `true` or `false`, null as
/// the empty text, and anything nested as its JSON text.
pub open spec fn item_text(v: JsonValue) -> Seq<char> {
    match v {
        JsonValue::Null => Seq::empty(),
        JsonValue::Bool(b) => bool_text(b),
        JsonValue::Number(t) => t@,
        JsonValue::Str(s) => s@,
        _ => json_text(v),
    }
}

/// Index of the first object in `a` at or after `i`, or `a.len()` if none.
pub open spec fn first_object_from(a: Seq<JsonValue>, i: int) -> int
    decreases a.len() - i,
{
    if i < 0 || i >= a.len() {
        a.len() as int
    } else if a[i] is Object {
        i
    } else {
        first_object_from(a, i + 1)
    }
}

pub open spec fn first_object(a: Seq<JsonValue>) -> int {
    first_object_from(a, 0)
}

/// What a value under `key` is classified and rendered as.
pub open spec fn classify(key: Seq<char>, v: JsonValue) -> Result<Repr, ErrorModel> {
    match v {
        JsonValue::Array(a) => if first_object(a@) < a@.len() {
            Err(ErrorModel::ArrayContainsObject { key, index: first_object(a@) as nat })
        } else {
            Ok(Repr::Array(a@.map_values(|e: JsonValue| item_text(e))))
        },
        _ => Ok(Repr::Scalar(item_text(v))),
    }
}

fn bool_str(b: bool) -> (r: &'static str)
    ensures
        r@ == bool_text(b),
{
    if b {
        "true"
    } else {
        "false"
    }
}

/// Writes the compact JSON text of `v`.
pub fn json_text_of(v: &JsonValue) -> (r: String)
    ensures
        r@ == json_text(*v),
    decreases v,
{
    match v {
        JsonValue::Null => "null".to_owned(),
        JsonValue::Bool(b) => bool_str(*b).to_owned(),
        JsonValue::Number(t) => t.clone(),
        JsonValue::Str(s) => json_quote(s.as_str()),
        JsonValue::Array(a) => {
            let ghost parts = element_texts(a@);
            let mut out = "[".to_owned();
            let mut i: usize = 0;
            while i < a.len()
                invariant
                    *v == JsonValue::Array(*a),
                    i <= a@.len(),
                    parts.len() == a@.len(),
                    forall|j: int| 0 <= j < a@.len() ==> parts[j] == json_text(a@[j]),
                    out@ == "["@ + joined(parts.take(i as int), ","@),
                decreases a.len() - i,
            {
                proof {
                    lemma_joined_push(parts, ","@, i as int);
                    assert(parts.take(0) =~= Seq::empty());
                }
                if i > 0 {
                    out.append(",");
                }
                proof {
                    assert(decreases_to!(*v => (*v)->Array_0));
                    assert(decreases_to!(*a => a@));
                    assert(decreases_to!(a@ => a@[i as int]));
                    assert(decreases_to!(*v => a@[i as int]));
                }
                let t = json_text_of(&a[i]);
                out.append(t.as_str());
                i = i + 1;
            }
            assert(parts.take(a@.len() as int) =~= parts);
            out.append("]");
            assert(out@ == "["@ + joined(parts, ","@) + "]"@);
            assert(json_text(*v) == "["@ + joined(parts, ","@) + "]"@);
            out
        },
        JsonValue::Object(m) => {
            let ghost parts = member_texts(m@);
            let mut out = "{".to_owned();
            let mut i: usize = 0;
            while i < m.len()
                invariant
                    *v == JsonValue::Object(*m),
                    i <= m@.len(),
                    parts.len() == m@.len(),
                    forall|j: int|
                        0 <= j < m@.len() ==> parts[j] == json_quoted(m@[j].0@) + ":"@
                            + json_text(m@[j].1),
                    out@ == "{"@ + joined(parts.take(i as int), ","@),
                decreases m.len() - i,
            {
                proof {
                    lemma_joined_push(parts, ","@, i as int);
                    assert(parts.take(0) =~= Seq::empty());
                }
                if i > 0 {
                    out.append(",");
                }
                let k = json_quote(m[i].0.as_str());
                out.append(k.as_str());
                out.append(":");
                proof {
                    assert(decreases_to!(*v => (*v)->Object_0));
                    assert(decreases_to!(*m => m@));
                    assert(decreases_to!(m@[i as int] => m@[i as int].1));
                    assert(decreases_to!(m@ => m@[i as int]));
                    assert(decreases_to!(*v => m@[i as int].1));
                }
                let t = json_text_of(&m[i].1);
                out.append(t.as_str());
                i = i + 1;
            }
            assert(parts.take(m@.len() as int) =~= parts);
            out.append("}");
            assert(out@ == "{"@ + joined(parts, ","@) + "}"@);
            assert(json_text(*v) == "{"@ + joined(parts, ","@) + "}"@);
            out
        },
    }
}

/// Renders a value as a constant or an array element (see `item_text`).
pub fn item_text_of(v: &JsonValue) -> (r: String)
    ensures
        r@ == item_text(*v),
{
    match v {
        JsonValue::Null => String::new(),
        JsonValue::Bool(b) => bool_str(*b).to_owned(),
        JsonValue::Number(t) => t.clone(),
        JsonValue::Str(s) => s.clone(),
        _ => json_text_of(v),
    }
}

/// Classifies the value found under `key` and renders it: an array becomes an
/// array of texts, unless one of its elements is an object; anything else
/// becomes a single text.
pub fn classify_and_render(key: &str, v: &JsonValue) -> (r: Result<TokenVariant, GenerateError>)
    ensures
        match (r, classify(key@, *v)) {
            (Ok(t), Ok(m)) => t@ == m,
            (Err(e), Err(m)) => e@ == m,
            _ => false,
        },
{
    match v {
        JsonValue::Array(a) => {
            let mut texts: Vec<String> = Vec::new();
            let mut i: usize = 0;
            while i < a.len()
                invariant
                    *v == JsonValue::Array(*a),
                    i <= a@.len(),
                    first_object(a@) == first_object_from(a@, i as int),
                    texts@.len() == i,
                    forall|j: int| 0 <= j < i ==> (#[trigger] texts@[j])@ == item_text(a@[j]),
                decreases a.len() - i,
            {
                if let JsonValue::Object(_) = &a[i] {
                    assert(first_object_from(a@, i as int) == i);
                    return Err(GenerateError::ArrayContainsObject { key: key.to_owned(), index: i });
                }
                let t = item_text_of(&a[i]);
                texts.push(t);
                i = i + 1;
            }
            let r = TokenVariant::from_iter(texts);
            assert(texts@.map_values(|s: String| s@) =~= a@.map_values(|e: JsonValue| item_text(e)));
            Ok(r)
        },
        _ => {
            let t = item_text_of(v);
            Ok(TokenVariant::Single(t))
        },
    }
}

} // verus!
