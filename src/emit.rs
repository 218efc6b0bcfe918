use vstd::prelude::*;
use crate::builder::{build, parse_json};
use crate::classify::{joined, lemma_joined_push};
use crate::error::{ErrorModel, GenerateError};
use crate::tree::{
    entry_model, ns_model, EntryModel, JsonNamespace, NamespaceModel, Repr, Token, TokenJson,
    TokenVariant,
};
use crate::value::JsonValue;

verus! {

/// What `str::escape_debug` makes of a text: each character escaped as
/// `char::escape_debug` does, which leaves text that can stand between the
/// quotes of a string literal.
pub uninterp spec fn debug_escaped_of(s: Seq<char>) -> Seq<char>;

/// Relies on `str::escape_debug` (written out through its `Display`): the
/// escaped form of the text, which depends on its characters alone.
#[verifier::external_body]
fn escape_text(s: &str) -> (r: String)
    ensures
        r@ == debug_escaped_of(s@),
{
    s.escape_debug().to_string()
}

/// A text as a string literal: quoted, with its characters escaped.
pub open spec fn string_literal_of(s: Seq<char>) -> Seq<char> {
    "\""@ + debug_escaped_of(s) + "\""@
}

/// Writes a text as a string literal.
fn string_literal(s: &str) -> (r: String)
    ensures
        r@ == string_literal_of(s@),
{
    let mut out = "\"".to_owned();
    let e = escape_text(s);
    out.append(e.as_str());
    out.append("\"");
    out
}

pub open spec fn digit(d: nat) -> Seq<char> {
    if d == 0 {
        "0"@
    } else if d == 1 {
        "1"@
    } else if d == 2 {
        "2"@
    } else if d == 3 {
        "3"@
    } else if d == 4 {
        "4"@
    } else if d == 5 {
        "5"@
    } else if d == 6 {
        "6"@
    } else if d == 7 {
        "7"@
    } else if d == 8 {
        "8"@
    } else {
        "9"@
    }
}

/// Decimal digits of `n`, without leading zeros.
pub open spec fn decimal(n: nat) -> Seq<char>
    decreases n,
{
    if n < 10 {
        digit(n)
    } else {
        decimal(n / 10) + digit(n % 10)
    }
}

/// The string literals of the texts, in order.
pub open spec fn literals(ts: Seq<Seq<char>>) -> Seq<Seq<char>> {
    Seq::new(ts.len(), |i: int| string_literal_of(ts[i]))
}

/// The declaration of one constant, on a line of its own.
pub open spec fn constant_text(pad: Seq<char>, name: Seq<char>, r: Repr) -> Seq<char> {
    match r {
        Repr::Scalar(t) => pad + "pub const "@ + name + ": &str = "@ + string_literal_of(t) + ";\n"@,
        Repr::Array(ts) => pad + "pub const "@ + name + ": [&str; "@ + decimal(ts.len()) + "] = ["@
            + joined(literals(ts), ", "@) + "];\n"@,
    }
}

/// The name a namespace is written with; the root is `lang`.
pub open spec fn module_name(name: Option<Seq<char>>) -> Seq<char> {
    match name {
        Some(n) => n,
        None => "lang"@,
    }
}

/// A namespace written as a module holding its entries in order, each nested
/// level indented by four more spaces.
pub open spec fn namespace_text(ns: NamespaceModel, pad: Seq<char>) -> Seq<char>
    decreases ns,
{
    pad + "pub mod "@ + module_name(ns.name) + " {\n"@ + entries_text(ns.entries, pad + "    "@)
        + pad + "}\n"@
}

pub open spec fn entries_text(es: Seq<EntryModel>, pad: Seq<char>) -> Seq<char>
    decreases es,
{
    if es.len() == 0 {
        Seq::empty()
    } else {
        entries_text(es.drop_last(), pad) + entry_text(es.last(), pad)
    }
}

pub open spec fn entry_text(e: EntryModel, pad: Seq<char>) -> Seq<char>
    decreases e,
{
    match e {
        EntryModel::Constant(n, r) => constant_text(pad, n, r),
        EntryModel::Namespace(ns) => namespace_text(ns, pad),
    }
}

/// The whole generation: the text of the document's namespace tree, or the
/// error that stopped it.
pub open spec fn generation(doc: JsonValue, file: Seq<char>) -> Result<Seq<char>, ErrorModel> {
    match build(doc, file) {
        Ok(ns) => Ok(namespace_text(ns, Seq::empty())),
        Err(e) => Err(e),
    }
}

fn digit_str(d: usize) -> (r: &'static str)
    requires
        d < 10,
    ensures
        r@ == digit(d as nat),
{
    if d == 0 {
        "0"
    } else if d == 1 {
        "1"
    } else if d == 2 {
        "2"
    } else if d == 3 {
        "3"
    } else if d == 4 {
        "4"
    } else if d == 5 {
        "5"
    } else if d == 6 {
        "6"
    } else if d == 7 {
        "7"
    } else if d == 8 {
        "8"
    } else {
        "9"
    }
}

/// The decimal digits of `n`.
pub fn decimal_text(n: usize) -> (r: String)
    ensures
        r@ == decimal(n as nat),
    decreases n,
{
    if n < 10 {
        digit_str(n).to_owned()
    } else {
        let mut s = decimal_text(n / 10);
        s.append(digit_str(n % 10));
        s
    }
}

fn write_constant(t: &Token, pad: &String, out: &mut String)
    ensures
        final(out)@ == old(out)@ + constant_text(pad@, t.name@, t.data@),
{
    out.append(pad.as_str());
    out.append("pub const ");
    out.append(t.name.as_str());
    match &t.data {
        TokenVariant::Single(s) => {
            out.append(": &str = ");
            let lit = string_literal(s.as_str());
            out.append(lit.as_str());
            out.append(";\n");
            assert(out@ =~= old(out)@ + constant_text(pad@, t.name@, t.data@));
        },
        TokenVariant::Array(a) => {
            out.append(": [&str; ");
            let len = decimal_text(a.len());
            out.append(len.as_str());
            out.append("] = [");
            let ghost lits = literals(t.data@->Array_0);
            let ghost start = out@;
            let mut i: usize = 0;
            while i < a.len()
                invariant
                    i <= a@.len(),
                    lits.len() == a@.len(),
                    forall|j: int| 0 <= j < a@.len() ==> lits[j] == string_literal_of(a@[j]@),
                    out@ == start + joined(lits.take(i as int), ", "@),
                decreases a.len() - i,
            {
                proof {
                    lemma_joined_push(lits, ", "@, i as int);
                    assert(lits.take(0) =~= Seq::empty());
                }
                if i > 0 {
                    out.append(", ");
                }
                let lit = string_literal(a[i].as_str());
                out.append(lit.as_str());
                i = i + 1;
            }
            assert(lits.take(a@.len() as int) =~= lits);
            out.append("];\n");
            let ghost ts = t.data@->Array_0;
            assert(ts.len() == a@.len());
            assert(out@ =~= old(out)@ + pad@ + "pub const "@ + t.name@ + ": [&str; "@ + decimal(
                ts.len(),
            ) + "] = ["@ + joined(literals(ts), ", "@) + "];\n"@);
        },
    }
}

/// Appends the text of `ns`, indented by `pad`, to `out`.
pub fn write_namespace(ns: &JsonNamespace, pad: &String, out: &mut String)
    ensures
        final(out)@ == old(out)@ + namespace_text(ns_model(*ns), pad@),
    decreases ns,
{
    let ghost es = ns_model(*ns).entries;
    out.append(pad.as_str());
    out.append("pub mod ");
    match &ns.namespace {
        Some(n) => out.append(n.as_str()),
        None => out.append("lang"),
    }
    out.append(" {\n");
    let inner = pad.clone().concat("    ");
    let ghost start = out@;
    let mut i: usize = 0;
    while i < ns.tokens.len()
        invariant
            es == ns_model(*ns).entries,
            i <= ns.tokens@.len(),
            inner@ == pad@ + "    "@,
            out@ == start + entries_text(es.take(i as int), inner@),
        decreases ns.tokens.len() - i,
    {
        proof {
            assert(es.take(i + 1).drop_last() =~= es.take(i as int));
            assert(es[i as int] == entry_model(ns.tokens@[i as int]));
        }
        match &ns.tokens[i] {
            TokenJson::Token(t) => {
                write_constant(t, &inner, out);
                assert(entry_text(es[i as int], inner@) == constant_text(inner@, t.name@, t.data@));
            },
            TokenJson::Namespace(child) => {
                proof {
                    assert(decreases_to!(*ns => ns.tokens));
                    assert(decreases_to!(ns.tokens => ns.tokens@));
                    assert(decreases_to!(ns.tokens@ => ns.tokens@[i as int]));
                    assert(decreases_to!(ns.tokens@[i as int] => ns.tokens@[i as int]->Namespace_0));
                }
                write_namespace(child, &inner, out);
                assert(entry_text(es[i as int], inner@) == namespace_text(ns_model(*child), inner@));
            },
        }
        proof {
            assert(es.take(i + 1).last() == es[i as int]);
            assert(entries_text(es.take(i + 1), inner@) == entries_text(es.take(i as int), inner@)
                + entry_text(es[i as int], inner@));
            assert(out@ =~= start + entries_text(es.take(i + 1), inner@));
        }
        i = i + 1;
    }
    assert(es.take(es.len() as int) =~= es);
    out.append(pad.as_str());
    out.append("}\n");
    assert(out@ =~= old(out)@ + namespace_text(ns_model(*ns), pad@));
}

/// The declaration text of a namespace tree.
pub fn render(ns: &JsonNamespace) -> (r: String)
    ensures
        r@ == namespace_text(ns_model(*ns), Seq::empty()),
{
    let mut out = String::new();
    let pad = String::new();
    write_namespace(ns, &pad, &mut out);
    assert(out@ =~= namespace_text(ns_model(*ns), Seq::empty()));
    out
}

/// Generates the declaration text of a parsed document read from the file
/// with base name `file_name`; on any error no text is produced.
pub fn generate(doc: &JsonValue, file_name: &str) -> (r: Result<String, GenerateError>)
    ensures
        match (r, generation(*doc, file_name@)) {
            (Ok(t), Ok(m)) => t@ == m,
            (Err(e), Err(m)) => e@ == m,
            _ => false,
        },
{
    match parse_json(doc, file_name) {
        Ok(ns) => Ok(render(&ns)),
        Err(e) => Err(e),
    }
}

} // verus!
