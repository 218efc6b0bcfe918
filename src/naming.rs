use vstd::prelude::*;
use crate::error::{ErrorModel, GenerateError};

verus! {

/// What `str::to_uppercase` makes of a text.
pub uninterp spec fn upper_of(s: Seq<char>) -> Seq<char>;

/// Whether a character has the Unicode property XID_Start.
pub uninterp spec fn xid_start_of(c: char) -> bool;

/// Whether a character has the Unicode property XID_Continue.
pub uninterp spec fn xid_continue_of(c: char) -> bool;

/// The words that cannot name a declaration: the keywords, strict and
/// reserved, of every edition.
pub open spec fn is_keyword(s: Seq<char>) -> bool {
        s == "abstract"@
        || s == "as"@
        || s == "async"@
        || s == "await"@
        || s == "become"@
        || s == "box"@
        || s == "break"@
        || s == "const"@
        || s == "continue"@
        || s == "crate"@
        || s == "do"@
        || s == "dyn"@
        || s == "else"@
        || s == "enum"@
        || s == "extern"@
        || s == "false"@
        || s == "final"@
        || s == "fn"@
        || s == "for"@
        || s == "gen"@
        || s == "if"@
        || s == "impl"@
        || s == "in"@
        || s == "let"@
        || s == "loop"@
        || s == "macro"@
        || s == "match"@
        || s == "mod"@
        || s == "move"@
        || s == "mut"@
        || s == "override"@
        || s == "priv"@
        || s == "pub"@
        || s == "ref"@
        || s == "return"@
        || s == "Self"@
        || s == "self"@
        || s == "static"@
        || s == "struct"@
        || s == "super"@
        || s == "trait"@
        || s == "true"@
        || s == "try"@
        || s == "type"@
        || s == "typeof"@
        || s == "unsafe"@
        || s == "unsized"@
        || s == "use"@
        || s == "virtual"@
        || s == "where"@
        || s == "while"@
        || s == "yield"@
}

/// A name is accepted for a declaration when it is an identifier in the
/// sense of the declaration syntax: an XID_Start character or `_`, then
/// XID_Continue characters, not `_` alone, and not a keyword.
pub open spec fn is_identifier(s: Seq<char>) -> bool {
    &&& s.len() > 0
    &&& (s[0] == '_' || xid_start_of(s[0]))
    &&& forall|i: int| 1 <= i < s.len() ==> xid_continue_of(#[trigger] s[i])
    &&& s != "_"@
    &&& !is_keyword(s)
}

/// Identifier of a constant: the key upper-cased, if that is an identifier.
pub open spec fn constant_name(key: Seq<char>) -> Result<Seq<char>, ErrorModel> {
    if is_identifier(upper_of(key)) {
        Ok(upper_of(key))
    } else {
        Err(ErrorModel::InvalidIdentifier { name: key })
    }
}

/// Identifier of a nested namespace: the key as written, if it is an identifier.
pub open spec fn namespace_name(key: Seq<char>) -> Result<Seq<char>, ErrorModel> {
    if is_identifier(key) {
        Ok(key)
    } else {
        Err(ErrorModel::InvalidIdentifier { name: key })
    }
}

/// Relies on `str::to_uppercase`: the upper-case mapping of the text, which
/// depends on its characters alone.
#[verifier::external_body]
fn to_upper(s: &str) -> (r: String)
    ensures
        r@ == upper_of(s@),
{
    s.to_uppercase()
}

/// Relies on `unicode_ident::is_xid_start`: the XID_Start property of the
/// character, read from the crate's fixed Unicode tables.
#[verifier::external_body]
fn is_xid_start(c: char) -> (r: bool)
    ensures
        r == xid_start_of(c),
{
    unicode_ident::is_xid_start(c)
}

/// Relies on `unicode_ident::is_xid_continue`: the XID_Continue property of
/// the character, read from the crate's fixed Unicode tables.
#[verifier::external_body]
fn is_xid_continue(c: char) -> (r: bool)
    ensures
        r == xid_continue_of(c),
{
    unicode_ident::is_xid_continue(c)
}

/// Whether `s` is one of the keywords.
pub fn check_keyword(s: &str) -> (r: bool)
    ensures
        r == is_keyword(s@),
{
    let t = s.to_owned();
        t == "abstract".to_owned()
        || t == "as".to_owned()
        || t == "async".to_owned()
        || t == "await".to_owned()
        || t == "become".to_owned()
        || t == "box".to_owned()
        || t == "break".to_owned()
        || t == "const".to_owned()
        || t == "continue".to_owned()
        || t == "crate".to_owned()
        || t == "do".to_owned()
        || t == "dyn".to_owned()
        || t == "else".to_owned()
        || t == "enum".to_owned()
        || t == "extern".to_owned()
        || t == "false".to_owned()
        || t == "final".to_owned()
        || t == "fn".to_owned()
        || t == "for".to_owned()
        || t == "gen".to_owned()
        || t == "if".to_owned()
        || t == "impl".to_owned()
        || t == "in".to_owned()
        || t == "let".to_owned()
        || t == "loop".to_owned()
        || t == "macro".to_owned()
        || t == "match".to_owned()
        || t == "mod".to_owned()
        || t == "move".to_owned()
        || t == "mut".to_owned()
        || t == "override".to_owned()
        || t == "priv".to_owned()
        || t == "pub".to_owned()
        || t == "ref".to_owned()
        || t == "return".to_owned()
        || t == "Self".to_owned()
        || t == "self".to_owned()
        || t == "static".to_owned()
        || t == "struct".to_owned()
        || t == "super".to_owned()
        || t == "trait".to_owned()
        || t == "true".to_owned()
        || t == "try".to_owned()
        || t == "type".to_owned()
        || t == "typeof".to_owned()
        || t == "unsafe".to_owned()
        || t == "unsized".to_owned()
        || t == "use".to_owned()
        || t == "virtual".to_owned()
        || t == "where".to_owned()
        || t == "while".to_owned()
        || t == "yield".to_owned()
}

/// Whether `s` can stand, as it is, as the name of a declaration.
pub fn check_identifier(s: &str) -> (r: bool)
    ensures
        r == is_identifier(s@),
{
    let n = s.unicode_len();
    if n == 0 {
        return false;
    }
    let first = s.get_char(0);
    if !(first == '_' || is_xid_start(first)) {
        return false;
    }
    let mut i: usize = 1;
    while i < n
        invariant
            1 <= i <= n,
            n == s@.len(),
            forall|j: int| 1 <= j < i ==> xid_continue_of(#[trigger] s@[j]),
        decreases n - i,
    {
        if !is_xid_continue(s.get_char(i)) {
            return false;
        }
        i = i + 1;
    }
    if n == 1 && first == '_' {
        proof {
            reveal_strlit("_");
            assert(s@ =~= "_"@);
        }
        return false;
    }
    proof {
        reveal_strlit("_");
    }
    assert(s@ != "_"@) by {
        if n == 1 {
            assert(s@[0] != "_"@[0]);
        } else {
            assert(s@.len() != "_"@.len());
        }
    }
    !check_keyword(s)
}

/// Maps a JSON key (or a file's base name) to the identifier of a constant.
pub fn normalize_constant(key: &str) -> (r: Result<String, GenerateError>)
    ensures
        match (r, constant_name(key@)) {
            (Ok(n), Ok(m)) => n@ == m,
            (Err(e), Err(m)) => e@ == m,
            _ => false,
        },
{
    let upper = to_upper(key);
    if check_identifier(upper.as_str()) {
        Ok(upper)
    } else {
        Err(GenerateError::InvalidIdentifier { name: key.to_owned() })
    }
}

/// Maps a JSON key to the identifier of a nested namespace; case is kept.
pub fn normalize_namespace(key: &str) -> (r: Result<String, GenerateError>)
    ensures
        match (r, namespace_name(key@)) {
            (Ok(n), Ok(m)) => n@ == m,
            (Err(e), Err(m)) => e@ == m,
            _ => false,
        },
{
    if check_identifier(key) {
        Ok(key.to_owned())
    } else {
        Err(GenerateError::InvalidIdentifier { name: key.to_owned() })
    }
}

} // verus!
