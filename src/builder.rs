use vstd::prelude::*;
use crate::classify::{classify, classify_and_render, item_text, item_text_of};
use crate::error::{ErrorModel, GenerateError};
use crate::naming::{constant_name, namespace_name, normalize_constant, normalize_namespace};
use crate::tree::{
    entry_model, ns_model, EntryModel, JsonNamespace, NamespaceModel, Repr,
    Token, TokenJson, TokenVariant,
};
use crate::value::JsonValue;

verus! {

/// The identifier of an entry if it is a constant.
pub open spec fn constant_of(e: EntryModel) -> Option<Seq<char>> {
    match e {
        EntryModel::Constant(n, _) => Some(n),
        EntryModel::Namespace(_) => None,
    }
}

/// The name of an entry if it is a nested namespace.
pub open spec fn namespace_of(e: EntryModel) -> Option<Seq<char>> {
    match e {
        EntryModel::Constant(_, _) => None,
        EntryModel::Namespace(ns) => ns.name,
    }
}

pub open spec fn has_constant(es: Seq<EntryModel>, name: Seq<char>) -> bool {
    exists|i: int| 0 <= i < es.len() && constant_of(#[trigger] es[i]) == Some(name)
}

pub open spec fn has_namespace(es: Seq<EntryModel>, name: Seq<char>) -> bool {
    exists|i: int| 0 <= i < es.len() && namespace_of(#[trigger] es[i]) == Some(name)
}

/// Appends a constant, unless a sibling constant has the same identifier.
pub open spec fn push_constant(es: Seq<EntryModel>, n: Seq<char>, r: Repr) -> Result<
    Seq<EntryModel>,
    ErrorModel,
> {
    if has_constant(es, n) {
        Err(ErrorModel::DuplicateIdentifier { name: n })
    } else {
        Ok(es.push(EntryModel::Constant(n, r)))
    }
}

/// Appends a nested namespace, unless a sibling namespace has the same name.
pub open spec fn push_namespace(es: Seq<EntryModel>, n: Seq<char>, child: Seq<EntryModel>) -> Result<
    Seq<EntryModel>,
    ErrorModel,
> {
    if has_namespace(es, n) {
        Err(ErrorModel::DuplicateIdentifier { name: n })
    } else {
        Ok(es.push(EntryModel::Namespace(NamespaceModel { name: Some(n), entries: child })))
    }
}

/// The entries after the member `key: v` of an object is added to `es`: an
/// object becomes a nested namespace, anything else a constant.
pub open spec fn add_member(es: Seq<EntryModel>, key: Seq<char>, v: JsonValue) -> Result<
    Seq<EntryModel>,
    ErrorModel,
>
    decreases v,
{
    match v {
        JsonValue::Object(c) => match add_members(Seq::empty(), c@) {
            Err(e) => Err(e),
            Ok(child) => match namespace_name(key) {
                Err(e) => Err(e),
                Ok(n) => push_namespace(es, n, child),
            },
        },
        _ => match classify(key, v) {
            Err(e) => Err(e),
            Ok(r) => match constant_name(key) {
                Err(e) => Err(e),
                Ok(n) => push_constant(es, n, r),
            },
        },
    }
}

/// The entries after the members `m` of an object are added to `es`, in order.
pub open spec fn add_members(es: Seq<EntryModel>, m: Seq<(String, JsonValue)>) -> Result<
    Seq<EntryModel>,
    ErrorModel,
>
    decreases m,
{
    if m.len() == 0 {
        Ok(es)
    } else {
        match add_members(es, m.drop_last()) {
            Err(e) => Err(e),
            Ok(es2) => add_member(es2, m.last().0@, m.last().1),
        }
    }
}

/// The entries after the elements of a root array are merged into `es`:
/// each must be an object, whose members join the root as siblings.
pub open spec fn add_root_elements(es: Seq<EntryModel>, a: Seq<JsonValue>) -> Result<
    Seq<EntryModel>,
    ErrorModel,
>
    decreases a.len(),
{
    if a.len() == 0 {
        Ok(es)
    } else {
        match add_root_elements(es, a.drop_last()) {
            Err(e) => Err(e),
            Ok(es2) => match a.last() {
                JsonValue::Object(m) => add_members(es2, m@),
                _ => Err(ErrorModel::ArrayRootContainsNonObject { index: (a.len() - 1) as nat }),
            },
        }
    }
}

/// The namespace tree of a document read from the file with base name `file`.
pub open spec fn build(doc: JsonValue, file: Seq<char>) -> Result<NamespaceModel, ErrorModel> {
    let entries = match doc {
        JsonValue::Object(m) => add_members(Seq::empty(), m@),
        JsonValue::Array(a) => add_root_elements(Seq::empty(), a@),
        _ => match constant_name(file) {
            Err(e) => Err(e),
            Ok(n) => Ok(seq![EntryModel::Constant(n, Repr::Scalar(item_text(doc)))]),
        },
    };
    match entries {
        Err(e) => Err(e),
        Ok(es) => Ok(NamespaceModel { name: None, entries: es }),
    }
}

/// An error met on a prefix of the members is the error of the whole.
pub proof fn lemma_members_error_persists(es: Seq<EntryModel>, m: Seq<(String, JsonValue)>, k: int)
    requires
        0 <= k <= m.len(),
        add_members(es, m.take(k)) is Err,
    ensures
        add_members(es, m) == add_members(es, m.take(k)),
    decreases m.len() - k,
{
    if k < m.len() {
        assert(m.take(k + 1).drop_last() =~= m.take(k));
        lemma_members_error_persists(es, m, k + 1);
    } else {
        assert(m.take(k) =~= m);
    }
}

/// Whether a constant of `ns` already has the identifier `name`.
fn contains_constant(ns: &JsonNamespace, name: &String) -> (r: bool)
    ensures
        r == has_constant(ns_model(*ns).entries, name@),
{
    let ghost es = ns_model(*ns).entries;
    let mut i: usize = 0;
    while i < ns.tokens.len()
        invariant
            es == ns_model(*ns).entries,
            i <= ns.tokens@.len(),
            forall|j: int| 0 <= j < i ==> constant_of(#[trigger] es[j]) != Some(name@),
        decreases ns.tokens.len() - i,
    {
        assert(es[i as int] == entry_model(ns.tokens@[i as int]));
        if let TokenJson::Token(t) = &ns.tokens[i] {
            if t.name == *name {
                assert(constant_of(es[i as int]) == Some(name@));
                return true;
            }
        }
        i = i + 1;
    }
    false
}

/// Whether a nested namespace of `ns` already has the name `name`.
fn contains_namespace(ns: &JsonNamespace, name: &String) -> (r: bool)
    ensures
        r == has_namespace(ns_model(*ns).entries, name@),
{
    let ghost es = ns_model(*ns).entries;
    let mut i: usize = 0;
    while i < ns.tokens.len()
        invariant
            es == ns_model(*ns).entries,
            i <= ns.tokens@.len(),
            forall|j: int| 0 <= j < i ==> namespace_of(#[trigger] es[j]) != Some(name@),
        decreases ns.tokens.len() - i,
    {
        assert(es[i as int] == entry_model(ns.tokens@[i as int]));
        if let TokenJson::Namespace(child) = &ns.tokens[i] {
            if let Some(n) = &child.namespace {
                if *n == *name {
                    assert(namespace_of(es[i as int]) == Some(name@));
                    return true;
                }
            }
        }
        i = i + 1;
    }
    false
}

/// Appends an entry to the namespace.
fn push_entry(ns: &mut JsonNamespace, e: TokenJson)
    ensures
        ns_model(*final(ns)) == (NamespaceModel {
            name: ns_model(*old(ns)).name,
            entries: ns_model(*old(ns)).entries.push(entry_model(e)),
        }),
{
    ns.tokens.push(e);
    assert(ns_model(*ns).entries =~= ns_model(*old(ns)).entries.push(entry_model(e)));
}

/// Adds the member `key: v` of an object to `ns` (see `add_member`).
pub fn parse_member(ns: &mut JsonNamespace, key: &String, v: &JsonValue) -> (r: Result<(), GenerateError>)
    ensures
        match (r, add_member(ns_model(*old(ns)).entries, key@, *v)) {
            (Ok(()), Ok(es)) => ns_model(*final(ns)) == (NamespaceModel {
                name: ns_model(*old(ns)).name,
                entries: es,
            }),
            (Err(e), Err(m)) => e@ == m,
            _ => false,
        },
    decreases v,
{
    match v {
        JsonValue::Object(c) => {
            let mut child = JsonNamespace::root();
            proof {
                assert(decreases_to!(*v => (*v)->Object_0));
            }
            match parse_members(&mut child, c) {
                Err(e) => return Err(e),
                Ok(()) => {},
            }
            let name = match normalize_namespace(key.as_str()) {
                Err(e) => return Err(e),
                Ok(n) => n,
            };
            if contains_namespace(ns, &name) {
                return Err(GenerateError::DuplicateIdentifier { name });
            }
            child.namespace = Some(name);
            assert(ns_model(child).entries =~= add_members(Seq::empty(), c@)->Ok_0);
            push_entry(ns, TokenJson::Namespace(child));
            Ok(())
        },
        _ => {
            let data = match classify_and_render(key.as_str(), v) {
                Err(e) => return Err(e),
                Ok(d) => d,
            };
            let name = match normalize_constant(key.as_str()) {
                Err(e) => return Err(e),
                Ok(n) => n,
            };
            if contains_constant(ns, &name) {
                return Err(GenerateError::DuplicateIdentifier { name });
            }
            push_entry(ns, TokenJson::Token(Token { name, data }));
            Ok(())
        },
    }
}

/// Adds the members of an object to `ns`, in order (see `add_members`).
pub fn parse_members(ns: &mut JsonNamespace, m: &Vec<(String, JsonValue)>) -> (r: Result<(), GenerateError>)
    ensures
        match (r, add_members(ns_model(*old(ns)).entries, m@)) {
            (Ok(()), Ok(es)) => ns_model(*final(ns)) == (NamespaceModel {
                name: ns_model(*old(ns)).name,
                entries: es,
            }),
            (Err(e), Err(em)) => e@ == em,
            _ => false,
        },
    decreases m,
{
    let ghost es0 = ns_model(*ns).entries;
    let mut i: usize = 0;
    while i < m.len()
        invariant
            i <= m@.len(),
            ns_model(*old(ns)).entries == es0,
            add_members(es0, m@.take(i as int)) == Ok::<Seq<EntryModel>, ErrorModel>(ns_model(*ns).entries),
            ns_model(*ns).name == ns_model(*old(ns)).name,
        decreases m.len() - i,
    {
        proof {
            assert(m@.take(i + 1).drop_last() =~= m@.take(i as int));
            assert(decreases_to!(*m => m@));
            assert(decreases_to!(m@ => m@[i as int]));
            assert(decreases_to!(m@[i as int] => m@[i as int].1));
        }
        match parse_member(ns, &m[i].0, &m[i].1) {
            Err(e) => {
                proof {
                    lemma_members_error_persists(es0, m@, i + 1);
                }
                return Err(e);
            },
            Ok(()) => {},
        }
        i = i + 1;
    }
    assert(m@.take(m@.len() as int) =~= m@);
    Ok(())
}

/// An error met on a prefix of a root array is the error of the whole.
pub proof fn lemma_root_error_persists(es: Seq<EntryModel>, a: Seq<JsonValue>, k: int)
    requires
        0 <= k <= a.len(),
        add_root_elements(es, a.take(k)) is Err,
    ensures
        add_root_elements(es, a) == add_root_elements(es, a.take(k)),
    decreases a.len() - k,
{
    if k < a.len() {
        assert(a.take(k + 1).drop_last() =~= a.take(k));
        lemma_root_error_persists(es, a, k + 1);
    } else {
        assert(a.take(k) =~= a);
    }
}

/// Merges the elements of a root array into `ns` (see `add_root_elements`).
fn parse_root_array(ns: &mut JsonNamespace, a: &Vec<JsonValue>) -> (r: Result<(), GenerateError>)
    ensures
        match (r, add_root_elements(ns_model(*old(ns)).entries, a@)) {
            (Ok(()), Ok(es)) => ns_model(*final(ns)) == (NamespaceModel {
                name: ns_model(*old(ns)).name,
                entries: es,
            }),
            (Err(e), Err(em)) => e@ == em,
            _ => false,
        },
{
    let ghost es0 = ns_model(*ns).entries;
    let mut i: usize = 0;
    while i < a.len()
        invariant
            i <= a@.len(),
            ns_model(*old(ns)).entries == es0,
            add_root_elements(es0, a@.take(i as int)) == Ok::<Seq<EntryModel>, ErrorModel>(
                ns_model(*ns).entries,
            ),
            ns_model(*ns).name == ns_model(*old(ns)).name,
        decreases a.len() - i,
    {
        proof {
            assert(a@.take(i + 1).drop_last() =~= a@.take(i as int));
        }
        match &a[i] {
            JsonValue::Object(m) => match parse_members(ns, m) {
                Err(e) => {
                    proof {
                        lemma_root_error_persists(es0, a@, i + 1);
                    }
                    return Err(e);
                },
                Ok(()) => {},
            },
            _ => {
                proof {
                    lemma_root_error_persists(es0, a@, i + 1);
                }
                return Err(GenerateError::ArrayRootContainsNonObject { index: i });
            },
        }
        i = i + 1;
    }
    assert(a@.take(a@.len() as int) =~= a@);
    Ok(())
}

/// Builds the namespace tree of a parsed document; `file_name` is the base
/// name of its file, which names the one constant of a document whose root
/// is neither an object nor an array. No partial tree is ever returned.
pub fn parse_json(value: &JsonValue, file_name: &str) -> (r: Result<JsonNamespace, GenerateError>)
    ensures
        match (r, build(*value, file_name@)) {
            (Ok(ns), Ok(model)) => ns_model(ns) == model,
            (Err(e), Err(em)) => e@ == em,
            _ => false,
        },
{
    let mut root = JsonNamespace::root();
    match value {
        JsonValue::Object(m) => match parse_members(&mut root, m) {
            Err(e) => Err(e),
            Ok(()) => Ok(root),
        },
        JsonValue::Array(a) => match parse_root_array(&mut root, a) {
            Err(e) => Err(e),
            Ok(()) => Ok(root),
        },
        _ => {
            let name = match normalize_constant(file_name) {
                Err(e) => return Err(e),
                Ok(n) => n,
            };
            let text = item_text_of(value);
            let data = TokenVariant::from_str(text.as_str());
            push_entry(&mut root, TokenJson::Token(Token { name, data }));
            assert(ns_model(root).entries =~= seq![
                EntryModel::Constant(name@, Repr::Scalar(item_text(*value))),
            ]);
            Ok(root)
        },
    }
}

} // verus!
