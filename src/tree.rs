use vstd::prelude::*;

verus! {

/// How a constant is represented: one text, or a fixed-length array of texts.
pub enum TokenVariant {
    Single(String),
    Array(Vec<String>),
}

/// One emitted constant: its identifier and its representation.
pub struct Token {
    pub name: String,
    pub data: TokenVariant,
}

/// An entry of a namespace: a nested namespace or a constant.
pub enum TokenJson {
    Namespace(JsonNamespace),
    Token(Token),
}

/// A namespace and its entries, in the order of the document. The root has no
/// name of its own and is written as `lang`.
pub struct JsonNamespace {
    pub namespace: Option<String>,
    pub tokens: Vec<TokenJson>,
}

/// The abstract view of a `TokenVariant`.
pub enum Repr {
    Scalar(Seq<char>),
    Array(Seq<Seq<char>>),
}

/// The abstract view of a `TokenJson`.
pub enum EntryModel {
    Constant(Seq<char>, Repr),
    Namespace(NamespaceModel),
}

/// The abstract view of a `JsonNamespace`.
pub struct NamespaceModel {
    pub name: Option<Seq<char>>,
    pub entries: Seq<EntryModel>,
}

impl View for TokenVariant {
    type V = Repr;

    open spec fn view(&self) -> Repr {
        match self {
            TokenVariant::Single(s) => Repr::Scalar(s@),
            TokenVariant::Array(a) => Repr::Array(a@.map_values(|s: String| s@)),
        }
    }
}

pub open spec fn entry_model(e: TokenJson) -> EntryModel
    decreases e,
{
    match e {
        TokenJson::Token(t) => EntryModel::Constant(t.name@, t.data@),
        TokenJson::Namespace(ns) => EntryModel::Namespace(ns_model(ns)),
    }
}

pub open spec fn empty_namespace() -> NamespaceModel {
    NamespaceModel { name: None, entries: Seq::empty() }
}

pub open spec fn ns_model(ns: JsonNamespace) -> NamespaceModel
    decreases ns,
{
    NamespaceModel {
        name: match ns.namespace {
            Some(s) => Some(s@),
            None => None,
        },
        entries: Seq::new(
            ns.tokens@.len(),
            |i: int|
                if 0 <= i < ns.tokens@.len() {
                    entry_model(ns.tokens@[i])
                } else {
                    EntryModel::Namespace(empty_namespace())
                },
        ),
    }
}

impl TokenVariant {
    /// A single text.
    pub fn from_str(value: &str) -> (r: TokenVariant)
        ensures
            r@ == Repr::Scalar(value@),
    {
        TokenVariant::Single(value.to_owned())
    }

    /// An array of texts, in the given order.
    pub fn from_iter(value: Vec<String>) -> (r: TokenVariant)
        ensures
            r@ == Repr::Array(value@.map_values(|s: String| s@)),
    {
        TokenVariant::Array(value)
    }
}

impl JsonNamespace {
    /// An empty namespace with the given name.
    pub fn new(namespace: String) -> (r: JsonNamespace)
        ensures
            ns_model(r) == (NamespaceModel { name: Some(namespace@), entries: Seq::empty() }),
    {
        let r = JsonNamespace { namespace: Some(namespace), tokens: Vec::new() };
        assert(ns_model(r).entries =~= Seq::empty());
        r
    }

    /// The unnamed root namespace, with no entries.
    pub fn root() -> (r: JsonNamespace)
        ensures
            ns_model(r) == empty_namespace(),
    {
        let r = JsonNamespace { namespace: None, tokens: Vec::new() };
        assert(ns_model(r).entries =~= Seq::empty());
        r
    }
}

} // verus!
