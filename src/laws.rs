use vstd::prelude::*;
use crate::builder::{
    add_member, add_members, build, constant_of, has_constant, has_namespace, namespace_of,
};
use crate::classify::{classify, first_object};
use crate::emit::{generation, namespace_text};
use crate::naming::{is_identifier, upper_of};
use crate::tree::{EntryModel, NamespaceModel, Repr};
use crate::value::JsonValue;

verus! {

/// The entry made of the member `key: v`: a nested namespace named `key`
/// that mirrors `v` if `v` is an object, else one constant named by `key`
/// upper-cased and holding `v` as classified.
pub open spec fn mirrors_member(e: EntryModel, key: Seq<char>, v: JsonValue) -> bool
    decreases v,
{
    match v {
        JsonValue::Object(c) => match e {
            EntryModel::Namespace(ns) => ns.name == Some(key) && mirrors(ns.entries, c@),
            _ => false,
        },
        _ => match e {
            EntryModel::Constant(n, r) => n == upper_of(key) && classify(key, v) == Ok::<
                Repr,
                crate::error::ErrorModel,
            >(r),
            _ => false,
        },
    }
}

/// The entries correspond one to one, in order, to the members of an object.
pub open spec fn mirrors(es: Seq<EntryModel>, m: Seq<(String, JsonValue)>) -> bool
    decreases m,
{
    if m.len() == 0 {
        es.len() == 0
    } else {
        &&& es.len() == m.len()
        &&& mirrors(es.drop_last(), m.drop_last())
        &&& mirrors_member(es.last(), m.last().0@, m.last().1)
    }
}

proof fn lemma_add_member_mirrors(es: Seq<EntryModel>, key: Seq<char>, v: JsonValue)
    requires
        add_member(es, key, v) is Ok,
    ensures
        add_member(es, key, v)->Ok_0.len() == es.len() + 1,
        add_member(es, key, v)->Ok_0.take(es.len() as int) == es,
        mirrors_member(add_member(es, key, v)->Ok_0[es.len() as int], key, v),
    decreases v,
{
    let r = add_member(es, key, v)->Ok_0;
    match v {
        JsonValue::Object(c) => {
            let child = add_members(Seq::empty(), c@)->Ok_0;
            lemma_add_members_mirrors(Seq::empty(), c@);
            assert(child.skip(0) =~= child);
            assert(r == es.push(
                EntryModel::Namespace(NamespaceModel { name: Some(key), entries: child }),
            ));
        },
        _ => {
            assert(r == es.push(EntryModel::Constant(upper_of(key), classify(key, v)->Ok_0)));
        },
    }
    assert(r.take(es.len() as int) =~= es);
}

proof fn lemma_add_members_mirrors(es: Seq<EntryModel>, m: Seq<(String, JsonValue)>)
    requires
        add_members(es, m) is Ok,
    ensures
        add_members(es, m)->Ok_0.len() == es.len() + m.len(),
        add_members(es, m)->Ok_0.take(es.len() as int) == es,
        mirrors(add_members(es, m)->Ok_0.skip(es.len() as int), m),
    decreases m,
{
    let r = add_members(es, m)->Ok_0;
    if m.len() == 0 {
        assert(r.take(es.len() as int) =~= es);
        assert(r.skip(es.len() as int) =~= Seq::empty());
    } else {
        let init = m.drop_last();
        lemma_add_members_mirrors(es, init);
        let es2 = add_members(es, init)->Ok_0;
        lemma_add_member_mirrors(es2, m.last().0@, m.last().1);
        assert(r.take(es2.len() as int) == es2);
        assert(r.take(es.len() as int) =~= es2.take(es.len() as int));
        let tail = r.skip(es.len() as int);
        let tail2 = es2.skip(es.len() as int);
        assert(r == es2.push(r[es2.len() as int]));
        assert(tail.drop_last() =~= tail2);
        assert(tail.last() == r[es2.len() as int]);
        assert(tail.len() == m.len());
    }
}

/// When a document whose root is an object yields a tree, the tree has
/// exactly one entry per member of the object, in the order of the document,
/// and so at every depth: a nested namespace named by the key for each
/// member holding an object, a constant named by the key upper-cased for
/// every other member. The generated text is that tree written out.
pub proof fn lemma_object_tree_mirrors_document(doc: JsonValue, file: Seq<char>)
    requires
        doc is Object,
        build(doc, file) is Ok,
    ensures
        build(doc, file)->Ok_0.name is None,
        mirrors(build(doc, file)->Ok_0.entries, doc->Object_0@),
        generation(doc, file) == Ok::<Seq<char>, crate::error::ErrorModel>(
            namespace_text(build(doc, file)->Ok_0, Seq::empty()),
        ),
{
    let m = doc->Object_0@;
    lemma_add_members_mirrors(Seq::empty(), m);
    let es = add_members(Seq::empty(), m)->Ok_0;
    assert(es.skip(0) =~= es);
}

/// Generation is stated as one spec function of the document and the file's
/// base name, built only from functions of their arguments (among them the
/// named results of upper-casing, of the Unicode identifier properties and of
/// escaping); `generate` returns exactly its value. So two runs on the same
/// input give the same text, or the same error.
pub proof fn lemma_generation_deterministic(d1: JsonValue, d2: JsonValue, f1: Seq<char>, f2: Seq<char>)
    requires
        d1 == d2,
        f1 == f2,
    ensures
        generation(d1, f1) == generation(d2, f2),
{
}

/// The identifier the entry of a member gets: the key itself for a nested
/// namespace, the key upper-cased for a constant.
pub open spec fn member_identifier(key: Seq<char>, v: JsonValue) -> Seq<char> {
    if v is Object {
        key
    } else {
        upper_of(key)
    }
}

/// Two members whose entries would be declared under one name.
pub open spec fn clash(a: (String, JsonValue), b: (String, JsonValue)) -> bool {
    &&& (a.1 is Object) == (b.1 is Object)
    &&& member_identifier(a.0@, a.1) == member_identifier(b.0@, b.1)
}

/// A member whose identifier is acceptable, which is not an array holding an
/// object, and which, if an object, has acceptable members itself.
pub open spec fn member_ok(key: Seq<char>, v: JsonValue) -> bool
    decreases v,
{
    match v {
        JsonValue::Object(c) => is_identifier(key) && members_ok(c@),
        JsonValue::Array(a) => is_identifier(upper_of(key)) && first_object(a@) == a@.len(),
        _ => is_identifier(upper_of(key)),
    }
}

/// Every member is acceptable and no two of them clash.
pub open spec fn members_ok(m: Seq<(String, JsonValue)>) -> bool
    decreases m,
{
    if m.len() == 0 {
        true
    } else {
        &&& members_ok(m.drop_last())
        &&& member_ok(m.last().0@, m.last().1)
        &&& forall|j: int| 0 <= j < m.len() - 1 ==> !clash(#[trigger] m[j], m.last())
    }
}

proof fn lemma_mirrors_index(es: Seq<EntryModel>, m: Seq<(String, JsonValue)>, j: int)
    requires
        mirrors(es, m),
        0 <= j < m.len(),
    ensures
        es.len() == m.len(),
        mirrors_member(es[j], m[j].0@, m[j].1),
    decreases m.len(),
{
    if j < m.len() - 1 {
        lemma_mirrors_index(es.drop_last(), m.drop_last(), j);
    }
}

proof fn lemma_members_ok_build(m: Seq<(String, JsonValue)>)
    requires
        members_ok(m),
    ensures
        add_members(Seq::empty(), m) is Ok,
    decreases m,
{
    if m.len() > 0 {
        let init = m.drop_last();
        let key = m.last().0@;
        let v = m.last().1;
        lemma_members_ok_build(init);
        let es2 = add_members(Seq::empty(), init)->Ok_0;
        lemma_add_members_mirrors(Seq::empty(), init);
        assert(es2.skip(0) =~= es2);
        assert forall|j: int| 0 <= j < es2.len() implies constant_of(#[trigger] es2[j]) != Some(
            upper_of(key),
        ) || v is Object by {
            lemma_mirrors_index(es2, init, j);
            assert(init[j] == m[j]);
            assert(!clash(m[j], m.last()));
        }
        assert forall|j: int| 0 <= j < es2.len() implies namespace_of(#[trigger] es2[j]) != Some(
            key,
        ) || !(v is Object) by {
            lemma_mirrors_index(es2, init, j);
            assert(init[j] == m[j]);
            assert(!clash(m[j], m.last()));
        }
        assert(member_ok(key, v));
        assert(add_members(Seq::empty(), m) == add_member(es2, key, v));
        match v {
            JsonValue::Object(c) => {
                assert(members_ok(c@));
                lemma_members_ok_build(c@);
                assert(!has_namespace(es2, key));
            },
            _ => {
                assert(classify(key, v) is Ok);
                assert(!has_constant(es2, upper_of(key)));
            },
        }
    }
}

/// For every document whose root is an object with acceptable members (no
/// array holding an object at any depth, keys that make identifiers, no two
/// siblings declared under one name), generation succeeds, and the tree has
/// exactly one entry per member, in the order of the document and at every
/// depth: a nested namespace per object, a constant per other value.
pub proof fn lemma_acceptable_object_generates(doc: JsonValue, file: Seq<char>)
    requires
        doc is Object,
        members_ok(doc->Object_0@),
    ensures
        build(doc, file) is Ok,
        mirrors(build(doc, file)->Ok_0.entries, doc->Object_0@),
        generation(doc, file) == Ok::<Seq<char>, crate::error::ErrorModel>(
            namespace_text(build(doc, file)->Ok_0, Seq::empty()),
        ),
{
    lemma_members_ok_build(doc->Object_0@);
    lemma_object_tree_mirrors_document(doc, file);
}

} // verus!
