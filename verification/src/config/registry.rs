use vstd::prelude::*;

use indexmap::IndexMap;

use super::types::{Repo, RepoView, Selection, SelectionView};

verus! {

/// Relies on indexmap::IndexMap, the ordered map backing the
/// Registry. The type is opaque here; what a registry map holds is
/// modeled by `registry_entries`.
#[verifier::external_type_specification]
#[verifier::external_body]
#[verifier::reject_recursive_types(K)]
#[verifier::reject_recursive_types(V)]
#[verifier::reject_recursive_types(S)]
pub struct ExIndexMap<K, V, S>(IndexMap<K, V, S>);

/// What the registry map holds: its entries in declaration order, each
/// a key (as characters) with the view of the stored selection.
pub uninterp spec fn registry_entries(
    m: IndexMap<String, Selection<Repo>>,
) -> Seq<(Seq<char>, SelectionView<RepoView>)>;

/// Some entry carries key `k`.
pub open spec fn has_key(es: Seq<(Seq<char>, SelectionView<RepoView>)>, k: Seq<char>) -> bool {
    exists|i: int| 0 <= i < es.len() && es[i].0 == k
}

/// The position of the entry carrying key `k` (unique when the keys
/// are unique).
pub open spec fn key_index(es: Seq<(Seq<char>, SelectionView<RepoView>)>, k: Seq<char>) -> int {
    choose|i: int| 0 <= i < es.len() && es[i].0 == k
}

/// No two entries carry the same key.
pub open spec fn unique_keys(es: Seq<(Seq<char>, SelectionView<RepoView>)>) -> bool {
    forall|i: int, j: int| 0 <= i < j < es.len() ==> es[i].0 != es[j].0
}

/// How one insertion changes the entries: a present key keeps its
/// place and takes the new value; an absent key is appended.
pub open spec fn insert_entry(
    es: Seq<(Seq<char>, SelectionView<RepoView>)>,
    k: Seq<char>,
    v: SelectionView<RepoView>,
) -> Seq<(Seq<char>, SelectionView<RepoView>)> {
    if has_key(es, k) {
        es.update(key_index(es, k), (k, v))
    } else {
        es.push((k, v))
    }
}

/// Insertion never makes two entries share a key.
pub proof fn lemma_insert_entry_unique(
    es: Seq<(Seq<char>, SelectionView<RepoView>)>,
    k: Seq<char>,
    v: SelectionView<RepoView>,
)
    requires
        unique_keys(es),
    ensures
        unique_keys(insert_entry(es, k, v)),
{
    if has_key(es, k) {
        let ki = key_index(es, k);
        assert(0 <= ki < es.len() && es[ki].0 == k);
        let es2 = es.update(ki, (k, v));
        assert forall|i: int, j: int| 0 <= i < j < es2.len() implies es2[i].0 != es2[j].0 by {
            assert(es[i].0 != es[j].0);
        }
    } else {
        let es2 = es.push((k, v));
        assert forall|i: int, j: int| 0 <= i < j < es2.len() implies es2[i].0 != es2[j].0 by {
            if j < es.len() {
                assert(es[i].0 != es[j].0);
            }
        }
    }
}

/// The entries reached from `init` by inserting `pairs` one after the
/// other, leftmost first.
pub open spec fn build_entries(
    init: Seq<(Seq<char>, SelectionView<RepoView>)>,
    pairs: Seq<(Seq<char>, SelectionView<RepoView>)>,
) -> Seq<(Seq<char>, SelectionView<RepoView>)>
    decreases pairs.len(),
{
    if pairs.len() == 0 {
        init
    } else {
        build_entries(insert_entry(init, pairs[0].0, pairs[0].1), pairs.drop_first())
    }
}

/// Inserting two runs of pairs one after the other is the same as
/// inserting their concatenation.
pub proof fn lemma_build_entries_concat(
    init: Seq<(Seq<char>, SelectionView<RepoView>)>,
    a: Seq<(Seq<char>, SelectionView<RepoView>)>,
    b: Seq<(Seq<char>, SelectionView<RepoView>)>,
)
    ensures
        build_entries(build_entries(init, a), b) == build_entries(init, a + b),
    decreases a.len(),
{
    if a.len() == 0 {
        assert(a + b =~= b);
    } else {
        assert((a + b).drop_first() =~= a.drop_first() + b);
        assert((a + b)[0] == a[0]);
        lemma_build_entries_concat(insert_entry(init, a[0].0, a[0].1), a.drop_first(), b);
    }
}

/// When every inserted key is fresh — absent from `init` and not
/// repeated among the pairs — insertion is plain concatenation, in
/// order.
pub proof fn lemma_build_entries_distinct(
    init: Seq<(Seq<char>, SelectionView<RepoView>)>,
    pairs: Seq<(Seq<char>, SelectionView<RepoView>)>,
)
    requires
        forall|i: int| 0 <= i < pairs.len() ==> !has_key(init, #[trigger] pairs[i].0),
        forall|i: int, j: int| 0 <= i < j < pairs.len() ==> pairs[i].0 != pairs[j].0,
    ensures
        build_entries(init, pairs) == init + pairs,
    decreases pairs.len(),
{
    if pairs.len() == 0 {
        assert(init + pairs =~= init);
    } else {
        let p = pairs[0];
        assert(!has_key(init, p.0));
        let init2 = insert_entry(init, p.0, p.1);
        assert(init2 =~= init.push(p));
        assert forall|i: int| 0 <= i < pairs.drop_first().len() implies !has_key(
            init2,
            #[trigger] pairs.drop_first()[i].0,
        ) by {
            let k = pairs.drop_first()[i].0;
            assert(k == pairs[i + 1].0);
            assert(pairs[0].0 != pairs[i + 1].0);
            assert(!has_key(init, k));
            if has_key(init2, k) {
                let w = key_index(init2, k);
                assert(0 <= w < init2.len() && init2[w].0 == k);
                if w < init.len() {
                    assert(init[w].0 == k);
                }
            }
        }
        lemma_build_entries_distinct(init2, pairs.drop_first());
        assert(init.push(p) + pairs.drop_first() =~= init + pairs);
    }
}

/// Relies on indexmap::IndexMap::new: creates an empty map.
#[verifier::external_body]
pub(crate) fn im_new() -> (m: IndexMap<String, Selection<Repo>>)
    ensures
        registry_entries(m) == Seq::<(Seq<char>, SelectionView<RepoView>)>::empty(),
{
    IndexMap::new()
}

/// Relies on indexmap::IndexMap::insert: an equivalent key keeps its
/// place in the order and has its value replaced; a new key-value pair
/// is inserted last in order.
#[verifier::external_body]
pub(crate) fn im_insert(m: &mut IndexMap<String, Selection<Repo>>, k: String, v: Selection<Repo>)
    requires
        unique_keys(registry_entries(*old(m))),
    ensures
        registry_entries(*final(m)) == insert_entry(registry_entries(*old(m)), k@, v@),
{
    m.insert(k, v);
}

/// Relies on indexmap::IndexMap::len: the number of entries.
#[verifier::external_body]
pub(crate) fn im_len(m: &IndexMap<String, Selection<Repo>>) -> (n: usize)
    ensures
        n == registry_entries(*m).len(),
{
    m.len()
}

/// Relies on indexmap::IndexMap::get_index: the key-value pair at a
/// position in the order, if the position is in bounds.
#[verifier::external_body]
pub(crate) fn im_get_index<'a>(
    m: &'a IndexMap<String, Selection<Repo>>,
    i: usize,
) -> (r: Option<(&'a String, &'a Selection<Repo>)>)
    ensures
        match r {
            Some(p) => {
                &&& i < registry_entries(*m).len()
                &&& p.0@ == registry_entries(*m)[i as int].0
                &&& p.1@ == registry_entries(*m)[i as int].1
            },
            None => i >= registry_entries(*m).len(),
        },
{
    m.get_index(i)
}

/// Relies on indexmap::IndexMap::get, looking a `String` key up by a
/// borrowed `str`: returns the value stored under an equivalent key,
/// if one exists.
#[verifier::external_body]
pub(crate) fn im_get<'a>(
    m: &'a IndexMap<String, Selection<Repo>>,
    k: &str,
) -> (r: Option<&'a Selection<Repo>>)
    requires
        unique_keys(registry_entries(*m)),
    ensures
        match r {
            Some(v) => {
                &&& has_key(registry_entries(*m), k@)
                &&& v@ == registry_entries(*m)[key_index(registry_entries(*m), k@)].1
            },
            None => !has_key(registry_entries(*m), k@),
        },
{
    m.get(k)
}

/// Relies on indexmap::IndexMap::contains_key, looking a `String` key
/// up by a borrowed `str`.
#[verifier::external_body]
pub(crate) fn im_contains_key(m: &IndexMap<String, Selection<Repo>>, k: &str) -> (r: bool)
    ensures
        r == has_key(registry_entries(*m), k@),
{
    m.contains_key(k)
}

} // verus!
