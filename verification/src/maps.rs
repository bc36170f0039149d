use indexmap::IndexMap;
use vstd::prelude::*;

use crate::config::types::{AliasConfig, AliasView, ProfileSection, ProfileView};

verus! {

#[verifier::external_type_specification]
#[verifier::external_body]
#[verifier::reject_recursive_types(K)]
#[verifier::reject_recursive_types(V)]
#[verifier::reject_recursive_types(S)]
pub struct ExIndexMap<K, V, S>(IndexMap<K, V, S>);

// ── Insertion-ordered entries, keyed by text ────────────────────────────────

/// Position of the first entry with key `k`, or -1 when there is none.
pub open spec fn entry_index<V>(e: Seq<(Seq<char>, V)>, k: Seq<char>) -> int
    decreases e.len(),
{
    if e.len() == 0 {
        -1
    } else if entry_index(e.drop_last(), k) >= 0 {
        entry_index(e.drop_last(), k)
    } else if e.last().0 == k {
        e.len() - 1
    } else {
        -1
    }
}

/// The value stored under `k`, if any.
pub open spec fn lookup<V>(e: Seq<(Seq<char>, V)>, k: Seq<char>) -> Option<V> {
    if entry_index(e, k) >= 0 {
        Some(e[entry_index(e, k)].1)
    } else {
        None
    }
}

/// Whether some entry has key `k`.
pub open spec fn has_key<V>(e: Seq<(Seq<char>, V)>, k: Seq<char>) -> bool {
    exists|i: int| 0 <= i < e.len() && #[trigger] e[i].0 == k
}

/// Insertion into an insertion-ordered map: an existing key keeps its place
/// and takes the new value; a new key goes last.
pub open spec fn entries_insert<V>(e: Seq<(Seq<char>, V)>, k: Seq<char>, v: V) -> Seq<
    (Seq<char>, V),
> {
    if entry_index(e, k) >= 0 {
        e.update(entry_index(e, k), (k, v))
    } else {
        e.push((k, v))
    }
}

/// The keys of the entries, in order.
pub open spec fn keys_of<V>(e: Seq<(Seq<char>, V)>) -> Seq<Seq<char>> {
    e.map_values(|p: (Seq<char>, V)| p.0)
}

/// `entry_index` finds the first entry with the key, and -1 means absent.
pub proof fn lemma_entry_index<V>(e: Seq<(Seq<char>, V)>, k: Seq<char>)
    ensures
        -1 <= entry_index(e, k) < e.len(),
        entry_index(e, k) == -1 <==> !has_key(e, k),
        entry_index(e, k) >= 0 ==> e[entry_index(e, k)].0 == k,
        forall|j: int| 0 <= j < entry_index(e, k) ==> e[j].0 != k,
    decreases e.len(),
{
    if e.len() > 0 {
        lemma_entry_index(e.drop_last(), k);
        let d = e.drop_last();
        if entry_index(d, k) >= 0 {
            assert(e[entry_index(d, k)] == d[entry_index(d, k)]);
            assert forall|j: int| 0 <= j < entry_index(e, k) implies e[j].0 != k by {
                assert(e[j] == d[j]);
            }
        } else {
            assert forall|j: int| 0 <= j < e.len() - 1 implies e[j].0 != k by {
                assert(e[j] == d[j]);
                if e[j].0 == k {
                    assert(has_key(d, k));
                }
            }
            if e.last().0 == k {
                assert(has_key(e, k));
            } else {
                if has_key(e, k) {
                    let i = choose|i: int| 0 <= i < e.len() && #[trigger] e[i].0 == k;
                    assert(false);
                }
            }
        }
    } else {
        if has_key(e, k) {
            let i = choose|i: int| 0 <= i < e.len() && #[trigger] e[i].0 == k;
            assert(false);
        }
    }
}

/// Reading a key after an insertion gives the inserted value for that key and
/// the earlier value for every other key.
pub proof fn lemma_lookup_insert<V>(e: Seq<(Seq<char>, V)>, k: Seq<char>, v: V, k2: Seq<char>)
    ensures
        lookup(entries_insert(e, k, v), k2) == if k2 == k {
            Some(v)
        } else {
            lookup(e, k2)
        },
{
    let n = entries_insert(e, k, v);
    lemma_entry_index(e, k);
    lemma_entry_index(e, k2);
    lemma_entry_index(n, k2);
    let i = entry_index(e, k);
    let i2 = entry_index(e, k2);
    let j2 = entry_index(n, k2);
    if i >= 0 {
        assert(n.len() == e.len());
        if k2 == k {
            assert(n[i].0 == k2);
            if j2 < i {
                assert(n[j2] == e[j2]);
            }
            if j2 > i {
                assert(false);
            }
        } else {
            if i2 >= 0 {
                assert(n[i2] == e[i2]);
                if j2 < i2 {
                    assert(n[j2] == e[j2] || j2 == i);
                }
                assert(has_key(n, k2));
            } else {
                if j2 >= 0 {
                    assert(n[j2] == e[j2] || j2 == i);
                    assert(has_key(e, k2));
                }
            }
        }
    } else {
        assert(n.len() == e.len() + 1);
        if k2 == k {
            assert(n[e.len() as int].0 == k);
            assert(has_key(n, k2));
            if j2 < e.len() {
                assert(n[j2] == e[j2]);
                assert(has_key(e, k));
            }
        } else {
            if i2 >= 0 {
                assert(n[i2] == e[i2]);
                assert(has_key(n, k2));
                if j2 < i2 {
                    assert(n[j2] == e[j2]);
                }
            } else {
                if j2 >= 0 {
                    if j2 < e.len() {
                        assert(n[j2] == e[j2]);
                        assert(has_key(e, k2));
                    }
                }
            }
        }
    }
}

/// Inserting each of `adds` in order.
pub open spec fn insert_all<V>(e: Seq<(Seq<char>, V)>, adds: Seq<(Seq<char>, V)>) -> Seq<
    (Seq<char>, V),
>
    decreases adds.len(),
{
    if adds.len() == 0 {
        e
    } else {
        entries_insert(insert_all(e, adds.drop_last()), adds.last().0, adds.last().1)
    }
}

/// The value of the last entry of `e` with key `k`, if any.
pub open spec fn lookup_last<V>(e: Seq<(Seq<char>, V)>, k: Seq<char>) -> Option<V>
    decreases e.len(),
{
    if e.len() == 0 {
        None
    } else if e.last().0 == k {
        Some(e.last().1)
    } else {
        lookup_last(e.drop_last(), k)
    }
}

/// After inserting `adds`, a key reads as its last value in `adds`, and a key
/// that `adds` does not hold reads as before.
pub proof fn lemma_lookup_insert_all<V>(e: Seq<(Seq<char>, V)>, adds: Seq<(Seq<char>, V)>, k: Seq<char>)
    ensures
        lookup(insert_all(e, adds), k) == match lookup_last(adds, k) {
            Some(v) => Some(v),
            None => lookup(e, k),
        },
    decreases adds.len(),
{
    if adds.len() > 0 {
        lemma_lookup_insert_all(e, adds.drop_last(), k);
        lemma_lookup_insert(insert_all(e, adds.drop_last()), adds.last().0, adds.last().1, k);
    }
}

/// The keys of `e` with every repeated key after its first place left out.
pub open spec fn distinct_keys(ks: Seq<Seq<char>>) -> Seq<Seq<char>>
    decreases ks.len(),
{
    if ks.len() == 0 {
        ks
    } else if distinct_keys(ks.drop_last()).contains(ks.last()) {
        distinct_keys(ks.drop_last())
    } else {
        distinct_keys(ks.drop_last()).push(ks.last())
    }
}

// ── Maps of alias name to alias ─────────────────────────────────────────────

/// The entries of an `IndexMap<String, AliasConfig>`, in the map's order, each
/// key and value by its view.
pub uninterp spec fn alias_entries(m: IndexMap<String, AliasConfig>) -> Seq<(Seq<char>, AliasView)>;

/// `IndexMap::new`: a map with no entries.
#[verifier::external_body]
pub(crate) fn alias_map_new() -> (m: IndexMap<String, AliasConfig>)
    ensures
        alias_entries(m) == Seq::<(Seq<char>, AliasView)>::empty(),
{
    IndexMap::new()
}

/// `IndexMap::len`: the number of entries.
#[verifier::external_body]
pub(crate) fn alias_map_len(m: &IndexMap<String, AliasConfig>) -> (r: usize)
    ensures
        r == alias_entries(*m).len(),
{
    m.len()
}

/// `IndexMap::insert`: an existing key keeps its position and takes the new
/// value, a new key is added last; the earlier value is returned.
#[verifier::external_body]
pub(crate) fn alias_map_insert(m: &mut IndexMap<String, AliasConfig>, k: String, v: AliasConfig) -> (r:
    Option<AliasConfig>)
    ensures
        alias_entries(*final(m)) == entries_insert(alias_entries(*old(m)), k@, v@),
        match r {
            Some(x) => lookup(alias_entries(*old(m)), k@) == Some(x@),
            None => lookup(alias_entries(*old(m)), k@) is None,
        },
{
    m.insert(k, v)
}

/// `IndexMap::get_index`: the entry at position `i`, whose key no other
/// entry has (the keys of an `IndexMap` are unique).
#[verifier::external_body]
pub(crate) fn alias_map_get_index(m: &IndexMap<String, AliasConfig>, i: usize) -> (r: Option<
    (&String, &AliasConfig),
>)
    ensures
        match r {
            Some(p) => i < alias_entries(*m).len() && p.0@ == alias_entries(*m)[i as int].0
                && (forall|j: int| 0 <= j < alias_entries(*m).len() && j != i ==> #[trigger] alias_entries(*m)[j].0 != p.0@)
                && p.1@ == alias_entries(*m)[i as int].1,
            None => i >= alias_entries(*m).len(),
        },
{
    m.get_index(i)
}

/// `IndexMap::get`: the value stored under key `k`.
#[verifier::external_body]
pub(crate) fn alias_map_get<'a>(m: &'a IndexMap<String, AliasConfig>, k: &str) -> (r: Option<&'a AliasConfig>)
    ensures
        match r {
            Some(x) => lookup(alias_entries(*m), k@) == Some(x@),
            None => lookup(alias_entries(*m), k@) is None,
        },
{
    m.get(k)
}

// ── Maps of profile name to profile ─────────────────────────────────────────

/// The entries of an `IndexMap<String, ProfileSection>`, in the map's order,
/// each key and value by its view.
pub uninterp spec fn profile_entries(m: IndexMap<String, ProfileSection>) -> Seq<(Seq<char>, ProfileView)>;

/// `IndexMap::new`: a map with no entries.
#[verifier::external_body]
pub(crate) fn profile_map_new() -> (m: IndexMap<String, ProfileSection>)
    ensures
        profile_entries(m) == Seq::<(Seq<char>, ProfileView)>::empty(),
{
    IndexMap::new()
}

/// `IndexMap::len`: the number of entries.
#[verifier::external_body]
pub(crate) fn profile_map_len(m: &IndexMap<String, ProfileSection>) -> (r: usize)
    ensures
        r == profile_entries(*m).len(),
{
    m.len()
}

/// `IndexMap::insert`: an existing key keeps its position and takes the new
/// value, a new key is added last.
#[verifier::external_body]
pub(crate) fn profile_map_insert(m: &mut IndexMap<String, ProfileSection>, k: String, v: ProfileSection) -> (r:
    Option<ProfileSection>)
    ensures
        profile_entries(*final(m)) == entries_insert(profile_entries(*old(m)), k@, v@),
        match r {
            Some(x) => lookup(profile_entries(*old(m)), k@) == Some(x@),
            None => lookup(profile_entries(*old(m)), k@) is None,
        },
{
    m.insert(k, v)
}

/// `IndexMap::get_index`: the entry at position `i`, whose key no other
/// entry has (the keys of an `IndexMap` are unique).
#[verifier::external_body]
pub(crate) fn profile_map_get_index(m: &IndexMap<String, ProfileSection>, i: usize) -> (r: Option<
    (&String, &ProfileSection),
>)
    ensures
        match r {
            Some(p) => i < profile_entries(*m).len() && p.0@ == profile_entries(*m)[i as int].0
                && (forall|j: int| 0 <= j < profile_entries(*m).len() && j != i ==> #[trigger] profile_entries(*m)[j].0 != p.0@)
                && p.1@ == profile_entries(*m)[i as int].1,
            None => i >= profile_entries(*m).len(),
        },
{
    m.get_index(i)
}

/// `IndexMap::get`: the value stored under key `k`.
#[verifier::external_body]
pub(crate) fn profile_map_get<'a>(m: &'a IndexMap<String, ProfileSection>, k: &str) -> (r: Option<
    &'a ProfileSection,
>)
    ensures
        match r {
            Some(x) => lookup(profile_entries(*m), k@) == Some(x@),
            None => lookup(profile_entries(*m), k@) is None,
        },
{
    m.get(k)
}

} // verus!

verus! {

// ── Sets of names kept in insertion order ───────────────────────────────────

/// The entries of an `IndexMap<String, ()>`, in the map's order, each key by
/// its view.
pub uninterp spec fn name_entries(m: IndexMap<String, ()>) -> Seq<(Seq<char>, ())>;

/// `IndexMap::new`: a map with no entries.
#[verifier::external_body]
pub(crate) fn name_map_new() -> (m: IndexMap<String, ()>)
    ensures
        name_entries(m) == Seq::<(Seq<char>, ())>::empty(),
{
    IndexMap::new()
}

/// `IndexMap::len`: the number of entries.
#[verifier::external_body]
pub(crate) fn name_map_len(m: &IndexMap<String, ()>) -> (r: usize)
    ensures
        r == name_entries(*m).len(),
{
    m.len()
}

/// `IndexMap::insert`: a key already present keeps its position, a new key is
/// added last.
#[verifier::external_body]
pub(crate) fn name_map_insert(m: &mut IndexMap<String, ()>, k: String) -> (r: Option<()>)
    ensures
        name_entries(*final(m)) == entries_insert(name_entries(*old(m)), k@, ()),
        r is Some <==> lookup(name_entries(*old(m)), k@) is Some,
{
    m.insert(k, ())
}

/// `IndexMap::get_index`: the key at position `i`, which no other entry has
/// (the keys of an `IndexMap` are unique).
#[verifier::external_body]
pub(crate) fn name_map_get_index(m: &IndexMap<String, ()>, i: usize) -> (r: Option<(&String, &())>)
    ensures
        match r {
            Some(p) => i < name_entries(*m).len() && p.0@ == name_entries(*m)[i as int].0
                && (forall|j: int| 0 <= j < name_entries(*m).len() && j != i ==> #[trigger] name_entries(*m)[j].0 != p.0@),
            None => i >= name_entries(*m).len(),
        },
{
    m.get_index(i)
}

} // verus!

verus! {

// ── Maps of text to text ────────────────────────────────────────────────────

/// The entries of an `IndexMap<String, String>`, in the map's order, each key
/// and value by its view.
pub uninterp spec fn text_entries(m: IndexMap<String, String>) -> Seq<(Seq<char>, Seq<char>)>;

/// `IndexMap::new`: a map with no entries.
#[verifier::external_body]
pub(crate) fn text_map_new() -> (m: IndexMap<String, String>)
    ensures
        text_entries(m) == Seq::<(Seq<char>, Seq<char>)>::empty(),
{
    IndexMap::new()
}

/// `IndexMap::len`: the number of entries.
#[verifier::external_body]
pub(crate) fn text_map_len(m: &IndexMap<String, String>) -> (r: usize)
    ensures
        r == text_entries(*m).len(),
{
    m.len()
}

/// `IndexMap::insert`: an existing key keeps its position and takes the new
/// value, a new key is added last; the earlier value is returned.
#[verifier::external_body]
pub(crate) fn text_map_insert(m: &mut IndexMap<String, String>, k: String, v: String) -> (r: Option<String>)
    ensures
        text_entries(*final(m)) == entries_insert(text_entries(*old(m)), k@, v@),
        r.deep_view() == lookup(text_entries(*old(m)), k@),
{
    m.insert(k, v)
}

/// `IndexMap::get_index`: the entry at position `i`, whose key no other
/// entry has (the keys of an `IndexMap` are unique).
#[verifier::external_body]
pub(crate) fn text_map_get_index(m: &IndexMap<String, String>, i: usize) -> (r: Option<(&String, &String)>)
    ensures
        match r {
            Some(p) => i < text_entries(*m).len() && p.0@ == text_entries(*m)[i as int].0
                && (forall|j: int| 0 <= j < text_entries(*m).len() && j != i ==> #[trigger] text_entries(*m)[j].0 != p.0@)
                && p.1@ == text_entries(*m)[i as int].1,
            None => i >= text_entries(*m).len(),
        },
{
    m.get_index(i)
}

} // verus!
