//! Laws of the store, stated over its abstract map and proved once for all
//! inputs. Each law is phrased in the vocabulary the operations' own
//! contracts use, so it composes with them directly.

use vstd::prelude::*;

verus! {

/// Idempotence of delete. The delete contract reports whether the key was
/// present and leaves `m.remove(k)` behind; this law adds that the key is
/// absent after the first removal — so a second delete of the same key
/// reports false — and that the second removal changes nothing.
pub proof fn lemma_delete_idempotent(m: Map<Seq<char>, Seq<char>>, k: Seq<char>)
    ensures
        !m.remove(k).contains_key(k),
        m.remove(k).remove(k) == m.remove(k),
{
    assert(m.remove(k).remove(k) =~= m.remove(k));
}

/// Overwrite semantics: storing under the same key twice leaves exactly the
/// state of storing the second value once — the first value is fully
/// superseded and observable nowhere.
pub proof fn lemma_overwrite(
    m: Map<Seq<char>, Seq<char>>,
    k: Seq<char>,
    v1: Seq<char>,
    v2: Seq<char>,
)
    ensures
        m.insert(k, v1).insert(k, v2) == m.insert(k, v2),
        m.insert(k, v1).insert(k, v2)[k] == v2,
{
    assert(m.insert(k, v1).insert(k, v2) =~= m.insert(k, v2));
}

/// Read after write: once `v` is stored under `k`, a lookup of `k` observes
/// `v`, and keeps observing it across writes and deletes of other keys;
/// only another write to `k` or a delete of `k` changes that.
pub proof fn lemma_read_after_write(
    m: Map<Seq<char>, Seq<char>>,
    k: Seq<char>,
    v: Seq<char>,
    k2: Seq<char>,
    v2: Seq<char>,
)
    requires
        k2 != k,
    ensures
        m.insert(k, v).contains_key(k),
        m.insert(k, v)[k] == v,
        m.insert(k, v).insert(k2, v2).contains_key(k),
        m.insert(k, v).insert(k2, v2)[k] == v,
        m.insert(k, v).remove(k2).contains_key(k),
        m.insert(k, v).remove(k2)[k] == v,
{
}

/// Absent keys: deleting a key that holds no value leaves the store
/// exactly as it was. Together with the delete contract this gives the
/// reported false; the get contract already gives the absent marker.
pub proof fn lemma_absent_key(m: Map<Seq<char>, Seq<char>>, k: Seq<char>)
    requires
        !m.contains_key(k),
    ensures
        m.remove(k) == m,
{
    assert(m.remove(k) =~= m);
}

/// Readers agree: the lookup contract pins the observation as a function
/// of the store's map alone, so any two observations of the same store and
/// key that the contract permits are identical — simultaneous readers all
/// see the same thing.
pub proof fn lemma_readers_agree(
    m: Map<Seq<char>, Seq<char>>,
    k: Seq<char>,
    r1: Option<Seq<char>>,
    r2: Option<Seq<char>>,
)
    requires
        r1 is Some <==> m.contains_key(k),
        r1 matches Some(v) ==> v == m[k],
        r2 is Some <==> m.contains_key(k),
        r2 matches Some(v) ==> v == m[k],
    ensures
        r1 == r2,
{
}

} // verus!
