//! The store: the authoritative mapping from string keys to string values.
//!
//! The representation is a pair of columns, one of keys and one of values,
//! kept in step and free of duplicate keys. Its abstract value, `self@`, is
//! the finite map the columns denote; every operation's contract is stated
//! against that map.

use vstd::prelude::*;

verus! {

/// The map denoted by the first `n` entries of the two columns: entry after
/// entry, a later binding overwriting an earlier one for the same key.
spec fn kv_map_prefix(ks: Seq<String>, vs: Seq<String>, n: int) -> Map<Seq<char>, Seq<char>>
    decreases n,
{
    if n <= 0 {
        Map::empty()
    } else {
        kv_map_prefix(ks, vs, n - 1).insert(ks[n - 1]@, vs[n - 1]@)
    }
}

/// No key occurs twice among the first `n` entries of `ks`.
spec fn distinct_keys(ks: Seq<String>, n: int) -> bool {
    forall|i: int, j: int| 0 <= i < j < n ==> ks[i]@ != ks[j]@
}

/// A key-value store over strings. Keys are unique; no order among entries
/// is promised.
pub struct Store {
    keys: Vec<String>,
    vals: Vec<String>,
}

impl View for Store {
    type V = Map<Seq<char>, Seq<char>>;

    closed spec fn view(&self) -> Map<Seq<char>, Seq<char>> {
        kv_map_prefix(self.keys@, self.vals@, self.keys@.len() as int)
    }
}

proof fn lemma_kv_contains(ks: Seq<String>, vs: Seq<String>, n: int, k: Seq<char>)
    requires
        0 <= n <= ks.len(),
        n <= vs.len(),
    ensures
        kv_map_prefix(ks, vs, n).contains_key(k) <==> exists|i: int|
            0 <= i < n && #[trigger] ks[i]@ == k,
    decreases n,
{
    if n > 0 {
        lemma_kv_contains(ks, vs, n - 1, k);
        if ks[n - 1]@ == k {
            assert(kv_map_prefix(ks, vs, n).contains_key(k));
        } else if exists|i: int| 0 <= i < n && #[trigger] ks[i]@ == k {
            let i = choose|i: int| 0 <= i < n && #[trigger] ks[i]@ == k;
            assert(0 <= i < n - 1 && ks[i]@ == k);
        }
    }
}

proof fn lemma_kv_lookup(ks: Seq<String>, vs: Seq<String>, n: int, i: int)
    requires
        0 <= i < n <= ks.len(),
        n <= vs.len(),
        distinct_keys(ks, n),
    ensures
        kv_map_prefix(ks, vs, n).contains_key(ks[i]@),
        kv_map_prefix(ks, vs, n)[ks[i]@] == vs[i]@,
    decreases n,
{
    if i < n - 1 {
        lemma_kv_lookup(ks, vs, n - 1, i);
        assert(ks[i]@ != ks[n - 1]@);
    }
}

proof fn lemma_kv_prefix_agree(
    ks1: Seq<String>,
    vs1: Seq<String>,
    ks2: Seq<String>,
    vs2: Seq<String>,
    n: int,
)
    requires
        0 <= n <= ks1.len(),
        n <= vs1.len(),
        n <= ks2.len(),
        n <= vs2.len(),
        forall|i: int| #![trigger ks1[i], ks2[i]] 0 <= i < n ==> ks1[i]@ == ks2[i]@ && vs1[i]@
            == vs2[i]@,
    ensures
        kv_map_prefix(ks1, vs1, n) == kv_map_prefix(ks2, vs2, n),
    decreases n,
{
    if n > 0 {
        lemma_kv_prefix_agree(ks1, vs1, ks2, vs2, n - 1);
    }
}

proof fn lemma_kv_update_val(ks: Seq<String>, vs: Seq<String>, n: int, i: int, v: String)
    requires
        0 <= i < n <= ks.len(),
        n <= vs.len(),
        distinct_keys(ks, n),
    ensures
        kv_map_prefix(ks, vs.update(i, v), n) == kv_map_prefix(ks, vs, n).insert(ks[i]@, v@),
    decreases n,
{
    let vs2 = vs.update(i, v);
    if i == n - 1 {
        lemma_kv_prefix_agree(ks, vs2, ks, vs, n - 1);
        assert(kv_map_prefix(ks, vs, n - 1).insert(ks[i]@, vs[i]@).insert(ks[i]@, v@)
            =~= kv_map_prefix(ks, vs, n - 1).insert(ks[i]@, v@));
    } else {
        lemma_kv_update_val(ks, vs, n - 1, i, v);
        assert(ks[i]@ != ks[n - 1]@);
        assert(kv_map_prefix(ks, vs, n - 1).insert(ks[i]@, v@).insert(ks[n - 1]@, vs2[n - 1]@)
            =~= kv_map_prefix(ks, vs, n - 1).insert(ks[n - 1]@, vs[n - 1]@).insert(ks[i]@, v@));
    }
}

proof fn lemma_kv_push(ks: Seq<String>, vs: Seq<String>, k: String, v: String)
    requires
        ks.len() == vs.len(),
    ensures
        kv_map_prefix(ks.push(k), vs.push(v), ks.len() as int + 1) == kv_map_prefix(
            ks,
            vs,
            ks.len() as int,
        ).insert(k@, v@),
{
    lemma_kv_prefix_agree(ks.push(k), vs.push(v), ks, vs, ks.len() as int);
}

proof fn lemma_kv_remove(ks: Seq<String>, vs: Seq<String>, n: int, i: int)
    requires
        0 <= i < n <= ks.len(),
        n <= vs.len(),
        distinct_keys(ks, n),
    ensures
        kv_map_prefix(ks.remove(i), vs.remove(i), n - 1) == kv_map_prefix(ks, vs, n).remove(
            ks[i]@,
        ),
    decreases n,
{
    ks.remove_ensures(i);
    vs.remove_ensures(i);
    if i == n - 1 {
        lemma_kv_prefix_agree(ks.remove(i), vs.remove(i), ks, vs, n - 1);
        lemma_kv_contains(ks, vs, n - 1, ks[i]@);
        assert(!kv_map_prefix(ks, vs, n - 1).contains_key(ks[i]@));
        assert(kv_map_prefix(ks, vs, n - 1).insert(ks[i]@, vs[i]@).remove(ks[i]@)
            =~= kv_map_prefix(ks, vs, n - 1));
    } else {
        lemma_kv_remove(ks, vs, n - 1, i);
        assert(ks.remove(i)[n - 2] == ks[n - 1]);
        assert(vs.remove(i)[n - 2] == vs[n - 1]);
        assert(ks[i]@ != ks[n - 1]@);
        assert(kv_map_prefix(ks, vs, n - 1).remove(ks[i]@).insert(ks[n - 1]@, vs[n - 1]@)
            =~= kv_map_prefix(ks, vs, n - 1).insert(ks[n - 1]@, vs[n - 1]@).remove(ks[i]@));
    }
}

impl Store {
    /// Well-formed: the two columns have the same length and no key occurs
    /// twice. Constructors establish this and every operation preserves it.
    pub closed spec fn wf(&self) -> bool {
        &&& self.keys@.len() == self.vals@.len()
        &&& distinct_keys(self.keys@, self.keys@.len() as int)
    }

    /// An empty store.
    pub fn new() -> (s: Store)
        ensures
            s.wf(),
            s@ == Map::<Seq<char>, Seq<char>>::empty(),
    {
        Store { keys: Vec::new(), vals: Vec::new() }
    }

    /// The index at which `key` is stored, if it is.
    fn find_index(&self, key: &String) -> (r: Option<usize>)
        requires
            self.wf(),
        ensures
            match r {
                Some(i) => i < self.keys@.len() && self.keys@[i as int]@ == key@,
                None => forall|i: int| 0 <= i < self.keys@.len() ==> #[trigger] self.keys@[i]@
                    != key@,
            },
    {
        let mut i: usize = 0;
        while i < self.keys.len()
            invariant
                i <= self.keys@.len(),
                forall|j: int| 0 <= j < i ==> #[trigger] self.keys@[j]@ != key@,
            decreases self.keys@.len() - i,
        {
            if self.keys[i] == *key {
                return Some(i);
            }
            i += 1;
        }
        None
    }

    /// Insert `value` under `key`, overwriting any value stored there before.
    pub fn put(&mut self, key: String, value: String)
        requires
            old(self).wf(),
        ensures
            final(self).wf(),
            final(self)@ == old(self)@.insert(key@, value@),
    {
        let ghost key0 = key;
        let ghost value0 = value;
        match self.find_index(&key) {
            Some(i) => {
                self.vals[i] = value;
                proof {
                    lemma_kv_update_val(
                        self.keys@,
                        old(self).vals@,
                        self.keys@.len() as int,
                        i as int,
                        value0,
                    );
                }
            },
            None => {
                self.keys.push(key);
                self.vals.push(value);
                proof {
                    lemma_kv_push(old(self).keys@, old(self).vals@, key0, value0);
                    let n = old(self).keys@.len() as int;
                    assert forall|i: int, j: int| 0 <= i < j < n + 1 implies self.keys@[i]@
                        != self.keys@[j]@ by {
                        if j < n {
                            assert(old(self).keys@[i]@ != old(self).keys@[j]@);
                        } else {
                            assert(old(self).keys@[i]@ != key0@);
                        }
                    }
                }
            },
        }
    }

    /// The value stored under `key`, or nothing when the key is absent.
    pub fn get(&self, key: &String) -> (r: Option<&String>)
        requires
            self.wf(),
        ensures
            r is Some <==> self@.contains_key(key@),
            r matches Some(v) ==> v@ == self@[key@],
    {
        proof {
            lemma_kv_contains(self.keys@, self.vals@, self.keys@.len() as int, key@);
        }
        match self.find_index(key) {
            Some(i) => {
                proof {
                    lemma_kv_lookup(self.keys@, self.vals@, self.keys@.len() as int, i as int);
                }
                Some(&self.vals[i])
            },
            None => None,
        }
    }

    /// Remove the entry under `key`, if there is one; report whether a
    /// removal happened. Removing an absent key changes nothing.
    pub fn delete(&mut self, key: &String) -> (r: bool)
        requires
            old(self).wf(),
        ensures
            final(self).wf(),
            r == old(self)@.contains_key(key@),
            final(self)@ == old(self)@.remove(key@),
    {
        proof {
            lemma_kv_contains(
                old(self).keys@,
                old(self).vals@,
                old(self).keys@.len() as int,
                key@,
            );
        }
        match self.find_index(key) {
            Some(i) => {
                self.keys.remove(i);
                self.vals.remove(i);
                proof {
                    let ks = old(self).keys@;
                    let n = ks.len() as int;
                    lemma_kv_remove(ks, old(self).vals@, n, i as int);
                    ks.remove_ensures(i as int);
                    assert forall|x: int, y: int| 0 <= x < y < n - 1 implies self.keys@[x]@
                        != self.keys@[y]@ by {
                        let x0: int = if x < i { x } else { x + 1 };
                        let y0: int = if y < i { y } else { y + 1 };
                        assert(self.keys@[x] == ks[x0]);
                        assert(self.keys@[y] == ks[y0]);
                        assert(ks[x0]@ != ks[y0]@);
                    }
                }
                true
            },
            None => {
                proof {
                    assert(old(self)@.remove(key@) =~= old(self)@);
                }
                false
            },
        }
    }

    /// All keys currently stored, in no promised order: each returned key is
    /// in the store, no key is returned twice, and every stored key is
    /// returned.
    pub fn list_keys(&self) -> (r: Vec<String>)
        requires
            self.wf(),
        ensures
            forall|i: int, j: int| 0 <= i < j < r@.len() ==> #[trigger] r@[i]@ != #[trigger] r@[j]@,
            forall|i: int| 0 <= i < r@.len() ==> self@.contains_key(#[trigger] r@[i]@),
            forall|k: Seq<char>| #[trigger] self@.contains_key(k) ==> exists|i: int|
                0 <= i < r@.len() && #[trigger] r@[i]@ == k,
    {
        let mut r: Vec<String> = Vec::new();
        let mut i: usize = 0;
        while i < self.keys.len()
            invariant
                i <= self.keys@.len(),
                r@.len() == i,
                forall|j: int| 0 <= j < i ==> #[trigger] r@[j] == self.keys@[j],
            decreases self.keys@.len() - i,
        {
            r.push(self.keys[i].clone());
            i += 1;
        }
        proof {
            let n = self.keys@.len() as int;
            assert forall|x: int| 0 <= x < r@.len() implies self@.contains_key(
                #[trigger] r@[x]@,
            ) by {
                lemma_kv_contains(self.keys@, self.vals@, n, r@[x]@);
                assert(self.keys@[x]@ == r@[x]@);
            }
            assert forall|k: Seq<char>| #[trigger] self@.contains_key(k) implies exists|x: int|
                0 <= x < r@.len() && #[trigger] r@[x]@ == k by {
                lemma_kv_contains(self.keys@, self.vals@, n, k);
                let x = choose|x: int| 0 <= x < n && #[trigger] self.keys@[x]@ == k;
                assert(r@[x]@ == k);
            }
        }
        r
    }
}

} // verus!
