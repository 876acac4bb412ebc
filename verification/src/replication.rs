//! The replication model: what a host is asked to propagate, and what
//! replaying it does.
//!
//! A mutating command that completes asks the host, exactly once, to
//! propagate the invocation it just ran. `Signal` is the abstract content of
//! one such request, `apply_signal` the effect replaying it has on a store's
//! map, and `replay` the effect of a whole log of them on an empty store.

use vstd::prelude::*;

verus! {

/// One replication request: the mutating invocation the host must propagate,
/// reduced to what it does to the store.
pub enum Signal {
    /// A completed `set key value`.
    Put(Seq<char>, Seq<char>),
    /// A completed `del key`, whether or not the key was present.
    Del(Seq<char>),
}

/// The store map after one propagated invocation is replayed against `m`.
pub open spec fn apply_signal(m: Map<Seq<char>, Seq<char>>, s: Signal) -> Map<
    Seq<char>,
    Seq<char>,
> {
    match s {
        Signal::Put(k, v) => m.insert(k, v),
        Signal::Del(k) => m.remove(k),
    }
}

/// The store map after a whole log of propagated invocations is replayed,
/// oldest first, against an empty store.
pub open spec fn replay(sigs: Seq<Signal>) -> Map<Seq<char>, Seq<char>>
    decreases sigs.len(),
{
    if sigs.len() == 0 {
        Map::empty()
    } else {
        apply_signal(replay(sigs.drop_last()), sigs.last())
    }
}

/// Replaying the log of replication requests against an empty store
/// reproduces the final store state: whenever a run starts empty and each
/// step's state is the previous one with one propagated invocation applied,
/// the last state is exactly `replay` of the log.
pub proof fn lemma_replay_reproduces_state(sigs: Seq<Signal>, states: Seq<Map<Seq<char>, Seq<char>>>)
    requires
        states.len() == sigs.len() + 1,
        states[0] == Map::<Seq<char>, Seq<char>>::empty(),
        forall|i: int| 0 <= i < sigs.len() ==> states[i + 1] == apply_signal(
            #[trigger] states[i],
            sigs[i],
        ),
    ensures
        states[sigs.len() as int] == replay(sigs),
    decreases sigs.len(),
{
    if sigs.len() > 0 {
        lemma_replay_reproduces_state(sigs.drop_last(), states.drop_last());
    }
}

/// After a log consisting only of sets, the store holds exactly the keys
/// that were set and no others.
pub proof fn lemma_keys_complete(sigs: Seq<Signal>)
    requires
        forall|i: int| 0 <= i < sigs.len() ==> #[trigger] sigs[i] is Put,
    ensures
        forall|k: Seq<char>| #[trigger] replay(sigs).contains_key(k) <==> exists|i: int|
            0 <= i < sigs.len() && #[trigger] sigs[i]->Put_0 == k,
    decreases sigs.len(),
{
    if sigs.len() > 0 {
        let dl = sigs.drop_last();
        lemma_keys_complete(dl);
        assert(sigs[sigs.len() - 1] is Put);
        assert forall|k: Seq<char>| #[trigger] replay(sigs).contains_key(k) implies exists|i: int|
            0 <= i < sigs.len() && #[trigger] sigs[i]->Put_0 == k by {
            if sigs[sigs.len() - 1]->Put_0 == k {
            } else {
                assert(replay(dl).contains_key(k));
                let i = choose|i: int| 0 <= i < dl.len() && #[trigger] dl[i]->Put_0 == k;
                assert(sigs[i]->Put_0 == k);
            }
        }
        assert forall|k: Seq<char>|
            (exists|i: int|
                0 <= i < sigs.len() && #[trigger] sigs[i]->Put_0 == k) implies #[trigger] replay(
            sigs,
        ).contains_key(k) by {
            let i = choose|i: int| 0 <= i < sigs.len() && #[trigger] sigs[i]->Put_0 == k;
            if i < sigs.len() - 1 {
                assert(dl[i]->Put_0 == k);
                assert(replay(dl).contains_key(k));
            }
        }
    }
}

} // verus!
