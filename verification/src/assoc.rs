//! Reasoning about sequences of records with a unique key: the shape every
//! table of this library shares (users, sessions, tickets, failure
//! counters, registered keys, stored files).

use vstd::prelude::*;

verus! {

/// The last record whose key is `k`, if any. Tables keep keys unique, so
/// "last" is simply "the one".
pub open spec fn assoc<T, K>(s: Seq<T>, keyf: spec_fn(T) -> K, k: K) -> Option<T>
    decreases s.len(),
{
    if s.len() == 0 {
        None
    } else if keyf(s.last()) == k {
        Some(s.last())
    } else {
        assoc(s.drop_last(), keyf, k)
    }
}

/// Keys are pairwise distinct.
pub open spec fn assoc_wf<T, K>(s: Seq<T>, keyf: spec_fn(T) -> K) -> bool {
    forall|i: int, j: int| 0 <= i < j < s.len() ==> keyf(s[i]) != keyf(s[j])
}

/// No record has key `k` exactly when the lookup finds nothing.
pub proof fn lemma_assoc_none<T, K>(s: Seq<T>, keyf: spec_fn(T) -> K, k: K)
    ensures
        assoc(s, keyf, k) is None <==> (forall|i: int|
            0 <= i < s.len() ==> keyf(#[trigger] s[i]) != k),
    decreases s.len(),
{
    if s.len() > 0 {
        lemma_assoc_none(s.drop_last(), keyf, k);
        assert(forall|i: int| 0 <= i < s.len() - 1 ==> s.drop_last()[i] == #[trigger] s[i]);
        assert(s[s.len() - 1] == s.last());
    }
}

/// A found record carries the key it was looked up by and is a row of the
/// table.
pub proof fn lemma_assoc_found<T, K>(s: Seq<T>, keyf: spec_fn(T) -> K, k: K)
    ensures
        assoc(s, keyf, k) matches Some(t) ==> keyf(t) == k && (exists|i: int|
            0 <= i < s.len() && s[i] == t),
    decreases s.len(),
{
    if s.len() > 0 {
        lemma_assoc_found(s.drop_last(), keyf, k);
        if assoc(s, keyf, k) is Some && keyf(s.last()) != k {
            let t = assoc(s, keyf, k)->Some_0;
            let i = choose|i: int| 0 <= i < s.drop_last().len() && s.drop_last()[i] == t;
            assert(s[i] == t);
        }
    }
}

/// In a well-formed table, the row at any index is what its key looks up
/// to.
pub proof fn lemma_assoc_index<T, K>(s: Seq<T>, keyf: spec_fn(T) -> K, i: int)
    requires
        assoc_wf(s, keyf),
        0 <= i < s.len(),
    ensures
        assoc(s, keyf, keyf(s[i])) == Some(s[i]),
    decreases s.len(),
{
    if i == s.len() - 1 {
        assert(s[i] == s.last());
    } else {
        assert(keyf(s.last()) != keyf(s[i]));
        assert(s.drop_last()[i] == s[i]);
        lemma_assoc_index(s.drop_last(), keyf, i);
    }
}

/// Appending a record with a fresh key: it becomes visible, everything
/// else is untouched, and well-formedness is kept.
pub proof fn lemma_assoc_push<T, K>(s: Seq<T>, keyf: spec_fn(T) -> K, t: T)
    requires
        assoc_wf(s, keyf),
        assoc(s, keyf, keyf(t)) is None,
    ensures
        assoc_wf(s.push(t), keyf),
        assoc(s.push(t), keyf, keyf(t)) == Some(t),
        forall|k2: K| k2 != keyf(t) ==> assoc(s.push(t), keyf, k2) == assoc(s, keyf, k2),
{
    lemma_assoc_none(s, keyf, k_of(keyf, t));
    assert(s.push(t).last() == t);
    assert(s.push(t).drop_last() =~= s);
    assert(forall|i: int| 0 <= i < s.len() ==> s.push(t)[i] == #[trigger] s[i]);
}

/// The key of a record, spelled as a function so that triggers stay tame.
pub open spec fn k_of<T, K>(keyf: spec_fn(T) -> K, t: T) -> K {
    keyf(t)
}

/// Removing the row at an index: its key stops resolving, all other keys
/// are untouched, and well-formedness is kept.
pub proof fn lemma_assoc_remove<T, K>(s: Seq<T>, keyf: spec_fn(T) -> K, i: int)
    requires
        assoc_wf(s, keyf),
        0 <= i < s.len(),
    ensures
        assoc_wf(s.remove(i), keyf),
        assoc(s.remove(i), keyf, keyf(s[i])) is None,
        forall|k2: K| k2 != keyf(s[i]) ==> assoc(s.remove(i), keyf, k2) == assoc(s, keyf, k2),
    decreases s.len(),
{
    let r = s.remove(i);
    assert(forall|j: int| 0 <= j < i ==> r[j] == #[trigger] s[j]);
    assert(forall|j: int| i <= j < r.len() ==> r[j] == #[trigger] s[j + 1]);
    lemma_assoc_none(r, keyf, keyf(s[i]));
    if i == s.len() - 1 {
        assert(r =~= s.drop_last());
        assert forall|k2: K| k2 != keyf(s[i]) implies assoc(r, keyf, k2) == assoc(
            s,
            keyf,
            k2,
        ) by {
            assert(keyf(s.last()) != k2);
            assert(assoc(s, keyf, k2) == assoc(s.drop_last(), keyf, k2));
        }
    } else {
        assert(r.last() == s.last());
        assert(r.drop_last() =~= s.drop_last().remove(i));
        assert(s.drop_last()[i] == s[i]);
        lemma_assoc_remove(s.drop_last(), keyf, i);
        assert forall|k2: K| k2 != keyf(s[i]) implies assoc(r, keyf, k2) == assoc(
            s,
            keyf,
            k2,
        ) by {
            if keyf(s.last()) == k2 {
                assert(assoc(r, keyf, k2) == Some(r.last()));
                assert(assoc(s, keyf, k2) == Some(s.last()));
            } else {
                assert(assoc(r, keyf, k2) == assoc(s.drop_last().remove(i), keyf, k2));
                assert(assoc(s.drop_last().remove(i), keyf, k2) == assoc(
                    s.drop_last(),
                    keyf,
                    k2,
                ));
                assert(assoc(s, keyf, k2) == assoc(s.drop_last(), keyf, k2));
            }
        }
    }
}

/// Keeping only the rows a predicate admits: well-formedness survives,
/// an admitted row is still found under its key, a dropped one no
/// longer is, and every row of the result is a row of the table.
pub proof fn lemma_assoc_filter<T, K>(s: Seq<T>, keyf: spec_fn(T) -> K, pred: spec_fn(T) -> bool)
    requires
        assoc_wf(s, keyf),
    ensures
        assoc_wf(s.filter(pred), keyf),
        forall|k: K|
            #[trigger] assoc(s.filter(pred), keyf, k) == (match assoc(s, keyf, k) {
                Some(t) => if pred(t) {
                    Some(t)
                } else {
                    None
                },
                None => None,
            }),
        forall|i: int|
            0 <= i < s.filter(pred).len() ==> (exists|j: int|
                0 <= j < s.len() && s[j] == #[trigger] s.filter(pred)[i]),
    decreases s.len(),
{
    reveal_with_fuel(Seq::filter, 2);
    let f = s.filter(pred);
    if s.len() == 0 {
    } else {
        let s0 = s.drop_last();
        let l = s.last();
        assert(forall|i: int| 0 <= i < s0.len() ==> s0[i] == #[trigger] s[i]);
        assert(assoc_wf(s0, keyf));
        lemma_assoc_filter(s0, keyf, pred);
        lemma_assoc_none(s0, keyf, k_of(keyf, l));
        assert(assoc(s0, keyf, keyf(l)) is None);
        let f0 = s0.filter(pred);
        assert(forall|i: int|
            0 <= i < f0.len() ==> (exists|j: int| 0 <= j < s.len() && s[j] == #[trigger] f0[i]));
        if pred(l) {
            assert(f == f0.push(l));
            assert(assoc(f0, keyf, keyf(l)) is None);
            lemma_assoc_push(f0, keyf, l);
            assert forall|k: K| #[trigger] assoc(f, keyf, k) == (match assoc(s, keyf, k) {
                Some(t) => if pred(t) {
                    Some(t)
                } else {
                    None
                },
                None => None,
            }) by {
                if k != keyf(l) {
                    assert(assoc(f, keyf, k) == assoc(f0, keyf, k));
                    assert(assoc(s, keyf, k) == assoc(s0, keyf, k));
                }
            }
            assert forall|i: int| 0 <= i < f.len() implies (exists|j: int|
                0 <= j < s.len() && s[j] == #[trigger] f[i]) by {
                if i < f.len() - 1 {
                    assert(f[i] == f0[i]);
                } else {
                    assert(f[i] == s[s.len() - 1]);
                }
            }
        } else {
            assert(f == f0);
            assert forall|k: K| #[trigger] assoc(f, keyf, k) == (match assoc(s, keyf, k) {
                Some(t) => if pred(t) {
                    Some(t)
                } else {
                    None
                },
                None => None,
            }) by {
                if k == keyf(l) {
                    assert(assoc(f, keyf, k) is None);
                } else {
                    assert(assoc(s, keyf, k) == assoc(s0, keyf, k));
                }
            }
        }
    }
}

/// Replacing the row at an index by a record whose key is either the same
/// or fresh: the new key resolves to the new record, the replaced key
/// stops resolving (unless it is the new key), all other keys are
/// untouched, and well-formedness is kept.
pub proof fn lemma_assoc_update<T, K>(s: Seq<T>, keyf: spec_fn(T) -> K, i: int, t: T)
    requires
        assoc_wf(s, keyf),
        0 <= i < s.len(),
        keyf(t) == keyf(s[i]) || assoc(s, keyf, keyf(t)) is None,
    ensures
        assoc_wf(s.update(i, t), keyf),
        assoc(s.update(i, t), keyf, keyf(t)) == Some(t),
        keyf(t) != keyf(s[i]) ==> assoc(s.update(i, t), keyf, keyf(s[i])) is None,
        forall|k2: K|
            k2 != keyf(t) && k2 != keyf(s[i]) ==> assoc(s.update(i, t), keyf, k2) == assoc(
                s,
                keyf,
                k2,
            ),
    decreases s.len(),
{
    let r = s.update(i, t);
    assert(r[i] == t);
    assert(forall|j: int| 0 <= j < s.len() && j != i ==> r[j] == #[trigger] s[j]);
    if keyf(t) != keyf(s[i]) {
        lemma_assoc_none(s, keyf, k_of(keyf, t));
    }
    assert(assoc_wf(r, keyf));
    if i == s.len() - 1 {
        assert(r.last() == t);
        assert(r.drop_last() =~= s.drop_last());
        assert(s[i] == s.last());
        if keyf(t) != keyf(s[i]) {
            lemma_assoc_none(s.drop_last(), keyf, k_of(keyf, t));
            assert(forall|j: int| 0 <= j < s.len() - 1 ==> s.drop_last()[j] == #[trigger] s[j]);
            lemma_assoc_none(s.drop_last(), keyf, k_of(keyf, s[i]));
        }
        assert forall|k2: K| k2 != keyf(t) && k2 != keyf(s[i]) implies assoc(r, keyf, k2)
            == assoc(s, keyf, k2) by {
            assert(assoc(r, keyf, k2) == assoc(s.drop_last(), keyf, k2));
            assert(assoc(s, keyf, k2) == assoc(s.drop_last(), keyf, k2));
        }
    } else {
        assert(r.last() == s.last());
        assert(r.drop_last() =~= s.drop_last().update(i, t));
        assert(s.drop_last()[i] == s[i]);
        if !(keyf(t) == keyf(s[i])) {
            lemma_assoc_none(s.drop_last(), keyf, k_of(keyf, t));
        }
        lemma_assoc_update(s.drop_last(), keyf, i, t);
        assert(keyf(s.last()) != keyf(t) && keyf(s.last()) != keyf(s[i]));
        assert(assoc(r, keyf, keyf(t)) == assoc(s.drop_last().update(i, t), keyf, keyf(t)));
        if keyf(t) != keyf(s[i]) {
            assert(assoc(r, keyf, keyf(s[i])) == assoc(
                s.drop_last().update(i, t),
                keyf,
                keyf(s[i]),
            ));
        }
        assert forall|k2: K| k2 != keyf(t) && k2 != keyf(s[i]) implies assoc(r, keyf, k2)
            == assoc(s, keyf, k2) by {
            if keyf(s.last()) == k2 {
                assert(assoc(r, keyf, k2) == Some(r.last()));
                assert(assoc(s, keyf, k2) == Some(s.last()));
            } else {
                assert(assoc(r, keyf, k2) == assoc(s.drop_last().update(i, t), keyf, k2));
                assert(assoc(s.drop_last().update(i, t), keyf, k2) == assoc(
                    s.drop_last(),
                    keyf,
                    k2,
                ));
                assert(assoc(s, keyf, k2) == assoc(s.drop_last(), keyf, k2));
            }
        }
    }
}

} // verus!
