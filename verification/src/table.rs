use vstd::prelude::*;

verus! {

/// Index of the first element satisfying `p`, or -1 if there is none.
pub open spec fn first_idx<T>(s: Seq<T>, p: spec_fn(T) -> bool) -> int
    decreases s.len(),
{
    if s.len() == 0 {
        -1
    } else {
        let prev = first_idx(s.drop_last(), p);
        if prev != -1 {
            prev
        } else if p(s.last()) {
            s.len() - 1
        } else {
            -1
        }
    }
}

/// `first_idx` finds a match exactly when one exists, and finds the first.
pub proof fn lemma_first_idx<T>(s: Seq<T>, p: spec_fn(T) -> bool)
    ensures
        first_idx(s, p) == -1 <==> (forall|i: int| 0 <= i < s.len() ==> !p(#[trigger] s[i])),
        first_idx(s, p) != -1 ==> 0 <= first_idx(s, p) < s.len() && p(s[first_idx(s, p)])
            && (forall|i: int| 0 <= i < first_idx(s, p) ==> !p(#[trigger] s[i])),
    decreases s.len(),
{
    if s.len() > 0 {
        lemma_first_idx(s.drop_last(), p);
        assert(forall|i: int| 0 <= i < s.len() - 1 ==> s.drop_last()[i] == #[trigger] s[i]);
    }
}

/// If `p` holds at `i` and nowhere before, then `i` is the first match.
pub proof fn lemma_first_idx_at<T>(s: Seq<T>, p: spec_fn(T) -> bool, i: int)
    requires
        0 <= i < s.len(),
        p(s[i]),
        forall|k: int| 0 <= k < i ==> !p(#[trigger] s[k]),
    ensures
        first_idx(s, p) == i,
    decreases s.len(),
{
    lemma_first_idx(s, p);
    if i < s.len() - 1 {
        lemma_first_idx_at(s.drop_last(), p, i);
    } else {
        lemma_first_idx(s.drop_last(), p);
        assert(forall|k: int| 0 <= k < s.len() - 1 ==> s.drop_last()[k] == #[trigger] s[k]);
    }
}

/// A key drawn from each element is strictly increasing along the sequence;
/// rows inserted later always carry larger keys.
pub open spec fn strictly_increasing<T>(s: Seq<T>, key: spec_fn(T) -> int) -> bool {
    forall|i: int, j: int| 0 <= i < j < s.len() ==> key(#[trigger] s[i]) < key(#[trigger] s[j])
}

/// Every key in the sequence lies below `bound`.
pub open spec fn all_below<T>(s: Seq<T>, key: spec_fn(T) -> int, bound: int) -> bool {
    forall|i: int| 0 <= i < s.len() ==> key(#[trigger] s[i]) < bound
}

/// Appending a fresh key at the current bound keeps both invariants.
pub proof fn lemma_push_fresh<T>(s: Seq<T>, key: spec_fn(T) -> int, bound: int, x: T)
    requires
        strictly_increasing(s, key),
        all_below(s, key, bound),
        key(x) == bound,
    ensures
        strictly_increasing(s.push(x), key),
        forall|b2: int| bound < b2 ==> all_below(s.push(x), key, b2),
{
    assert forall|i: int, j: int| 0 <= i < j < s.push(x).len() implies key(#[trigger] s.push(x)[i])
        < key(#[trigger] s.push(x)[j]) by {
        if j < s.len() {
            assert(s.push(x)[i] == s[i] && s.push(x)[j] == s[j]);
        } else {
            assert(s.push(x)[i] == s[i] && s.push(x)[j] == x);
        }
    }
}

/// Removing one row keeps both invariants.
pub proof fn lemma_remove_keeps<T>(s: Seq<T>, key: spec_fn(T) -> int, bound: int, at: int)
    requires
        strictly_increasing(s, key),
        all_below(s, key, bound),
        0 <= at < s.len(),
    ensures
        strictly_increasing(s.remove(at), key),
        all_below(s.remove(at), key, bound),
{
    let r = s.remove(at);
    assert forall|i: int| 0 <= i < r.len() implies key(#[trigger] r[i]) < bound by {
        if i < at {
            assert(r[i] == s[i]);
        } else {
            assert(r[i] == s[i + 1]);
        }
    }
    assert forall|i: int, j: int| 0 <= i < j < r.len() implies key(#[trigger] r[i]) < key(
        #[trigger] r[j],
    ) by {
        let si = if i < at { i } else { i + 1 };
        let sj = if j < at { j } else { j + 1 };
        assert(r[i] == s[si] && r[j] == s[sj]);
    }
}

/// Replacing one row with one carrying the same key keeps both invariants.
pub proof fn lemma_update_keeps<T>(s: Seq<T>, key: spec_fn(T) -> int, bound: int, at: int, x: T)
    requires
        strictly_increasing(s, key),
        all_below(s, key, bound),
        0 <= at < s.len(),
        key(x) == key(s[at]),
    ensures
        strictly_increasing(s.update(at, x), key),
        all_below(s.update(at, x), key, bound),
{
    let r = s.update(at, x);
    assert forall|i: int| 0 <= i < r.len() implies key(#[trigger] r[i]) < bound by {
        if i != at {
            assert(r[i] == s[i]);
        }
    }
    assert forall|i: int, j: int| 0 <= i < j < r.len() implies key(#[trigger] r[i]) < key(
        #[trigger] r[j],
    ) by {
        if i != at {
            assert(r[i] == s[i]);
        }
        if j != at {
            assert(r[j] == s[j]);
        }
    }
}

/// Every key in the sequence lies at or above `bound`.
pub open spec fn all_above<T>(s: Seq<T>, key: spec_fn(T) -> int, bound: int) -> bool {
    forall|i: int| 0 <= i < s.len() ==> key(#[trigger] s[i]) >= bound
}

/// Removing or replacing under the same key keeps `all_above`.
pub proof fn lemma_above_remove<T>(s: Seq<T>, key: spec_fn(T) -> int, bound: int, at: int)
    requires
        all_above(s, key, bound),
        0 <= at < s.len(),
    ensures
        all_above(s.remove(at), key, bound),
{
    let r = s.remove(at);
    assert forall|i: int| 0 <= i < r.len() implies key(#[trigger] r[i]) >= bound by {
        if i < at {
            assert(r[i] == s[i]);
        } else {
            assert(r[i] == s[i + 1]);
        }
    }
}

pub proof fn lemma_above_update<T>(s: Seq<T>, key: spec_fn(T) -> int, bound: int, at: int, x: T)
    requires
        all_above(s, key, bound),
        0 <= at < s.len(),
        key(x) >= bound,
    ensures
        all_above(s.update(at, x), key, bound),
{
    let r = s.update(at, x);
    assert forall|i: int| 0 <= i < r.len() implies key(#[trigger] r[i]) >= bound by {
        if i != at {
            assert(r[i] == s[i]);
        }
    }
}

/// Along a strictly increasing sequence bounded below, the key at `i` has
/// grown by at least `i`.
pub proof fn lemma_key_grows<T>(s: Seq<T>, key: spec_fn(T) -> int, lo: int, i: int)
    requires
        strictly_increasing(s, key),
        all_above(s, key, lo),
        0 <= i < s.len(),
    ensures
        key(s[i]) >= lo + i,
    decreases i,
{
    if i > 0 {
        lemma_key_grows(s, key, lo, i - 1);
    }
}

/// A strictly increasing sequence whose keys live in `[lo, hi)` cannot hold
/// more than `hi - lo` rows.
pub proof fn lemma_increasing_len<T>(s: Seq<T>, key: spec_fn(T) -> int, lo: int, hi: int)
    requires
        strictly_increasing(s, key),
        all_above(s, key, lo),
        all_below(s, key, hi),
        lo <= hi,
    ensures
        s.len() <= hi - lo,
{
    if s.len() > 0 {
        lemma_key_grows(s, key, lo, s.len() - 1);
        assert(key(s[s.len() - 1]) < hi);
    }
}

/// A bound on keys stays a bound when it is raised.
pub proof fn lemma_below_weaken<T>(s: Seq<T>, key: spec_fn(T) -> int, b1: int, b2: int)
    requires
        all_below(s, key, b1),
        b1 <= b2,
    ensures
        all_below(s, key, b2),
{
    assert forall|i: int| 0 <= i < s.len() implies key(#[trigger] s[i]) < b2 by {}
}

/// Two sequences on which a predicate agrees pointwise have the same
/// first match.
pub proof fn lemma_first_idx_pointwise<T>(s: Seq<T>, t: Seq<T>, p: spec_fn(T) -> bool)
    requires
        s.len() == t.len(),
        forall|i: int| 0 <= i < s.len() ==> p(#[trigger] s[i]) == p(#[trigger] t[i]),
    ensures
        first_idx(s, p) == first_idx(t, p),
    decreases s.len(),
{
    if s.len() > 0 {
        assert forall|i: int| 0 <= i < s.drop_last().len() implies p(#[trigger] s.drop_last()[i])
            == p(#[trigger] t.drop_last()[i]) by {
            assert(s.drop_last()[i] == s[i]);
            assert(t.drop_last()[i] == t[i]);
        }
        lemma_first_idx_pointwise(s.drop_last(), t.drop_last(), p);
        assert(p(s.last()) == p(t.last()));
    }
}

/// A filter that keeps every element changes nothing.
pub proof fn lemma_filter_all<T>(s: Seq<T>, pred: spec_fn(T) -> bool)
    requires
        forall|i: int| 0 <= i < s.len() ==> pred(#[trigger] s[i]),
    ensures
        s.filter(pred) == s,
    decreases s.len(),
{
    reveal(Seq::filter);
    if s.len() > 0 {
        let d = s.drop_last();
        assert(forall|i: int| 0 <= i < d.len() ==> #[trigger] d[i] == s[i]);
        lemma_filter_all(d, pred);
        assert(s.filter(pred) =~= s);
    }
}

/// Filtering keeps the strict order of keys and every bound on them.
pub proof fn lemma_filter_increasing<T>(s: Seq<T>, key: spec_fn(T) -> int, pred: spec_fn(T) -> bool)
    requires
        strictly_increasing(s, key),
    ensures
        strictly_increasing(s.filter(pred), key),
        s.filter(pred).len() > 0 ==> s.len() > 0 && key(s.filter(pred).last()) <= key(s.last()),
        forall|b: int| all_below(s, key, b) ==> all_below(#[trigger] s.filter(pred), key, b),
        forall|b: int| all_above(s, key, b) ==> all_above(#[trigger] s.filter(pred), key, b),
    decreases s.len(),
{
    reveal(Seq::filter);
    let f = s.filter(pred);
    if s.len() == 0 {
        return;
    }
    let d = s.drop_last();
    assert(strictly_increasing(d, key)) by {
        assert forall|i: int, j: int| 0 <= i < j < d.len() implies key(#[trigger] d[i]) < key(
            #[trigger] d[j]) by {
            assert(d[i] == s[i] && d[j] == s[j]);
        }
    }
    lemma_filter_increasing(d, key, pred);
    let fd = d.filter(pred);
    assert(forall|b: int| all_below(s, key, b) ==> all_below(d, key, b)) by {
        assert forall|b: int| all_below(s, key, b) implies all_below(d, key, b) by {
            assert forall|i: int| 0 <= i < d.len() implies key(#[trigger] d[i]) < b by {
                assert(d[i] == s[i]);
            }
        }
    }
    assert(forall|b: int| all_above(s, key, b) ==> all_above(d, key, b)) by {
        assert forall|b: int| all_above(s, key, b) implies all_above(d, key, b) by {
            assert forall|i: int| 0 <= i < d.len() implies key(#[trigger] d[i]) >= b by {
                assert(d[i] == s[i]);
            }
        }
    }
    if pred(s.last()) {
        assert(f == fd.push(s.last()));
        assert(strictly_increasing(f, key)) by {
            assert forall|i: int, j: int| 0 <= i < j < f.len() implies key(#[trigger] f[i]) < key(
                #[trigger] f[j]) by {
                if j < fd.len() {
                    assert(f[i] == fd[i] && f[j] == fd[j]);
                } else {
                    assert(f[j] == s.last());
                    assert(f[i] == fd[i]);
                    if fd.len() > 0 {
                        if i < fd.len() - 1 {
                            assert(key(fd[i]) < key(fd.last()));
                        }
                        assert(key(fd.last()) <= key(d.last()));
                        assert(d.len() > 0);
                        assert(key(d.last()) == key(s[s.len() - 2]));
                        assert(key(s[s.len() - 2]) < key(s.last()));
                    }
                }
            }
        }
        assert forall|b: int| all_below(s, key, b) implies all_below(f, key, b) by {
            assert forall|i: int| 0 <= i < f.len() implies key(#[trigger] f[i]) < b by {
                if i < fd.len() {
                    assert(f[i] == fd[i]);
                } else {
                    assert(f[i] == s.last());
                    assert(key(s.last()) < b);
                }
            }
        }
        assert forall|b: int| all_above(s, key, b) implies all_above(f, key, b) by {
            assert forall|i: int| 0 <= i < f.len() implies key(#[trigger] f[i]) >= b by {
                if i < fd.len() {
                    assert(f[i] == fd[i]);
                } else {
                    assert(f[i] == s.last());
                    assert(key(s.last()) >= b);
                }
            }
        }
    } else {
        assert(f == fd);
        if f.len() > 0 {
            assert(key(f.last()) <= key(d.last()));
            assert(d.len() > 0);
            assert(key(d.last()) == key(s[s.len() - 2]));
            assert(key(s[s.len() - 2]) < key(s.last()));
        }
    }
}

} // verus!
