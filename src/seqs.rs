use vstd::prelude::*;

verus! {

/// No two entries of `s` share a key.
pub open spec fn unique_by<A, K>(s: Seq<A>, key: spec_fn(A) -> K) -> bool {
    forall|i: int, j: int| 0 <= i < j < s.len() ==> key(#[trigger] s[i]) != key(#[trigger] s[j])
}

/// Some entry of `s` has key `k`.
pub open spec fn has_key<A, K>(s: Seq<A>, key: spec_fn(A) -> K, k: K) -> bool {
    exists|i: int| 0 <= i < s.len() && key(#[trigger] s[i]) == k
}

/// Filtering a prefix one element further.
pub proof fn lemma_filter_step<A>(s: Seq<A>, pred: spec_fn(A) -> bool, i: int)
    requires
        0 <= i < s.len(),
    ensures
        s.subrange(0, i + 1).filter(pred) == if pred(s[i]) {
            s.subrange(0, i).filter(pred).push(s[i])
        } else {
            s.subrange(0, i).filter(pred)
        },
{
    assert(s.subrange(0, i + 1) =~= s.subrange(0, i).push(s[i]));
    s.subrange(0, i).lemma_filter_push(s[i], pred);
}

/// Filtering keeps keys unique.
pub proof fn lemma_filter_unique<A, K>(s: Seq<A>, pred: spec_fn(A) -> bool, key: spec_fn(A) -> K)
    requires
        unique_by(s, key),
    ensures
        unique_by(s.filter(pred), key),
    decreases s.len(),
{
    reveal(Seq::filter);
    if s.len() > 0 {
        let p = s.drop_last();
        assert(unique_by(p, key)) by {
            assert forall|i: int, j: int| 0 <= i < j < p.len() implies key(#[trigger] p[i])
                != key(#[trigger] p[j]) by {
                assert(p[i] == s[i]);
                assert(p[j] == s[j]);
            }
        }
        lemma_filter_unique(p, pred, key);
        let t = p.filter(pred);
        if pred(s.last()) {
            let u = t.push(s.last());
            assert forall|i: int, j: int| 0 <= i < j < u.len() implies key(#[trigger] u[i])
                != key(#[trigger] u[j]) by {
                if j == t.len() {
                    assert(t.contains(t[i]));
                    p.lemma_filter_contains_rev(pred, t[i]);
                    assert(p.contains(u[i]));
                    let k = choose|k: int| 0 <= k < p.len() && p[k] == u[i];
                    assert(s[k] == p[k]);
                    assert(s[s.len() - 1] == s.last());
                } else {
                    assert(u[i] == t[i] && u[j] == t[j]);
                }
            }
        }
    }
}

/// Every entry kept by a filter satisfies the predicate and comes from `s`.
pub proof fn lemma_filter_members<A>(s: Seq<A>, pred: spec_fn(A) -> bool)
    ensures
        forall|i: int|
            0 <= i < s.filter(pred).len() ==> pred(#[trigger] s.filter(pred)[i]) && s.contains(
                s.filter(pred)[i],
            ),
        forall|i: int| 0 <= i < s.len() && pred(#[trigger] s[i]) ==> s.filter(pred).contains(s[i]),
{
    assert forall|i: int| 0 <= i < s.filter(pred).len() implies pred(
        #[trigger] s.filter(pred)[i],
    ) && s.contains(s.filter(pred)[i]) by {
        s.lemma_filter_pred(pred, i);
        assert(s.filter(pred).contains(s.filter(pred)[i]));
        s.lemma_filter_contains_rev(pred, s.filter(pred)[i]);
    }
    assert forall|i: int| 0 <= i < s.len() && pred(#[trigger] s[i]) implies s.filter(pred).contains(
        s[i],
    ) by {
        s.lemma_filter_contains(pred, i);
    }
}

/// A key whose every holder passes the filter is still present after it.
pub proof fn lemma_filter_keeps_key<A, K>(
    s: Seq<A>,
    pred: spec_fn(A) -> bool,
    key: spec_fn(A) -> K,
    k: K,
)
    requires
        has_key(s, key, k),
        forall|i: int| 0 <= i < s.len() && key(#[trigger] s[i]) == k ==> pred(s[i]),
    ensures
        has_key(s.filter(pred), key, k),
{
    let i = choose|i: int| 0 <= i < s.len() && key(#[trigger] s[i]) == k;
    s.lemma_filter_contains(pred, i);
    let j = choose|j: int| 0 <= j < s.filter(pred).len() && s.filter(pred)[j] == s[i];
    assert(key(s.filter(pred)[j]) == k);
}

/// Appending an entry keeps every key and adds its own.
pub proof fn lemma_push_keys<A, K>(s: Seq<A>, x: A, key: spec_fn(A) -> K)
    ensures
        forall|k: K| #[trigger]
            has_key(s.push(x), key, k) <==> has_key(s, key, k) || key(x) == k,
        !has_key(s, key, key(x)) && unique_by(s, key) ==> unique_by(s.push(x), key),
{
    let t = s.push(x);
    assert forall|k: K| #[trigger] has_key(t, key, k) <==> has_key(s, key, k) || key(x) == k by {
        if has_key(s, key, k) {
            let i = choose|i: int| 0 <= i < s.len() && key(#[trigger] s[i]) == k;
            assert(t[i] == s[i]);
        }
        if key(x) == k {
            assert(t[s.len() as int] == x);
        }
        if has_key(t, key, k) {
            let i = choose|i: int| 0 <= i < t.len() && key(#[trigger] t[i]) == k;
            if i < s.len() {
                assert(t[i] == s[i]);
            }
        }
    }
    if !has_key(s, key, key(x)) && unique_by(s, key) {
        assert forall|i: int, j: int| 0 <= i < j < t.len() implies key(#[trigger] t[i]) != key(
            #[trigger] t[j],
        ) by {
            assert(t[i] == s[i]);
            if j < s.len() {
                assert(t[j] == s[j]);
            }
        }
    }
}

} // verus!
