use vstd::multiset::Multiset;
use vstd::prelude::*;
use vstd::seq_lib::{to_multiset_build, to_multiset_contains, to_multiset_remove};

verus! {

broadcast use {vstd::multiset::group_multiset_axioms, vstd::seq_lib::group_to_multiset_ensures};

/// The largest page a listing returns.
pub const MAX_LIST_LIMIT: usize = 100;

/// The order in which a listing is sorted by name.
#[derive(Clone, Copy, Debug, PartialEq, Eq, Structural)]
pub enum Order {
    Ascending,
    Descending,
}

/// `a` sorts strictly before `b`: at the first position where they differ
/// `a` holds the smaller character, or `a` is a proper prefix of `b`.
pub open spec fn name_lt(a: Seq<char>, b: Seq<char>) -> bool {
    exists|i: int|
        0 <= i <= a.len() && i <= b.len() && #[trigger] a.subrange(0, i) == b.subrange(0, i) && (
        (i == a.len() && i < b.len()) || (i < a.len() && i < b.len() && (a[i] as u32) < (
        b[i] as u32)))
}

/// The order of names is transitive.
pub proof fn lemma_name_lt_transitive(a: Seq<char>, b: Seq<char>, c: Seq<char>)
    requires
        name_lt(a, b),
        name_lt(b, c),
    ensures
        name_lt(a, c),
{
    let i = choose|i: int|
        0 <= i <= a.len() && i <= b.len() && #[trigger] a.subrange(0, i) == b.subrange(0, i) && (
        (i == a.len() && i < b.len()) || (i < a.len() && i < b.len() && (a[i] as u32) < (
        b[i] as u32)));
    let j = choose|j: int|
        0 <= j <= b.len() && j <= c.len() && #[trigger] b.subrange(0, j) == c.subrange(0, j) && (
        (j == b.len() && j < c.len()) || (j < b.len() && j < c.len() && (b[j] as u32) < (
        c[j] as u32)));
    let k = if i <= j { i } else { j };
    assert(a.subrange(0, k) =~= c.subrange(0, k)) by {
        assert forall|t: int| 0 <= t < k implies a[t] == c[t] by {
            assert(a.subrange(0, i)[t] == b.subrange(0, i)[t]);
            assert(b.subrange(0, j)[t] == c.subrange(0, j)[t]);
        }
    }
    if i < j {
        assert(b.subrange(0, j)[i] == c.subrange(0, j)[i]);
    } else if j < i {
        assert(a.subrange(0, i)[j] == b.subrange(0, i)[j]);
    }
}

/// The first `n` indices.
pub open spec fn all_indices(n: nat) -> Seq<usize> {
    Seq::new(n, |i: int| i as usize)
}

/// `p` lists every index of `keys` once, in ascending order of the keys.
pub open spec fn sorts(keys: Seq<Seq<char>>, p: Seq<usize>) -> bool {
    &&& p.to_multiset() == all_indices(keys.len()).to_multiset()
    &&& forall|i: int| 0 <= i < p.len() ==> (#[trigger] p[i]) < keys.len()
    &&& forall|i: int, j: int|
        0 <= i < j < p.len() ==> !name_lt(keys[#[trigger] p[j] as int], keys[#[trigger] p[i] as int])
}

/// The page of `p`, in the given order, that starts at `offset` and holds
/// at most `limit` entries.
pub open spec fn page(p: Seq<usize>, order: Order, offset: int, limit: int) -> Seq<usize> {
    let q = if order == Order::Ascending {
        p
    } else {
        p.reverse()
    };
    if offset >= q.len() {
        Seq::empty()
    } else if offset + limit >= q.len() {
        q.subrange(offset, q.len() as int)
    } else {
        q.subrange(offset, offset + limit)
    }
}

/// The page size a listing uses: ten unless asked otherwise, and never
/// more than the maximum.
pub open spec fn effective_limit(limit: Option<usize>) -> int {
    match limit {
        None => 10,
        Some(l) => if l > MAX_LIST_LIMIT {
            MAX_LIST_LIMIT as int
        } else {
            l as int
        },
    }
}

/// `v` is the requested page of `rows` sorted by `keys`.
pub open spec fn listed<T>(
    rows: Seq<T>,
    keys: Seq<Seq<char>>,
    order: Option<Order>,
    offset: Option<usize>,
    limit: Option<usize>,
    v: Seq<T>,
) -> bool {
    exists|p: Seq<usize>|
        #[trigger] sorts(keys, p) && v == page(
            p,
            match order {
                None => Order::Ascending,
                Some(o) => o,
            },
            match offset {
                None => 0,
                Some(o) => o as int,
            },
            effective_limit(limit),
        ).map_values(|i: usize| rows[i as int])
}

/// The resolved page parameters.
pub fn page_parameters(order: Option<Order>, offset: Option<usize>, limit: Option<usize>) -> (r: (
    Order,
    usize,
    usize,
))
    ensures
        r.0 == (match order {
            None => Order::Ascending,
            Some(o) => o,
        }),
        r.1 as int == (match offset {
            None => 0,
            Some(o) => o as int,
        }),
        r.2 as int == effective_limit(limit),
{
    let o = match order {
        None => Order::Ascending,
        Some(o) => o,
    };
    let off = match offset {
        None => 0,
        Some(x) => x,
    };
    let lim = match limit {
        None => 10,
        Some(l) => if l > MAX_LIST_LIMIT {
            MAX_LIST_LIMIT
        } else {
            l
        },
    };
    (o, off, lim)
}

/// Decides whether name `a` sorts strictly before name `b`.
pub fn name_less(a: &str, b: &str) -> (r: bool)
    ensures
        r == name_lt(a@, b@),
{
    let alen = a.unicode_len();
    let blen = b.unicode_len();
    let mut i: usize = 0;
    while i < alen && i < blen
        invariant
            alen == a@.len(),
            blen == b@.len(),
            i <= alen,
            i <= blen,
            a@.subrange(0, i as int) == b@.subrange(0, i as int),
        decreases alen - i,
    {
        let x = a.get_char(i);
        let y = b.get_char(i);
        if x != y {
            proof {
                assert forall|k: int| 0 <= k < i implies a@[k] == b@[k] by {
                    assert(a@.subrange(0, i as int)[k] == b@.subrange(0, i as int)[k]);
                }
                assert forall|k: int|
                    0 <= k <= a@.len() && k <= b@.len() && #[trigger] a@.subrange(0, k)
                        == b@.subrange(0, k) implies k <= i by {
                    if k > i {
                        assert(a@.subrange(0, k)[i as int] == b@.subrange(0, k)[i as int]);
                    }
                }
            }
            return (x as u32) < (y as u32);
        }
        proof {
            assert(a@.subrange(0, i + 1) =~= a@.subrange(0, i as int).push(x));
            assert(b@.subrange(0, i + 1) =~= b@.subrange(0, i as int).push(y));
        }
        i = i + 1;
    }
    proof {
        assert forall|k: int| 0 <= k < i implies a@[k] == b@[k] by {
            assert(a@.subrange(0, i as int)[k] == b@.subrange(0, i as int)[k]);
        }
    }
    i == alen && i < blen
}

/// Orders the indices of `keys` by ascending key.
pub fn sort_indices(keys: &Vec<String>) -> (r: Vec<usize>)
    ensures
        sorts(keys@.map_values(|k: String| k@), r@),
{
    let ghost ks = keys@.map_values(|k: String| k@);
    let mut rest: Vec<usize> = Vec::new();
    let mut n: usize = 0;
    while n < keys.len()
        invariant
            n <= keys@.len(),
            rest@ == all_indices(n as nat),
        decreases keys@.len() - n,
    {
        rest.push(n);
        proof {
            assert(rest@ =~= all_indices((n + 1) as nat));
        }
        n = n + 1;
    }
    let ghost all = rest@;
    let mut out: Vec<usize> = Vec::new();
    proof {
        assert(out@.to_multiset() =~= Multiset::empty()) by {
            assert forall|v: usize| out@.to_multiset().count(v) == 0 by {
                to_multiset_contains(out@, v);
            }
        }
        assert(out@.to_multiset().add(rest@.to_multiset()) =~= all.to_multiset());
    }
    while rest.len() > 0
        invariant
            ks == keys@.map_values(|k: String| k@),
            all == all_indices(keys@.len()),
            out@.to_multiset().add(rest@.to_multiset()) == all.to_multiset(),
            forall|i: int| 0 <= i < out@.len() ==> (#[trigger] out@[i]) < keys@.len(),
            forall|i: int| 0 <= i < rest@.len() ==> (#[trigger] rest@[i]) < keys@.len(),
            forall|i: int, j: int|
                0 <= i < j < out@.len() ==> !name_lt(ks[#[trigger] out@[j] as int], ks[#[trigger] out@[i] as int]),
            forall|i: int, k: int|
                0 <= i < out@.len() && 0 <= k < rest@.len() ==> !name_lt(
                    ks[#[trigger] rest@[k] as int],
                    ks[#[trigger] out@[i] as int],
                ),
        decreases rest@.len(),
    {
        let mut m: usize = 0;
        let mut k: usize = 1;
        while k < rest.len()
            invariant
                ks == keys@.map_values(|k: String| k@),
                0 <= m < k <= rest@.len(),
                forall|i: int| 0 <= i < rest@.len() ==> (#[trigger] rest@[i]) < keys@.len(),
                forall|t: int| 0 <= t < k ==> !name_lt(ks[#[trigger] rest@[t] as int], ks[rest@[m as int] as int]),
            decreases rest@.len() - k,
        {
            if name_less(keys[rest[k]].as_str(), keys[rest[m]].as_str()) {
                proof {
                    assert forall|t: int| 0 <= t < k + 1 implies !name_lt(
                        ks[#[trigger] rest@[t] as int],
                        ks[rest@[k as int] as int],
                    ) by {
                        if t < k && name_lt(ks[rest@[t] as int], ks[rest@[k as int] as int]) {
                            lemma_name_lt_transitive(
                                ks[rest@[t] as int],
                                ks[rest@[k as int] as int],
                                ks[rest@[m as int] as int],
                            );
                        }
                    }
                }
                m = k;
            }
            k = k + 1;
        }
        let ghost old_rest = rest@;
        let ghost old_out = out@;
        let x = rest.remove(m);
        out.push(x);
        proof {
            to_multiset_remove(old_rest, m as int);
            to_multiset_build(old_out, x);
            to_multiset_contains(old_rest, x);
            assert(out@.to_multiset().add(rest@.to_multiset()) =~= all.to_multiset());
            assert forall|i: int, j: int| 0 <= i < j < out@.len() implies !name_lt(
                ks[#[trigger] out@[j] as int],
                ks[#[trigger] out@[i] as int],
            ) by {
                if j == out@.len() - 1 {
                    assert(old_rest[m as int] == x);
                } else {
                    assert(out@[j] == old_out[j]);
                }
            }
            assert forall|i: int, q: int| 0 <= i < out@.len() && 0 <= q < rest@.len() implies !name_lt(
                ks[#[trigger] rest@[q] as int],
                ks[#[trigger] out@[i] as int],
            ) by {
                let t = if q < m { q } else { q + 1 };
                assert(rest@[q] == old_rest[t]);
            }
        }
    }
    proof {
        assert(rest@.to_multiset() =~= Multiset::empty()) by {
            assert forall|v: usize| rest@.to_multiset().count(v) == 0 by {
                to_multiset_contains(rest@, v);
            }
        }
        assert(out@.to_multiset() =~= all.to_multiset());
    }
    out
}

/// Picks the page of `p` in the given order.
pub fn page_of(p: &Vec<usize>, order: Order, offset: usize, limit: usize) -> (r: Vec<usize>)
    ensures
        r@ == page(p@, order, offset as int, limit as int),
        forall|i: int| 0 <= i < r@.len() ==> p@.contains(#[trigger] r@[i]),
{
    let n = p.len();
    let mut r: Vec<usize> = Vec::new();
    if offset >= n {
        return r;
    }
    let end = if limit >= n - offset {
        n
    } else {
        offset + limit
    };
    let ghost q = if order == Order::Ascending {
        p@
    } else {
        p@.reverse()
    };
    let mut i: usize = offset;
    while i < end
        invariant
            offset <= i <= end <= n,
            n == p@.len(),
            q == (if order == Order::Ascending {
                p@
            } else {
                p@.reverse()
            }),
            r@ == q.subrange(offset as int, i as int),
            forall|t: int| 0 <= t < r@.len() ==> p@.contains(#[trigger] r@[t]),
        decreases end - i,
    {
        let v = match order {
            Order::Ascending => p[i],
            Order::Descending => p[n - 1 - i],
        };
        r.push(v);
        proof {
            assert(p@.contains(v)) by {
                if order == Order::Ascending {
                    assert(p@[i as int] == v);
                } else {
                    assert(p@[n - 1 - i] == v);
                }
            }
            assert(q.subrange(offset as int, i + 1) =~= q.subrange(offset as int, i as int).push(q[i as int]));
        }
        i = i + 1;
    }
    r
}

} // verus!
