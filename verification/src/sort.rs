//! Stable sorting.

use vstd::prelude::*;

use crate::table;

verus! {

/// Whether `p` lists the places `0..n`, each once.
pub open spec fn is_arrangement(p: Seq<usize>, n: nat) -> bool {
    &&& p.len() == n
    &&& forall|a: int| 0 <= a < n ==> (#[trigger] p[a]) < n
    &&& forall|a: int, b: int| 0 <= a < b < n ==> (#[trigger] p[a]) != (#[trigger] p[b])
}

/// Whether `p` arranges places by `before`, those that are equal in it in their own
/// order.
pub open spec fn is_stable(p: Seq<usize>, before: spec_fn(int, int) -> bool) -> bool {
    forall|a: int, b: int|
        0 <= a < b < p.len() ==> !before((#[trigger] p[b]) as int, (#[trigger] p[a]) as int) && (
        !before(p[a] as int, p[b] as int) ==> p[a] < p[b])
}

/// Whether `before` is a strict order on the places `0..n` in which being equal is
/// transitive.
pub open spec fn is_weak_order(before: spec_fn(int, int) -> bool, n: nat) -> bool {
    &&& forall|i: int, j: int|
        0 <= i < n && 0 <= j < n && #[trigger] before(i, j) ==> !before(j, i)
    &&& forall|i: int, j: int, k: int|
        0 <= i < n && 0 <= j < n && 0 <= k < n && !(#[trigger] before(i, j)) && !(
        #[trigger] before(j, k)) ==> !before(i, k)
}

/// Whether `out` is `source` sorted by `before`, what is equal in it kept in order.
pub open spec fn is_sorted_from<T>(
    source: Seq<T>,
    out: Seq<T>,
    before: spec_fn(T, T) -> bool,
) -> bool {
    exists|p: Seq<usize>|
        #![trigger is_arrangement(p, source.len())]
        {
            &&& is_arrangement(p, source.len())
            &&& is_stable(p, |i: int, j: int| before(source[i], source[j]))
            &&& out.len() == source.len()
            &&& forall|i: int| 0 <= i < out.len() ==> #[trigger] out[i] == source[p[i] as int]
        }
}

/// An arrangement leaves no place out.
pub proof fn lemma_arrangement_covers(p: Seq<usize>, n: nat, s: int)
    requires
        is_arrangement(p, n),
        0 <= s < n,
    ensures
        exists|i: int| 0 <= i < n && #[trigger] p[i] == s,
{
    let q = p.map_values(|x: usize| x as int);
    let all = Set::new(|x: int| 0 <= x < n);
    vstd::set_lib::lemma_int_range(0, n as int);
    assert(all =~= vstd::set_lib::set_int_range(0, n as int));
    assert(q.no_duplicates()) by {
        assert forall|a: int, b: int| 0 <= a < q.len() && 0 <= b < q.len() && a != b implies q[a]
            != q[b] by {
            if a < b {
                assert(p[a] != p[b]);
            } else {
                assert(p[b] != p[a]);
            }
        }
    }
    q.unique_seq_to_set();
    assert(q.to_set().subset_of(all)) by {
        assert forall|x: int| q.to_set().contains(x) implies all.contains(x) by {
            let i = choose|i: int| 0 <= i < q.len() && q[i] == x;
            assert(p[i] < n);
        }
    }
    vstd::set_lib::lemma_subset_equality(q.to_set(), all);
    assert(all.contains(s));
    assert(q.to_set().contains(s));
    let i = choose|i: int| 0 <= i < q.len() && q[i] == s;
    assert(p[i] == s);
}

/// Sorting changes neither what is listed nor how often, and nothing comes after what it
/// is before.
pub proof fn lemma_sorted_lists_all<T>(
    source: Seq<T>,
    out: Seq<T>,
    before: spec_fn(T, T) -> bool,
    id: spec_fn(T) -> Seq<char>,
    m: Map<Seq<char>, T>,
)
    requires
        table::lists_all(source, id, m),
        is_sorted_from(source, out, before),
    ensures
        table::lists_all(out, id, m),
        forall|i: int, j: int|
            0 <= i < j < out.len() ==> !before(#[trigger] out[j], #[trigger] out[i]),
{
    let n = source.len();
    let f = |i: int, j: int| before(source[i], source[j]);
    let p = choose|p: Seq<usize>|
        #![trigger is_arrangement(p, source.len())]
        {
            &&& is_arrangement(p, source.len())
            &&& is_stable(p, |i: int, j: int| before(source[i], source[j]))
            &&& out.len() == source.len()
            &&& forall|i: int| 0 <= i < out.len() ==> #[trigger] out[i] == source[p[i] as int]
        };
    assert(is_stable(p, f));
    assert forall|k: Seq<char>| #[trigger] m.contains_key(k) implies exists|i: int|
        0 <= i < out.len() && #[trigger] out[i] == m[k] by {
        let s = choose|i: int| 0 <= i < source.len() && #[trigger] source[i] == m[k];
        lemma_arrangement_covers(p, n, s);
        let i = choose|i: int| 0 <= i < n && #[trigger] p[i] == s;
        assert(out[i] == m[k]);
    }
    assert forall|i: int, j: int| 0 <= i < j < out.len() implies id(#[trigger] out[i]) != id(
        #[trigger] out[j],
    ) by {
        assert(p[i] != p[j]);
        if p[i] < p[j] {
            assert(id(source[p[i] as int]) != id(source[p[j] as int]));
        } else {
            assert(id(source[p[j] as int]) != id(source[p[i] as int]));
        }
    }
    assert forall|i: int, j: int| 0 <= i < j < out.len() implies !before(
        #[trigger] out[j],
        #[trigger] out[i],
    ) by {
        assert(!f(p[j] as int, p[i] as int));
    }
}

/// The places `0..n` arranged by `before`, those that are equal in it in their own order.
pub(crate) fn stable_order<F: Fn(usize, usize) -> bool>(
    n: usize,
    before: F,
    Ghost(order): Ghost<spec_fn(int, int) -> bool>,
) -> (r: Vec<usize>)
    requires
        is_weak_order(order, n as nat),
        forall|i: usize, j: usize| i < n && j < n ==> #[trigger] before.requires((i, j)),
        forall|i: usize, j: usize, b: bool|
            i < n && j < n && #[trigger] before.ensures((i, j), b) ==> b == order(
                i as int,
                j as int,
            ),
    ensures
        is_arrangement(r@, n as nat),
        is_stable(r@, order),
{
    let mut out: Vec<usize> = Vec::new();
    let mut k: usize = 0;
    while k < n
        invariant
            k <= n,
            is_weak_order(order, n as nat),
            forall|i: usize, j: usize| i < n && j < n ==> #[trigger] before.requires((i, j)),
            forall|i: usize, j: usize, b: bool|
                i < n && j < n && #[trigger] before.ensures((i, j), b) ==> b == order(
                    i as int,
                    j as int,
                ),
            is_arrangement(out@, k as nat),
            is_stable(out@, order),
        decreases n - k,
    {
        let mut j: usize = out.len();
        while j > 0 && before(k, out[j - 1])
            invariant
                k < n,
                j <= out@.len(),
                is_weak_order(order, n as nat),
                forall|i: usize, j: usize| i < n && j < n ==> #[trigger] before.requires((i, j)),
                forall|i: usize, j: usize, b: bool|
                    i < n && j < n && #[trigger] before.ensures((i, j), b) ==> b == order(
                        i as int,
                        j as int,
                    ),
                is_arrangement(out@, k as nat),
                is_stable(out@, order),
                forall|a: int| j <= a < out@.len() ==> order(k as int, (#[trigger] out@[a]) as int),
            decreases j,
        {
            j = j - 1;
        }
        let ghost prior = out@;
        proof {
            assert forall|a: int| 0 <= a < j implies !order(
                k as int,
                (#[trigger] prior[a]) as int,
            ) by {
                if a < j - 1 {
                    assert(!order(k as int, prior[j - 1] as int));
                    assert(!order(prior[j - 1] as int, prior[a] as int));
                }
            }
        }
        out.insert(j, k);
        proof {
            assert forall|a: int, b: int| 0 <= a < b < out@.len() implies {
                &&& (#[trigger] out@[a]) != (#[trigger] out@[b])
                &&& !order(out@[b] as int, out@[a] as int)
                &&& !order(out@[a] as int, out@[b] as int) ==> out@[a] < out@[b]
            } by {
                let a1 = if a < j { a } else { a - 1 };
                let b1 = if b < j { b } else { b - 1 };
                if a != j && b != j {
                    assert(out@[a] == prior[a1] && out@[b] == prior[b1]);
                } else if a == j {
                    assert(out@[b] == prior[b1]);
                    assert(order(k as int, prior[b1] as int));
                } else {
                    assert(out@[a] == prior[a1]);
                    assert(!order(k as int, prior[a1] as int));
                }
            }
            assert forall|a: int| 0 <= a < out@.len() implies (#[trigger] out@[a]) < k + 1 by {
                let a1 = if a < j { a } else { a - 1 };
                if a != j {
                    assert(out@[a] == prior[a1]);
                }
            }
        }
        k = k + 1;
    }
    out
}

} // verus!
