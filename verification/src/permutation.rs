//! Permutations as sequences of indices, and their parity.

use crate::hashed::{key_set_contains, key_set_insert, key_set_new};
use vstd::prelude::*;
use vstd::set_lib::{lemma_int_range, lemma_len_subset, set_int_range};

verus! {

/// How many elements of `s` are greater than `v`.
pub open spec fn count_greater(s: Seq<int>, v: int) -> int
    decreases s.len(),
{
    if s.len() == 0 {
        0
    } else {
        count_greater(s.drop_last(), v) + if s.last() > v {
            1int
        } else {
            0int
        }
    }
}

/// The number of inversions of `p`: of pairs of places of which the earlier
/// holds the greater element.
pub open spec fn inversions(p: Seq<int>) -> int
    decreases p.len(),
{
    if p.len() == 0 {
        0
    } else {
        inversions(p.drop_last()) + count_greater(p.drop_last(), p.last())
    }
}

/// A sequence is even if the number of its inversions is.
pub open spec fn is_even(p: Seq<int>) -> bool {
    inversions(p) % 2 == 0
}

/// A permutation of `0..n` as a sequence of length `n`: each index below
/// `n`, none twice.
pub open spec fn is_permutation(p: Seq<int>) -> bool {
    &&& p.no_duplicates()
    &&& forall|i: int| 0 <= i < p.len() ==> 0 <= #[trigger] p[i] < p.len()
}

/// The sequence with the elements at `a` and `b` exchanged.
pub open spec fn swapped(p: Seq<int>, a: int, b: int) -> Seq<int> {
    p.update(a, p[b]).update(b, p[a])
}

/// The sequence `0, 1, .., n - 1`.
pub open spec fn identity(n: nat) -> Seq<int> {
    Seq::new(n, |i: int| i)
}

/// Replacing one element changes the count of greater elements by what the
/// old and the new element contribute.
pub proof fn lemma_count_greater_update(s: Seq<int>, a: int, x: int, v: int)
    requires
        0 <= a < s.len(),
    ensures
        count_greater(s.update(a, x), v) == count_greater(s, v) - (if s[a] > v {
            1int
        } else {
            0int
        }) + (if x > v {
            1int
        } else {
            0int
        }),
    decreases s.len(),
{
    let t = s.update(a, x);
    if a == s.len() - 1 {
        assert(t.drop_last() =~= s.drop_last());
    } else {
        assert(t.drop_last() =~= s.drop_last().update(a, x));
        lemma_count_greater_update(s.drop_last(), a, x, v);
    }
}

/// Exchanging two elements leaves the count of greater elements as it is.
pub proof fn lemma_count_greater_swapped(s: Seq<int>, a: int, b: int, v: int)
    requires
        0 <= a < s.len(),
        0 <= b < s.len(),
    ensures
        count_greater(swapped(s, a, b), v) == count_greater(s, v),
{
    lemma_count_greater_update(s, a, s[b], v);
    lemma_count_greater_update(s.update(a, s[b]), b, s[a], v);
}

/// Exchanging two neighbours that differ changes the number of inversions
/// by one.
pub proof fn lemma_adjacent_swap(p: Seq<int>, k: int)
    requires
        0 <= k,
        k + 1 < p.len(),
        p[k] != p[k + 1],
    ensures
        inversions(swapped(p, k, k + 1)) == inversions(p) + (if p[k] < p[k + 1] {
            1int
        } else {
            -1int
        }),
    decreases p.len(),
{
    let t = swapped(p, k, k + 1);
    let init = p.drop_last();
    if k + 1 == p.len() - 1 {
        let x = p[k];
        let y = p[k + 1];
        let rest = init.drop_last();
        assert(t.drop_last() =~= init.update(k, y));
        assert(t.drop_last().drop_last() =~= rest);
        assert(init.last() == x);
        assert(t.last() == x);
        assert(t.drop_last().last() == y);
        let td = t.drop_last();
        assert(inversions(init) == inversions(rest) + count_greater(rest, x));
        assert(inversions(p) == inversions(init) + count_greater(init, y));
        assert(count_greater(init, y) == count_greater(rest, y) + if x > y {
            1int
        } else {
            0int
        });
        assert(inversions(td) == inversions(rest) + count_greater(rest, y));
        assert(inversions(t) == inversions(td) + count_greater(td, x));
        assert(count_greater(td, x) == count_greater(rest, x) + if y > x {
            1int
        } else {
            0int
        });
    } else {
        assert(t.drop_last() =~= swapped(init, k, k + 1));
        assert(t.last() == p.last());
        lemma_adjacent_swap(init, k);
        lemma_count_greater_swapped(init, k, k + 1, p.last());
    }
}

/// Exchanging two elements keeps a sequence free of duplicates.
pub proof fn lemma_swapped_no_duplicates(p: Seq<int>, a: int, b: int)
    requires
        0 <= a < p.len(),
        0 <= b < p.len(),
        p.no_duplicates(),
    ensures
        swapped(p, a, b).no_duplicates(),
        swapped(p, a, b).len() == p.len(),
{
    let t = swapped(p, a, b);
    assert forall|i: int, j: int| 0 <= i < t.len() && 0 <= j < t.len() && i != j implies t[i]
        != t[j] by {
        let si = if i == a {
            b
        } else if i == b {
            a
        } else {
            i
        };
        let sj = if j == a {
            b
        } else if j == b {
            a
        } else {
            j
        };
        assert(t[i] == p[si]);
        assert(t[j] == p[sj]);
    }
}

/// Exchanging two elements of a sequence without duplicates makes an even
/// sequence odd and an odd one even.
pub proof fn lemma_swap_flips_parity(p: Seq<int>, a: int, b: int)
    requires
        0 <= a < b < p.len(),
        p.no_duplicates(),
    ensures
        is_even(swapped(p, a, b)) == !is_even(p),
    decreases b - a,
{
    if b == a + 1 {
        lemma_adjacent_swap(p, a);
    } else {
        let p1 = swapped(p, a, a + 1);
        lemma_adjacent_swap(p, a);
        lemma_swapped_no_duplicates(p, a, a + 1);
        let p2 = swapped(p1, a + 1, b);
        lemma_swap_flips_parity(p1, a + 1, b);
        lemma_swapped_no_duplicates(p1, a + 1, b);
        let p3 = swapped(p2, a, a + 1);
        lemma_adjacent_swap(p2, a);
        assert(p3 =~= swapped(p, a, b));
    }
}

/// Exchanging two elements at different places flips the parity, whichever
/// place comes first.
pub proof fn lemma_swap_flips_any(p: Seq<int>, a: int, b: int)
    requires
        0 <= a < p.len(),
        0 <= b < p.len(),
        a != b,
        p.no_duplicates(),
    ensures
        is_even(swapped(p, a, b)) == !is_even(p),
        swapped(p, a, b).no_duplicates(),
        swapped(p, a, b).len() == p.len(),
{
    lemma_swapped_no_duplicates(p, a, b);
    if a < b {
        lemma_swap_flips_parity(p, a, b);
    } else {
        lemma_swap_flips_parity(p, b, a);
        assert(swapped(p, b, a) =~= swapped(p, a, b));
    }
}

/// The sequence in which place `a` holds what `b` held, `b` what `c` held,
/// `c` what `d` held and `d` what `a` held.
pub open spec fn four_cycled(p: Seq<int>, a: int, b: int, c: int, d: int) -> Seq<int> {
    p.update(a, p[b]).update(b, p[c]).update(c, p[d]).update(d, p[a])
}

/// Moving four elements round in a cycle is three exchanges: it makes an
/// even permutation odd and an odd one even.
pub proof fn lemma_four_cycle_flips(p: Seq<int>, a: int, b: int, c: int, d: int)
    requires
        0 <= a < p.len(),
        0 <= b < p.len(),
        0 <= c < p.len(),
        0 <= d < p.len(),
        a != b && a != c && a != d && b != c && b != d && c != d,
        is_permutation(p),
    ensures
        is_even(four_cycled(p, a, b, c, d)) == !is_even(p),
        is_permutation(four_cycled(p, a, b, c, d)),
{
    let s1 = swapped(p, a, b);
    lemma_swap_flips_any(p, a, b);
    let s2 = swapped(s1, b, c);
    lemma_swap_flips_any(s1, b, c);
    let s3 = swapped(s2, c, d);
    lemma_swap_flips_any(s2, c, d);
    assert(s3 =~= four_cycled(p, a, b, c, d));
    assert forall|i: int| 0 <= i < s3.len() implies 0 <= #[trigger] s3[i] < s3.len() by {
        let src = if i == a {
            b
        } else if i == b {
            c
        } else if i == c {
            d
        } else if i == d {
            a
        } else {
            i
        };
        assert(s3[i] == p[src]);
    }
}

/// No element before place `k` of the identity is greater than `v`, if `v`
/// is at least `k - 1`.
proof fn lemma_identity_count(n: nat, k: int, v: int)
    requires
        0 <= k <= n,
        v >= k - 1,
    ensures
        count_greater(identity(n).take(k), v) == 0,
    decreases k,
{
    if k > 0 {
        assert(identity(n).take(k).drop_last() =~= identity(n).take(k - 1));
        lemma_identity_count(n, k - 1, v);
    }
}

/// The first `k` elements of the identity hold no inversion.
proof fn lemma_identity_prefix(n: nat, k: int)
    requires
        0 <= k <= n,
    ensures
        inversions(identity(n).take(k)) == 0,
    decreases k,
{
    if k > 0 {
        assert(identity(n).take(k).drop_last() =~= identity(n).take(k - 1));
        lemma_identity_prefix(n, k - 1);
        lemma_identity_count(n, k - 1, k - 1);
    }
}

/// The identity is even.
pub proof fn lemma_identity_even(n: nat)
    ensures
        is_even(identity(n)),
        inversions(identity(n)) == 0,
{
    lemma_identity_prefix(n, n as int);
    assert(identity(n).take(n as int) =~= identity(n));
}

/// The indices that a vector of bytes holds.
pub open spec fn indices(p: Seq<u8>) -> Seq<int> {
    p.map_values(|x: u8| x as int)
}

/// What the walk through the cycles keeps true once the input is known to
/// be a permutation: `q` is the input with the cycles walked so far undone,
/// `root` the place at which the cycle on hand began, where there is one.
pub open spec fn walk_invariant(
    pi: Seq<int>,
    q: Seq<int>,
    done: Set<int>,
    root: Option<int>,
) -> bool {
    &&& q.len() == pi.len()
    &&& q.no_duplicates()
    &&& forall|x: int| #[trigger] done.contains(x) && Some(x) != root ==> q[x] == x
    &&& forall|x: int| 0 <= x < pi.len() && !#[trigger] done.contains(x) ==> q[x] == pi[x]
}

/// A sequence that holds each place's own index is the identity.
proof fn lemma_all_fixed_is_identity(q: Seq<int>)
    requires
        forall|x: int| 0 <= x < q.len() ==> q[x] == x,
    ensures
        q == identity(q.len()),
{
    assert(q =~= identity(q.len()));
}

/// Whether the permutation that `p` holds is even: place `i` holds the index
/// `p[i]`. Walks each cycle once; a cycle of even length makes an even
/// permutation odd and an odd one even. On a vector that holds an index
/// twice the answer says nothing.
pub fn is_even_permutation(p: &Vec<u8>) -> (even: bool)
    requires
        p.len() <= 255,
        forall|i: int| 0 <= i < p.len() ==> p[i] < p.len(),
    ensures
        is_permutation(indices(p@)) ==> even == is_even(indices(p@)),
{
    let n = p.len();
    let ghost pi = indices(p@);
    let ghost perm = is_permutation(pi);
    let mut seen = key_set_new();
    let ghost mut done: Set<int> = Set::empty();
    let ghost mut q: Seq<int> = pi;
    let mut total_is_even = true;
    let mut i: usize = 0;
    proof {
        lemma_int_range(0, n as int);
    }
    while i < n
        invariant
            n == p.len(),
            n <= 255,
            pi == indices(p@),
            perm == is_permutation(pi),
            forall|j: int| 0 <= j < p.len() ==> p[j] < p.len(),
            i <= n,
            done.finite(),
            done.subset_of(set_int_range(0, n as int)),
            set_int_range(0, n as int).finite(),
            set_int_range(0, n as int).len() == n,
            forall|k: u128| #[trigger] seen@.contains(k) <==> done.contains(k as int),
            forall|x: int| 0 <= x < i ==> done.contains(x),
            perm ==> walk_invariant(pi, q, done, None),
            perm ==> total_is_even == (is_even(pi) == is_even(q)),
        decreases n - i,
    {
        if !key_set_contains(&seen, i as u128) {
            let mut cycle_length: usize = 0;
            let mut next: usize = i;
            let ghost q0 = q;
            while !key_set_contains(&seen, next as u128)
                invariant
                    n == p.len(),
                    n <= 255,
                    pi == indices(p@),
                    perm == is_permutation(pi),
                    forall|j: int| 0 <= j < p.len() ==> p[j] < p.len(),
                    i < n,
                    next < n,
                    done.finite(),
                    done.subset_of(set_int_range(0, n as int)),
                    set_int_range(0, n as int).finite(),
                    set_int_range(0, n as int).len() == n,
                    forall|k: u128| #[trigger] seen@.contains(k) <==> done.contains(k as int),
                    forall|x: int| 0 <= x < i ==> done.contains(x),
                    cycle_length <= done.len(),
                    cycle_length == 0 ==> next == i && !done.contains(i as int) && q == q0,
                    cycle_length > 0 ==> done.contains(i as int),
                    perm ==> walk_invariant(
                        pi,
                        q,
                        done,
                        if cycle_length > 0 {
                            Some(i as int)
                        } else {
                            None
                        },
                    ),
                    perm && cycle_length > 0 ==> q[i as int] == next,
                    perm && cycle_length > 0 ==> (is_even(q) == is_even(q0)) == ((cycle_length
                        - 1) % 2 == 0),
                decreases n - done.len(),
            {
                proof {
                    lemma_len_subset(done.insert(next as int), set_int_range(0, n as int));
                    if perm {
                        if cycle_length > 0 {
                            // the place on hand comes to hold its own index
                            let a = i as int;
                            let b = next as int;
                            assert(a != b);
                            assert(q[b] == pi[b]);
                            if a < b {
                                lemma_swap_flips_parity(q, a, b);
                            } else {
                                lemma_swap_flips_parity(q, b, a);
                                assert(swapped(q, b, a) =~= swapped(q, a, b));
                            }
                            lemma_swapped_no_duplicates(q, a, b);
                            q = swapped(q, a, b);
                        } else {
                            assert(q[i as int] == pi[i as int]);
                        }
                        assert(pi[next as int] == p[next as int] as int);
                    }
                    done = done.insert(next as int);
                }
                key_set_insert(&mut seen, next as u128);
                next = p[next] as usize;
                cycle_length += 1;
            }
            proof {
                if perm {
                    // the walk ends where it began: any other place that is done
                    // holds its own index, and no index is held twice
                    if next != i {
                        assert(q[next as int] == next);
                        assert(q[i as int] == next);
                    }
                    assert(next == i);
                }
                lemma_len_subset(done, set_int_range(0, n as int));
            }
            if cycle_length % 2 != 1 {
                total_is_even = !total_is_even;
            }
        }
        i += 1;
    }
    proof {
        if perm {
            assert forall|x: int| 0 <= x < q.len() implies q[x] == x by {
                assert(done.contains(x));
            }
            lemma_all_fixed_is_identity(q);
            lemma_identity_even(n as nat);
        }
    }
    total_is_even
}

} // verus!
