//! Lexicographic order of strings and a stable sort by string keys.
use vstd::prelude::*;

verus! {

/// Whether `a` comes no later than `b` when strings are compared character by
/// character by code point, a prefix first; this is the order of `String`.
pub open spec fn lex_le(a: Seq<char>, b: Seq<char>) -> bool
    decreases a.len(),
{
    if a.len() == 0 {
        true
    } else if b.len() == 0 {
        false
    } else if a[0] != b[0] {
        (a[0] as int) < (b[0] as int)
    } else {
        lex_le(a.drop_first(), b.drop_first())
    }
}

/// Any two strings are ordered one way or the other.
pub proof fn lemma_lex_total(a: Seq<char>, b: Seq<char>)
    ensures
        lex_le(a, b) || lex_le(b, a),
    decreases a.len(),
{
    if a.len() > 0 && b.len() > 0 {
        if a[0] == b[0] {
            lemma_lex_total(a.drop_first(), b.drop_first());
        } else {
            assert((a[0] as int) != (b[0] as int));
        }
    }
}

/// The order is transitive.
pub proof fn lemma_lex_transitive(a: Seq<char>, b: Seq<char>, c: Seq<char>)
    requires
        lex_le(a, b),
        lex_le(b, c),
    ensures
        lex_le(a, c),
    decreases a.len(),
{
    if a.len() > 0 && b.len() > 0 && c.len() > 0 && a[0] == b[0] && b[0] == c[0] {
        lemma_lex_transitive(a.drop_first(), b.drop_first(), c.drop_first());
    }
}

/// Strings that are ordered both ways are equal.
pub proof fn lemma_lex_antisymmetric(a: Seq<char>, b: Seq<char>)
    requires
        lex_le(a, b),
        lex_le(b, a),
    ensures
        a == b,
    decreases a.len(),
{
    if a.len() > 0 && b.len() > 0 {
        lemma_lex_antisymmetric(a.drop_first(), b.drop_first());
        assert(a =~= seq![a[0]] + a.drop_first());
        assert(b =~= seq![b[0]] + b.drop_first());
    }
}

/// A string comes before every longer string it is a prefix of, and a
/// longer string never comes before its own proper prefix.
pub proof fn lemma_lex_prefix_first(a: Seq<char>, s: Seq<char>)
    ensures
        lex_le(a, a + s),
        s.len() > 0 ==> !lex_le(a + s, a),
    decreases a.len(),
{
    if a.len() > 0 {
        assert((a + s).drop_first() =~= a.drop_first() + s);
        assert((a + s)[0] == a[0]);
        lemma_lex_prefix_first(a.drop_first(), s);
    } else {
        assert(a + s =~= s);
    }
}

/// Where two strings first differ, the one with the smaller code point there
/// comes first, and only it.
pub proof fn lemma_lex_first_difference(a: Seq<char>, b: Seq<char>, i: int)
    requires
        0 <= i < a.len(),
        i < b.len(),
        forall|j: int| 0 <= j < i ==> a[j] == b[j],
        a[i] != b[i],
    ensures
        lex_le(a, b) <==> (a[i] as int) < (b[i] as int),
        lex_le(b, a) <==> (b[i] as int) < (a[i] as int),
    decreases i,
{
    if i > 0 {
        assert(a[0] == b[0]);
        let a1 = a.drop_first();
        let b1 = b.drop_first();
        assert forall|j: int| 0 <= j < i - 1 implies a1[j] == b1[j] by {
            assert(a1[j] == a[j + 1] && b1[j] == b[j + 1]);
        }
        lemma_lex_first_difference(a1, b1, i - 1);
    } else {
        assert((a[0] as int) != (b[0] as int));
    }
}

/// Whether `a` comes no later than `b` in the order of `String`.
pub fn lex_le_chars(a: &Vec<char>, b: &Vec<char>) -> (r: bool)
    ensures
        r == lex_le(a@, b@),
{
    let mut i: usize = 0;
    assert(a@.skip(0) =~= a@);
    assert(b@.skip(0) =~= b@);
    while i < a.len() && i < b.len() && a[i] == b[i]
        invariant
            i <= a@.len(),
            i <= b@.len(),
            lex_le(a@, b@) == lex_le(a@.skip(i as int), b@.skip(i as int)),
        decreases a@.len() - i,
    {
        assert(a@.skip(i as int).drop_first() =~= a@.skip(i + 1));
        assert(b@.skip(i as int).drop_first() =~= b@.skip(i + 1));
        i = i + 1;
    }
    if i == a.len() {
        true
    } else if i == b.len() {
        false
    } else {
        a[i] < b[i]
    }
}

/// Whether `order` lists each index below `n` exactly once.
pub open spec fn is_index_permutation(order: Seq<usize>, n: nat) -> bool {
    &&& order.len() == n
    &&& forall|i: int| 0 <= i < order.len() ==> #[trigger] order[i] < n
    &&& forall|i: int, j: int| 0 <= i < j < order.len() ==> order[i] != order[j]
    &&& forall|x: usize| x < n ==> #[trigger] lists(order, x)
}

/// Whether `x` occurs in `order`.
pub open spec fn lists(order: Seq<usize>, x: usize) -> bool {
    exists|i: int| 0 <= i < order.len() && order[i] == x
}

/// Whether `order` puts the positions `0..keys.len()` in the order of their
/// keys, positions with equal keys staying in their original order: the
/// order that a stable sort by key produces.
pub open spec fn is_stable_sort_order(keys: Seq<Seq<char>>, order: Seq<usize>) -> bool {
    &&& is_index_permutation(order, keys.len())
    &&& forall|i: int, j: int|
        0 <= i < j < order.len() ==> lex_le(
            #[trigger] keys[order[i] as int],
            #[trigger] keys[order[j] as int],
        )
    &&& forall|i: int, j: int|
        0 <= i < j < order.len() && keys[order[i] as int] == keys[order[j] as int] ==> order[i]
            < order[j]
}

/// Two stable sort orders of the same keys agree up to position `k`.
proof fn lemma_stable_orders_agree(keys: Seq<Seq<char>>, o1: Seq<usize>, o2: Seq<usize>, k: int)
    requires
        is_stable_sort_order(keys, o1),
        is_stable_sort_order(keys, o2),
        0 <= k < o1.len(),
    ensures
        forall|j: int| 0 <= j <= k ==> o1[j] == o2[j],
    decreases k,
{
    if k > 0 {
        lemma_stable_orders_agree(keys, o1, o2, k - 1);
    }
    let x = o1[k];
    let y = o2[k];
    if x != y {
        assert(y < keys.len());
        assert(lists(o1, y));
        let m = choose|m: int| 0 <= m < o1.len() && o1[m] == y;
        if m < k {
            assert(o2[m] == y);
        }
        assert(x < keys.len());
        assert(lists(o2, x));
        let m2 = choose|m: int| 0 <= m < o2.len() && o2[m] == x;
        if m2 < k {
            assert(o1[m2] == x);
        }
        assert(lex_le(keys[o1[k] as int], keys[o1[m] as int]));
        assert(lex_le(keys[o2[k] as int], keys[o2[m2] as int]));
        lemma_lex_antisymmetric(keys[x as int], keys[y as int]);
    }
}

/// A stable sort by key has one outcome: two orders that both put the keys in
/// order and keep equal keys in their original order are the same.
pub proof fn lemma_stable_sort_order_unique(keys: Seq<Seq<char>>, o1: Seq<usize>, o2: Seq<usize>)
    requires
        is_stable_sort_order(keys, o1),
        is_stable_sort_order(keys, o2),
    ensures
        o1 == o2,
{
    if o1.len() > 0 {
        lemma_stable_orders_agree(keys, o1, o2, o1.len() - 1);
    }
    assert(o1 =~= o2);
}

/// The views of a list of character vectors.
pub open spec fn char_vec_views(v: Seq<Vec<char>>) -> Seq<Seq<char>> {
    v.map_values(|c: Vec<char>| c@)
}

/// The positions of `keys` in the order of a stable sort by key.
pub fn stable_sort_order(keys: &Vec<Vec<char>>) -> (order: Vec<usize>)
    ensures
        is_stable_sort_order(char_vec_views(keys@), order@),
{
    let ghost ks = char_vec_views(keys@);
    let n = keys.len();
    let mut order: Vec<usize> = Vec::new();
    let mut i: usize = 0;
    while i < n
        invariant
            n == keys@.len(),
            ks == char_vec_views(keys@),
            i <= n,
            is_stable_sort_order(ks.take(i as int), order@),
        decreases n - i,
    {
        let ghost old_order = order@;
        let mut p = order.len();
        while p > 0 && !lex_le_chars(&keys[order[p - 1]], &keys[i])
            invariant
                n == keys@.len(),
                ks == char_vec_views(keys@),
                i < n,
                order@ == old_order,
                is_stable_sort_order(ks.take(i as int), order@),
                p <= order@.len(),
                forall|q: int| p <= q < order@.len() ==> !lex_le(#[trigger] ks[order@[q] as int], ks[i as int]),
            decreases p,
        {
            assert(order@[p - 1] < i);
            assert(keys@[order@[p - 1] as int]@ == ks[order@[p - 1] as int]);
            p = p - 1;
        }
        proof {
            if p > 0 {
                assert(order@[p - 1] < i);
                assert(keys@[order@[p - 1] as int]@ == ks[order@[p - 1] as int]);
            }
        }
        order.insert(p, i);
        proof {
            let t = ks.take(i + 1);
            let o = order@;
            let ki = ks[i as int];
            assert forall|k: int| 0 <= k < old_order.len() implies #[trigger] ks.take(i as int)[old_order[k] as int] == ks[old_order[k] as int] by {
                assert(old_order[k] < i);
            }
            assert forall|k: int| 0 <= k < o.len() implies #[trigger] t[o[k] as int] == ks[o[k] as int] by {
                if k < p {
                    assert(o[k] == old_order[k]);
                } else if k > p {
                    assert(o[k] == old_order[k - 1]);
                }
            }
            // every index below i + 1 appears exactly once
            assert forall|a: int, b: int| 0 <= a < b < o.len() implies o[a] != o[b] by {
                if a < p && b > p {
                    assert(o[a] == old_order[a] && o[b] == old_order[b - 1]);
                } else if a == p {
                    assert(o[b] == old_order[b - 1]);
                } else if b == p {
                    assert(o[a] == old_order[a]);
                } else if b < p {
                    assert(o[a] == old_order[a] && o[b] == old_order[b]);
                } else {
                    assert(o[a] == old_order[a - 1] && o[b] == old_order[b - 1]);
                }
            }
            assert forall|x: usize| x < i + 1 implies #[trigger] lists(o, x) by {
                if x == i {
                    assert(o[p as int] == x);
                } else {
                    assert(lists(old_order, x));
                    let j = choose|j: int| 0 <= j < old_order.len() && old_order[j] == x;
                    if j < p {
                        assert(o[j] == x);
                    } else {
                        assert(o[j + 1] == x);
                    }
                }
            }
            assert forall|a: int| 0 <= a < o.len() implies #[trigger] o[a] < i + 1 by {
                if a < p {
                    assert(o[a] == old_order[a]);
                } else if a > p {
                    assert(o[a] == old_order[a - 1]);
                }
            }
            // keys are in order along o
            assert forall|a: int, b: int| 0 <= a < b < o.len() implies lex_le(
                #[trigger] t[o[a] as int],
                #[trigger] t[o[b] as int],
            ) && (t[o[a] as int] == t[o[b] as int] ==> o[a] < o[b]) by {
                if a < p && b < p {
                    assert(o[a] == old_order[a] && o[b] == old_order[b]);
                    assert(lex_le(ks.take(i as int)[old_order[a] as int], ks.take(i as int)[old_order[b] as int]));
                } else if a > p && b > p {
                    assert(o[a] == old_order[a - 1] && o[b] == old_order[b - 1]);
                    assert(lex_le(ks.take(i as int)[old_order[a - 1] as int], ks.take(i as int)[old_order[b - 1] as int]));
                } else if a < p && b > p {
                    assert(o[a] == old_order[a] && o[b] == old_order[b - 1]);
                    assert(lex_le(ks.take(i as int)[old_order[a] as int], ks.take(i as int)[old_order[b - 1] as int]));
                } else if a == p {
                    // b > p: the key at b is strictly after the new key
                    assert(o[b] == old_order[b - 1]);
                    let kb = ks[old_order[b - 1] as int];
                    assert(!lex_le(kb, ki));
                    lemma_lex_total(kb, ki);
                } else {
                    // b == p and a < p: the key at a is no later than the new key
                    assert(o[a] == old_order[a]);
                    let ka = ks[old_order[a] as int];
                    let kl = ks[old_order[p - 1] as int];
                    assert(lex_le(kl, ki));
                    if a < p - 1 {
                        assert(lex_le(ks.take(i as int)[old_order[a] as int], ks.take(i as int)[old_order[p - 1] as int]));
                        lemma_lex_transitive(ka, kl, ki);
                    }
                }
            }
        }
        i = i + 1;
    }
    proof {
        assert(ks.take(n as int) =~= ks);
    }
    order
}

} // verus!
