//! Orders used to sort stored lists: lexicographic order on strings (the
//! order of `String`'s `Ord`, code point by code point) and a stable sort by
//! an `(i32, string)` key.

use vstd::prelude::*;

verus! {

/// `a` sorts strictly before `b`, comparing code points left to right; a
/// proper prefix sorts first.
pub open spec fn str_lt(a: Seq<char>, b: Seq<char>) -> bool
    decreases a.len(),
{
    if b.len() == 0 {
        false
    } else if a.len() == 0 {
        true
    } else if a[0] != b[0] {
        (a[0] as u32) < (b[0] as u32)
    } else {
        str_lt(a.drop_first(), b.drop_first())
    }
}

pub proof fn lemma_str_lt_irreflexive(a: Seq<char>)
    ensures
        !str_lt(a, a),
    decreases a.len(),
{
    if a.len() > 0 {
        lemma_str_lt_irreflexive(a.drop_first());
    }
}

pub proof fn lemma_str_lt_trichotomy(a: Seq<char>, b: Seq<char>)
    ensures
        str_lt(a, b) || a == b || str_lt(b, a),
        !(str_lt(a, b) && str_lt(b, a)),
    decreases a.len(),
{
    if a.len() > 0 && b.len() > 0 {
        if a[0] != b[0] {
            vstd::utf8::char_u32_cast(a[0], a[0] as u32);
            vstd::utf8::char_u32_cast(b[0], b[0] as u32);
            assert((a[0] as u32) != (b[0] as u32));
        } else {
            lemma_str_lt_trichotomy(a.drop_first(), b.drop_first());
            if a.drop_first() == b.drop_first() {
                assert(a =~= seq![a[0]] + a.drop_first());
                assert(b =~= seq![b[0]] + b.drop_first());
            }
        }
    } else if a.len() == 0 && b.len() == 0 {
        assert(a =~= b);
    }
}

pub proof fn lemma_str_lt_transitive(a: Seq<char>, b: Seq<char>, c: Seq<char>)
    requires
        str_lt(a, b),
        str_lt(b, c),
    ensures
        str_lt(a, c),
    decreases a.len(),
{
    if a.len() > 0 && a[0] == b[0] && b[0] == c[0] {
        lemma_str_lt_transitive(a.drop_first(), b.drop_first(), c.drop_first());
    }
}

/// Whether `a` sorts strictly before `b`.
pub fn chars_lt(a: &Vec<char>, b: &Vec<char>) -> (r: bool)
    ensures
        r == str_lt(a@, b@),
{
    let mut i: usize = 0;
    assert(a@.skip(0) =~= a@);
    assert(b@.skip(0) =~= b@);
    while i < a.len() && i < b.len() && a[i] == b[i]
        invariant
            0 <= i <= a.len(),
            i <= b.len(),
            forall|j: int| 0 <= j < i ==> a@[j] == b@[j],
            str_lt(a@, b@) == str_lt(a@.skip(i as int), b@.skip(i as int)),
        decreases a.len() - i,
    {
        assert(a@.skip(i as int).drop_first() =~= a@.skip(i + 1));
        assert(b@.skip(i as int).drop_first() =~= b@.skip(i + 1));
        i = i + 1;
    }
    if i == b.len() {
        false
    } else if i == a.len() {
        true
    } else {
        (a[i] as u32) < (b[i] as u32)
    }
}

/// A sort key: a number, then a string.
pub open spec fn key_lt(a: (int, Seq<char>), b: (int, Seq<char>)) -> bool {
    a.0 < b.0 || (a.0 == b.0 && str_lt(a.1, b.1))
}

/// Position `i` of `keys` sorts before position `j`: by key, and by position
/// among equal keys (the order a stable sort keeps).
pub open spec fn idx_lt(keys: Seq<(int, Seq<char>)>, i: int, j: int) -> bool {
    key_lt(keys[i], keys[j]) || (keys[i] == keys[j] && i < j)
}

pub proof fn lemma_key_lt_facts(a: (int, Seq<char>), b: (int, Seq<char>), c: (int, Seq<char>))
    ensures
        !key_lt(a, a),
        key_lt(a, b) || a == b || key_lt(b, a),
        !(key_lt(a, b) && key_lt(b, a)),
        key_lt(a, b) && key_lt(b, c) ==> key_lt(a, c),
{
    lemma_str_lt_irreflexive(a.1);
    lemma_str_lt_trichotomy(a.1, b.1);
    if key_lt(a, b) && key_lt(b, c) && a.0 == b.0 && b.0 == c.0 {
        lemma_str_lt_transitive(a.1, b.1, c.1);
    }
}

/// `p` lists every position `0 .. n` exactly once.
pub open spec fn is_permutation(p: Seq<int>, n: int) -> bool {
    &&& p.len() == n
    &&& forall|i: int| 0 <= i < p.len() ==> 0 <= #[trigger] p[i] < n
    &&& forall|i: int, j: int| 0 <= i < j < p.len() ==> p[i] != p[j]
}

/// `p` lists positions of `keys` in stable sorted order: by key, equal keys
/// in the order they came in.
pub open spec fn is_sorted_by_idx(keys: Seq<(int, Seq<char>)>, p: Seq<int>) -> bool {
    forall|i: int, j: int| 0 <= i < j < p.len() ==> idx_lt(keys, #[trigger] p[i], #[trigger] p[j])
}

/// `p` is the stable sorting permutation of `keys`.
pub open spec fn is_stable_sort(keys: Seq<(int, Seq<char>)>, p: Seq<int>) -> bool {
    is_permutation(p, keys.len() as int) && is_sorted_by_idx(keys, p)
}

/// The stable sorting permutation of `keys` (there is exactly one: see
/// [`lemma_stable_sort_unique`]).
pub open spec fn stable_sort_of(keys: Seq<(int, Seq<char>)>) -> Seq<int> {
    choose|p: Seq<int>| is_stable_sort(keys, p)
}

/// A permutation of `0 .. n` takes every value in `0 .. n`.
pub proof fn lemma_permutation_onto(p: Seq<int>, n: int, x: int)
    requires
        is_permutation(p, n),
        0 <= x < n,
    ensures
        exists|i: int| 0 <= i < n && p[i] == x,
{
    assert(p.no_duplicates()) by {
        assert forall|i: int, j: int| 0 <= i < p.len() && 0 <= j < p.len() && i != j implies p[i]
            != p[j] by {
            if i > j {
                assert(p[j] != p[i]);
            }
        }
    }
    p.unique_seq_to_set();
    vstd::set_lib::lemma_int_range(0, n);
    let range = vstd::set_lib::set_int_range(0, n);
    assert(p.to_set().subset_of(range)) by {
        assert forall|y: int| p.to_set().contains(y) implies range.contains(y) by {
            let i = choose|i: int| 0 <= i < p.len() && p[i] == y;
            assert(0 <= p[i] < n);
        }
    }
    vstd::set_lib::lemma_len_subset(p.to_set(), range);
    vstd::set_lib::lemma_subset_equality(p.to_set(), range);
    assert(range.contains(x));
    assert(p.to_set().contains(x));
}

proof fn lemma_idx_lt_asymmetric(keys: Seq<(int, Seq<char>)>, a: int, b: int)
    ensures
        !(idx_lt(keys, a, b) && idx_lt(keys, b, a)),
{
    lemma_key_lt_facts(keys[a], keys[b], keys[a]);
    lemma_key_lt_facts(keys[b], keys[a], keys[b]);
}

proof fn lemma_stable_sorts_agree_at(
    keys: Seq<(int, Seq<char>)>,
    p: Seq<int>,
    q: Seq<int>,
    i: int,
)
    requires
        is_stable_sort(keys, p),
        is_stable_sort(keys, q),
        0 <= i < p.len(),
        forall|k: int| 0 <= k < i ==> p[k] == q[k],
    ensures
        p[i] == q[i],
{
    let n = keys.len() as int;
    let a = p[i];
    let b = q[i];
    if a != b {
        assert(0 <= b < n);
        lemma_permutation_onto(p, n, b);
        let j = choose|j: int| 0 <= j < n && p[j] == b;
        if j < i {
            assert(q[j] == b);
            assert(q[j] != q[i]);
        }
        assert(i < j);
        assert(idx_lt(keys, p[i], p[j]));
        assert(0 <= a < n);
        lemma_permutation_onto(q, n, a);
        let m = choose|m: int| 0 <= m < n && q[m] == a;
        if m < i {
            assert(p[m] == a);
            assert(p[m] != p[i]);
        }
        assert(i < m);
        assert(idx_lt(keys, q[i], q[m]));
        lemma_idx_lt_asymmetric(keys, a, b);
    }
}

proof fn lemma_stable_sorts_agree_upto(
    keys: Seq<(int, Seq<char>)>,
    p: Seq<int>,
    q: Seq<int>,
    m: int,
)
    requires
        is_stable_sort(keys, p),
        is_stable_sort(keys, q),
        0 <= m <= p.len(),
    ensures
        forall|k: int| 0 <= k < m ==> p[k] == q[k],
    decreases m,
{
    if m > 0 {
        lemma_stable_sorts_agree_upto(keys, p, q, m - 1);
        lemma_stable_sorts_agree_at(keys, p, q, m - 1);
    }
}

/// A list of keys has exactly one stable sorting permutation.
pub proof fn lemma_stable_sort_unique(keys: Seq<(int, Seq<char>)>, p: Seq<int>, q: Seq<int>)
    requires
        is_stable_sort(keys, p),
        is_stable_sort(keys, q),
    ensures
        p == q,
{
    lemma_stable_sorts_agree_upto(keys, p, q, p.len() as int);
    assert(p =~= q);
}

/// Any stable sorting permutation of `keys` is [`stable_sort_of`] it.
pub proof fn lemma_stable_sort_of(keys: Seq<(int, Seq<char>)>, p: Seq<int>)
    requires
        is_stable_sort(keys, p),
    ensures
        stable_sort_of(keys) == p,
        is_stable_sort(keys, stable_sort_of(keys)),
{
    lemma_stable_sort_unique(keys, p, stable_sort_of(keys));
}

/// The positions `0 .. n` in order.
pub open spec fn identity_positions(n: int) -> Seq<int> {
    Seq::new(n as nat, |i: int| i)
}

/// Keys whose numbers strictly increase are already sorted: their stable
/// sort keeps every position in place.
pub proof fn lemma_increasing_keys_sorted(keys: Seq<(int, Seq<char>)>)
    requires
        forall|i: int, j: int| 0 <= i < j < keys.len() ==> #[trigger] keys[i].0 < #[trigger] keys[j].0,
    ensures
        stable_sort_of(keys) == identity_positions(keys.len() as int),
{
    let id = identity_positions(keys.len() as int);
    assert forall|i: int, j: int| 0 <= i < j < id.len() implies idx_lt(keys, #[trigger] id[i], #[trigger] id[j]) by {
        assert(keys[i].0 < keys[j].0);
    }
    assert(is_stable_sort(keys, id));
    lemma_stable_sort_of(keys, id);
}

/// The view of an exec key.
pub open spec fn key_view(k: (i32, Vec<char>)) -> (int, Seq<char>) {
    (k.0 as int, k.1@)
}

/// The views of exec keys.
pub open spec fn keys_view(ks: Seq<(i32, Vec<char>)>) -> Seq<(int, Seq<char>)> {
    ks.map_values(|k: (i32, Vec<char>)| key_view(k))
}

fn key_less(a: &(i32, Vec<char>), b: &(i32, Vec<char>)) -> (r: bool)
    ensures
        r == key_lt(key_view(*a), key_view(*b)),
{
    a.0 < b.0 || (a.0 == b.0 && chars_lt(&a.1, &b.1))
}

/// Inserting position `n` at `k` into the stable sort `old_p` of the first
/// `n` keys gives the stable sort of the first `n + 1` keys, when every key
/// from `k` on is greater than key `n` and the one before `k` is not.
proof fn lemma_insert_position(ks: Seq<(int, Seq<char>)>, old_p: Seq<int>, n: int, k: int)
    requires
        0 <= n < ks.len(),
        is_stable_sort(ks.take(n), old_p),
        0 <= k <= old_p.len(),
        forall|j: int| k <= j < old_p.len() ==> key_lt(ks[n], #[trigger] ks[old_p[j]]),
        k > 0 ==> !key_lt(ks[n], ks[old_p[k - 1]]),
    ensures
        is_stable_sort(ks.take(n + 1), old_p.take(k).push(n) + old_p.skip(k)),
{
    let np = old_p.take(k).push(n) + old_p.skip(k);
    let kn = ks.take(n + 1);
    let ko = ks.take(n);
    assert forall|i: int| 0 <= i < ko.len() implies ko[i] == kn[i] by {}
    assert forall|i: int| 0 <= i < np.len() implies 0 <= #[trigger] np[i] < n + 1 by {
        if i < k {
            assert(np[i] == old_p[i]);
        } else if i > k {
            assert(np[i] == old_p[i - 1]);
        }
    }
    assert forall|i: int, j: int| 0 <= i < j < np.len() implies np[i] != np[j] by {
        if i < k && j < k {
            assert(np[i] == old_p[i] && np[j] == old_p[j]);
        } else if i < k && j > k {
            assert(np[i] == old_p[i] && np[j] == old_p[j - 1]);
        } else if i > k && j > k {
            assert(np[i] == old_p[i - 1] && np[j] == old_p[j - 1]);
        } else if i == k {
            assert(np[j] == old_p[j - 1]);
        } else {
            assert(np[i] == old_p[i]);
        }
    }
    if k > 0 {
        let last = old_p[k - 1];
        lemma_key_lt_facts(kn[last], kn[n], kn[n]);
        assert(!key_lt(kn[n], kn[last]));
        assert(idx_lt(kn, last, n));
    }
    assert forall|i: int, j: int| 0 <= i < j < np.len() implies idx_lt(
        kn,
        #[trigger] np[i],
        #[trigger] np[j],
    ) by {
        if i < k && j < k {
            assert(np[i] == old_p[i] && np[j] == old_p[j]);
            assert(idx_lt(ko, old_p[i], old_p[j]));
        } else if i < k && j > k {
            assert(np[i] == old_p[i] && np[j] == old_p[j - 1]);
            assert(idx_lt(ko, old_p[i], old_p[j - 1]));
        } else if i > k && j > k {
            assert(np[i] == old_p[i - 1] && np[j] == old_p[j - 1]);
            assert(idx_lt(ko, old_p[i - 1], old_p[j - 1]));
        } else if i == k {
            assert(np[j] == old_p[j - 1]);
            assert(key_lt(ks[n], ks[old_p[j - 1]]));
        } else {
            assert(j == k);
            assert(np[i] == old_p[i]);
            let last = old_p[k - 1];
            if i < k - 1 {
                assert(idx_lt(ko, old_p[i], last));
                lemma_key_lt_facts(kn[old_p[i]], kn[last], kn[n]);
            }
        }
    }
}

/// Where key `x` goes in the sorted positions `p`: after the last of the
/// first `k` positions whose key is not greater than `x`.
spec fn insert_point(ks: Seq<(int, Seq<char>)>, p: Seq<int>, x: (int, Seq<char>), k: int) -> int
    decreases k,
{
    if k <= 0 {
        0
    } else if key_lt(x, ks[p[k - 1]]) {
        insert_point(ks, p, x, k - 1)
    } else {
        k
    }
}

proof fn lemma_insert_point(ks: Seq<(int, Seq<char>)>, p: Seq<int>, x: (int, Seq<char>), k: int)
    requires
        0 <= k <= p.len(),
    ensures
        0 <= insert_point(ks, p, x, k) <= k,
        forall|j: int| insert_point(ks, p, x, k) <= j < k ==> key_lt(x, #[trigger] ks[p[j]]),
        insert_point(ks, p, x, k) > 0 ==> !key_lt(x, ks[p[insert_point(ks, p, x, k) - 1]]),
    decreases k,
{
    if k > 0 && key_lt(x, ks[p[k - 1]]) {
        lemma_insert_point(ks, p, x, k - 1);
    }
}

/// The stable sort of the first `n` keys, built by insertion.
spec fn insertion_sorted(ks: Seq<(int, Seq<char>)>, n: int) -> Seq<int>
    decreases n,
{
    if n <= 0 {
        Seq::empty()
    } else {
        let p = insertion_sorted(ks, n - 1);
        let k = insert_point(ks, p, ks[n - 1], p.len() as int);
        p.take(k).push(n - 1) + p.skip(k)
    }
}

proof fn lemma_insertion_sorted(ks: Seq<(int, Seq<char>)>, n: int)
    requires
        0 <= n <= ks.len(),
    ensures
        is_stable_sort(ks.take(n), insertion_sorted(ks, n)),
    decreases n,
{
    if n == 0 {
        assert(insertion_sorted(ks, 0) =~= Seq::<int>::empty());
    } else {
        lemma_insertion_sorted(ks, n - 1);
        let p = insertion_sorted(ks, n - 1);
        assert(p.len() == n - 1);
        lemma_insert_point(ks, p, ks[n - 1], p.len() as int);
        let k = insert_point(ks, p, ks[n - 1], p.len() as int);
        lemma_insert_position(ks, p, n - 1, k);
    }
}

/// Every list of keys has a stable sorting permutation.
pub proof fn lemma_stable_sort_exists(keys: Seq<(int, Seq<char>)>)
    ensures
        is_stable_sort(keys, stable_sort_of(keys)),
{
    lemma_insertion_sorted(keys, keys.len() as int);
    assert(keys.take(keys.len() as int) =~= keys);
    lemma_stable_sort_of(keys, insertion_sorted(keys, keys.len() as int));
}

/// The positions of `keys` in stable sorted order.
pub fn stable_sort_positions(keys: &Vec<(i32, Vec<char>)>) -> (p: Vec<usize>)
    ensures
        is_stable_sort(keys_view(keys@), p@.map_values(|i: usize| i as int)),
{
    let ghost ks = keys_view(keys@);
    let mut p: Vec<usize> = Vec::new();
    let mut n: usize = 0;
    while n < keys.len()
        invariant
            0 <= n <= keys.len(),
            ks == keys_view(keys@),
            ks.len() == keys.len(),
            is_stable_sort(ks.take(n as int), p@.map_values(|i: usize| i as int)),
            forall|i: int| 0 <= i < p.len() ==> 0 <= #[trigger] p@[i] < n,
        decreases keys.len() - n,
    {
        let ghost old_p = p@.map_values(|i: usize| i as int);
        // Find the insertion point: after every position whose key is not
        // greater than the new key.
        let mut k: usize = p.len();
        while k > 0 && key_less(&keys[n], &keys[p[k - 1]])
            invariant
                0 <= k <= p.len(),
                n < keys.len(),
                ks == keys_view(keys@),
                forall|i: int| 0 <= i < p.len() ==> 0 <= #[trigger] p@[i] < n,
                forall|j: int| k <= j < p.len() ==> key_lt(ks[n as int], #[trigger] ks[p@[j] as int]),
            decreases k,
        {
            k = k - 1;
        }
        proof {
            assert(ks[n as int] == key_view(keys@[n as int]));
            if k > 0 {
                assert(ks[p@[k - 1] as int] == key_view(keys@[p@[k - 1] as int]));
            }
            assert forall|j: int| k <= j < old_p.len() implies key_lt(
                ks[n as int],
                #[trigger] ks[old_p[j]],
            ) by {
                assert(old_p[j] == p@[j] as int);
            }
            lemma_insert_position(ks, old_p, n as int, k as int);
        }
        p.insert(k, n);
        proof {
            let np = p@.map_values(|i: usize| i as int);
            assert(np =~= old_p.take(k as int).push(n as int) + old_p.skip(k as int));
            assert forall|i: int| 0 <= i < p.len() implies 0 <= #[trigger] p@[i] < n + 1 by {
                assert(np[i] == p@[i] as int);
            }
        }
        n = n + 1;
    }
    assert(ks.take(keys.len() as int) =~= ks);
    p
}

} // verus!
