//! A stable ordering of keyed items: keys are a count and a string, compared by the
//! count, then by the string's characters (the order of `(usize, String)`).
use vstd::prelude::*;
use crate::text::chars_of;

verus! {

broadcast use vstd::string::group_string_axioms;

/// The lexicographic order of character sequences (`String`'s `<`).
pub open spec fn chars_lt(a: Seq<char>, b: Seq<char>) -> bool
    decreases a.len(),
{
    if a.len() == 0 {
        b.len() > 0
    } else if b.len() == 0 {
        false
    } else if a[0] != b[0] {
        a[0] < b[0]
    } else {
        chars_lt(a.drop_first(), b.drop_first())
    }
}

/// The order of `(usize, String)` keys.
pub open spec fn key_lt(a: (nat, Seq<char>), b: (nat, Seq<char>)) -> bool {
    a.0 < b.0 || (a.0 == b.0 && chars_lt(a.1, b.1))
}

pub proof fn lemma_chars_lt_irreflexive(a: Seq<char>)
    ensures
        !chars_lt(a, a),
    decreases a.len(),
{
    if a.len() > 0 {
        lemma_chars_lt_irreflexive(a.drop_first());
    }
}

pub proof fn lemma_chars_lt_transitive(a: Seq<char>, b: Seq<char>, c: Seq<char>)
    requires
        chars_lt(a, b),
        chars_lt(b, c),
    ensures
        chars_lt(a, c),
    decreases a.len(),
{
    if a.len() > 0 && b.len() > 0 && c.len() > 0 && a[0] == b[0] && b[0] == c[0] {
        lemma_chars_lt_transitive(a.drop_first(), b.drop_first(), c.drop_first());
    }
}

pub proof fn lemma_chars_lt_total(a: Seq<char>, b: Seq<char>)
    requires
        a != b,
    ensures
        chars_lt(a, b) || chars_lt(b, a),
    decreases a.len(),
{
    if a.len() > 0 && b.len() > 0 && a[0] == b[0] {
        if a.drop_first() == b.drop_first() {
            assert(a =~= seq![a[0]] + a.drop_first());
            assert(b =~= seq![b[0]] + b.drop_first());
        }
        lemma_chars_lt_total(a.drop_first(), b.drop_first());
    } else if a.len() == 0 && b.len() == 0 {
        assert(a =~= b);
    }
}

/// `key_lt` is a strict total order.
pub proof fn lemma_key_order(a: (nat, Seq<char>), b: (nat, Seq<char>), c: (nat, Seq<char>))
    ensures
        !key_lt(a, a),
        key_lt(a, b) && key_lt(b, c) ==> key_lt(a, c),
        a != b ==> key_lt(a, b) || key_lt(b, a),
{
    lemma_chars_lt_irreflexive(a.1);
    if key_lt(a, b) && key_lt(b, c) && a.0 == b.0 && b.0 == c.0 {
        lemma_chars_lt_transitive(a.1, b.1, c.1);
    }
    if a != b && a.0 == b.0 {
        lemma_chars_lt_total(a.1, b.1);
    }
}

/// The first position from `j` on in `order` whose item's key is greater than that
/// of item `x`; the end where there is none.
pub open spec fn first_greater(order: Seq<usize>, keys: Seq<(nat, Seq<char>)>, x: int, j: int) -> int
    decreases order.len() - j,
{
    if j < 0 || j >= order.len() {
        order.len() as int
    } else if key_lt(keys[x], keys[order[j] as int]) {
        j
    } else {
        first_greater(order, keys, x, j + 1)
    }
}

/// The indices `0..n` ordered by their keys, equal keys in the order of the indices:
/// each index is placed after every earlier one whose key is not greater.
pub open spec fn stable_order(keys: Seq<(nat, Seq<char>)>, n: int) -> Seq<usize>
    decreases n,
{
    if n <= 0 {
        Seq::empty()
    } else {
        let o = stable_order(keys, n - 1);
        o.insert(first_greater(o, keys, n - 1, 0), (n - 1) as usize)
    }
}

/// `order` holds each of `0..n` once.
pub open spec fn is_permutation(order: Seq<usize>, n: int) -> bool {
    &&& order.len() == n
    &&& forall|a: int| 0 <= a < n ==> #[trigger] order[a] < n
    &&& forall|a: int, b: int| 0 <= a < b < n ==> order[a] != order[b]
}

/// The keys along `order` never decrease.
pub open spec fn is_sorted_by(order: Seq<usize>, keys: Seq<(nat, Seq<char>)>) -> bool {
    forall|a: int, b: int|
        0 <= a < b < order.len() ==> !key_lt(keys[order[b] as int], keys[order[a] as int])
}

/// Items with equal keys keep the order of their indices.
pub open spec fn is_stable_by(order: Seq<usize>, keys: Seq<(nat, Seq<char>)>) -> bool {
    forall|a: int, b: int|
        0 <= a < b < order.len() && keys[order[a] as int] == keys[order[b] as int] ==> order[a] < order[b]
}

proof fn lemma_first_greater(order: Seq<usize>, keys: Seq<(nat, Seq<char>)>, x: int, j: int)
    requires
        0 <= j <= order.len(),
    ensures
        j <= first_greater(order, keys, x, j) <= order.len(),
        forall|m: int| j <= m < first_greater(order, keys, x, j) ==> !key_lt(keys[x], #[trigger] keys[order[m] as int]),
        first_greater(order, keys, x, j) < order.len() ==> key_lt(keys[x], keys[order[first_greater(order, keys, x, j)] as int]),
    decreases order.len() - j,
{
    if j < order.len() && !key_lt(keys[x], keys[order[j] as int]) {
        lemma_first_greater(order, keys, x, j + 1);
    }
}

/// The stable order is a sorted, stable permutation of `0..n`.
pub proof fn stable_order_sorts(keys: Seq<(nat, Seq<char>)>, n: int)
    requires
        0 <= n <= keys.len(),
        keys.len() <= usize::MAX,
    ensures
        is_permutation(stable_order(keys, n), n),
        is_sorted_by(stable_order(keys, n), keys),
        is_stable_by(stable_order(keys, n), keys),
    decreases n,
{
    if n > 0 {
        stable_order_sorts(keys, n - 1);
        let o = stable_order(keys, n - 1);
        let x = n - 1;
        let p = first_greater(o, keys, x, 0);
        lemma_first_greater(o, keys, x, 0);
        let r = o.insert(p, x as usize);
        assert(r == stable_order(keys, n));
        assert forall|m: int| p <= m < o.len() implies key_lt(keys[x], #[trigger] keys[o[m] as int]) by {
            if m > p {
                lemma_key_order(keys[x], keys[o[p] as int], keys[o[m] as int]);
                lemma_key_order(keys[o[m] as int], keys[o[p] as int], keys[o[m] as int]);
                if keys[o[m] as int] != keys[o[p] as int] {
                    assert(key_lt(keys[o[p] as int], keys[o[m] as int]));
                }
            }
        }
        assert(r[p] == x);
        assert forall|a: int| 0 <= a < n implies #[trigger] r[a] < n by {
            if a > p {
                assert(r[a] == o[a - 1]);
            } else if a < p {
                assert(r[a] == o[a]);
            }
        }
        assert forall|a: int, b: int| 0 <= a < b < n implies r[a] != r[b] by {
            if a < p && b > p {
                assert(r[a] == o[a]);
                assert(r[b] == o[b - 1]);
            } else if a > p {
                assert(r[a] == o[a - 1] && r[b] == o[b - 1]);
            } else if a == p {
                assert(r[b] == o[b - 1]);
            } else if b == p {
                assert(r[a] == o[a]);
            } else {
                assert(r[a] == o[a] && r[b] == o[b]);
            }
        }
        assert forall|a: int, b: int| 0 <= a < b < r.len() implies !key_lt(keys[r[b] as int], keys[r[a] as int]) by {
            if b < p {
                assert(r[a] == o[a] && r[b] == o[b]);
            } else if b == p {
                assert(r[a] == o[a]);
            } else if a < p {
                assert(r[b] == o[b - 1]);
                assert(r[a] == o[a]);
            } else if a == p {
                assert(r[b] == o[b - 1]);
                lemma_key_order(keys[x], keys[o[b - 1] as int], keys[x]);
            } else {
                assert(r[a] == o[a - 1] && r[b] == o[b - 1]);
            }
        }
        assert forall|a: int, b: int|
            0 <= a < b < r.len() && keys[r[a] as int] == keys[r[b] as int] implies r[a] < r[b] by {
            if b < p {
                assert(r[a] == o[a] && r[b] == o[b]);
            } else if b == p {
                assert(r[a] == o[a]);
            } else if a < p {
                assert(r[b] == o[b - 1]);
                assert(r[a] == o[a]);
            } else if a == p {
                assert(r[b] == o[b - 1]);
                lemma_key_order(keys[x], keys[x], keys[x]);
            } else {
                assert(r[a] == o[a - 1] && r[b] == o[b - 1]);
            }
        }
    }
}

/// `String`'s `<` on two strings.
pub fn str_lt(a: &str, b: &str) -> (r: bool)
    ensures
        r == chars_lt(a@, b@),
{
    let av = chars_of(a);
    let bv = chars_of(b);
    let mut i: usize = 0;
    assert(av@.skip(0) =~= av@);
    assert(bv@.skip(0) =~= bv@);
    while i < av.len() && i < bv.len()
        invariant
            av@ == a@,
            bv@ == b@,
            i <= av.len(),
            i <= bv.len(),
            chars_lt(av@, bv@) == chars_lt(av@.skip(i as int), bv@.skip(i as int)),
        decreases av.len() - i,
    {
        assert(av@.skip(i as int)[0] == av@[i as int]);
        assert(bv@.skip(i as int)[0] == bv@[i as int]);
        let x = av[i];
        let y = bv[i];
        if x != y {
            assert(chars_lt(av@.skip(i as int), bv@.skip(i as int)) == (x < y));
            return x < y;
        }
        assert(av@.skip(i as int).drop_first() =~= av@.skip(i + 1));
        assert(bv@.skip(i as int).drop_first() =~= bv@.skip(i + 1));
        i = i + 1;
    }
    i == av.len() && i < bv.len()
}

/// The order of two `(usize, String)` keys.
pub fn key_less(a: &(usize, String), b: &(usize, String)) -> (r: bool)
    ensures
        r == key_lt((a.0 as nat, a.1@), (b.0 as nat, b.1@)),
{
    a.0 < b.0 || (a.0 == b.0 && str_lt(a.1.as_str(), b.1.as_str()))
}

/// The models of keys.
pub open spec fn keys_view(keys: Seq<(usize, String)>) -> Seq<(nat, Seq<char>)> {
    keys.map_values(|k: (usize, String)| (k.0 as nat, k.1@))
}

/// The indices of `keys` in stable order of their keys: sorted, equal keys in the
/// order of their indices.
pub fn sort_order(keys: &Vec<(usize, String)>) -> (r: Vec<usize>)
    ensures
        r@ == stable_order(keys_view(keys@), keys@.len() as int),
        is_permutation(r@, keys@.len() as int),
        is_sorted_by(r@, keys_view(keys@)),
        is_stable_by(r@, keys_view(keys@)),
{
    let ghost kv = keys_view(keys@);
    let mut out: Vec<usize> = Vec::new();
    let mut i: usize = 0;
    while i < keys.len()
        invariant
            i <= keys.len(),
            kv == keys_view(keys@),
            kv.len() == keys.len(),
            out@ == stable_order(kv, i as int),
        decreases keys.len() - i,
    {
        proof { stable_order_sorts(kv, i as int); }
        let mut j: usize = 0;
        while j < out.len()
            invariant
                i < keys.len(),
                kv == keys_view(keys@),
                kv.len() == keys.len(),
                out@ == stable_order(kv, i as int),
                is_permutation(out@, i as int),
                j <= out.len(),
                first_greater(out@, kv, i as int, 0) == first_greater(out@, kv, i as int, j as int),
            ensures
                j <= out.len(),
                first_greater(out@, kv, i as int, 0) == j as int,
            decreases out.len() - j,
        {
            let k = out[j];
            assert(out@[j as int] < i);
            assert(kv[k as int] == (keys@[k as int].0 as nat, keys@[k as int].1@));
            assert(kv[i as int] == (keys@[i as int].0 as nat, keys@[i as int].1@));
            if key_less(&keys[i], &keys[k]) {
                break;
            }
            j = j + 1;
        }
        out.insert(j, i);
        i = i + 1;
    }
    proof { stable_order_sorts(kv, keys@.len() as int); }
    out
}

} // verus!
