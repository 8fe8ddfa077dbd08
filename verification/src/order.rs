//! Ordering records by a text key: the stable ascending order that a
//! listing sorted by alias (or name) presents.
use vstd::prelude::*;

use crate::text::{lemma_lex_asymmetric, lemma_lex_irreflexive, lemma_lex_total, lemma_lex_transitive, lex_less, lex_lt};

verus! {

/// `a` sorts no later than `b`.
pub open spec fn lex_le(a: Seq<char>, b: Seq<char>) -> bool {
    !lex_lt(b, a)
}

pub proof fn lemma_lex_le_transitive(a: Seq<char>, b: Seq<char>, c: Seq<char>)
    requires
        lex_le(a, b),
        lex_le(b, c),
    ensures
        lex_le(a, c),
{
    lemma_lex_total(a, b);
    lemma_lex_total(b, c);
    if lex_lt(c, a) {
        if a == b {
        } else {
            lemma_lex_transitive(c, a, b);
        }
    }
}

/// `p` lists every position below `n` exactly once.
pub open spec fn is_permutation(p: Seq<usize>, n: int) -> bool {
    &&& p.len() == n
    &&& forall|k: int| 0 <= k < n ==> #[trigger] p[k] < n
    &&& forall|a: int, b: int| 0 <= a < b < n ==> #[trigger] p[a] != #[trigger] p[b]
}

/// Visiting `keys` in the order `p` gives ascending keys, equal keys in
/// their given order.
pub open spec fn stable_sorted(keys: Seq<Seq<char>>, p: Seq<usize>) -> bool {
    forall|a: int, b: int|
        0 <= a < b < p.len() ==> lex_le(#[trigger] keys[p[a] as int], #[trigger] keys[p[b] as int])
            && (keys[p[a] as int] == keys[p[b] as int] ==> p[a] < p[b])
}

/// The views of a list of keys.
pub open spec fn keys_view(keys: Seq<Vec<char>>) -> Seq<Seq<char>> {
    Seq::new(keys.len(), |i: int| keys[i]@)
}

/// The stable ascending order of `keys`, as positions into it.
pub fn sorted_order(keys: &Vec<Vec<char>>) -> (p: Vec<usize>)
    ensures
        is_permutation(p@, keys.len() as int),
        stable_sorted(keys_view(keys@), p@),
{
    let ghost kv = keys_view(keys@);
    let n = keys.len();
    let mut p: Vec<usize> = Vec::new();
    let mut k: usize = 0;
    while k < n
        invariant
            k <= n,
            n == keys.len(),
            p@.len() == k,
            forall|m: int| 0 <= m < k ==> #[trigger] p@[m] == m,
        decreases n - k,
    {
        p.push(k);
        k = k + 1;
    }
    let mut i: usize = 0;
    while i < n
        invariant
            i <= n,
            n == keys.len(),
            kv == keys_view(keys@),
            p@.len() == n,
            forall|m: int| i <= m < n ==> #[trigger] p@[m] == m,
            forall|m: int| 0 <= m < i ==> #[trigger] p@[m] < i,
            forall|a: int, b: int| 0 <= a < b < n ==> #[trigger] p@[a] != #[trigger] p@[b],
            forall|a: int, b: int|
                0 <= a < b < i ==> lex_le(#[trigger] kv[p@[a] as int], #[trigger] kv[p@[b] as int])
                    && (kv[p@[a] as int] == kv[p@[b] as int] ==> p@[a] < p@[b]),
        decreases n - i,
    {
        let ghost kx = kv[i as int];
        let mut j: usize = i;
        while j > 0 && lex_less(&keys[i], &keys[p[j - 1]])
            invariant
                j <= i < n,
                n == keys.len(),
                kv == keys_view(keys@),
                kx == kv[i as int],
                p@.len() == n,
                p@[j as int] == i,
                forall|m: int| i < m < n ==> #[trigger] p@[m] == m,
                forall|m: int| 0 <= m <= i && m != j ==> #[trigger] p@[m] < i,
                forall|a: int, b: int| 0 <= a < b < n ==> #[trigger] p@[a] != #[trigger] p@[b],
                forall|a: int, b: int|
                    0 <= a < b <= i && a != j && b != j ==> lex_le(
                        #[trigger] kv[p@[a] as int],
                        #[trigger] kv[p@[b] as int],
                    ) && (kv[p@[a] as int] == kv[p@[b] as int] ==> p@[a] < p@[b]),
                forall|b: int| j < b <= i ==> lex_lt(kx, #[trigger] kv[p@[b] as int]),
            decreases j,
        {
            proof {
                assert(keys@[i as int]@ == kx);
                assert(keys@[p@[j - 1] as int]@ == kv[p@[j - 1] as int]);
            }
            let y = p[j - 1];
            let ghost old_p = p@;
            p.set(j, y);
            p.set(j - 1, i);
            proof {
                assert forall|a: int, b: int| 0 <= a < b < n implies #[trigger] p@[a]
                    != #[trigger] p@[b] by {
                    let oa = if a == j - 1 {
                        j as int
                    } else if a == j {
                        j - 1
                    } else {
                        a
                    };
                    let ob = if b == j - 1 {
                        j as int
                    } else if b == j {
                        j - 1
                    } else {
                        b
                    };
                    assert(p@[a] == old_p[oa]);
                    assert(p@[b] == old_p[ob]);
                    if oa < ob {
                        assert(old_p[oa] != old_p[ob]);
                    } else {
                        assert(old_p[ob] != old_p[oa]);
                    }
                }
                assert forall|a: int, b: int|
                    0 <= a < b <= i && a != j - 1 && b != j - 1 implies lex_le(
                    #[trigger] kv[p@[a] as int],
                    #[trigger] kv[p@[b] as int],
                ) && (kv[p@[a] as int] == kv[p@[b] as int] ==> p@[a] < p@[b]) by {
                    let oa = if a == j {
                        j - 1
                    } else {
                        a
                    };
                    let ob = if b == j {
                        j - 1
                    } else {
                        b
                    };
                    assert(p@[a] == old_p[oa]);
                    assert(p@[b] == old_p[ob]);
                    assert(kv[old_p[oa] as int] == kv[p@[a] as int]);
                    assert(kv[old_p[ob] as int] == kv[p@[b] as int]);
                }
                assert forall|b: int| j - 1 < b <= i implies lex_lt(
                    kx,
                    #[trigger] kv[p@[b] as int],
                ) by {
                    if b == j {
                        assert(p@[b] == old_p[j - 1]);
                    } else {
                        assert(p@[b] == old_p[b]);
                    }
                }
            }
            j = j - 1;
        }
        proof {
            assert forall|a: int, b: int| 0 <= a < b <= i implies lex_le(
                #[trigger] kv[p@[a] as int],
                #[trigger] kv[p@[b] as int],
            ) && (kv[p@[a] as int] == kv[p@[b] as int] ==> p@[a] < p@[b]) by {
                if b == j {
                    // everything before the inserted key sorts no later
                    assert(j > 0);
                    assert(keys@[p@[j - 1] as int]@ == kv[p@[j - 1] as int]);
                    assert(lex_le(kv[p@[j - 1] as int], kx));
                    if a < j - 1 {
                        lemma_lex_le_transitive(kv[p@[a] as int], kv[p@[j - 1] as int], kx);
                    }
                    assert(p@[a] < i);
                } else if a == j {
                    lemma_lex_asymmetric(kx, kv[p@[b] as int]);
                    lemma_lex_irreflexive(kx);
                }
            }
        }
        i = i + 1;
    }
    p
}

/// Numeric order, as the sort sees it.
pub open spec fn num_le(a: u64, b: u64) -> bool {
    a <= b
}

pub open spec fn num_lt(a: u64, b: u64) -> bool {
    a < b
}

/// Visiting numeric `keys` in the order `p` gives ascending keys, equal keys
/// in their given order.
pub open spec fn stable_sorted_numbers(keys: Seq<u64>, p: Seq<usize>) -> bool {
    forall|a: int, b: int|
        0 <= a < b < p.len() ==> num_le(#[trigger] keys[p[a] as int], #[trigger] keys[p[b] as int])
            && (keys[p[a] as int] == keys[p[b] as int] ==> p[a] < p[b])
}

/// The stable ascending order of numeric `keys`, as positions into it.
pub fn sorted_order_by_number(keys: &Vec<u64>) -> (p: Vec<usize>)
    ensures
        is_permutation(p@, keys.len() as int),
        stable_sorted_numbers(keys@, p@),
{
    let ghost kv = keys@;
    let n = keys.len();
    let mut p: Vec<usize> = Vec::new();
    let mut k: usize = 0;
    while k < n
        invariant
            k <= n,
            n == keys.len(),
            p@.len() == k,
            forall|m: int| 0 <= m < k ==> #[trigger] p@[m] == m,
        decreases n - k,
    {
        p.push(k);
        k = k + 1;
    }
    let mut i: usize = 0;
    while i < n
        invariant
            i <= n,
            n == keys.len(),
            kv == keys@,
            p@.len() == n,
            forall|m: int| i <= m < n ==> #[trigger] p@[m] == m,
            forall|m: int| 0 <= m < i ==> #[trigger] p@[m] < i,
            forall|a: int, b: int| 0 <= a < b < n ==> #[trigger] p@[a] != #[trigger] p@[b],
            forall|a: int, b: int|
                0 <= a < b < i ==> num_le(#[trigger] kv[p@[a] as int], #[trigger] kv[p@[b] as int])
                    && (kv[p@[a] as int] == kv[p@[b] as int] ==> p@[a] < p@[b]),
        decreases n - i,
    {
        let ghost kx = kv[i as int];
        let mut j: usize = i;
        while j > 0 && keys[i] < keys[p[j - 1]]
            invariant
                j <= i < n,
                n == keys.len(),
                kv == keys@,
                kx == kv[i as int],
                p@.len() == n,
                p@[j as int] == i,
                forall|m: int| i < m < n ==> #[trigger] p@[m] == m,
                forall|m: int| 0 <= m <= i && m != j ==> #[trigger] p@[m] < i,
                forall|a: int, b: int| 0 <= a < b < n ==> #[trigger] p@[a] != #[trigger] p@[b],
                forall|a: int, b: int|
                    0 <= a < b <= i && a != j && b != j ==> num_le(
                        #[trigger] kv[p@[a] as int],
                        #[trigger] kv[p@[b] as int],
                    ) && (kv[p@[a] as int] == kv[p@[b] as int] ==> p@[a] < p@[b]),
                forall|b: int| j < b <= i ==> num_lt(kx, #[trigger] kv[p@[b] as int]),
            decreases j,
        {
            let y = p[j - 1];
            let ghost old_p = p@;
            p.set(j, y);
            p.set(j - 1, i);
            proof {
                assert forall|a: int, b: int| 0 <= a < b < n implies #[trigger] p@[a]
                    != #[trigger] p@[b] by {
                    let oa = if a == j - 1 {
                        j as int
                    } else if a == j {
                        j - 1
                    } else {
                        a
                    };
                    let ob = if b == j - 1 {
                        j as int
                    } else if b == j {
                        j - 1
                    } else {
                        b
                    };
                    assert(p@[a] == old_p[oa]);
                    assert(p@[b] == old_p[ob]);
                    if oa < ob {
                        assert(old_p[oa] != old_p[ob]);
                    } else {
                        assert(old_p[ob] != old_p[oa]);
                    }
                }
                assert forall|a: int, b: int|
                    0 <= a < b <= i && a != j - 1 && b != j - 1 implies num_le(
                    #[trigger] kv[p@[a] as int],
                    #[trigger] kv[p@[b] as int],
                ) && (kv[p@[a] as int] == kv[p@[b] as int] ==> p@[a] < p@[b]) by {
                    let oa = if a == j {
                        j - 1
                    } else {
                        a
                    };
                    let ob = if b == j {
                        j - 1
                    } else {
                        b
                    };
                    assert(p@[a] == old_p[oa]);
                    assert(p@[b] == old_p[ob]);
                    assert(kv[old_p[oa] as int] == kv[p@[a] as int]);
                    assert(kv[old_p[ob] as int] == kv[p@[b] as int]);
                }
                assert forall|b: int| j - 1 < b <= i implies num_lt(
                    kx,
                    #[trigger] kv[p@[b] as int],
                ) by {
                    if b == j {
                        assert(p@[b] == old_p[j - 1]);
                    } else {
                        assert(p@[b] == old_p[b]);
                    }
                }
            }
            j = j - 1;
        }
        proof {
            assert forall|a: int, b: int| 0 <= a < b <= i implies num_le(
                #[trigger] kv[p@[a] as int],
                #[trigger] kv[p@[b] as int],
            ) && (kv[p@[a] as int] == kv[p@[b] as int] ==> p@[a] < p@[b]) by {
                if b == j {
                    // everything before the inserted key sorts no later
                    assert(j > 0);
                    assert(num_le(kv[p@[j - 1] as int], kx));
                    if a < j - 1 {

                    }
                    assert(p@[a] < i);
                } else if a == j {

                }
            }
        }
        i = i + 1;
    }
    p
}

} // verus!
