//! The manager's decisions over the sessions of a host: which session a
//! user-typed handle names, the order sessions are listed in, and the state
//! bus's vocabulary.
use vstd::prelude::*;

use crate::daemon::error::Error;
use crate::order::{is_permutation, sorted_order_by_number, stable_sorted_numbers};
use crate::search::{first_where, lemma_first_where, lemma_first_where_at};
use crate::text::{is_prefix, starts_with, str_eq, string_from};
use crate::types::{SessionId, SessionMeta};

verus! {

/// One entry on the state bus: a session's current picture, or a removal.
#[derive(Debug, Clone)]
pub enum StateEvent {
    Snapshot(SessionMeta),
    Gone { session: SessionId, reason: Option<String> },
}

/// A session as the manager finds it: its id, name and creation time.
pub struct SessionKey {
    pub id: SessionId,
    pub name: Option<String>,
    pub created: u64,
}

/// The session whose id is `q`.
pub open spec fn id_is(q: Seq<char>) -> spec_fn(SessionKey) -> bool {
    |k: SessionKey| k.id@ == q
}

/// A session named `q`.
pub open spec fn name_is(q: Seq<char>) -> spec_fn(SessionKey) -> bool {
    |k: SessionKey| k.name matches Some(n) && n@ == q
}

/// A session whose id starts with `q`.
pub open spec fn id_starts(q: Seq<char>) -> spec_fn(SessionKey) -> bool {
    |k: SessionKey| is_prefix(q, k.id@)
}

/// A session whose name starts with `q`.
pub open spec fn name_starts(q: Seq<char>) -> spec_fn(SessionKey) -> bool {
    |k: SessionKey| k.name matches Some(n) && is_prefix(q, n@)
}

/// A session whose id or name starts with `q`.
pub open spec fn any_starts(q: Seq<char>) -> spec_fn(SessionKey) -> bool {
    |k: SessionKey| id_starts(q)(k) || name_starts(q)(k)
}

/// How many sessions satisfy `p`.
pub open spec fn count_where(s: Seq<SessionKey>, p: spec_fn(SessionKey) -> bool) -> nat {
    s.filter(p).len()
}

/// Which session `q` names: an exact id, else an exact name (the first
/// such), else the one session whose id or name it starts. Otherwise the
/// number of sessions whose id starts with `q` and the number whose name
/// does: both zero when no session matches (`NotFound`), else more than one
/// session might be meant (`Ambiguous`).
pub open spec fn resolve_spec(s: Seq<SessionKey>, q: Seq<char>) -> Result<int, (nat, nat)> {
    let i = first_where(s, id_is(q));
    let j = first_where(s, name_is(q));
    let a = count_where(s, id_starts(q));
    let b = count_where(s, name_starts(q));
    if i < s.len() {
        Ok(i)
    } else if j < s.len() {
        Ok(j)
    } else if count_where(s, any_starts(q)) == 1 {
        Ok(first_where(s, any_starts(q)))
    } else {
        Err((a, b))
    }
}

/// No session matches by prefix exactly when neither count is positive.
proof fn lemma_prefix_counts(s: Seq<SessionKey>, q: Seq<char>)
    ensures
        (count_where(s, any_starts(q)) == 0) <==> (count_where(s, id_starts(q)) == 0 && count_where(
            s,
            name_starts(q),
        ) == 0),
{
    if count_where(s, id_starts(q)) > 0 {
        lemma_match_is_prefix_match(s, q, id_starts(q));
    }
    if count_where(s, name_starts(q)) > 0 {
        lemma_match_is_prefix_match(s, q, name_starts(q));
    }
    if count_where(s, any_starts(q)) > 0 {
        let f = s.filter(any_starts(q));
        let x = f[0];
        s.lemma_filter_pred(any_starts(q), 0);
        assert(f.contains(x));
        s.lemma_filter_contains_rev(any_starts(q), x);
        let k = choose|k: int| 0 <= k < s.len() && s[k] == x;
        if id_starts(q)(s[k]) {
            s.lemma_filter_contains(id_starts(q), k);
        } else {
            s.lemma_filter_contains(name_starts(q), k);
        }
    }
}

/// A session matching by id or by name matches by either.
proof fn lemma_match_is_prefix_match(s: Seq<SessionKey>, q: Seq<char>, p: spec_fn(SessionKey) -> bool)
    requires
        p == id_starts(q) || p == name_starts(q),
        count_where(s, p) > 0,
    ensures
        count_where(s, any_starts(q)) > 0,
{
    let f = s.filter(p);
    let x = f[0];
    s.lemma_filter_pred(p, 0);
    assert(f.contains(x));
    s.lemma_filter_contains_rev(p, x);
    let k = choose|k: int| 0 <= k < s.len() && s[k] == x;
    assert(any_starts(q)(s[k]));
    s.lemma_filter_contains(any_starts(q), k);
}

/// Prefix matching by id (`0`), by name (`1`), or by either.
pub open spec fn starts_mode(q: Seq<char>, mode: u8) -> spec_fn(SessionKey) -> bool {
    if mode == 0 {
        id_starts(q)
    } else if mode == 1 {
        name_starts(q)
    } else {
        any_starts(q)
    }
}

/// Count the sessions that satisfy `p`, and find the first.
fn count_and_first(
    keys: &[SessionKey],
    q: &str,
    mode: u8,
) -> (r: (usize, usize))
    ensures
        ({
            let p = starts_mode(q@, mode);
            &&& r.0 == count_where(keys@, p)
            &&& r.1 == first_where(keys@, p)
        }),
{
    let ghost p = starts_mode(q@, mode);
    let mut n: usize = 0;
    let mut first: usize = keys.len();
    let mut i: usize = 0;
    assert(keys@.take(0).filter(p) =~= Seq::<SessionKey>::empty()) by {
        reveal(Seq::filter);
    }
    while i < keys.len()
        invariant
            i <= keys.len(),
            p == starts_mode(q@, mode),
            n == keys@.take(i as int).filter(p).len(),
            n <= i,
            first == keys.len() ==> forall|j: int| 0 <= j < i ==> !p(#[trigger] keys@[j]),
            first < keys.len() ==> first < i && p(keys@[first as int]) && forall|j: int|
                0 <= j < first ==> !p(#[trigger] keys@[j]),
            first <= keys.len(),
        decreases keys.len() - i,
    {
        proof {
            assert(keys@.take(i + 1) =~= keys@.take(i as int).push(keys@[i as int]));
            keys@.take(i as int).lemma_filter_push(keys@[i as int], p);
        }
        let k = &keys[i];
        let by_id = k.id.matches_prefix(q);
        let by_name = match &k.name {
            Some(nm) => starts_with(nm.as_str(), q),
            None => false,
        };
        let hit = if mode == 0 {
            by_id
        } else if mode == 1 {
            by_name
        } else {
            by_id || by_name
        };
        if hit {
            n = n + 1;
            if first == keys.len() {
                first = i;
            }
        }
        i = i + 1;
    }
    proof {
        assert(keys@.take(keys.len() as int) =~= keys@);
        lemma_first_where_at(keys@, p, first as int);
    }
    (n, first)
}

/// The first session satisfying the exact match (by id or by name).
fn find_exact(keys: &[SessionKey], q: &str, by_name: bool) -> (r: usize)
    ensures
        r == first_where(keys@, if by_name { name_is(q@) } else { id_is(q@) }),
{
    let ghost p = if by_name {
        name_is(q@)
    } else {
        id_is(q@)
    };
    let mut i: usize = 0;
    while i < keys.len()
        invariant
            i <= keys.len(),
            p == (if by_name { name_is(q@) } else { id_is(q@) }),
            forall|j: int| 0 <= j < i ==> !p(#[trigger] keys@[j]),
        decreases keys.len() - i,
    {
        let k = &keys[i];
        let hit = if by_name {
            match &k.name {
                Some(nm) => str_eq(nm.as_str(), q),
                None => false,
            }
        } else {
            str_eq(k.id.as_str(), q)
        };
        if hit {
            proof {
                lemma_first_where_at(keys@, p, i as int);
            }
            return i;
        }
        i = i + 1;
    }
    proof {
        lemma_first_where_at(keys@, p, i as int);
    }
    i
}

/// Resolve a session by exact id, exact name, or a unique prefix of either:
/// the position of the session in `keys`.
pub fn resolve_session(keys: &[SessionKey], q: &str) -> (r: Result<usize, Error>)
    ensures
        match resolve_spec(keys@, q@) {
            Ok(i) => r == Ok::<usize, Error>(i as usize),
            Err((a, b)) => if count_where(keys@, any_starts(q@)) == 0 {
                r matches Err(Error::NotFound(m)) && m@ == q@
            } else {
                r matches Err(Error::Ambiguous(m, x, y)) && m@ == q@ && x == a && y == b
            },
        },
{
    proof {
        lemma_first_where(keys@, id_is(q@));
        lemma_first_where(keys@, name_is(q@));
        lemma_prefix_counts(keys@, q@);
    }
    let i = find_exact(keys, q, false);
    if i < keys.len() {
        return Ok(i);
    }
    let j = find_exact(keys, q, true);
    if j < keys.len() {
        return Ok(j);
    }
    let (c, fc) = count_and_first(keys, q, 2);
    if c == 1 {
        proof {
            lemma_first_where(keys@, any_starts(q@));
            if fc == keys.len() {
                keys@.lemma_all_neg_filter_empty(any_starts(q@));
            }
        }
        return Ok(fc);
    }
    let (a, _) = count_and_first(keys, q, 0);
    let (b, _) = count_and_first(keys, q, 1);
    if a == 0 && b == 0 {
        Err(Error::NotFound(string_from(q)))
    } else {
        Err(Error::Ambiguous(string_from(q), a, b))
    }
}

/// The creation times of `s`, in order.
pub open spec fn created_times(s: Seq<SessionKey>) -> Seq<u64> {
    Seq::new(s.len(), |i: int| s[i].created)
}

/// The order sessions are listed in: oldest first, sessions created at the
/// same instant in the order given.
pub fn list_order(keys: &[SessionKey]) -> (r: Vec<usize>)
    ensures
        is_permutation(r@, keys@.len() as int),
        stable_sorted_numbers(created_times(keys@), r@),
{
    let mut created: Vec<u64> = Vec::new();
    let mut i: usize = 0;
    while i < keys.len()
        invariant
            i <= keys.len(),
            created@ == created_times(keys@).take(i as int),
        decreases keys.len() - i,
    {
        created.push(keys[i].created);
        i = i + 1;
        assert(created@ =~= created_times(keys@).take(i as int));
    }
    assert(created@ =~= created_times(keys@));
    sorted_order_by_number(&created)
}

} // verus!
