//! The workspace registry — the daemon-side store of registered launch
//! targets of one host. Registration is per host: a path only means
//! something on the host that can see it. Reading and writing its file, and
//! asking the filesystem about a root, happen around it.
use vstd::prelude::*;

use crate::daemon::error::Error;
use crate::daemon::registry::RootLookup;
use crate::order::{is_permutation, sorted_order, stable_sorted};
use crate::registry_entry::{Workspace, valid_alias};
use crate::search::{first_where, lemma_first_where, lemma_first_where_at};
use crate::text::{chars_of, str_eq, string_from};

verus! {

/// Workspaces under alias `a`.
pub open spec fn ws_alias(a: Seq<char>) -> spec_fn(Workspace) -> bool {
    |w: Workspace| w.alias@ == a
}

/// Workspaces at root `root`.
pub open spec fn ws_root(root: Seq<char>) -> spec_fn(Workspace) -> bool {
    |w: Workspace| w.root@ == root
}

/// Workspaces under another alias than `a`.
pub open spec fn ws_not_alias(a: Seq<char>) -> spec_fn(Workspace) -> bool {
    |w: Workspace| w.alias@ != a
}

/// The aliases of `s`, in order.
pub open spec fn ws_aliases(s: Seq<Workspace>) -> Seq<Seq<char>> {
    Seq::new(s.len(), |i: int| s[i].alias@)
}

/// `r` lists the workspaces of `s` sorted by alias (stably).
pub open spec fn ws_listed_by_alias(r: Seq<Workspace>, s: Seq<Workspace>) -> bool {
    exists|p: Seq<usize>|
        is_permutation(p, s.len() as int) && stable_sorted(ws_aliases(s), p) && r.len() == p.len()
            && forall|k: int| 0 <= k < r.len() ==> #[trigger] r[k] == s[p[k] as int]
}

/// A consistent workspace registry: one workspace per alias and per root.
pub open spec fn ws_registry_wf(s: Seq<Workspace>) -> bool {
    &&& forall|i: int, j: int|
        0 <= i < j < s.len() ==> #[trigger] s[i].alias@ != #[trigger] s[j].alias@
    &&& forall|i: int, j: int|
        0 <= i < j < s.len() ==> #[trigger] s[i].root@ != #[trigger] s[j].root@
}

/// The workspace registered under `a`, if any.
pub open spec fn ws_lookup(s: Seq<Workspace>, a: Seq<char>) -> Option<Workspace> {
    let i = first_where(s, ws_alias(a));
    if i < s.len() {
        Some(s[i])
    } else {
        None
    }
}

/// The registered workspaces of one host.
pub struct WorkspaceRegistry {
    path: Option<String>,
    entries: Vec<Workspace>,
}

impl View for WorkspaceRegistry {
    type V = Seq<Workspace>;

    closed spec fn view(&self) -> Seq<Workspace> {
        self.entries@
    }
}

impl WorkspaceRegistry {
    /// Where the registry persists (`None`: in memory only).
    pub closed spec fn path_spec(&self) -> Option<String> {
        self.path
    }

    /// An empty registry that never persists.
    pub fn in_memory() -> (r: WorkspaceRegistry)
        ensures
            r@ == Seq::<Workspace>::empty(),
            r.path_spec() is None,
    {
        WorkspaceRegistry { path: None, entries: Vec::new() }
    }

    /// A registry persisted at `path`, holding `entries` as read from it.
    pub fn with_entries(path: Option<String>, entries: Vec<Workspace>) -> (r: WorkspaceRegistry)
        ensures
            r@ == entries@,
            r.path_spec() == path,
    {
        WorkspaceRegistry { path, entries }
    }

    /// Where the registry persists.
    pub fn path(&self) -> (r: &Option<String>)
        ensures
            *r == self.path_spec(),
    {
        &self.path
    }

    /// The workspaces in registration order (what is persisted).
    pub fn entries(&self) -> (r: &Vec<Workspace>)
        ensures
            r@ == self@,
    {
        &self.entries
    }

    /// The first workspace under `alias` (the length when none).
    fn find_alias(&self, alias: &str) -> (r: usize)
        ensures
            r == first_where(self@, ws_alias(alias@)),
    {
        let mut i: usize = 0;
        while i < self.entries.len()
            invariant
                i <= self.entries.len(),
                forall|j: int| 0 <= j < i ==> !ws_alias(alias@)(#[trigger] self.entries@[j]),
            decreases self.entries.len() - i,
        {
            if str_eq(self.entries[i].alias.as_str(), alias) {
                proof {
                    lemma_first_where_at(self@, ws_alias(alias@), i as int);
                }
                return i;
            }
            i = i + 1;
        }
        proof {
            lemma_first_where_at(self@, ws_alias(alias@), i as int);
        }
        i
    }

    /// The first workspace at `root` (the length when none).
    fn find_root(&self, root: &str) -> (r: usize)
        ensures
            r == first_where(self@, ws_root(root@)),
    {
        let mut i: usize = 0;
        while i < self.entries.len()
            invariant
                i <= self.entries.len(),
                forall|j: int| 0 <= j < i ==> !ws_root(root@)(#[trigger] self.entries@[j]),
            decreases self.entries.len() - i,
        {
            if str_eq(self.entries[i].root.as_str(), root) {
                proof {
                    lemma_first_where_at(self@, ws_root(root@), i as int);
                }
                return i;
            }
            i = i + 1;
        }
        proof {
            lemma_first_where_at(self@, ws_root(root@), i as int);
        }
        i
    }

    /// Register `alias` → `root`. Neither the alias nor the (canonical) path
    /// may already be registered, and the root must resolve to a directory
    /// (`lookup`). The checks come in that order: alias, root, path, and
    /// last the alias's form.
    pub fn add(&mut self, alias: &str, root: &str, lookup: RootLookup) -> (r: Result<
        Workspace,
        Error,
    >)
        ensures
            first_where(old(self)@, ws_alias(alias@)) < old(self)@.len() ==> (r matches Err(
                Error::DuplicateWorkspace(a),
            ) && a@ == alias@),
            first_where(old(self)@, ws_alias(alias@)) == old(self)@.len() ==> match lookup.canonical {
                Err(why) => r matches Err(Error::BadWorkspacePath(p, w)) && p@ == root@ && w@
                    == why@,
                Ok(c) => if !lookup.is_dir {
                    r matches Err(Error::BadWorkspacePath(p, w)) && p@ == c@ && w@
                        == "not a directory"@
                } else if first_where(old(self)@, ws_root(c@)) < old(self)@.len() {
                    r matches Err(Error::WorkspacePathTaken(p, a)) && p@ == c@ && a@ == old(
                        self,
                    )@[first_where(old(self)@, ws_root(c@))].alias@
                } else if !valid_alias(alias@) {
                    r matches Err(Error::Domain(crate::error::Error::BadAlias(a))) && a@
                        == alias@
                } else {
                    r matches Ok(w) && w.alias@ == alias@ && w.root == c && final(self)@ == old(
                        self,
                    )@.push(w)
                },
            },
            r is Err ==> final(self)@ == old(self)@,
            final(self).path_spec() == old(self).path_spec(),
    {
        if self.find_alias(alias) < self.entries.len() {
            return Err(Error::DuplicateWorkspace(string_from(alias)));
        }
        let c = match lookup.canonical {
            Err(why) => {
                return Err(Error::BadWorkspacePath(string_from(root), why));
            },
            Ok(c) => c,
        };
        if !lookup.is_dir {
            return Err(Error::BadWorkspacePath(c, string_from("not a directory")));
        }
        let k = self.find_root(c.as_str());
        if k < self.entries.len() {
            proof {
                lemma_first_where(self@, ws_root(c@));
            }
            let holder = self.entries[k].alias.clone();
            return Err(Error::WorkspacePathTaken(c, holder));
        }
        let ws = match Workspace::new(alias, c.as_str()) {
            Ok(w) => w,
            Err(e) => {
                return Err(Error::Domain(e));
            },
        };
        let ws = Workspace { alias: ws.alias, root: c };
        let out = ws.copy();
        self.entries.push(ws);
        Ok(out)
    }

    /// Forget a workspace by alias; `UnknownWorkspace` when none is
    /// registered under it.
    pub fn remove(&mut self, alias: &str) -> (r: Result<(), Error>)
        ensures
            final(self)@ == old(self)@.filter(ws_not_alias(alias@)),
            first_where(old(self)@, ws_alias(alias@)) < old(self)@.len() ==> r is Ok,
            first_where(old(self)@, ws_alias(alias@)) == old(self)@.len() ==> (r matches Err(
                Error::UnknownWorkspace(m),
            ) && m@ == alias@),
            final(self).path_spec() == old(self).path_spec(),
    {
        let ghost s = self@;
        let ghost pred = ws_not_alias(alias@);
        let ghost mut k: int = 0;
        let mut i: usize = 0;
        let mut removed = false;
        proof {
            assert(s.take(0) =~= Seq::<Workspace>::empty());
            assert(s.take(0).filter(pred) =~= Seq::<Workspace>::empty()) by {
                reveal(Seq::filter);
            }
            assert(s.skip(0) =~= s);
            assert(self.entries@ =~= s.take(0).filter(pred) + s.skip(0));
        }
        while i < self.entries.len()
            invariant
                0 <= k <= s.len(),
                self.entries@ == s.take(k).filter(pred) + s.skip(k),
                i == s.take(k).filter(pred).len(),
                pred == ws_not_alias(alias@),
                !removed ==> forall|j: int| 0 <= j < k ==> pred(#[trigger] s[j]),
                removed ==> exists|j: int| 0 <= j < k && !pred(#[trigger] s[j]),
                self.path == old(self).path,
            decreases self.entries.len() - i,
        {
            assert(self.entries@[i as int] == s[k]);
            assert(s.take(k + 1) =~= s.take(k).push(s[k]));
            proof {
                s.take(k).lemma_filter_push(s[k], pred);
            }
            if str_eq(self.entries[i].alias.as_str(), alias) {
                self.entries.remove(i);
                removed = true;
                proof {
                    assert(self.entries@ =~= s.take(k + 1).filter(pred) + s.skip(k + 1));
                }
            } else {
                i = i + 1;
                proof {
                    assert(self.entries@ =~= s.take(k + 1).filter(pred) + s.skip(k + 1));
                }
            }
            proof {
                k = k + 1;
            }
        }
        proof {
            assert(s.skip(k).len() == 0);
            assert(s.take(k) =~= s);
            lemma_first_where(s, ws_alias(alias@));
            if !removed {
                assert forall|j: int| 0 <= j < s.len() implies !ws_alias(alias@)(
                    #[trigger] s[j],
                ) by {
                    assert(pred(s[j]));
                }
            } else {
                let j = choose|j: int| 0 <= j < k && !pred(#[trigger] s[j]);
                assert(ws_alias(alias@)(s[j]));
            }
        }
        if removed {
            Ok(())
        } else {
            Err(Error::UnknownWorkspace(string_from(alias)))
        }
    }

    /// The workspace registered under `alias`.
    pub fn resolve(&self, alias: &str) -> (r: Option<&Workspace>)
        ensures
            match r {
                Some(w) => ws_lookup(self@, alias@) == Some(*w),
                None => ws_lookup(self@, alias@) is None,
            },
    {
        let i = self.find_alias(alias);
        proof {
            lemma_first_where(self@, ws_alias(alias@));
        }
        if i < self.entries.len() {
            Some(&self.entries[i])
        } else {
            None
        }
    }

    /// All registered workspaces, sorted by alias.
    pub fn list(&self) -> (r: Vec<&Workspace>)
        ensures
            ws_listed_by_alias(r@.map_values(|w: &Workspace| *w), self@),
    {
        let mut keys: Vec<Vec<char>> = Vec::new();
        let mut i: usize = 0;
        while i < self.entries.len()
            invariant
                i <= self.entries.len(),
                keys@.len() == i,
                forall|k: int| 0 <= k < i ==> (#[trigger] keys@[k])@ == self.entries@[k].alias@,
            decreases self.entries.len() - i,
        {
            keys.push(chars_of(self.entries[i].alias.as_str()));
            i = i + 1;
        }
        let p = sorted_order(&keys);
        assert(crate::order::keys_view(keys@) =~= ws_aliases(self@));
        let mut out: Vec<&Workspace> = Vec::new();
        let mut k: usize = 0;
        while k < p.len()
            invariant
                k <= p.len(),
                is_permutation(p@, self@.len() as int),
                out@.len() == k,
                forall|m: int| 0 <= m < k ==> *(#[trigger] out@[m]) == self@[p@[m] as int],
            decreases p.len() - k,
        {
            out.push(&self.entries[p[k]]);
            k = k + 1;
        }
        let ghost view = out@.map_values(|w: &Workspace| *w);
        assert(forall|m: int| 0 <= m < view.len() ==> #[trigger] view[m] == self@[p@[m] as int]);
        out
    }
}

/// Add keeps the workspace registry consistent: a workspace that passed
/// the alias and path checks makes one workspace per alias and per root.
pub proof fn law_add_keeps_registry_consistent(s: Seq<Workspace>, w: Workspace)
    requires
        ws_registry_wf(s),
        first_where(s, ws_alias(w.alias@)) == s.len(),
        first_where(s, ws_root(w.root@)) == s.len(),
    ensures
        ws_registry_wf(s.push(w)),
{
    lemma_first_where(s, ws_alias(w.alias@));
    lemma_first_where(s, ws_root(w.root@));
    let t = s.push(w);
    assert forall|i: int, j: int| 0 <= i < j < t.len() implies #[trigger] t[i].alias@
        != #[trigger] t[j].alias@ && t[i].root@ != t[j].root@ by {
        if j == s.len() {
            assert(!ws_alias(w.alias@)(s[i]));
            assert(!ws_root(w.root@)(s[i]));
        } else {
            assert(t[i] == s[i] && t[j] == s[j]);
        }
    }
    assert forall|i: int, j: int| 0 <= i < j < t.len() implies #[trigger] t[i].root@
        != #[trigger] t[j].root@ by {
        assert(t[i].alias@ != t[j].alias@ && t[i].root@ != t[j].root@);
    }
}

/// Add then resolve: a workspace just added is what its alias resolves to.
pub proof fn law_add_then_resolve(s: Seq<Workspace>, w: Workspace)
    requires
        first_where(s, ws_alias(w.alias@)) == s.len(),
    ensures
        ws_lookup(s.push(w), w.alias@) == Some(w),
{
    lemma_first_where(s, ws_alias(w.alias@));
    let t = s.push(w);
    assert forall|j: int| 0 <= j < s.len() implies !ws_alias(w.alias@)(#[trigger] t[j]) by {
        assert(t[j] == s[j]);
        assert(!ws_alias(w.alias@)(s[j]));
    }
    lemma_first_where_at(t, ws_alias(w.alias@), s.len() as int);
}

/// Remove then resolve: a removed alias resolves to nothing.
pub proof fn law_remove_then_unresolvable(s: Seq<Workspace>, a: Seq<char>)
    ensures
        ws_lookup(s.filter(ws_not_alias(a)), a) is None,
{
    let t = s.filter(ws_not_alias(a));
    assert forall|j: int| 0 <= j < t.len() implies !ws_alias(a)(#[trigger] t[j]) by {
        s.lemma_filter_pred(ws_not_alias(a), j);
    }
    lemma_first_where_at(t, ws_alias(a), t.len() as int);
}

/// Remove keeps the workspace registry consistent.
pub proof fn law_remove_keeps_registry_consistent(s: Seq<Workspace>, a: Seq<char>)
    requires
        ws_registry_wf(s),
    ensures
        ws_registry_wf(s.filter(ws_not_alias(a))),
    decreases s.len(),
{
    if s.len() > 0 {
        let p = ws_not_alias(a);
        let t = s.drop_last();
        let x = s.last();
        assert(s =~= t.push(x));
        assert(ws_registry_wf(t)) by {
            assert forall|i: int, j: int| 0 <= i < j < t.len() implies #[trigger] t[i].alias@
                != #[trigger] t[j].alias@ by {
                assert(t[i] == s[i] && t[j] == s[j]);
            }
            assert forall|i: int, j: int| 0 <= i < j < t.len() implies #[trigger] t[i].root@
                != #[trigger] t[j].root@ by {
                assert(t[i] == s[i] && t[j] == s[j]);
            }
        }
        law_remove_keeps_registry_consistent(t, a);
        t.lemma_filter_push(x, p);
        if p(x) {
            let ft = t.filter(p);
            let fs = ft.push(x);
            assert forall|m: int| 0 <= m < ft.len() implies #[trigger] ft[m].alias@ != x.alias@
                && ft[m].root@ != x.root@ by {
                assert(ft.contains(ft[m]));
                t.lemma_filter_contains_rev(p, ft[m]);
                let j = choose|j: int| 0 <= j < t.len() && t[j] == ft[m];
                assert(s[j] == ft[m]);
                assert(s[t.len() as int] == x);
            }
            assert forall|i: int, j: int| 0 <= i < j < fs.len() implies #[trigger] fs[i].alias@
                != #[trigger] fs[j].alias@ by {
                if j == ft.len() {
                    assert(fs[i] == ft[i]);
                } else {
                    assert(fs[i] == ft[i] && fs[j] == ft[j]);
                }
            }
            assert forall|i: int, j: int| 0 <= i < j < fs.len() implies #[trigger] fs[i].root@
                != #[trigger] fs[j].root@ by {
                if j == ft.len() {
                    assert(fs[i] == ft[i]);
                } else {
                    assert(fs[i] == ft[i] && fs[j] == ft[j]);
                }
            }
        }
    } else {
        assert(s.filter(ws_not_alias(a)) =~= s) by {
            reveal(Seq::filter);
        }
    }
}

} // verus!
