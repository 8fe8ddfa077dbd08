//! The registry: the one store of named things launches consume — workspace
//! targets and profile presets, one alias namespace. Put is upsert:
//! re-registering an alias replaces its entry. Reading and writing the
//! store's file, and asking the filesystem about a workspace root, happen
//! around it; it holds the entries and decides.
use vstd::prelude::*;

use crate::daemon::error::Error;
use crate::registry_entry::{EntryKind, RegistryEntry, valid_alias, valid_argv};
use crate::order::{is_permutation, sorted_order, stable_sorted};
use crate::search::{first_where, lemma_first_where, lemma_first_where_at};
use crate::text::{chars_of, copy_strings, split_whitespace, split_ws_spec, str_eq, string_from, strings_seq};
use crate::types::strings_view;

verus! {

/// What the host's filesystem says of a workspace root: its canonical form
/// (or why it has none) and whether that is a directory.
pub struct RootLookup {
    pub canonical: Result<String, String>,
    pub is_dir: bool,
}

/// Entries registered under alias `a`.
pub open spec fn has_alias(a: Seq<char>) -> spec_fn(RegistryEntry) -> bool {
    |e: RegistryEntry| e.alias@ == a
}

/// A workspace entry under another alias than `a` whose root is `root`.
pub open spec fn claims_root(a: Seq<char>, root: Seq<char>) -> spec_fn(RegistryEntry) -> bool {
    |e: RegistryEntry| e.kind is Workspace && e.alias@ != a && e.kind->root@ == root
}

/// A workspace entry under alias `a`.
pub open spec fn workspace_named(a: Seq<char>) -> spec_fn(RegistryEntry) -> bool {
    |e: RegistryEntry| e.alias@ == a && e.kind is Workspace
}

/// A profile entry under alias `a`.
pub open spec fn profile_named(a: Seq<char>) -> spec_fn(RegistryEntry) -> bool {
    |e: RegistryEntry| e.alias@ == a && e.kind is Profile
}

/// Insert-or-replace by alias: the first entry under the same alias is
/// replaced in place, else the entry is appended.
pub open spec fn upsert(s: Seq<RegistryEntry>, e: RegistryEntry) -> Seq<RegistryEntry> {
    let i = first_where(s, has_alias(e.alias@));
    if i < s.len() {
        s.update(i, e)
    } else {
        s.push(e)
    }
}

/// Whether another alias already holds workspace root `root`.
pub open spec fn root_taken(s: Seq<RegistryEntry>, a: Seq<char>, root: Seq<char>) -> bool {
    first_where(s, claims_root(a, root)) < s.len()
}

/// The alias that holds root `root` first (meaningful when taken).
pub open spec fn root_holder(s: Seq<RegistryEntry>, a: Seq<char>, root: Seq<char>) -> Seq<char> {
    s[first_where(s, claims_root(a, root))].alias@
}

/// The root registered as workspace `a`, if any.
pub open spec fn workspace_root(s: Seq<RegistryEntry>, a: Seq<char>) -> Option<Seq<char>> {
    let i = first_where(s, workspace_named(a));
    if i < s.len() {
        Some(s[i].kind->root@)
    } else {
        None
    }
}

/// The argv registered as profile `a`, if any.
pub open spec fn profile_argv(s: Seq<RegistryEntry>, a: Seq<char>) -> Option<Seq<String>> {
    let i = first_where(s, profile_named(a));
    if i < s.len() {
        Some(s[i].kind->argv@)
    } else {
        None
    }
}

/// Entries under another alias than `a`.
pub open spec fn not_alias(a: Seq<char>) -> spec_fn(RegistryEntry) -> bool {
    |e: RegistryEntry| e.alias@ != a
}

/// The aliases of `s`, in order.
pub open spec fn aliases(s: Seq<RegistryEntry>) -> Seq<Seq<char>> {
    Seq::new(s.len(), |i: int| s[i].alias@)
}

/// `r` lists the entries of `s` sorted by alias (stably).
pub open spec fn listed_by_alias(r: Seq<RegistryEntry>, s: Seq<RegistryEntry>) -> bool {
    exists|p: Seq<usize>|
        is_permutation(p, s.len() as int) && stable_sorted(aliases(s), p) && r.len() == p.len()
            && forall|k: int| 0 <= k < r.len() ==> #[trigger] r[k] == s[p[k] as int]
}

/// A legacy workspace row, by value: alias and root.
pub open spec fn row_view(r: (String, String)) -> (Seq<char>, Seq<char>) {
    (r.0@, r.1@)
}

/// A legacy profile row, by value: name and command (`None` when the
/// stored value was not a string).
pub open spec fn preset_view(r: (String, Option<String>)) -> (Seq<char>, Option<Seq<char>>) {
    (r.0@, match r.1 {
        Some(c) => Some(c@),
        None => None,
    })
}

/// A legacy workspace row that becomes an entry: its alias is typable.
pub open spec fn usable_row(r: (Seq<char>, Seq<char>)) -> bool {
    valid_alias(r.0)
}

/// A legacy profile row that becomes an entry: a string command whose
/// words make a usable argv, under a typable name.
pub open spec fn usable_preset(r: (Seq<char>, Option<Seq<char>>)) -> bool {
    &&& r.1 is Some
    &&& valid_alias(r.0)
    &&& valid_argv(split_ws_spec(r.1->0))
}

/// The profile a usable legacy row becomes: its name and its command's
/// words.
pub open spec fn preset_entry(r: (Seq<char>, Option<Seq<char>>)) -> (Seq<char>, Seq<Seq<char>>) {
    (r.0, split_ws_spec(r.1->0))
}

/// An entry, by value: alias, whether a workspace, root, argv.
pub open spec fn entry_value(e: RegistryEntry) -> (Seq<char>, bool, Seq<char>, Seq<Seq<char>>) {
    match e.kind {
        EntryKind::Workspace { root } => (e.alias@, true, root@, Seq::empty()),
        EntryKind::Profile { argv } => (e.alias@, false, Seq::empty(), strings_view(argv@)),
    }
}

/// A consistent registry: one entry per alias, one workspace per root.
pub open spec fn registry_wf(s: Seq<RegistryEntry>) -> bool {
    &&& forall|i: int, j: int|
        0 <= i < j < s.len() ==> #[trigger] s[i].alias@ != #[trigger] s[j].alias@
    &&& forall|i: int, j: int|
        0 <= i < j < s.len() && s[i].kind is Workspace && s[j].kind is Workspace
            ==> #[trigger] s[i].kind->root@ != #[trigger] s[j].kind->root@
}

/// `n` is registry `o` with the legacy rows folded in: each usable
/// workspace row of `wv`, then each usable profile row of `pv` (its
/// command split on whitespace), appended in order; `r` says whether
/// anything was folded.
pub open spec fn legacy_folded(
    o: Seq<RegistryEntry>,
    n: Seq<RegistryEntry>,
    wv: Seq<(Seq<char>, Seq<char>)>,
    pv: Seq<(Seq<char>, Option<Seq<char>>)>,
    r: bool,
) -> bool {
    let ws = wv.filter(|w: (Seq<char>, Seq<char>)| usable_row(w));
    let ps = pv.filter(|p: (Seq<char>, Option<Seq<char>>)| usable_preset(p));
    &&& n.len() == o.len() + ws.len() + ps.len()
    &&& n.take(o.len() as int) == o
    &&& forall|k: int|
        0 <= k < ws.len() ==> entry_value(#[trigger] n[o.len() + k]) == (
            ws[k].0,
            true,
            ws[k].1,
            Seq::<Seq<char>>::empty(),
        )
    &&& forall|k: int|
        0 <= k < ps.len() ==> entry_value(#[trigger] n[o.len() + ws.len() + k]) == (
            preset_entry(ps[k]).0,
            false,
            Seq::<char>::empty(),
            preset_entry(ps[k]).1,
        )
    &&& r == (ws.len() + ps.len() > 0)
}

/// What `serde_json` reads from the text of a legacy `profiles.json`:
/// `None` unless it is a JSON object, else its members in the order the
/// object keeps them, each name with its value when that is a string.
pub uninterp spec fn json_legacy_profiles(text: Seq<char>) -> Option<
    Seq<(Seq<char>, Option<Seq<char>>)>,
>;

/// The legacy profile rows a `profiles.json` text gives: none when there
/// is no file or it is not a JSON object.
pub open spec fn legacy_presets(text: Option<Seq<char>>) -> Seq<(Seq<char>, Option<Seq<char>>)> {
    match text {
        Some(t) => match json_legacy_profiles(t) {
            Some(rows) => rows,
            None => Seq::empty(),
        },
        None => Seq::empty(),
    }
}

/// Parse a legacy `profiles.json` text with `serde_json::from_str` into a
/// `serde_json::Value`, take it as an object (`as_object`) and list its
/// members with `as_str` of each value. The result is named, not described.
#[verifier::external_body]
fn read_legacy_profiles(text: &str) -> (r: Option<Vec<(String, Option<String>)>>)
    ensures
        r is None <==> json_legacy_profiles(text@) is None,
        r matches Some(v) ==> json_legacy_profiles(text@) == Some(
            v@.map_values(|p: (String, Option<String>)| preset_view(p)),
        ),
{
    let v: serde_json::Value = serde_json::from_str(text).ok()?;
    let obj = v.as_object()?;
    Some(obj.iter().map(|(k, x)| (k.clone(), x.as_str().map(String::from))).collect())
}

/// The registry of one host.
pub struct Registry {
    path: Option<String>,
    entries: Vec<RegistryEntry>,
}

impl View for Registry {
    type V = Seq<RegistryEntry>;

    closed spec fn view(&self) -> Seq<RegistryEntry> {
        self.entries@
    }
}

impl Registry {
    /// Where the registry persists (`None`: in memory only).
    pub closed spec fn path_spec(&self) -> Option<String> {
        self.path
    }

    /// An empty registry that never persists.
    pub fn in_memory() -> (r: Registry)
        ensures
            r@ == Seq::<RegistryEntry>::empty(),
            r.path_spec() is None,
    {
        Registry { path: None, entries: Vec::new() }
    }

    /// A registry persisted at `path`, holding `entries` as read from it.
    pub fn with_entries(path: Option<String>, entries: Vec<RegistryEntry>) -> (r: Registry)
        ensures
            r@ == entries@,
            r.path_spec() == path,
    {
        Registry { path, entries }
    }

    /// Where the registry persists.
    pub fn path(&self) -> (r: &Option<String>)
        ensures
            *r == self.path_spec(),
    {
        &self.path
    }

    /// The entries in registration order (what is persisted).
    pub fn entries(&self) -> (r: &Vec<RegistryEntry>)
        ensures
            r@ == self@,
    {
        &self.entries
    }

    /// The first entry satisfying `workspace ≠ alias, root = root`.
    fn find_root_claim(&self, alias: &str, root: &str) -> (r: usize)
        ensures
            r == first_where(self@, claims_root(alias@, root@)),
    {
        let mut i: usize = 0;
        while i < self.entries.len()
            invariant
                i <= self.entries.len(),
                forall|j: int|
                    0 <= j < i ==> !claims_root(alias@, root@)(#[trigger] self.entries@[j]),
            decreases self.entries.len() - i,
        {
            let e = &self.entries[i];
            match &e.kind {
                EntryKind::Workspace { root: r } => {
                    if !str_eq(e.alias.as_str(), alias) && str_eq(r.as_str(), root) {
                        proof {
                            lemma_first_where_at(self@, claims_root(alias@, root@), i as int);
                        }
                        return i;
                    }
                },
                EntryKind::Profile { .. } => {},
            }
            i = i + 1;
        }
        proof {
            lemma_first_where_at(self@, claims_root(alias@, root@), i as int);
        }
        i
    }

    /// The first entry registered under `alias` (the length when none).
    fn find_alias(&self, alias: &str) -> (r: usize)
        ensures
            r == first_where(self@, has_alias(alias@)),
    {
        let mut i: usize = 0;
        while i < self.entries.len()
            invariant
                i <= self.entries.len(),
                forall|j: int| 0 <= j < i ==> !has_alias(alias@)(#[trigger] self.entries@[j]),
            decreases self.entries.len() - i,
        {
            if str_eq(self.entries[i].alias.as_str(), alias) {
                proof {
                    lemma_first_where_at(self@, has_alias(alias@), i as int);
                }
                return i;
            }
            i = i + 1;
        }
        proof {
            lemma_first_where_at(self@, has_alias(alias@), i as int);
        }
        i
    }

    /// Fold the rows of the legacy stores into the entries: each usable
    /// workspace row, then each usable profile row (its command split on
    /// whitespace), appended in order; unusable rows are skipped. Whether
    /// anything was folded.
    pub fn fold_legacy(
        &mut self,
        workspaces: Vec<(String, String)>,
        profiles: Vec<(String, Option<String>)>,
    ) -> (r: bool)
        ensures
            legacy_folded(
                old(self)@,
                final(self)@,
                workspaces@.map_values(|w: (String, String)| row_view(w)),
                profiles@.map_values(|p: (String, Option<String>)| preset_view(p)),
                r,
            ),
            final(self).path_spec() == old(self).path_spec(),
    {
        let ghost o = self@;
        let ghost wv = workspaces@.map_values(|w: (String, String)| row_view(w));
        let ghost pv = profiles@.map_values(|p: (String, Option<String>)| preset_view(p));
        let ghost wp = |w: (Seq<char>, Seq<char>)| usable_row(w);
        let ghost pp = |p: (Seq<char>, Option<Seq<char>>)| usable_preset(p);
        let mut folded = false;
        let mut i: usize = 0;
        proof {
            assert(wv.take(0) =~= Seq::<(Seq<char>, Seq<char>)>::empty());
            assert(wv.take(0).filter(wp) =~= Seq::<(Seq<char>, Seq<char>)>::empty()) by {
                reveal(Seq::filter);
            }
        }
        while i < workspaces.len()
            invariant
                i <= workspaces.len(),
                wv == workspaces@.map_values(|w: (String, String)| row_view(w)),
                wp == (|w: (Seq<char>, Seq<char>)| usable_row(w)),
                self@.len() == o.len() + wv.take(i as int).filter(wp).len(),
                self@.take(o.len() as int) == o,
                forall|k: int|
                    0 <= k < wv.take(i as int).filter(wp).len() ==> entry_value(
                        #[trigger] self@[o.len() + k],
                    ) == (
                        wv.take(i as int).filter(wp)[k].0,
                        true,
                        wv.take(i as int).filter(wp)[k].1,
                        Seq::<Seq<char>>::empty(),
                    ),
                folded == (wv.take(i as int).filter(wp).len() > 0),
                self.path == old(self).path,
            decreases workspaces.len() - i,
        {
            let ghost before = self@;
            proof {
                assert(wv.take(i + 1) =~= wv.take(i as int).push(wv[i as int]));
                wv.take(i as int).lemma_filter_push(wv[i as int], wp);
            }
            let (alias, root) = (&workspaces[i].0, &workspaces[i].1);
            match RegistryEntry::workspace(alias.as_str(), root.as_str()) {
                Ok(e) => {
                    self.entries.push(e);
                    folded = true;
                    proof {
                        assert(self@.take(o.len() as int) =~= before.take(o.len() as int));
                    }
                },
                Err(_) => {},
            }
            i = i + 1;
        }
        proof {
            assert(wv.take(wv.len() as int) =~= wv);
        }
        let ghost mid = self@;
        let ghost ws = wv.filter(wp);
        let mut j: usize = 0;
        proof {
            assert(pv.take(0) =~= Seq::<(Seq<char>, Option<Seq<char>>)>::empty());
            assert(pv.take(0).filter(pp) =~= Seq::<(Seq<char>, Option<Seq<char>>)>::empty()) by {
                reveal(Seq::filter);
            }
        }
        while j < profiles.len()
            invariant
                j <= profiles.len(),
                pv == profiles@.map_values(|p: (String, Option<String>)| preset_view(p)),
                pp == (|p: (Seq<char>, Option<Seq<char>>)| usable_preset(p)),
                mid.len() == o.len() + ws.len(),
                self@.len() == mid.len() + pv.take(j as int).filter(pp).len(),
                self@.take(mid.len() as int) == mid,
                forall|k: int|
                    0 <= k < pv.take(j as int).filter(pp).len() ==> entry_value(
                        #[trigger] self@[mid.len() + k],
                    ) == (
                        preset_entry(pv.take(j as int).filter(pp)[k]).0,
                        false,
                        Seq::<char>::empty(),
                        preset_entry(pv.take(j as int).filter(pp)[k]).1,
                    ),
                folded == (ws.len() + pv.take(j as int).filter(pp).len() > 0),
                self.path == old(self).path,
            decreases profiles.len() - j,
        {
            let ghost before = self@;
            proof {
                assert(pv.take(j + 1) =~= pv.take(j as int).push(pv[j as int]));
                pv.take(j as int).lemma_filter_push(pv[j as int], pp);
            }
            match &profiles[j].1 {
                Some(cmd) => {
                    let argv = split_whitespace(cmd.as_str());
                    let ghost av = argv@;
                    proof {
                        assert(strings_view(av) =~= strings_seq(av));
                    }
                    match RegistryEntry::profile(profiles[j].0.as_str(), argv) {
                        Ok(e) => {
                            self.entries.push(e);
                            folded = true;
                            proof {
                                assert(self@.take(mid.len() as int) =~= before.take(
                                    mid.len() as int,
                                ));
                                assert(entry_value(e).3 == strings_view(av));
                            }
                        },
                        Err(_) => {},
                    }
                },
                None => {},
            }
            j = j + 1;
        }
        proof {
            assert(pv.take(pv.len() as int) =~= pv);
            assert forall|k: int| 0 <= k < ws.len() implies entry_value(
                #[trigger] self@[o.len() + k],
            ) == (ws[k].0, true, ws[k].1, Seq::<Seq<char>>::empty()) by {
                assert(self@[o.len() + k] == mid[o.len() + k]);
            }
            assert(self@.take(o.len() as int) =~= mid.take(o.len() as int));
        }
        folded
    }

    /// Fold the legacy stores in from their rows of workspaces and the text
    /// of `profiles.json` (`None` when there is none): its profile rows are
    /// what `serde_json` reads from it, none when it is not a JSON object.
    pub fn fold_legacy_text(
        &mut self,
        workspaces: Vec<(String, String)>,
        profiles_text: Option<String>,
    ) -> (r: bool)
        ensures
            legacy_folded(
                old(self)@,
                final(self)@,
                workspaces@.map_values(|w: (String, String)| row_view(w)),
                legacy_presets(match profiles_text {
                    Some(t) => Some(t@),
                    None => None,
                }),
                r,
            ),
            final(self).path_spec() == old(self).path_spec(),
    {
        let profiles = match &profiles_text {
            Some(t) => match read_legacy_profiles(t.as_str()) {
                Some(rows) => rows,
                None => Vec::new(),
            },
            None => Vec::new(),
        };
        proof {
            assert(profiles@.map_values(|p: (String, Option<String>)| preset_view(p)) =~= legacy_presets(
                match profiles_text {
                    Some(t) => Some(t@),
                    None => None,
                },
            ));
        }
        self.fold_legacy(workspaces, profiles)
    }

    /// Insert or replace by alias (upsert). A workspace root must resolve
    /// to a directory on this host (`lookup`, ignored for a profile) and no
    /// other alias may hold it; the entry is stored with the canonical root.
    pub fn put(&mut self, entry: RegistryEntry, lookup: RootLookup) -> (r: Result<(), Error>)
        ensures
            entry.kind is Profile ==> r is Ok && final(self)@ == upsert(old(self)@, entry),
            entry.kind is Workspace ==> match lookup.canonical {
                Err(why) => r matches Err(Error::BadWorkspacePath(p, w)) && p@
                    == entry.kind->root@ && w@ == why@ && final(self)@ == old(self)@,
                Ok(c) => if !lookup.is_dir {
                    r matches Err(Error::BadWorkspacePath(p, w)) && p@ == c@ && w@
                        == "not a directory"@ && final(self)@ == old(self)@
                } else if root_taken(old(self)@, entry.alias@, c@) {
                    r matches Err(Error::WorkspacePathTaken(p, a)) && p@ == c@ && a@
                        == root_holder(old(self)@, entry.alias@, c@) && final(self)@
                        == old(self)@
                } else {
                    r is Ok && final(self)@ == upsert(
                        old(self)@,
                        RegistryEntry { alias: entry.alias, kind: EntryKind::Workspace { root: c } },
                    )
                },
            },
            final(self).path_spec() == old(self).path_spec(),
    {
        let entry = match entry.kind {
            EntryKind::Workspace { root } => {
                let c = match lookup.canonical {
                    Err(why) => {
                        return Err(Error::BadWorkspacePath(root, why));
                    },
                    Ok(c) => c,
                };
                if !lookup.is_dir {
                    return Err(Error::BadWorkspacePath(c, string_from("not a directory")));
                }
                let k = self.find_root_claim(entry.alias.as_str(), c.as_str());
                if k < self.entries.len() {
                    proof {
                        lemma_first_where(self@, claims_root(entry.alias@, c@));
                    }
                    let holder = self.entries[k].alias.clone();
                    return Err(Error::WorkspacePathTaken(c, holder));
                }
                RegistryEntry { alias: entry.alias, kind: EntryKind::Workspace { root: c } }
            },
            EntryKind::Profile { argv } => RegistryEntry {
                alias: entry.alias,
                kind: EntryKind::Profile { argv },
            },
        };
        let i = self.find_alias(entry.alias.as_str());
        proof {
            lemma_first_where(self@, has_alias(entry.alias@));
        }
        if i < self.entries.len() {
            self.entries.set(i, entry);
        } else {
            self.entries.push(entry);
        }
        Ok(())
    }

    /// Forget an alias (any kind); `UnknownAlias` when nothing is
    /// registered under it.
    pub fn remove(&mut self, alias: &str) -> (r: Result<(), Error>)
        ensures
            final(self)@ == old(self)@.filter(not_alias(alias@)),
            first_where(old(self)@, has_alias(alias@)) < old(self)@.len() ==> r is Ok,
            first_where(old(self)@, has_alias(alias@)) == old(self)@.len() ==> (r matches Err(
                Error::UnknownAlias(m),
            ) && m@ == alias@),
            final(self).path_spec() == old(self).path_spec(),
    {
        let ghost s = self@;
        let ghost pred = not_alias(alias@);
        let ghost mut k: int = 0;
        let mut i: usize = 0;
        let mut removed = false;
        proof {
            assert(s.take(0) =~= Seq::<RegistryEntry>::empty());
            assert(s.take(0).filter(pred) =~= Seq::<RegistryEntry>::empty());
            assert(s.skip(0) =~= s);
            assert(self.entries@ =~= s.take(0).filter(pred) + s.skip(0));
        }
        while i < self.entries.len()
            invariant
                0 <= k <= s.len(),
                self.entries@ == s.take(k).filter(pred) + s.skip(k),
                i == s.take(k).filter(pred).len(),
                pred == not_alias(alias@),
                !removed ==> forall|j: int| 0 <= j < k ==> pred(#[trigger] s[j]),
                removed ==> exists|j: int| 0 <= j < k && !pred(#[trigger] s[j]),
                self.path == old(self).path,
            decreases self.entries.len() - i,
        {
            assert(self.entries@[i as int] == s[k]);
            assert(s.take(k + 1) =~= s.take(k).push(s[k]));
            proof {
                s.take(k).lemma_filter_push(s[k], pred);
            }
            if str_eq(self.entries[i].alias.as_str(), alias) {
                self.entries.remove(i);
                removed = true;
                proof {
                    assert(self.entries@ =~= s.take(k + 1).filter(pred) + s.skip(k + 1));
                }
            } else {
                i = i + 1;
                proof {
                    assert(self.entries@ =~= s.take(k + 1).filter(pred) + s.skip(k + 1));
                }
            }
            proof {
                k = k + 1;
            }
        }
        proof {
            assert(s.skip(k).len() == 0);
            assert(s.take(k) =~= s);
            lemma_first_where(s, has_alias(alias@));
            if !removed {
                assert forall|j: int| 0 <= j < s.len() implies !has_alias(alias@)(
                    #[trigger] s[j],
                ) by {
                    assert(pred(s[j]));
                }
            } else {
                let j = choose|j: int| 0 <= j < k && !pred(#[trigger] s[j]);
                assert(has_alias(alias@)(s[j]));
            }
        }
        if removed {
            Ok(())
        } else {
            Err(Error::UnknownAlias(string_from(alias)))
        }
    }

    /// The root registered as workspace `alias`.
    pub fn resolve_workspace(&self, alias: &str) -> (r: Option<String>)
        ensures
            match r {
                Some(p) => workspace_root(self@, alias@) == Some(p@),
                None => workspace_root(self@, alias@) is None,
            },
    {
        let mut i: usize = 0;
        while i < self.entries.len()
            invariant
                i <= self.entries.len(),
                forall|j: int|
                    0 <= j < i ==> !workspace_named(alias@)(#[trigger] self.entries@[j]),
            decreases self.entries.len() - i,
        {
            let e = &self.entries[i];
            if str_eq(e.alias.as_str(), alias) {
                match &e.kind {
                    EntryKind::Workspace { root } => {
                        proof {
                            lemma_first_where_at(self@, workspace_named(alias@), i as int);
                        }
                        return Some(root.clone());
                    },
                    EntryKind::Profile { .. } => {},
                }
            }
            i = i + 1;
        }
        proof {
            lemma_first_where_at(self@, workspace_named(alias@), i as int);
        }
        None
    }

    /// The argv registered as profile `alias`.
    pub fn resolve_profile(&self, alias: &str) -> (r: Option<Vec<String>>)
        ensures
            match r {
                Some(v) => profile_argv(self@, alias@) == Some(v@),
                None => profile_argv(self@, alias@) is None,
            },
    {
        let mut i: usize = 0;
        while i < self.entries.len()
            invariant
                i <= self.entries.len(),
                forall|j: int| 0 <= j < i ==> !profile_named(alias@)(#[trigger] self.entries@[j]),
            decreases self.entries.len() - i,
        {
            let e = &self.entries[i];
            if str_eq(e.alias.as_str(), alias) {
                match &e.kind {
                    EntryKind::Profile { argv } => {
                        proof {
                            lemma_first_where_at(self@, profile_named(alias@), i as int);
                        }
                        return Some(copy_strings(argv));
                    },
                    EntryKind::Workspace { .. } => {},
                }
            }
            i = i + 1;
        }
        proof {
            lemma_first_where_at(self@, profile_named(alias@), i as int);
        }
        None
    }

    /// All entries, sorted by alias.
    pub fn list(&self) -> (r: Vec<&RegistryEntry>)
        ensures
            listed_by_alias(r@.map_values(|e: &RegistryEntry| *e), self@),
    {
        let mut keys: Vec<Vec<char>> = Vec::new();
        let mut i: usize = 0;
        while i < self.entries.len()
            invariant
                i <= self.entries.len(),
                keys@.len() == i,
                forall|k: int| 0 <= k < i ==> (#[trigger] keys@[k])@ == self.entries@[k].alias@,
            decreases self.entries.len() - i,
        {
            keys.push(chars_of(self.entries[i].alias.as_str()));
            i = i + 1;
        }
        let p = sorted_order(&keys);
        assert(crate::order::keys_view(keys@) =~= aliases(self@));
        let mut out: Vec<&RegistryEntry> = Vec::new();
        let mut k: usize = 0;
        while k < p.len()
            invariant
                k <= p.len(),
                is_permutation(p@, self@.len() as int),
                out@.len() == k,
                forall|m: int| 0 <= m < k ==> *(#[trigger] out@[m]) == self@[p@[m] as int],
            decreases p.len() - k,
        {
            out.push(&self.entries[p[k]]);
            k = k + 1;
        }
        let ghost view = out@.map_values(|e: &RegistryEntry| *e);
        assert(forall|m: int| 0 <= m < view.len() ==> #[trigger] view[m] == self@[p@[m] as int]);
        out
    }
}

/// Put keeps the registry consistent: an upsert that passed the root check
/// leaves one entry per alias and one workspace per root.
pub proof fn law_put_keeps_registry_consistent(s: Seq<RegistryEntry>, e: RegistryEntry)
    requires
        registry_wf(s),
        e.kind is Workspace ==> !root_taken(s, e.alias@, e.kind->root@),
    ensures
        registry_wf(upsert(s, e)),
{
    let a = e.alias@;
    lemma_first_where(s, has_alias(a));
    if e.kind is Workspace {
        lemma_first_where(s, claims_root(a, e.kind->root@));
    }
    let i = first_where(s, has_alias(a));
    let t = upsert(s, e);
    assert forall|x: int, y: int| 0 <= x < y < t.len() implies #[trigger] t[x].alias@
        != #[trigger] t[y].alias@ by {
        if i < s.len() {
            if x != i && y != i {
                assert(t[x] == s[x] && t[y] == s[y]);
            } else if x == i {
                assert(s[i].alias@ == a);
                assert(s[x].alias@ != s[y].alias@);
            } else {
                assert(s[i].alias@ == a);
                assert(s[x].alias@ != s[y].alias@);
            }
        } else if y == s.len() {
            assert(!has_alias(a)(s[x]));
        }
    }
    assert forall|x: int, y: int|
        0 <= x < y < t.len() && t[x].kind is Workspace && t[y].kind is Workspace
            implies #[trigger] t[x].kind->root@ != #[trigger] t[y].kind->root@ by {
        if i < s.len() {
            if x == i {
                assert(s[i].alias@ == a);
                assert(s[x].alias@ != s[y].alias@);
                assert(!claims_root(a, e.kind->root@)(s[y]));
            } else if y == i {
                assert(s[i].alias@ == a);
                assert(s[x].alias@ != s[y].alias@);
                assert(!claims_root(a, e.kind->root@)(s[x]));
            }
        } else if y == s.len() {
            assert(!has_alias(a)(s[x]));
            assert(!claims_root(a, e.kind->root@)(s[x]));
        }
    }
}

/// No alias appears twice.
pub open spec fn aliases_unique(s: Seq<RegistryEntry>) -> bool {
    forall|i: int, j: int|
        0 <= i < j < s.len() ==> #[trigger] s[i].alias@ != #[trigger] s[j].alias@
}

/// Put replaces by alias: in a registry holding each alias at most once,
/// after an upsert of `e` exactly one entry carries `e`'s alias and it is
/// `e`; every entry under another alias stays as and where it was; the
/// registry grows by one exactly when the alias was absent.
pub proof fn law_put_replaces_by_alias(s: Seq<RegistryEntry>, e: RegistryEntry)
    requires
        aliases_unique(s),
    ensures
        aliases_unique(upsert(s, e)),
        exists|k: int| 0 <= k < upsert(s, e).len() && #[trigger] upsert(s, e)[k] == e,
        forall|k: int|
            0 <= k < upsert(s, e).len() && #[trigger] upsert(s, e)[k].alias@ == e.alias@
                ==> upsert(s, e)[k] == e,
        forall|k: int|
            0 <= k < upsert(s, e).len() && #[trigger] upsert(s, e)[k].alias@ != e.alias@
                ==> k < s.len() && upsert(s, e)[k] == s[k],
        forall|k: int| 0 <= k < s.len() && #[trigger] s[k].alias@ != e.alias@ ==> upsert(s, e)[k] == s[k],
        upsert(s, e).len() == if exists|k: int| 0 <= k < s.len() && #[trigger] s[k].alias@ == e.alias@ {
            s.len()
        } else {
            s.len() + 1
        },
{
    let a = e.alias@;
    lemma_first_where(s, has_alias(a));
    let i = first_where(s, has_alias(a));
    let t = upsert(s, e);
    let at = if i < s.len() {
        i
    } else {
        s.len() as int
    };
    assert(t[at] == e);
    assert forall|j: int| 0 <= j < t.len() && j != at implies #[trigger] t[j].alias@ != a && t[j] == s[j] by {
        if i < s.len() {
            assert(s[i].alias@ == a);
            if j < i {
                assert(!has_alias(a)(s[j]));
            } else {
                assert(s[i].alias@ != s[j].alias@);
            }
        } else {
            assert(!has_alias(a)(s[j]));
        }
    }
    assert forall|x: int, y: int| 0 <= x < y < t.len() implies #[trigger] t[x].alias@
        != #[trigger] t[y].alias@ by {
        if x != at && y != at {
            assert(t[x] == s[x] && t[y] == s[y]);
        }
    }
    if i < s.len() {
        assert(s[i].alias@ == a);
    } else {
        assert forall|k: int| 0 <= k < s.len() implies #[trigger] s[k].alias@ != a by {
            assert(!has_alias(a)(s[k]));
        }
    }
    assert forall|k: int| 0 <= k < s.len() && #[trigger] s[k].alias@ != a implies t[k] == s[k] by {
        if k == at {
            assert(s[i].alias@ == a);
        }
    }
}

/// Put then resolve: in a consistent registry, an upserted entry is what
/// its alias resolves to, and only as its own kind.
pub proof fn law_put_then_resolve(s: Seq<RegistryEntry>, e: RegistryEntry)
    requires
        registry_wf(s),
    ensures
        e.kind is Workspace ==> workspace_root(upsert(s, e), e.alias@) == Some(e.kind->root@)
            && profile_argv(upsert(s, e), e.alias@) is None,
        e.kind is Profile ==> profile_argv(upsert(s, e), e.alias@) == Some(e.kind->argv@)
            && workspace_root(upsert(s, e), e.alias@) is None,
{
    let a = e.alias@;
    lemma_first_where(s, has_alias(a));
    let i = first_where(s, has_alias(a));
    let t = upsert(s, e);
    let at = if i < s.len() {
        i
    } else {
        s.len() as int
    };
    assert(t[at] == e);
    assert forall|j: int| 0 <= j < t.len() && j != at implies #[trigger] t[j].alias@ != a by {
        if i < s.len() {
            assert(s[i].alias@ == a);
            if j < i {
                assert(!has_alias(a)(s[j]));
            } else {
                assert(s[i].alias@ != s[j].alias@);
            }
        } else {
            assert(!has_alias(a)(s[j]));
        }
    }
    if e.kind is Workspace {
        lemma_first_where_at(t, workspace_named(a), at);
        assert forall|j: int| 0 <= j < t.len() implies !profile_named(a)(#[trigger] t[j]) by {
            if j != at {
                assert(t[j].alias@ != a);
            }
        }
        lemma_first_where_at(t, profile_named(a), t.len() as int);
    } else {
        lemma_first_where_at(t, profile_named(a), at);
        assert forall|j: int| 0 <= j < t.len() implies !workspace_named(a)(#[trigger] t[j]) by {
            if j != at {
                assert(t[j].alias@ != a);
            }
        }
        lemma_first_where_at(t, workspace_named(a), t.len() as int);
    }
}

/// Remove then resolve: once an alias is removed, it resolves to nothing.
pub proof fn law_remove_then_unresolvable(s: Seq<RegistryEntry>, a: Seq<char>)
    ensures
        workspace_root(s.filter(not_alias(a)), a) is None,
        profile_argv(s.filter(not_alias(a)), a) is None,
{
    let t = s.filter(not_alias(a));
    assert forall|j: int| 0 <= j < t.len() implies #[trigger] t[j].alias@ != a by {
        s.lemma_filter_pred(not_alias(a), j);
    }
    assert forall|j: int| 0 <= j < t.len() implies !workspace_named(a)(#[trigger] t[j]) by {
        assert(t[j].alias@ != a);
    }
    assert forall|j: int| 0 <= j < t.len() implies !profile_named(a)(#[trigger] t[j]) by {
        assert(t[j].alias@ != a);
    }
    lemma_first_where_at(t, workspace_named(a), t.len() as int);
    lemma_first_where_at(t, profile_named(a), t.len() as int);
}

/// Remove keeps the registry consistent.
pub proof fn law_remove_keeps_registry_consistent(s: Seq<RegistryEntry>, a: Seq<char>)
    requires
        registry_wf(s),
    ensures
        registry_wf(s.filter(not_alias(a))),
    decreases s.len(),
{
    if s.len() > 0 {
        let p = not_alias(a);
        let t = s.drop_last();
        let x = s.last();
        assert(s =~= t.push(x));
        assert(registry_wf(t)) by {
            assert forall|i: int, j: int| 0 <= i < j < t.len() implies #[trigger] t[i].alias@
                != #[trigger] t[j].alias@ by {
                assert(t[i] == s[i] && t[j] == s[j]);
            }
            assert forall|i: int, j: int|
                0 <= i < j < t.len() && t[i].kind is Workspace && t[j].kind is Workspace
                    implies #[trigger] t[i].kind->root@ != #[trigger] t[j].kind->root@ by {
                assert(t[i] == s[i] && t[j] == s[j]);
            }
        }
        law_remove_keeps_registry_consistent(t, a);
        t.lemma_filter_push(x, p);
        if p(x) {
            let ft = t.filter(p);
            let fs = ft.push(x);
            assert forall|m: int| 0 <= m < ft.len() implies #[trigger] ft[m].alias@ != x.alias@
                && (ft[m].kind is Workspace && x.kind is Workspace ==> ft[m].kind->root@
                != x.kind->root@) by {
                assert(ft.contains(ft[m]));
                t.lemma_filter_contains_rev(p, ft[m]);
                let j = choose|j: int| 0 <= j < t.len() && t[j] == ft[m];
                assert(s[j] == ft[m]);
                assert(s[t.len() as int] == x);
            }
            assert forall|i: int, j: int| 0 <= i < j < fs.len() implies #[trigger] fs[i].alias@
                != #[trigger] fs[j].alias@ by {
                if j == ft.len() {
                    assert(fs[i] == ft[i]);
                } else {
                    assert(fs[i] == ft[i] && fs[j] == ft[j]);
                }
            }
            assert forall|i: int, j: int|
                0 <= i < j < fs.len() && fs[i].kind is Workspace && fs[j].kind is Workspace
                    implies #[trigger] fs[i].kind->root@ != #[trigger] fs[j].kind->root@ by {
                if j == ft.len() {
                    assert(fs[i] == ft[i]);
                } else {
                    assert(fs[i] == ft[i] && fs[j] == ft[j]);
                }
            }
        }
    } else {
        assert(s.filter(not_alias(a)) =~= s) by {
            reveal(Seq::filter);
        }
    }
}

} // verus!
