//! Sandbox decisions: the capability table and which backend is the best
//! available, the working-copy store's layout, the worktree saga's steps,
//! the argv that confines a harness (bubblewrap, Seatbelt), and what the
//! `git` runs come to. Probing binaries, running `git`, and touching the
//! disk happen around them.
use vstd::prelude::*;

use crate::daemon::error::{Error, daemon_error_message};
use crate::path::{path_join, path_join_spec};
use crate::sandbox::{SandboxKind, WorkingCopy};
use crate::text::{chars_of, push_char, string_from, string_of, trim, trim_spec};
use crate::daemon::confine::{HostPath, bwrap_prefix, bwrap_prefix_spec, prefixed_argv, seatbelt_prefix, seatbelt_prefix_spec};
use crate::daemon::session_log::opt_text;
use crate::types::{SessionId, strings_view};

verus! {

// ---------------------------------------------------------------------------
// The capability table
// ---------------------------------------------------------------------------

/// A backend this build can provide: its isolation level and how strongly
/// it isolates. Bubblewrap and Seatbelt share a strength: they are
/// mutually exclusive by platform.
#[derive(Debug, Clone, Copy, PartialEq, Eq, Structural)]
pub struct Backend {
    pub kind: SandboxKind,
    pub strength: u8,
}

/// The capability table, in order.
pub open spec fn backend_table() -> Seq<Backend> {
    seq![
        Backend { kind: SandboxKind::InPlace, strength: 0 },
        Backend { kind: SandboxKind::Worktree, strength: 1 },
        Backend { kind: SandboxKind::Bubblewrap, strength: 2 },
        Backend { kind: SandboxKind::Seatbelt, strength: 2 },
    ]
}

/// Whether a backend is usable here: in place and worktrees need nothing;
/// bubblewrap and Seatbelt need their probe to succeed.
pub open spec fn usable(kind: SandboxKind, bwrap: bool, seatbelt: bool) -> bool {
    match kind {
        SandboxKind::InPlace | SandboxKind::Worktree => true,
        SandboxKind::Bubblewrap => bwrap,
        SandboxKind::Seatbelt => seatbelt,
    }
}

/// The isolation levels this machine can provide, in table order.
pub open spec fn available_spec(bwrap: bool, seatbelt: bool) -> Seq<SandboxKind> {
    seq![SandboxKind::InPlace, SandboxKind::Worktree] + (if bwrap {
        seq![SandboxKind::Bubblewrap]
    } else {
        Seq::empty()
    }) + (if seatbelt {
        seq![SandboxKind::Seatbelt]
    } else {
        Seq::empty()
    })
}

/// The strongest usable backend; of equally strong ones, the last in the
/// table.
pub open spec fn best_spec(bwrap: bool, seatbelt: bool) -> SandboxKind {
    if seatbelt {
        SandboxKind::Seatbelt
    } else if bwrap {
        SandboxKind::Bubblewrap
    } else {
        SandboxKind::Worktree
    }
}

impl Backend {
    /// The capability table: every kind has an entry.
    pub fn all() -> (r: Vec<Backend>)
        ensures
            r@ == backend_table(),
    {
        let mut v: Vec<Backend> = Vec::new();
        v.push(Backend { kind: SandboxKind::InPlace, strength: 0 });
        v.push(Backend { kind: SandboxKind::Worktree, strength: 1 });
        v.push(Backend { kind: SandboxKind::Bubblewrap, strength: 2 });
        v.push(Backend { kind: SandboxKind::Seatbelt, strength: 2 });
        assert(v@ =~= backend_table());
        v
    }

    /// The isolation levels this machine can provide, given whether the
    /// bubblewrap and Seatbelt probes succeeded. A client offers only these.
    pub fn available(bwrap: bool, seatbelt: bool) -> (r: Vec<SandboxKind>)
        ensures
            r@ == available_spec(bwrap, seatbelt),
    {
        let table = Backend::all();
        let mut out: Vec<SandboxKind> = Vec::new();
        let mut i: usize = 0;
        while i < table.len()
            invariant
                table@ == backend_table(),
                i <= table@.len(),
                out@ == backend_table().take(i as int).filter(|b: Backend| usable(b.kind, bwrap, seatbelt)).map_values(|b: Backend| b.kind),
            decreases table@.len() - i,
        {
            proof {
                let p = |b: Backend| usable(b.kind, bwrap, seatbelt);
                assert(backend_table().take(i + 1) =~= backend_table().take(i as int).push(backend_table()[i as int]));
                backend_table().take(i as int).lemma_filter_push(backend_table()[i as int], p);
            }
            let b = table[i];
            let ok = match b.kind {
                SandboxKind::InPlace | SandboxKind::Worktree => true,
                SandboxKind::Bubblewrap => bwrap,
                SandboxKind::Seatbelt => seatbelt,
            };
            if ok {
                out.push(b.kind);
            }
            proof {
                let p = |b: Backend| usable(b.kind, bwrap, seatbelt);
                let f = |b: Backend| b.kind;
                assert(out@ =~= backend_table().take(i + 1).filter(p).map_values(f));
            }
            i = i + 1;
        }
        proof {
            let p = |b: Backend| usable(b.kind, bwrap, seatbelt);
            let f = |b: Backend| b.kind;
            assert(backend_table().take(4) =~= backend_table());
            reveal_with_fuel(Seq::filter, 5);
            assert(backend_table().filter(p).map_values(f) =~= available_spec(bwrap, seatbelt));
        }
        out
    }

    /// The strongest isolation this machine can provide — the last of the
    /// strongest usable backends. Always present: in place and worktrees are
    /// unconditional.
    pub fn best(bwrap: bool, seatbelt: bool) -> (r: Option<SandboxKind>)
        ensures
            r == Some(best_spec(bwrap, seatbelt)),
    {
        let table = Backend::all();
        let mut best: Option<Backend> = None;
        let mut i: usize = 0;
        while i < table.len()
            invariant
                table@ == backend_table(),
                i <= table@.len(),
                i == 0 ==> best is None,
                i >= 1 ==> best is Some,
                i == 1 ==> best == Some(backend_table()[0]),
                i == 2 ==> best == Some(backend_table()[1]),
                i == 3 ==> best == Some(if bwrap { backend_table()[2] } else { backend_table()[1] }),
                i == 4 ==> best == Some(if seatbelt { backend_table()[3] } else if bwrap { backend_table()[2] } else { backend_table()[1] }),
            decreases table@.len() - i,
        {
            let b = table[i];
            let ok = match b.kind {
                SandboxKind::InPlace | SandboxKind::Worktree => true,
                SandboxKind::Bubblewrap => bwrap,
                SandboxKind::Seatbelt => seatbelt,
            };
            if ok {
                match best {
                    Some(cur) => {
                        if b.strength >= cur.strength {
                            best = Some(b);
                        }
                    },
                    None => {
                        best = Some(b);
                    },
                }
            }
            i = i + 1;
        }
        match best {
            Some(b) => Some(b.kind),
            None => None,
        }
    }
}

/// The best available backend is one of the available ones, and never
/// weaker than a worktree.
pub proof fn law_best_is_available(bwrap: bool, seatbelt: bool)
    ensures
        available_spec(bwrap, seatbelt).contains(best_spec(bwrap, seatbelt)),
        best_spec(bwrap, seatbelt) != SandboxKind::InPlace,
        available_spec(bwrap, seatbelt).contains(SandboxKind::InPlace),
        available_spec(bwrap, seatbelt).contains(SandboxKind::Worktree),
{
    let a = available_spec(bwrap, seatbelt);
    assert(a[0] == SandboxKind::InPlace);
    assert(a[1] == SandboxKind::Worktree);
    if seatbelt {
        assert(a[a.len() - 1] == SandboxKind::Seatbelt);
    } else if bwrap {
        assert(a[2] == SandboxKind::Bubblewrap);
    }
}

// ---------------------------------------------------------------------------
// The working-copy store
// ---------------------------------------------------------------------------

/// The directory where the daemon materializes each session's working copy.
pub struct WorkspaceStore {
    pub dir: String,
}

impl WorkspaceStore {
    pub fn new(dir: String) -> (r: WorkspaceStore)
        ensures
            r.dir == dir,
    {
        WorkspaceStore { dir }
    }

    /// The store root.
    pub fn root(&self) -> (r: &str)
        ensures
            r@ == self.dir@,
    {
        self.dir.as_str()
    }

    /// `<root>/<id>/tree` — where a session's worktree checkout lives.
    pub fn tree_dir(&self, id: &SessionId) -> (r: String)
        ensures
            r@ == path_join_spec(path_join_spec(self.dir@, id@), seq!['t', 'r', 'e', 'e']),
    {
        let d = path_join(self.dir.as_str(), id.as_str());
        let t = vec!['t', 'r', 'e', 'e'];
        let ts = string_of(&t);
        path_join(d.as_str(), ts.as_str())
    }
}

// ---------------------------------------------------------------------------
// The worktree saga
// ---------------------------------------------------------------------------

/// `bao-<id>`: the branch a session's worktree is on.
pub open spec fn session_branch_spec(id: Seq<char>) -> Seq<char> {
    seq!['b', 'a', 'o', '-'] + id
}

pub fn session_branch(id: &SessionId) -> (r: String)
    ensures
        r@ == session_branch_spec(id@),
{
    let mut s = String::new();
    push_char(&mut s, 'b');
    push_char(&mut s, 'a');
    push_char(&mut s, 'o');
    push_char(&mut s, '-');
    crate::error::push_str(&mut s, id.as_str());
    assert(s@ =~= session_branch_spec(id@));
    s
}

/// What a worktree is made of: the repository, the branch, the checkout.
pub struct WorktreePlan {
    pub repo: String,
    pub branch: String,
    pub path: String,
}

/// The user's own directory, used as-is — no isolation.
pub struct InPlace;

impl InPlace {
    pub fn kind(&self) -> (r: SandboxKind)
        ensures
            r == SandboxKind::InPlace,
    {
        SandboxKind::InPlace
    }

    /// The working copy is the launch directory itself.
    pub fn prepare(&self, cwd: &str) -> (r: WorkingCopy)
        ensures
            r.kind == SandboxKind::InPlace,
            r.repo is None,
            r.branch is None,
            r.path@ == cwd@,
    {
        WorkingCopy::in_place(cwd)
    }
}

/// A `git worktree` on its own branch, owned by Bao, in the store.
pub struct GitWorktree {
    pub store: WorkspaceStore,
}

impl GitWorktree {
    pub fn new(store: WorkspaceStore) -> (r: GitWorktree)
        ensures
            r.store == store,
    {
        GitWorktree { store }
    }

    pub fn kind(&self) -> (r: SandboxKind)
        ensures
            r == SandboxKind::Worktree,
    {
        SandboxKind::Worktree
    }

    /// The first step of a worktree (`repo`: the repository containing the
    /// launch directory, or why none was found): outside a repository there
    /// is no worktree to make (`SandboxUnavailable`); inside, it is the
    /// session's branch checked out at its tree directory in the store.
    pub fn plan(&self, id: &SessionId, repo: Result<String, Error>) -> (r: Result<WorktreePlan, Error>)
        ensures
            match repo {
                Err(_) => r == Err::<WorktreePlan, Error>(Error::SandboxUnavailable(SandboxKind::Worktree)),
                Ok(root) => r matches Ok(p) && p.repo == root && p.branch@ == session_branch_spec(id@)
                    && p.path@ == path_join_spec(path_join_spec(self.store.dir@, id@), seq!['t', 'r', 'e', 'e']),
            },
    {
        match repo {
            Err(_) => Err(Error::SandboxUnavailable(SandboxKind::Worktree)),
            Ok(root) => Ok(WorktreePlan { repo: root, branch: session_branch(id), path: self.store.tree_dir(id) }),
        }
    }

    /// The second step: the worktree exists (a worktree working copy on the
    /// session's branch), or `git worktree add` failed and the launch says
    /// why.
    pub fn created(plan: WorktreePlan, id: &SessionId, added: Result<(), Error>) -> (r: Result<WorkingCopy, Error>)
        ensures
            match added {
                Ok(()) => r matches Ok(w) && w.kind == SandboxKind::Worktree && w.repo == Some(plan.repo)
                    && w.branch == Some(plan.branch) && w.path == plan.path,
                Err(e) => r matches Err(Error::Worktree(m)) && m@ == "could not create a worktree for session "@ + id@
                    + ": "@ + daemon_error_message(e),
            },
    {
        match added {
            Ok(()) => Ok(WorkingCopy { kind: SandboxKind::Worktree, repo: Some(plan.repo), branch: Some(plan.branch), path: plan.path }),
            Err(e) => {
                let mut m = string_from("could not create a worktree for session ");
                crate::error::push_str(&mut m, id.as_str());
                crate::error::push_str(&mut m, ": ");
                let why = e.message();
                crate::error::push_str(&mut m, why.as_str());
                Err(Error::Worktree(m))
            },
        }
    }

    /// A worktree's teardown refuses a working copy with no repository.
    pub fn teardown_check(w: &WorkingCopy) -> (r: Result<(), Error>)
        ensures
            w.repo is None ==> (r matches Err(Error::Worktree(m)) && m@
                == "worktree working_copy without a repo root"@),
            w.repo is Some ==> r is Ok,
    {
        match &w.repo {
            None => Err(Error::Worktree(string_from("worktree working_copy without a repo root"))),
            Some(_) => Ok(()),
        }
    }
}

/// `git worktree add -b <branch> <path> <target>`.
pub fn worktree_add_args(branch: &str, path: &str, target: &str) -> (r: Vec<String>)
    ensures
        strings_view(r@) == seq!["worktree"@, "add"@, "-b"@, branch@, path@, target@],
{
    let v = vec![string_from("worktree"), string_from("add"), string_from("-b"), string_from(branch), string_from(path), string_from(target)];
    assert(strings_view(v@) =~= seq!["worktree"@, "add"@, "-b"@, branch@, path@, target@]);
    v
}

/// `git worktree remove --force <path>`.
pub fn worktree_remove_args(path: &str) -> (r: Vec<String>)
    ensures
        strings_view(r@) == seq!["worktree"@, "remove"@, "--force"@, path@],
{
    let v = vec![string_from("worktree"), string_from("remove"), string_from("--force"), string_from(path)];
    assert(strings_view(v@) =~= seq!["worktree"@, "remove"@, "--force"@, path@]);
    v
}

/// `git branch -D <branch>`.
pub fn branch_delete_args(branch: &str) -> (r: Vec<String>)
    ensures
        strings_view(r@) == seq!["branch"@, "-D"@, branch@],
{
    let v = vec![string_from("branch"), string_from("-D"), string_from(branch)];
    assert(strings_view(v@) =~= seq!["branch"@, "-D"@, branch@]);
    v
}

/// A confining backend (bubblewrap, Seatbelt) over a working copy: refused
/// where its probe failed; else the worktree when one could be made,
/// otherwise the user's own directory — confined either way, and labelled
/// with the confining kind.
fn confined_copy(kind: SandboxKind, usable_here: bool, cwd: &str, worktree: Result<WorkingCopy, Error>) -> (r: Result<WorkingCopy, Error>)
    ensures
        !usable_here ==> r == Err::<WorkingCopy, Error>(Error::SandboxUnavailable(kind)),
        usable_here ==> match worktree {
            Ok(w) => r == Ok::<WorkingCopy, Error>(WorkingCopy { kind, ..w }),
            Err(_) => r matches Ok(w) && w.kind == kind && w.repo is None && w.branch is None && w.path@ == cwd@,
        },
{
    if !usable_here {
        return Err(Error::SandboxUnavailable(kind));
    }
    match worktree {
        Ok(w) => Ok(WorkingCopy { kind, repo: w.repo, branch: w.branch, path: w.path }),
        Err(_) => Ok(WorkingCopy { kind, repo: None, branch: None, path: string_from(cwd) }),
    }
}

/// A bubblewrap namespace sandbox (Linux), over a worktree when the launch
/// directory is in a repository.
pub struct Bubblewrap {
    pub store: WorkspaceStore,
}

impl Bubblewrap {
    pub fn new(store: WorkspaceStore) -> (r: Bubblewrap)
        ensures
            r.store == store,
    {
        Bubblewrap { store }
    }

    pub fn kind(&self) -> (r: SandboxKind)
        ensures
            r == SandboxKind::Bubblewrap,
    {
        SandboxKind::Bubblewrap
    }

    /// Refused where `bwrap` is not usable; else the worktree when one
    /// could be made (`worktree`), otherwise the launch directory.
    pub fn prepare(&self, cwd: &str, usable_here: bool, worktree: Result<WorkingCopy, Error>) -> (r: Result<WorkingCopy, Error>)
        ensures
            !usable_here ==> r == Err::<WorkingCopy, Error>(Error::SandboxUnavailable(SandboxKind::Bubblewrap)),
            usable_here ==> match worktree {
                Ok(w) => r == Ok::<WorkingCopy, Error>(WorkingCopy { kind: SandboxKind::Bubblewrap, ..w }),
                Err(_) => r matches Ok(w) && w.kind == SandboxKind::Bubblewrap && w.repo is None
                    && w.branch is None && w.path@ == cwd@,
            },
    {
        confined_copy(SandboxKind::Bubblewrap, usable_here, cwd, worktree)
    }

    /// The harness argv run inside the sandbox: the bwrap prefix, then the
    /// command verbatim after `--`.
    pub fn wrap_argv(workspace: &str, home: &Option<String>, sys: &Vec<(String, HostPath)>, argv: &[String]) -> (r: Vec<String>)
        ensures
            strings_view(r@) == bwrap_prefix_spec(workspace@, opt_text(*home), sys@) + strings_view(argv@),
    {
        let p = bwrap_prefix(workspace, home, sys);
        let ghost pv = p@;
        let r = prefixed_argv(p, argv);
        assert(strings_view(r@) =~= strings_view(pv) + strings_view(argv@));
        r
    }
}

/// A Seatbelt sandbox (macOS) confining writes, over a worktree when the
/// launch directory is in a repository.
pub struct Seatbelt {
    pub store: WorkspaceStore,
}

impl Seatbelt {
    pub fn new(store: WorkspaceStore) -> (r: Seatbelt)
        ensures
            r.store == store,
    {
        Seatbelt { store }
    }

    pub fn kind(&self) -> (r: SandboxKind)
        ensures
            r == SandboxKind::Seatbelt,
    {
        SandboxKind::Seatbelt
    }

    /// Refused where `sandbox-exec` is not usable; else the worktree when
    /// one could be made (`worktree`), otherwise the launch directory.
    pub fn prepare(&self, cwd: &str, usable_here: bool, worktree: Result<WorkingCopy, Error>) -> (r: Result<WorkingCopy, Error>)
        ensures
            !usable_here ==> r == Err::<WorkingCopy, Error>(Error::SandboxUnavailable(SandboxKind::Seatbelt)),
            usable_here ==> match worktree {
                Ok(w) => r == Ok::<WorkingCopy, Error>(WorkingCopy { kind: SandboxKind::Seatbelt, ..w }),
                Err(_) => r matches Ok(w) && w.kind == SandboxKind::Seatbelt && w.repo is None
                    && w.branch is None && w.path@ == cwd@,
            },
    {
        confined_copy(SandboxKind::Seatbelt, usable_here, cwd, worktree)
    }

    /// The harness argv run under `sandbox-exec`: the writable paths (as the
    /// host resolves them) and the profile, then the command verbatim.
    pub fn wrap_argv(working_copy: &str, home: &str, tmpdir: &str, argv: &[String]) -> (r: Vec<String>)
        ensures
            strings_view(r@) == seatbelt_prefix_spec(working_copy@, home@, tmpdir@) + strings_view(argv@),
    {
        let p = seatbelt_prefix(working_copy, home, tmpdir);
        let ghost pv = p@;
        let r = prefixed_argv(p, argv);
        assert(strings_view(r@) =~= strings_view(pv) + strings_view(argv@));
        r
    }
}

/// One step of tearing a worktree working copy down (each best-effort).
pub enum TeardownStep {
    /// `git worktree remove --force <path>` in `repo`.
    WorktreeRemove { repo: String, path: String },
    /// `git branch -D <branch>` in `repo`.
    BranchDelete { repo: String, branch: String },
    /// Remove the checkout directory.
    RemoveDir { path: String },
    /// Remove the checkout's parent (the session's store directory).
    RemoveParentOf { path: String },
}

/// The teardown of a worktree-backed working copy: nothing for one in
/// place (the user's directory is never removed); else remove the worktree,
/// delete its branch (when it has one), and remove the checkout and its
/// store directory.
pub fn teardown_steps(w: &WorkingCopy) -> (r: Vec<TeardownStep>)
    ensures
        w.repo is None ==> r@.len() == 0,
        w.repo matches Some(repo) ==> {
            &&& r@.len() == (if w.branch is Some { 4int } else { 3int })
            &&& r@[0] == (TeardownStep::WorktreeRemove { repo, path: w.path })
            &&& (w.branch matches Some(b) ==> r@[1] == (TeardownStep::BranchDelete { repo, branch: b }))
            &&& r@[r@.len() - 2] == (TeardownStep::RemoveDir { path: w.path })
            &&& r@[r@.len() - 1] == (TeardownStep::RemoveParentOf { path: w.path })
        },
{
    let mut v: Vec<TeardownStep> = Vec::new();
    match &w.repo {
        None => {},
        Some(repo) => {
            v.push(TeardownStep::WorktreeRemove { repo: repo.clone(), path: w.path.clone() });
            match &w.branch {
                Some(b) => {
                    v.push(TeardownStep::BranchDelete { repo: repo.clone(), branch: b.clone() });
                },
                None => {},
            }
            v.push(TeardownStep::RemoveDir { path: w.path.clone() });
            v.push(TeardownStep::RemoveParentOf { path: w.path.clone() });
        },
    }
    v
}

} // verus!
