//! The sandbox data — what an isolated working copy is — and the pure
//! decisions around materializing one: the backend capability table, the
//! store layout, and the argv that confines a harness.
use vstd::prelude::*;

use crate::error::Error;
use crate::text::{str_eq, string_from};

verus! {

/// How a session's working copy is isolated. The kind *is* the isolation
/// claim — the overview surfaces it, never a stronger one.
#[derive(Debug, Clone, Copy, PartialEq, Eq, Hash, Structural)]
pub enum SandboxKind {
    /// The user's own directory, used as-is — no isolation.
    InPlace,
    /// A `git worktree` on its own branch, owned by Bao.
    Worktree,
    /// A `bubblewrap` namespace sandbox.
    Bubblewrap,
    /// A macOS Seatbelt sandbox (`sandbox-exec`).
    Seatbelt,
}

/// The display name of a sandbox kind.
pub open spec fn kind_name_spec(k: SandboxKind) -> Seq<char> {
    match k {
        SandboxKind::InPlace => seq!['i', 'n', 'p', 'l', 'a', 'c', 'e'],
        SandboxKind::Worktree => seq!['w', 'o', 'r', 'k', 't', 'r', 'e', 'e'],
        SandboxKind::Bubblewrap => seq!['b', 'u', 'b', 'b', 'l', 'e', 'w', 'r', 'a', 'p'],
        SandboxKind::Seatbelt => seq!['s', 'e', 'a', 't', 'b', 'e', 'l', 't'],
    }
}

impl SandboxKind {
    /// The kind's name: `inplace`, `worktree`, `bubblewrap`, `seatbelt`.
    pub fn name(&self) -> (r: &'static str)
        ensures
            r@ == kind_name_spec(*self),
    {
        match self {
            SandboxKind::InPlace => {
                proof {
                    reveal_strlit("inplace");
                }
                "inplace"
            },
            SandboxKind::Worktree => {
                proof {
                    reveal_strlit("worktree");
                }
                "worktree"
            },
            SandboxKind::Bubblewrap => {
                proof {
                    reveal_strlit("bubblewrap");
                }
                "bubblewrap"
            },
            SandboxKind::Seatbelt => {
                proof {
                    reveal_strlit("seatbelt");
                }
                "seatbelt"
            },
        }
    }

    /// Parse a kind from its name. Anything else is `BadSandboxKind`.
    pub fn parse(s: &str) -> (r: Result<SandboxKind, Error>)
        ensures
            match r {
                Ok(k) => kind_name_spec(k) == s@,
                Err(e) => (forall|k: SandboxKind| kind_name_spec(k) != s@) && (e matches Error::BadSandboxKind(
                    m) && m@ == s@),
            },
    {
        if str_eq(s, SandboxKind::InPlace.name()) {
            Ok(SandboxKind::InPlace)
        } else if str_eq(s, SandboxKind::Worktree.name()) {
            Ok(SandboxKind::Worktree)
        } else if str_eq(s, SandboxKind::Bubblewrap.name()) {
            Ok(SandboxKind::Bubblewrap)
        } else if str_eq(s, SandboxKind::Seatbelt.name()) {
            Ok(SandboxKind::Seatbelt)
        } else {
            assert forall|k: SandboxKind| kind_name_spec(k) != s@ by {
                match k {
                    SandboxKind::InPlace => {},
                    SandboxKind::Worktree => {},
                    SandboxKind::Bubblewrap => {},
                    SandboxKind::Seatbelt => {},
                }
            }
            Err(Error::BadSandboxKind(string_from(s)))
        }
    }
}

/// What a launch asks for in isolation. The kind is always explicit: the
/// daemon materializes exactly this backend or fails — it never silently
/// downgrades or substitutes.
#[derive(Debug, Clone, Copy, PartialEq, Eq, Structural)]
pub struct SandboxSpec {
    pub isolation: SandboxKind,
}

impl SandboxSpec {
    /// The default request: a git worktree (file isolation).
    pub fn default_spec() -> (r: SandboxSpec)
        ensures
            r.isolation == SandboxKind::Worktree,
    {
        SandboxSpec { isolation: SandboxKind::Worktree }
    }
}

impl Default for SandboxSpec {
    fn default() -> (r: SandboxSpec)
        ensures
            r.isolation == SandboxKind::Worktree,
    {
        SandboxSpec::default_spec()
    }
}

/// The working copy a session runs in: where, its git identity (if any),
/// and the isolation claim.
#[derive(Debug, Clone, PartialEq, Eq)]
pub struct WorkingCopy {
    pub kind: SandboxKind,
    /// Repo root (worktree-backed sandboxes only).
    pub repo: Option<String>,
    /// Session branch (worktree-backed sandboxes only).
    pub branch: Option<String>,
    /// The working copy the session runs in.
    pub path: String,
}

pub open spec fn is_isolated_kind(k: SandboxKind) -> bool {
    k == SandboxKind::Worktree || k == SandboxKind::Bubblewrap || k == SandboxKind::Seatbelt
}

impl WorkingCopy {
    /// Whether the working copy is isolated from the user's own directory.
    pub fn isolated(&self) -> (r: bool)
        ensures
            r == is_isolated_kind(self.kind),
    {
        match self.kind {
            SandboxKind::Worktree | SandboxKind::Bubblewrap | SandboxKind::Seatbelt => true,
            SandboxKind::InPlace => false,
        }
    }

    /// The user's own directory, unisolated, at `path`.
    pub fn in_place(path: &str) -> (r: WorkingCopy)
        ensures
            r.kind == SandboxKind::InPlace,
            r.repo is None,
            r.branch is None,
            r.path@ == path@,
    {
        WorkingCopy { kind: SandboxKind::InPlace, repo: None, branch: None, path: string_from(path) }
    }

    /// The default: in place, at the empty path.
    pub fn empty() -> (r: WorkingCopy)
        ensures
            r.kind == SandboxKind::InPlace,
            r.repo is None,
            r.branch is None,
            r.path@.len() == 0,
    {
        WorkingCopy { kind: SandboxKind::InPlace, repo: None, branch: None, path: String::new() }
    }

    /// A copy of this working copy.
    pub fn copy(&self) -> (r: WorkingCopy)
        ensures
            r == *self,
    {
        WorkingCopy {
            kind: self.kind,
            repo: match &self.repo {
                Some(x) => Some(x.clone()),
                None => None,
            },
            branch: match &self.branch {
                Some(x) => Some(x.clone()),
                None => None,
            },
            path: self.path.clone(),
        }
    }
}

impl Default for WorkingCopy {
    fn default() -> (r: WorkingCopy)
        ensures
            r.kind == SandboxKind::InPlace,
            r.repo is None,
            r.branch is None,
            r.path@.len() == 0,
    {
        WorkingCopy::empty()
    }
}

} // verus!
