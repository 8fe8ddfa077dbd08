//! The registry record and the launch-target record: named things launches
//! consume. A **workspace** names *where* a session runs (a root directory),
//! a **profile** names *what* runs (an argv preset). Both are aliases.
use vstd::prelude::*;

use crate::error::Error;
use crate::text::{chars_of, is_ctrl, is_ws, is_control, is_whitespace, string_from};
use crate::types::strings_view;

verus! {

/// The longest alias Bao accepts — long enough to be a name, short enough
/// to type as a command argument.
pub const MAX_ALIAS: usize = 64;

/// A character that may not appear in an alias.
pub open spec fn bad_alias_char(c: char) -> bool {
    is_ws(c) || c == '/' || c == '\\' || is_ctrl(c)
}

/// A typable alias: non-empty, at most [`MAX_ALIAS`] characters, no
/// whitespace, path separators or control characters.
pub open spec fn valid_alias(a: Seq<char>) -> bool {
    &&& a.len() > 0
    &&& a.len() <= MAX_ALIAS
    &&& forall|k: int| 0 <= k < a.len() ==> !bad_alias_char(#[trigger] a[k])
}

/// Check an alias: `Ok` with the same text when typable, else `BadAlias`.
pub fn check_alias(alias: &str) -> (r: Result<String, Error>)
    ensures
        valid_alias(alias@) <==> r is Ok,
        r matches Ok(a) ==> a@ == alias@,
        r matches Err(e) ==> (e matches Error::BadAlias(m) && m@ == alias@),
{
    let cs = chars_of(alias);
    if cs.len() == 0 || cs.len() > MAX_ALIAS {
        return Err(Error::BadAlias(string_from(alias)));
    }
    let mut i: usize = 0;
    while i < cs.len()
        invariant
            cs@ == alias@,
            i <= cs.len(),
            forall|k: int| 0 <= k < i ==> !bad_alias_char(#[trigger] cs@[k]),
        decreases cs.len() - i,
    {
        let c = cs[i];
        if is_whitespace(c) || c == '/' || c == '\\' || is_control(c) {
            assert(bad_alias_char(cs@[i as int]));
            return Err(Error::BadAlias(string_from(alias)));
        }
        i = i + 1;
    }
    Ok(string_from(alias))
}

/// The payload behind an alias.
#[derive(Debug, Clone, PartialEq, Eq)]
pub enum EntryKind {
    /// A launch target: sessions aimed here run at this root.
    Workspace { root: String },
    /// A launch preset: sessions launched with this alias run this argv.
    Profile { argv: Vec<String> },
}

/// One registry entry: a stable alias plus its payload.
#[derive(Debug, Clone, PartialEq, Eq)]
pub struct RegistryEntry {
    pub alias: String,
    pub kind: EntryKind,
}

/// A usable profile argv: non-empty with a non-empty program name.
pub open spec fn valid_argv(argv: Seq<Seq<char>>) -> bool {
    argv.len() > 0 && argv[0].len() > 0
}

impl RegistryEntry {
    /// A workspace entry. The alias must be typable; the root is validated
    /// by the store that materializes it.
    pub fn workspace(alias: &str, root: &str) -> (r: Result<RegistryEntry, Error>)
        ensures
            valid_alias(alias@) <==> r is Ok,
            r matches Ok(e) ==> e.alias@ == alias@ && e.kind is Workspace && e.kind->root@ == root@,
            r matches Err(e) ==> (e matches Error::BadAlias(m) && m@ == alias@),
    {
        let alias = check_alias(alias)?;
        Ok(RegistryEntry { alias, kind: EntryKind::Workspace { root: string_from(root) } })
    }

    /// A profile entry. The argv must be non-empty with a non-empty first
    /// word; it is stored verbatim.
    pub fn profile(alias: &str, argv: Vec<String>) -> (r: Result<RegistryEntry, Error>)
        ensures
            (valid_alias(alias@) && valid_argv(strings_view(argv@))) <==> r is Ok,
            r matches Ok(e) ==> e.alias@ == alias@ && e.kind == (EntryKind::Profile { argv }),
            !valid_alias(alias@) ==> (r matches Err(e) && e matches Error::BadAlias(m) && m@
                == alias@),
            valid_alias(alias@) && !valid_argv(strings_view(argv@)) ==> r == Err::<
                RegistryEntry,
                Error,
            >(Error::EmptyCommand),
    {
        let alias = check_alias(alias)?;
        if argv.len() == 0 || argv[0].as_str().unicode_len() == 0 {
            return Err(Error::EmptyCommand);
        }
        Ok(RegistryEntry { alias, kind: EntryKind::Profile { argv } })
    }

    /// The workspace root, if this entry is a workspace.
    pub fn root(&self) -> (r: Option<&String>)
        ensures
            match self.kind {
                EntryKind::Workspace { root } => r == Some(&root),
                EntryKind::Profile { .. } => r is None,
            },
    {
        match &self.kind {
            EntryKind::Workspace { root } => Some(root),
            _ => None,
        }
    }

    /// The argv, if this entry is a profile.
    pub fn argv(&self) -> (r: Option<&[String]>)
        ensures
            match self.kind {
                EntryKind::Profile { argv } => r matches Some(a) && a@ == argv@,
                EntryKind::Workspace { .. } => r is None,
            },
    {
        match &self.kind {
            EntryKind::Profile { argv } => Some(argv.as_slice()),
            _ => None,
        }
    }

    pub fn is_workspace(&self) -> (r: bool)
        ensures
            r == (self.kind is Workspace),
    {
        match &self.kind {
            EntryKind::Workspace { .. } => true,
            _ => false,
        }
    }

    pub fn is_profile(&self) -> (r: bool)
        ensures
            r == (self.kind is Profile),
    {
        match &self.kind {
            EntryKind::Profile { .. } => true,
            _ => false,
        }
    }
}

/// A registered launch target: a stable alias plus the root path it names.
#[derive(Debug, Clone, PartialEq, Eq)]
pub struct Workspace {
    pub alias: String,
    pub root: String,
}

impl Workspace {
    /// A validated workspace record. The alias must be typable.
    pub fn new(alias: &str, root: &str) -> (r: Result<Workspace, Error>)
        ensures
            valid_alias(alias@) <==> r is Ok,
            r matches Ok(w) ==> w.alias@ == alias@ && w.root@ == root@,
            r matches Err(e) ==> (e matches Error::BadAlias(m) && m@ == alias@),
    {
        let alias = check_alias(alias)?;
        Ok(Workspace { alias, root: string_from(root) })
    }

    /// A copy of this record.
    pub fn copy(&self) -> (r: Workspace)
        ensures
            r == *self,
    {
        Workspace { alias: self.alias.clone(), root: self.root.clone() }
    }
}

} // verus!
