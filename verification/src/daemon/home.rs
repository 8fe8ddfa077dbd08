//! The bao home layout — where the daemon keeps its on-disk state.
use vstd::prelude::*;

use crate::path::{path_join, path_join_spec};
use crate::text::string_from;

verus! {

/// The bao home: `sessions/` for session records and event logs,
/// `working-copies/` for materialized working copies.
#[derive(Clone, Debug)]
pub struct Home {
    root: String,
}

impl Home {
    pub closed spec fn root_spec(&self) -> Seq<char> {
        self.root@
    }

    /// A home rooted at `root`.
    pub fn new(root: &str) -> (r: Home)
        ensures
            r.root_spec() == root@,
    {
        Home { root: string_from(root) }
    }

    pub fn root(&self) -> (r: &str)
        ensures
            r@ == self.root_spec(),
    {
        self.root.as_str()
    }

    /// `<home>/sessions` — session records and event logs.
    pub fn sessions_dir(&self) -> (r: String)
        ensures
            r@ == path_join_spec(self.root_spec(), "sessions"@),
    {
        path_join(self.root.as_str(), "sessions")
    }

    /// `<home>/working-copies` — materialized working copies.
    pub fn working_copies_dir(&self) -> (r: String)
        ensures
            r@ == path_join_spec(self.root_spec(), "working-copies"@),
    {
        path_join(self.root.as_str(), "working-copies")
    }

    /// `<home>/workspaces` — where working copies lived before they had
    /// their own name.
    pub fn legacy_working_copies_dir(&self) -> (r: String)
        ensures
            r@ == path_join_spec(self.root_spec(), "workspaces"@),
    {
        path_join(self.root.as_str(), "workspaces")
    }

    /// The one-shot layout migration, given whether the old directory is a
    /// directory and whether the new one exists: the rename to perform,
    /// `<home>/workspaces` to `<home>/working-copies`, only when the old one
    /// is a directory and the new one does not exist; otherwise nothing
    /// moves.
    pub fn migration(&self, old_is_dir: bool, new_exists: bool) -> (r: Option<(String, String)>)
        ensures
            r is Some <==> (old_is_dir && !new_exists),
            r matches Some((from, to)) ==> from@ == path_join_spec(self.root_spec(), "workspaces"@)
                && to@ == path_join_spec(self.root_spec(), "working-copies"@),
    {
        if old_is_dir && !new_exists {
            Some((self.legacy_working_copies_dir(), self.working_copies_dir()))
        } else {
            None
        }
    }
}

} // verus!
