//! Server configuration.

use vstd::prelude::*;

use crate::text::same_text;

verus! {

/// The settings the server runs with.
#[derive(Debug, Clone, PartialEq, Eq)]
pub struct Config {
    /// Token that callers of the write operations must present.
    pub api_token: String,
    /// Path of the workspace that holds the repositories.
    pub git_path: String,
    /// Identifiers of the hosted repositories.
    pub repos: Vec<String>,
    /// URL prefix under which the server is reachable.
    pub url: String,
    /// Address to listen on.
    pub host: String,
    /// Port to listen on.
    pub port: u16,
    /// Seconds between two reconciliations.
    pub index_interval: u64,
    /// Branch of the remote that the workspace follows.
    pub branch_name: String,
    /// Leave the workspace as found at startup.
    pub skip_repo_cleanup: bool,
}

/// The branch followed when the configuration names none.
pub fn default_branch_name() -> (name: String)
    ensures
        name@ == "main"@,
{
    String::from_str("main")
}

impl Config {
    /// Whether `repo_id` is one of the hosted repositories.
    pub open spec fn hosts_spec(&self, repo_id: Seq<char>) -> bool {
        exists|i: int| 0 <= i < self.repos@.len() && #[trigger] self.repos@[i]@ == repo_id
    }

    /// Whether `repo_id` is one of the hosted repositories.
    pub fn hosts(&self, repo_id: &str) -> (found: bool)
        ensures
            found == self.hosts_spec(repo_id@),
    {
        let mut i: usize = 0;
        while i < self.repos.len()
            invariant
                i <= self.repos@.len(),
                forall|j: int| 0 <= j < i ==> self.repos@[j]@ != repo_id@,
            decreases self.repos@.len() - i,
        {
            if same_text(self.repos[i].as_str(), repo_id) {
                return true;
            }
            i = i + 1;
        }
        false
    }
}

} // verus!
