//! The queries on the published snapshots.

use vstd::prelude::*;

use crate::package::{package_views, PackageRecord, PackageView, RepositoryDescriptor};
use crate::state::{server_status, status_of, RepoIndexData, RepoIndexes, ServerStatus};
use crate::text::same_text;

verus! {

/// The root of the queries.
#[derive(Debug, Clone, Copy, PartialEq, Eq, Structural)]
pub struct Query;

/// One hosted repository, as its current snapshot shows it.
#[derive(Debug, Clone, Copy)]
pub struct Repo<'a> {
    pub model: &'a RepoIndexData,
}

/// Whether package `i` is the first of `packages` with the identifier `id`.
pub open spec fn is_first_with_id(packages: Seq<PackageView>, id: Seq<char>, i: int) -> bool {
    &&& 0 <= i < packages.len()
    &&& packages[i].id == id
    &&& forall|j: int| 0 <= j < i ==> (#[trigger] packages[j]).id != id
}

impl Query {
    /// The status of the server.
    pub fn status(&self, indexes: &RepoIndexes) -> (status: ServerStatus)
        ensures
            status@ == status_of(indexes.ids(), indexes.snapshots()),
    {
        server_status(indexes)
    }

    /// Every hosted repository, in the order of the cache's slots.
    pub fn repos<'a>(&self, indexes: &'a RepoIndexes) -> (repos: Vec<Repo<'a>>)
        ensures
            repos@.len() == indexes.snapshots().len(),
            forall|i: int|
                0 <= i < repos@.len() ==> (#[trigger] repos@[i]).model@ == indexes.snapshots()[i],
    {
        let mut repos: Vec<Repo<'a>> = Vec::new();
        let mut i: usize = 0;
        while i < indexes.slots.len()
            invariant
                i <= indexes.slots@.len(),
                repos@.len() == i,
                forall|j: int|
                    0 <= j < i ==> (#[trigger] repos@[j]).model@ == indexes.snapshots()[j],
            decreases indexes.slots@.len() - i,
        {
            let model: &'a RepoIndexData = &*indexes.slots[i].data;
            repos.push(Repo { model });
            i = i + 1;
        }
        repos
    }

    /// The repository `id`; `None` if it is not hosted.
    pub fn repo<'a>(&self, indexes: &'a RepoIndexes, id: &str) -> (repo: Option<Repo<'a>>)
        ensures
            repo is Some == indexes@.contains_key(id@),
            repo matches Some(r) ==> r.model@ == indexes@[id@],
    {
        match indexes.get(id) {
            Some(data) => Some(Repo { model: &**data }),
            None => None,
        }
    }
}

impl<'a> Repo<'a> {
    /// The repository's descriptor.
    pub fn index(&self) -> (descriptor: &'a RepositoryDescriptor)
        ensures
            descriptor@ == self.model@.repo_index,
    {
        self.model.repo_index()
    }

    /// The repository's packages.
    pub fn packages(&self) -> (packages: &'a Vec<PackageRecord>)
        ensures
            package_views(packages@) == self.model@.packages,
    {
        self.model.packages()
    }

    /// The first package with the identifier `id`; `None` if there is none.
    pub fn package(&self, id: &str) -> (package: Option<&'a PackageRecord>)
        ensures
            match package {
                Some(p) => exists|i: int|
                    #[trigger] is_first_with_id(self.model@.packages, id@, i) && p@
                        == self.model@.packages[i],
                None => forall|i: int|
                    0 <= i < self.model@.packages.len() ==> (
                    #[trigger] self.model@.packages[i]).id != id@,
            },
    {
        let packages = self.model.packages();
        let ghost all = self.model@.packages;
        let mut i: usize = 0;
        while i < packages.len()
            invariant
                i <= packages@.len(),
                all == package_views(packages@),
                all == self.model@.packages,
                forall|j: int| 0 <= j < i ==> (#[trigger] all[j]).id != id@,
            decreases packages@.len() - i,
        {
            if same_text(packages[i].id.as_str(), id) {
                assert(is_first_with_id(all, id@, i as int));
                assert(packages@[i as int]@ == all[i as int]);
                return Some(&packages[i]);
            }
            i = i + 1;
        }
        None
    }
}

} // verus!
