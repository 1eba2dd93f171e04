//! Repository snapshots and the cache that publishes them.
//!
//! A snapshot bundles what was derived from one repository at one version of
//! the workspace. The cache holds one snapshot for each hosted repository; a
//! snapshot is replaced as a whole, so a reader sees the one before or the
//! one after, and never parts of both.

use std::sync::Arc;
use vstd::prelude::*;

use crate::catalog::{build_index, catalog_bytes};
use crate::package::{
    package_views, PackageRecord, PackageView, RepositoryDescriptor, RepositoryDescriptorView,
};
use crate::text::same_text;

verus! {

/// The snapshot of one repository.
#[derive(Debug, PartialEq, Eq)]
pub struct RepoIndexData {
    head_ref: String,
    packages: Vec<PackageRecord>,
    repo_index: RepositoryDescriptor,
    package_index: Vec<u8>,
}

/// A snapshot as contracts see it.
pub struct RepoIndexDataView {
    /// The version of the workspace that the snapshot reflects.
    pub head_ref: Seq<char>,
    pub packages: Seq<PackageView>,
    pub repo_index: RepositoryDescriptorView,
    pub package_index: Seq<u8>,
}

impl RepoIndexDataView {
    /// Whether the binary index is the one of the packages.
    pub open spec fn is_consistent(self) -> bool {
        self.package_index == catalog_bytes(self.packages)
    }
}

impl View for RepoIndexData {
    type V = RepoIndexDataView;

    closed spec fn view(&self) -> RepoIndexDataView {
        RepoIndexDataView {
            head_ref: self.head_ref@,
            packages: package_views(self.packages@),
            repo_index: self.repo_index@,
            package_index: self.package_index@,
        }
    }
}

impl RepoIndexData {
    #[verifier::type_invariant]
    spec fn index_matches_packages(&self) -> bool {
        self.package_index@ == catalog_bytes(package_views(self.packages@))
    }

    /// Makes the snapshot of a repository at `head_ref` and builds the binary
    /// index of its packages. Snapshots are made by a rebuild and in no other
    /// way.
    pub(crate) fn new(
        head_ref: String,
        repo_index: RepositoryDescriptor,
        packages: Vec<PackageRecord>,
    ) -> (r: RepoIndexData)
        ensures
            r@.head_ref == head_ref@,
            r@.repo_index == repo_index@,
            r@.packages == package_views(packages@),
            r@.is_consistent(),
    {
        let package_index = build_index(&packages);
        RepoIndexData { head_ref, packages, repo_index, package_index }
    }

    /// The version of the workspace that the snapshot reflects.
    pub fn head_ref(&self) -> (r: &String)
        ensures
            r@ == self@.head_ref,
    {
        &self.head_ref
    }

    /// The packages of the repository, in the order in which they were read.
    pub fn packages(&self) -> (r: &Vec<PackageRecord>)
        ensures
            package_views(r@) == self@.packages,
    {
        &self.packages
    }

    /// The descriptor of the repository.
    pub fn repo_index(&self) -> (r: &RepositoryDescriptor)
        ensures
            r@ == self@.repo_index,
    {
        &self.repo_index
    }

    /// The binary index, which is always the one of the snapshot's packages.
    pub fn package_index(&self) -> (r: &Vec<u8>)
        ensures
            r@ == self@.package_index,
            self@.is_consistent(),
    {
        proof {
            use_type_invariant(self);
        }
        &self.package_index
    }
}

/// Which version each repository is served at.
#[derive(Debug, Clone, PartialEq, Eq)]
pub struct ServerStatus {
    pub index_ref: Vec<StatusEntry>,
}

/// One line of the status: a repository and the version of its snapshot.
#[derive(Debug, Clone, PartialEq, Eq)]
pub struct StatusEntry {
    pub repo_id: String,
    pub head_ref: String,
}

/// One line of the status as contracts see it.
pub struct StatusEntryView {
    pub repo_id: Seq<char>,
    pub head_ref: Seq<char>,
}

impl View for StatusEntry {
    type V = StatusEntryView;

    open spec fn view(&self) -> StatusEntryView {
        StatusEntryView { repo_id: self.repo_id@, head_ref: self.head_ref@ }
    }
}

impl View for ServerStatus {
    type V = Seq<StatusEntryView>;

    open spec fn view(&self) -> Seq<StatusEntryView> {
        self.index_ref@.map_values(|e: StatusEntry| e@)
    }
}

/// The place of one repository in the cache.
#[derive(Debug, Clone, PartialEq, Eq)]
pub struct RepoSlot {
    pub repo_id: String,
    pub data: Arc<RepoIndexData>,
}

/// The cache: one snapshot for each hosted repository. The functions of this
/// module give a repository one slot; should it have several, the first is
/// the one that counts.
#[derive(Debug, Clone, PartialEq, Eq)]
pub struct RepoIndexes {
    pub slots: Vec<RepoSlot>,
}

impl RepoIndexes {
    /// The hosted repositories, in the order of their slots.
    pub open spec fn ids(&self) -> Seq<Seq<char>> {
        self.slots@.map_values(|s: RepoSlot| s.repo_id@)
    }

    /// The snapshots, in the order of their slots.
    pub open spec fn snapshots(&self) -> Seq<RepoIndexDataView> {
        self.slots@.map_values(|s: RepoSlot| s.data@)
    }
}

/// Whether slot `i` is the first for the repository `id`.
pub open spec fn is_first_slot(ids: Seq<Seq<char>>, id: Seq<char>, i: int) -> bool {
    &&& 0 <= i < ids.len()
    &&& ids[i] == id
    &&& forall|j: int| 0 <= j < i ==> ids[j] != id
}

/// The first slot for the repository `id`.
pub open spec fn first_slot(ids: Seq<Seq<char>>, id: Seq<char>) -> int {
    choose|i: int| is_first_slot(ids, id, i)
}

impl View for RepoIndexes {
    type V = Map<Seq<char>, RepoIndexDataView>;

    /// The current snapshot of every hosted repository.
    open spec fn view(&self) -> Map<Seq<char>, RepoIndexDataView> {
        Map::new(
            |id: Seq<char>| self.ids().contains(id),
            |id: Seq<char>| self.snapshots()[first_slot(self.ids(), id)],
        )
    }
}

/// The status of a cache: for each slot, in order, the repository and the
/// version of its snapshot.
pub open spec fn status_of(ids: Seq<Seq<char>>, snapshots: Seq<RepoIndexDataView>) -> Seq<
    StatusEntryView,
> {
    Seq::new(
        ids.len(),
        |i: int| StatusEntryView { repo_id: ids[i], head_ref: snapshots[i].head_ref },
    )
}

/// A repository that has a slot has a first slot.
pub proof fn lemma_first_slot(ids: Seq<Seq<char>>, id: Seq<char>)
    requires
        ids.contains(id),
    ensures
        is_first_slot(ids, id, first_slot(ids, id)),
    decreases ids.len(),
{
    let k = choose|k: int| 0 <= k < ids.len() && ids[k] == id;
    lemma_first_slot_before(ids, id, k);
}

proof fn lemma_first_slot_before(ids: Seq<Seq<char>>, id: Seq<char>, k: int)
    requires
        0 <= k < ids.len(),
        ids[k] == id,
    ensures
        exists|i: int| is_first_slot(ids, id, i),
    decreases k,
{
    if forall|j: int| 0 <= j < k ==> ids[j] != id {
        assert(is_first_slot(ids, id, k));
    } else {
        let j = choose|j: int| 0 <= j < k && ids[j] == id;
        lemma_first_slot_before(ids, id, j);
    }
}

/// A repository has one first slot.
pub proof fn lemma_first_slot_is(ids: Seq<Seq<char>>, id: Seq<char>, i: int)
    requires
        is_first_slot(ids, id, i),
    ensures
        first_slot(ids, id) == i,
        ids.contains(id),
{
    let k = first_slot(ids, id);
    assert(is_first_slot(ids, id, k));
    if k < i {
        assert(ids[k] != id);
    }
    if i < k {
        assert(ids[i] != id);
    }
}

impl RepoIndexes {
    /// A cache without repositories.
    pub fn new() -> (r: RepoIndexes)
        ensures
            r@ == Map::<Seq<char>, RepoIndexDataView>::empty(),
            r.ids() == Seq::<Seq<char>>::empty(),
    {
        let r = RepoIndexes { slots: Vec::new() };
        assert(r.ids() =~= Seq::<Seq<char>>::empty());
        assert(r@ =~= Map::<Seq<char>, RepoIndexDataView>::empty());
        r
    }

    /// The first slot of a repository holds its snapshot.
    pub proof fn lemma_slot(&self, i: int)
        requires
            is_first_slot(self.ids(), self.slots@[i].repo_id@, i),
        ensures
            self@.contains_key(self.slots@[i].repo_id@),
            self@[self.slots@[i].repo_id@] == self.slots@[i].data@,
    {
        lemma_first_slot_is(self.ids(), self.slots@[i].repo_id@, i);
    }

    fn position(&self, repo_id: &str) -> (r: Option<usize>)
        ensures
            match r {
                Some(i) => is_first_slot(self.ids(), repo_id@, i as int),
                None => !self.ids().contains(repo_id@),
            },
    {
        let mut i: usize = 0;
        while i < self.slots.len()
            invariant
                i <= self.slots@.len(),
                forall|j: int| 0 <= j < i ==> self.ids()[j] != repo_id@,
            decreases self.slots@.len() - i,
        {
            if same_text(self.slots[i].repo_id.as_str(), repo_id) {
                return Some(i);
            }
            assert(self.ids()[i as int] == self.slots@[i as int].repo_id@);
            i = i + 1;
        }
        None
    }

    /// The current snapshot of a repository; `None` if the repository is not
    /// hosted. The snapshot is one that was published as a whole.
    pub fn get(&self, repo_id: &str) -> (r: Option<&Arc<RepoIndexData>>)
        ensures
            r is Some == self@.contains_key(repo_id@),
            r matches Some(data) ==> data@ == self@[repo_id@] && data@.is_consistent(),
    {
        match self.position(repo_id) {
            Some(i) => {
                proof {
                    self.lemma_slot(i as int);
                }
                let data = &self.slots[i].data;
                let _ = data.package_index();
                Some(data)
            },
            None => None,
        }
    }

    /// Publishes `data` as the snapshot of `repo_id`, in place of the one
    /// before. Says whether it did: a repository that is not hosted has no
    /// slot, and nothing changes.
    pub fn publish(&mut self, repo_id: &str, data: RepoIndexData) -> (published: bool)
        ensures
            final(self).ids() == old(self).ids(),
            published == old(self)@.contains_key(repo_id@),
            published ==> final(self)@ == old(self)@.insert(repo_id@, data@),
            !published ==> *final(self) == *old(self),
    {
        match self.position(repo_id) {
            Some(i) => {
                let ghost before = *self;
                let id = String::from_str(repo_id);
                self.slots.set(i, RepoSlot { repo_id: id, data: Arc::new(data) });
                proof {
                    assert(self.ids() =~= before.ids());
                    before.lemma_slot(i as int);
                    assert forall|id: Seq<char>| self@.contains_key(id) implies #[trigger] self@[id]
                        == before@.insert(repo_id@, data@)[id] by {
                        lemma_first_slot(self.ids(), id);
                        let k = first_slot(self.ids(), id);
                        if id != repo_id@ {
                            assert(k != i);
                            assert(self.snapshots()[k] == before.snapshots()[k]);
                        } else {
                            lemma_first_slot_is(self.ids(), id, i as int);
                        }
                    }
                    assert(self@ =~= before@.insert(repo_id@, data@));
                }
                true
            },
            None => false,
        }
    }

    /// Adds a slot for `repo_id` with `data` in it, or replaces the snapshot
    /// where the repository has a slot. No repository comes to have two
    /// slots.
    pub fn insert(&mut self, repo_id: &str, data: RepoIndexData)
        ensures
            final(self)@ == old(self)@.insert(repo_id@, data@),
            final(self).ids() == if old(self)@.contains_key(repo_id@) {
                old(self).ids()
            } else {
                old(self).ids().push(repo_id@)
            },
            old(self).ids().no_duplicates() ==> final(self).ids().no_duplicates(),
    {
        let ghost before = *self;
        let ghost view = data@;
        let found = self.position(repo_id);
        if let Some(i) = found {
            proof {
                self.lemma_slot(i as int);
            }
            self.publish(repo_id, data);
        } else {
            let id = String::from_str(repo_id);
            self.slots.push(RepoSlot { repo_id: id, data: Arc::new(data) });
            proof {
                let n = before.ids().len() as int;
                assert(!before@.contains_key(repo_id@));
                assert(self.ids() =~= before.ids().push(repo_id@));
                assert(self.snapshots() =~= before.snapshots().push(view));
                let after = before@.insert(repo_id@, view);
                assert forall|id: Seq<char>| #[trigger]
                    after.dom().contains(id) implies self@.dom().contains(id) && self@[id]
                    == after[id] by {
                    if id != repo_id@ {
                        assert(before.ids().contains(id));
                        lemma_first_slot(before.ids(), id);
                        let j = first_slot(before.ids(), id);
                        assert(is_first_slot(self.ids(), id, j)) by {
                            assert forall|m: int| 0 <= m < j implies self.ids()[m] != id by {
                                assert(self.ids()[m] == before.ids()[m]);
                            }
                        }
                        lemma_first_slot_is(self.ids(), id, j);
                        assert(self.snapshots()[j] == before.snapshots()[j]);
                    } else {
                        assert(is_first_slot(self.ids(), id, n)) by {
                            assert forall|m: int| 0 <= m < n implies self.ids()[m] != id by {
                                assert(self.ids()[m] == before.ids()[m]);
                                assert(before.ids().contains(before.ids()[m]));
                            }
                        }
                        lemma_first_slot_is(self.ids(), id, n);
                    }
                }
                assert forall|id: Seq<char>| #[trigger]
                    self@.dom().contains(id) implies after.dom().contains(id) by {
                    let k = choose|k: int| 0 <= k < self.ids().len() && self.ids()[k] == id;
                    if k < n {
                        assert(before.ids()[k] == id);
                        assert(before.ids().contains(id));
                    }
                }
                assert(self@ =~= before@.insert(repo_id@, view));
            }
        }
    }
}

/// Publishing replaces one snapshot as a whole: the repository's snapshot is
/// the one published, and every other repository's is the one it was.
pub proof fn lemma_publish_replaces_one_snapshot(
    cache: Map<Seq<char>, RepoIndexDataView>,
    repo_id: Seq<char>,
    data: RepoIndexDataView,
    other: Seq<char>,
)
    requires
        other != repo_id,
    ensures
        cache.insert(repo_id, data)[repo_id] == data,
        cache.insert(repo_id, data).contains_key(other) == cache.contains_key(other),
        cache.contains_key(other) ==> cache.insert(repo_id, data)[other] == cache[other],
{
}

/// The status of the cache: each hosted repository with the version of its
/// snapshot, in the order of the slots.
pub fn server_status(indexes: &RepoIndexes) -> (status: ServerStatus)
    ensures
        status@ == status_of(indexes.ids(), indexes.snapshots()),
{
    let mut index_ref: Vec<StatusEntry> = Vec::new();
    let mut i: usize = 0;
    while i < indexes.slots.len()
        invariant
            i <= indexes.slots@.len(),
            index_ref@.len() == i,
            forall|j: int|
                0 <= j < i ==> (#[trigger] index_ref@[j])@ == (StatusEntryView {
                    repo_id: indexes.slots@[j].repo_id@,
                    head_ref: indexes.slots@[j].data@.head_ref,
                }),
        decreases indexes.slots@.len() - i,
    {
        let slot = &indexes.slots[i];
        index_ref.push(
            StatusEntry { repo_id: slot.repo_id.clone(), head_ref: slot.data.head_ref().clone() },
        );
        i = i + 1;
    }
    let status = ServerStatus { index_ref };
    assert(status@ =~= status_of(indexes.ids(), indexes.snapshots()));
    status
}

/// Publishes a rebuilt snapshot and gives the status that holds from then on.
pub fn set_repo_indexes(indexes: &mut RepoIndexes, repo_id: &str, data: RepoIndexData) -> (status:
    ServerStatus)
    ensures
        final(indexes).ids() == old(indexes).ids(),
        old(indexes)@.contains_key(repo_id@) ==> final(indexes)@ == old(indexes)@.insert(
            repo_id@,
            data@,
        ),
        !old(indexes)@.contains_key(repo_id@) ==> *final(indexes) == *old(indexes),
        status@ == status_of(final(indexes).ids(), final(indexes).snapshots()),
{
    indexes.publish(repo_id, data);
    server_status(indexes)
}

} // verus!
