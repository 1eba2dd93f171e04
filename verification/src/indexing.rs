//! Rebuilding snapshots from what was read of the workspace, and keeping the
//! cache in step with it.

use vstd::prelude::*;

use crate::catalog::catalog_bytes;
use crate::config::Config;
use crate::package::{
    package_read_views, package_views, texts, DescriptorRead, DescriptorReadView, PackageRead,
    PackageReadView, PackageRecord, PackageView,
};
use crate::state::{RepoIndexData, RepoIndexDataView, RepoIndexes};
use crate::text::same_text;

verus! {

/// What was read of one repository: its descriptor, and the descriptor of
/// each package directory, in the order in which the directories were listed.
#[derive(Debug, Clone, PartialEq, Eq)]
pub struct RepoTree {
    pub index: DescriptorRead,
    pub packages: Vec<PackageRead>,
}

/// What was read of a repository, as contracts see it.
pub struct RepoTreeView {
    pub index: DescriptorReadView,
    pub packages: Seq<PackageReadView>,
}

impl View for RepoTree {
    type V = RepoTreeView;

    open spec fn view(&self) -> RepoTreeView {
        RepoTreeView { index: self.index@, packages: package_read_views(self.packages@) }
    }
}

/// Why a repository could not be rebuilt.
#[derive(Debug, Clone, Copy, PartialEq, Eq, Structural)]
pub enum RebuildError {
    /// The repository's descriptor is missing or could not be read.
    DescriptorUnreadable,
    /// The repository's descriptor is malformed.
    DescriptorMalformed,
}

/// The packages whose descriptors were understood, in the order read. The
/// others are left out.
pub open spec fn parsed_packages(reads: Seq<PackageReadView>) -> Seq<PackageView>
    decreases reads.len(),
{
    if reads.len() == 0 {
        Seq::empty()
    } else {
        let before = parsed_packages(reads.drop_last());
        match reads.last() {
            PackageReadView::Parsed(p) => before.push(p),
            _ => before,
        }
    }
}

/// The snapshot of a repository read as `tree` at `head_ref`: it fails only
/// on the repository's own descriptor.
pub open spec fn rebuilt(head_ref: Seq<char>, tree: RepoTreeView) -> Result<
    RepoIndexDataView,
    RebuildError,
> {
    match tree.index {
        DescriptorReadView::Parsed(d) => Ok(
            RepoIndexDataView {
                head_ref: head_ref,
                packages: parsed_packages(tree.packages),
                repo_index: d,
                package_index: catalog_bytes(parsed_packages(tree.packages)),
            },
        ),
        DescriptorReadView::Unreadable => Err(RebuildError::DescriptorUnreadable),
        DescriptorReadView::Malformed => Err(RebuildError::DescriptorMalformed),
    }
}

/// Whether a rebuild gave what the model says.
pub open spec fn is_rebuilt(
    r: Result<RepoIndexData, RebuildError>,
    model: Result<RepoIndexDataView, RebuildError>,
) -> bool {
    match r {
        Ok(data) => model == Ok::<RepoIndexDataView, RebuildError>(data@),
        Err(e) => model == Err::<RepoIndexDataView, RebuildError>(e),
    }
}

/// Keeps the packages whose descriptors were understood.
pub fn collect_parsed(reads: Vec<PackageRead>) -> (kept: Vec<PackageRecord>)
    ensures
        package_views(kept@) == parsed_packages(package_read_views(reads@)),
{
    let ghost all = package_read_views(reads@);
    let mut kept: Vec<PackageRecord> = Vec::new();
    for read in it: reads.into_iter()
        invariant
            all == package_read_views(reads@),
            it.seq() == reads@,
            package_views(kept@) == parsed_packages(all.take(it.index() as int)),
    {
        let ghost i = it.index() as int;
        proof {
            assert(all.take(i + 1).drop_last() =~= all.take(i));
            assert(all.take(i + 1).last() == read@);
        }
        match read {
            PackageRead::Parsed(p) => {
                let ghost before = kept@;
                kept.push(p);
                assert(package_views(kept@) =~= package_views(before).push(p@));
            },
            _ => {},
        }
    }
    assert(all.take(reads@.len() as int) =~= all);
    kept
}

/// Rebuilds the snapshot of one repository from what was read of it at
/// `head_ref`. A package whose descriptor is unreadable or malformed is left
/// out; only the repository's own descriptor can make the rebuild fail.
pub fn generate_repo_index(head_ref: String, tree: RepoTree) -> (r: Result<
    RepoIndexData,
    RebuildError,
>)
    ensures
        is_rebuilt(r, rebuilt(head_ref@, tree@)),
        r matches Ok(data) ==> data@.is_consistent(),
{
    let RepoTree { index, packages } = tree;
    match index {
        DescriptorRead::Parsed(descriptor) => {
            let kept = collect_parsed(packages);
            let data = RepoIndexData::new(head_ref, descriptor, kept);
            Ok(data)
        },
        DescriptorRead::Unreadable => Err(RebuildError::DescriptorUnreadable),
        DescriptorRead::Malformed => Err(RebuildError::DescriptorMalformed),
    }
}

/// What was read of one repository, with the repository's identifier.
#[derive(Debug, Clone, PartialEq, Eq)]
pub struct RepoRead {
    pub repo_id: String,
    pub tree: RepoTree,
}

/// What was read of a named repository, as contracts see it.
pub struct RepoReadView {
    pub repo_id: Seq<char>,
    pub tree: RepoTreeView,
}

impl View for RepoRead {
    type V = RepoReadView;

    open spec fn view(&self) -> RepoReadView {
        RepoReadView { repo_id: self.repo_id@, tree: self.tree@ }
    }
}

/// The view of each read of a list.
pub open spec fn repo_read_views(v: Seq<RepoRead>) -> Seq<RepoReadView> {
    v.map_values(|r: RepoRead| r@)
}

/// The view of each tree of a list.
pub open spec fn repo_tree_views(v: Seq<RepoTree>) -> Seq<RepoTreeView> {
    v.map_values(|t: RepoTree| t@)
}

/// What reconciliation did with one repository that was read.
#[derive(Debug, Clone, Copy, PartialEq, Eq, Structural)]
pub enum Reconciled {
    /// A new snapshot was published.
    Updated,
    /// The snapshot is at the version that was read: nothing to do.
    Current,
    /// The repository is not hosted.
    NotHosted,
    /// The rebuild failed; the snapshot before stays.
    Failed(RebuildError),
}

/// A cache as contracts see it: the snapshot of each hosted repository.
pub type CacheView = Map<Seq<char>, RepoIndexDataView>;

/// What reconciliation does with one repository read at `head_ref`.
pub open spec fn reconciled_one(
    cache: CacheView,
    head_ref: Seq<char>,
    read: RepoReadView,
) -> Reconciled {
    if !cache.contains_key(read.repo_id) {
        Reconciled::NotHosted
    } else if cache[read.repo_id].head_ref == head_ref {
        Reconciled::Current
    } else {
        match rebuilt(head_ref, read.tree) {
            Ok(_) => Reconciled::Updated,
            Err(e) => Reconciled::Failed(e),
        }
    }
}

/// The cache after reconciliation of one repository read at `head_ref`.
pub open spec fn refreshed_one(
    cache: CacheView,
    head_ref: Seq<char>,
    read: RepoReadView,
) -> CacheView {
    if reconciled_one(cache, head_ref, read) == Reconciled::Updated {
        cache.insert(read.repo_id, rebuilt(head_ref, read.tree)->Ok_0)
    } else {
        cache
    }
}

/// The cache after reconciliation of `reads`, one after the other.
pub open spec fn refreshed(
    cache: CacheView,
    head_ref: Seq<char>,
    reads: Seq<RepoReadView>,
) -> CacheView
    decreases reads.len(),
{
    if reads.len() == 0 {
        cache
    } else {
        refreshed_one(refreshed(cache, head_ref, reads.drop_last()), head_ref, reads.last())
    }
}

/// What reconciliation does with each of `reads`, one after the other.
pub open spec fn reconciled(cache: CacheView, head_ref: Seq<char>, reads: Seq<RepoReadView>) -> Seq<
    Reconciled,
>
    decreases reads.len(),
{
    if reads.len() == 0 {
        Seq::empty()
    } else {
        reconciled(cache, head_ref, reads.drop_last()).push(
            reconciled_one(refreshed(cache, head_ref, reads.drop_last()), head_ref, reads.last()),
        )
    }
}

/// The repositories of `ids` whose snapshot is not at `head_ref`, in order.
pub open spec fn stale_ids(
    ids: Seq<Seq<char>>,
    snapshots: Seq<RepoIndexDataView>,
    head_ref: Seq<char>,
) -> Seq<Seq<char>>
    decreases ids.len(),
{
    if ids.len() == 0 {
        Seq::empty()
    } else {
        let before = stale_ids(ids.drop_last(), snapshots.take(ids.len() - 1), head_ref);
        if snapshots[ids.len() - 1].head_ref != head_ref {
            before.push(ids.last())
        } else {
            before
        }
    }
}

/// The hosted repositories that have to be rebuilt when the workspace is at
/// `head_ref`: those whose snapshot reflects another version.
pub fn stale_repos(indexes: &RepoIndexes, head_ref: &str) -> (stale: Vec<String>)
    ensures
        texts(stale@) == stale_ids(indexes.ids(), indexes.snapshots(), head_ref@),
{
    let ghost ids = indexes.ids();
    let ghost snapshots = indexes.snapshots();
    let mut stale: Vec<String> = Vec::new();
    let mut i: usize = 0;
    while i < indexes.slots.len()
        invariant
            i <= indexes.slots@.len(),
            ids == indexes.ids(),
            snapshots == indexes.snapshots(),
            texts(stale@) == stale_ids(
                ids.take(i as int),
                snapshots.take(i as int),
                head_ref@,
            ),
        decreases indexes.slots@.len() - i,
    {
        let slot = &indexes.slots[i];
        proof {
            assert(ids.take(i + 1).drop_last() =~= ids.take(i as int));
            assert(snapshots.take(i + 1).take(i as int) =~= snapshots.take(i as int));
            assert(snapshots.take(i + 1)[i as int] == slot.data@);
            assert(ids.take(i + 1).last() == slot.repo_id@);
        }
        if !same_text(slot.data.head_ref().as_str(), head_ref) {
            let ghost before = stale@;
            stale.push(slot.repo_id.clone());
            assert(texts(stale@) =~= texts(before).push(
                slot.repo_id@,
            ));
        }
        i = i + 1;
    }
    assert(ids.take(i as int) =~= ids);
    assert(snapshots.take(i as int) =~= snapshots);
    stale
}

/// Reconciles the cache with the workspace as read at `head_ref`: each
/// repository of `reads` that is hosted and whose snapshot reflects another
/// version is rebuilt, and the new snapshot published. A rebuild that fails
/// leaves that repository's snapshot as it was and does not keep the others
/// from being reconciled.
pub fn refresh_indexes(indexes: &mut RepoIndexes, head_ref: &str, reads: Vec<RepoRead>) -> (report:
    Vec<Reconciled>)
    ensures
        final(indexes).ids() == old(indexes).ids(),
        final(indexes)@ == refreshed(old(indexes)@, head_ref@, repo_read_views(reads@)),
        report@ == reconciled(old(indexes)@, head_ref@, repo_read_views(reads@)),
{
    let ghost all = repo_read_views(reads@);
    let ghost start = indexes@;
    let mut report: Vec<Reconciled> = Vec::new();
    for read in it: reads.into_iter()
        invariant
            indexes.ids() == old(indexes).ids(),
            all == repo_read_views(reads@),
            start == old(indexes)@,
            it.seq() == reads@,
            indexes@ == refreshed(start, head_ref@, all.take(it.index() as int)),
            report@ == reconciled(start, head_ref@, all.take(it.index() as int)),
    {
        let ghost i = it.index() as int;
        proof {
            assert(all.take(i + 1).drop_last() =~= all.take(i));
            assert(all.take(i + 1).last() == read@);
        }
        let RepoRead { repo_id, tree } = read;
        let outcome = match indexes.get(repo_id.as_str()) {
            None => Reconciled::NotHosted,
            Some(data) => {
                if same_text(data.head_ref().as_str(), head_ref) {
                    Reconciled::Current
                } else {
                    match generate_repo_index(String::from_str(head_ref), tree) {
                        Ok(data) => {
                            indexes.publish(repo_id.as_str(), data);
                            Reconciled::Updated
                        },
                        Err(e) => Reconciled::Failed(e),
                    }
                }
            },
        };
        report.push(outcome);
    }
    assert(all.take(reads@.len() as int) =~= all);
    report
}

/// Why the cache could not be set up.
#[derive(Debug, Clone, Copy, PartialEq, Eq, Structural)]
pub enum InitError {
    /// There is not one tree for each hosted repository.
    TreeCount,
    /// The repository at this place in the configuration could not be built.
    Rebuild(usize, RebuildError),
}

/// The cache that holds, for each of the first `n` repositories, the snapshot
/// rebuilt from its tree.
pub open spec fn initial_cache(
    repos: Seq<Seq<char>>,
    head_ref: Seq<char>,
    trees: Seq<RepoTreeView>,
    n: int,
) -> CacheView
    decreases n,
{
    if n <= 0 {
        Map::empty()
    } else {
        initial_cache(repos, head_ref, trees, n - 1).insert(
            repos[n - 1],
            rebuilt(head_ref, trees[n - 1])->Ok_0,
        )
    }
}

/// Whether tree `i` is the first that cannot be rebuilt, and fails with `e`.
pub open spec fn is_first_failure(
    head_ref: Seq<char>,
    trees: Seq<RepoTreeView>,
    i: int,
    e: RebuildError,
) -> bool {
    &&& 0 <= i < trees.len()
    &&& rebuilt(head_ref, trees[i]) == Err::<RepoIndexDataView, RebuildError>(e)
    &&& forall|j: int| 0 <= j < i ==> (#[trigger] rebuilt(head_ref, trees[j])) is Ok
}

/// Sets up the cache at startup: a slot for every hosted repository, with the
/// snapshot rebuilt from the tree read for it at `head_ref`. `trees` holds one
/// tree for each repository of `config.repos`, in that order.
pub fn init_repo_indexes(config: &Config, head_ref: &str, trees: Vec<RepoTree>) -> (r: Result<
    RepoIndexes,
    InitError,
>)
    ensures
        match r {
            Ok(indexes) => {
                &&& trees@.len() == config.repos@.len()
                &&& forall|j: int|
                    0 <= j < trees@.len() ==> (#[trigger] rebuilt(
                        head_ref@,
                        repo_tree_views(trees@)[j],
                    )) is Ok
                &&& indexes@ == initial_cache(
                    texts(config.repos@),
                    head_ref@,
                    repo_tree_views(trees@),
                    trees@.len() as int,
                )
                &&& indexes.ids().no_duplicates()
            },
            Err(InitError::TreeCount) => trees@.len() != config.repos@.len(),
            Err(InitError::Rebuild(i, e)) => {
                &&& trees@.len() == config.repos@.len()
                &&& is_first_failure(head_ref@, repo_tree_views(trees@), i as int, e)
            },
        },
{
    if trees.len() != config.repos.len() {
        return Err(InitError::TreeCount);
    }
    let ghost all = repo_tree_views(trees@);
    let ghost repos = texts(config.repos@);
    let mut indexes = RepoIndexes::new();
    let n: usize = trees.len();
    let mut i: usize = 0;
    for tree in it: trees.into_iter()
        invariant
            i == it.index(),
            n == trees@.len(),
            all == repo_tree_views(trees@),
            repos == texts(config.repos@),
            trees@.len() == config.repos@.len(),
            it.seq() == trees@,
            indexes.ids().no_duplicates(),
            forall|j: int| 0 <= j < it.index() ==> (#[trigger] rebuilt(head_ref@, all[j])) is Ok,
            indexes@ == initial_cache(repos, head_ref@, all, it.index() as int),
    {
        assert(i < trees@.len());
        assert(all[i as int] == tree@);
        match generate_repo_index(String::from_str(head_ref), tree) {
            Ok(data) => {
                indexes.insert(config.repos[i].as_str(), data);
            },
            Err(e) => {
                return Err(InitError::Rebuild(i, e));
            },
        }
        i = i + 1;
    }
    Ok(indexes)
}

/// The reads that stand for packages whose descriptors were all understood.
pub open spec fn all_parsed(packages: Seq<PackageView>) -> Seq<PackageReadView> {
    packages.map_values(|p: PackageView| PackageReadView::Parsed(p))
}

/// Where every descriptor was understood, every package is kept.
pub proof fn lemma_all_parsed_are_kept(packages: Seq<PackageView>)
    ensures
        parsed_packages(all_parsed(packages)) == packages,
    decreases packages.len(),
{
    let reads = all_parsed(packages);
    if packages.len() == 0 {
        assert(parsed_packages(reads) =~= packages);
    } else {
        lemma_all_parsed_are_kept(packages.drop_last());
        assert(reads.drop_last() =~= all_parsed(packages.drop_last()));
        assert(parsed_packages(reads) =~= packages);
    }
}

/// One descriptor that was not understood among others that were costs
/// exactly that package: the packages kept are the others, in their order,
/// and the rebuild does not fail for it.
pub proof fn lemma_one_bad_descriptor_is_left_out(
    head_ref: Seq<char>,
    tree: RepoTreeView,
    bad: int,
)
    requires
        tree.index is Parsed,
        0 <= bad < tree.packages.len(),
        !(tree.packages[bad] is Parsed),
        forall|i: int|
            0 <= i < tree.packages.len() && i != bad ==> (#[trigger] tree.packages[i]) is Parsed,
    ensures
        rebuilt(head_ref, tree) is Ok,
        rebuilt(head_ref, tree)->Ok_0.packages == parsed_packages(tree.packages),
        parsed_packages(tree.packages).len() == tree.packages.len() - 1,
        parsed_packages(tree.packages) == tree.packages.remove(bad).map_values(
            |r: PackageReadView| r->Parsed_0,
        ),
{
    lemma_bad_descriptor_is_left_out(tree.packages, bad);
}

proof fn lemma_bad_descriptor_is_left_out(reads: Seq<PackageReadView>, bad: int)
    requires
        0 <= bad < reads.len(),
        !(reads[bad] is Parsed),
        forall|i: int| 0 <= i < reads.len() && i != bad ==> (#[trigger] reads[i]) is Parsed,
    ensures
        parsed_packages(reads) == reads.remove(bad).map_values(|r: PackageReadView| r->Parsed_0),
    decreases reads.len(),
{
    let others = reads.remove(bad).map_values(|r: PackageReadView| r->Parsed_0);
    let before = reads.drop_last();
    if bad == reads.len() - 1 {
        assert(reads.remove(bad) =~= before);
        assert forall|i: int| 0 <= i < before.len() implies (#[trigger] before[i]) is Parsed by {
            assert(before[i] == reads[i]);
        }
        assert(before =~= all_parsed(others)) by {
            assert forall|i: int| 0 <= i < before.len() implies before[i] == all_parsed(
                others,
            )[i] by {
                assert(before[i] is Parsed);
            }
        }
        lemma_all_parsed_are_kept(others);
    } else {
        assert(before[bad] == reads[bad]);
        assert forall|i: int| 0 <= i < before.len() && i != bad implies (
        #[trigger] before[i]) is Parsed by {
            assert(before[i] == reads[i]);
        }
        lemma_bad_descriptor_is_left_out(before, bad);
        assert(reads.last() is Parsed) by {
            assert(reads[reads.len() - 1] is Parsed);
        }
        assert(reads.remove(bad).drop_last() =~= before.remove(bad));
        assert(others =~= before.remove(bad).map_values(|r: PackageReadView| r->Parsed_0).push(
            reads.last()->Parsed_0,
        ));
    }
}

/// Rebuilds that keep the same packages have the same binary index, byte
/// for byte, whatever the version they were read at and whatever else was
/// read.
pub proof fn lemma_same_packages_same_index(
    head_a: Seq<char>,
    tree_a: RepoTreeView,
    head_b: Seq<char>,
    tree_b: RepoTreeView,
)
    requires
        rebuilt(head_a, tree_a) is Ok,
        rebuilt(head_b, tree_b) is Ok,
        parsed_packages(tree_a.packages) == parsed_packages(tree_b.packages),
    ensures
        rebuilt(head_a, tree_a)->Ok_0.package_index == rebuilt(head_b, tree_b)->Ok_0.package_index,
{
}

/// Every consistent snapshot is what one rebuild gives, from one reading of
/// the repository at the snapshot's version: its packages, its descriptor and
/// its binary index belong together.
pub proof fn lemma_consistent_snapshot_is_one_rebuild(snapshot: RepoIndexDataView)
    requires
        snapshot.is_consistent(),
    ensures
        rebuilt(
            snapshot.head_ref,
            RepoTreeView {
                index: DescriptorReadView::Parsed(snapshot.repo_index),
                packages: all_parsed(snapshot.packages),
            },
        ) == Ok::<RepoIndexDataView, RebuildError>(snapshot),
{
    lemma_all_parsed_are_kept(snapshot.packages);
}

/// What a rebuild gives is consistent, and at the version it was read at.
pub proof fn lemma_rebuilt_is_consistent(head_ref: Seq<char>, tree: RepoTreeView)
    requires
        rebuilt(head_ref, tree) is Ok,
    ensures
        rebuilt(head_ref, tree)->Ok_0.is_consistent(),
        rebuilt(head_ref, tree)->Ok_0.head_ref == head_ref,
{
}

/// A repository that reconciliation updates is at the version read from then
/// on: reconciling it again at that version finds it current and changes
/// nothing.
pub proof fn lemma_updated_repository_is_current(
    cache: CacheView,
    head_ref: Seq<char>,
    read: RepoReadView,
)
    requires
        reconciled_one(cache, head_ref, read) == Reconciled::Updated,
    ensures
        refreshed_one(cache, head_ref, read)[read.repo_id].head_ref == head_ref,
        refreshed_one(cache, head_ref, read)[read.repo_id].is_consistent(),
        reconciled_one(refreshed_one(cache, head_ref, read), head_ref, read)
            == Reconciled::Current,
        refreshed_one(refreshed_one(cache, head_ref, read), head_ref, read) == refreshed_one(
            cache,
            head_ref,
            read,
        ),
{
}

/// A repository whose snapshot is at the version read is left as it is,
/// whatever was read of it.
pub proof fn lemma_current_repository_is_skipped(
    cache: CacheView,
    head_ref: Seq<char>,
    read: RepoReadView,
)
    requires
        cache.contains_key(read.repo_id),
        cache[read.repo_id].head_ref == head_ref,
    ensures
        reconciled_one(cache, head_ref, read) == Reconciled::Current,
        refreshed_one(cache, head_ref, read) == cache,
{
}

/// Reconciliation neither adds a repository to the cache nor drops one.
pub proof fn lemma_refreshed_keeps_repositories(
    cache: CacheView,
    head_ref: Seq<char>,
    reads: Seq<RepoReadView>,
)
    ensures
        refreshed(cache, head_ref, reads).dom() == cache.dom(),
    decreases reads.len(),
{
    if reads.len() > 0 {
        lemma_refreshed_keeps_repositories(cache, head_ref, reads.drop_last());
        let before = refreshed(cache, head_ref, reads.drop_last());
        assert(refreshed_one(before, head_ref, reads.last()).dom() =~= before.dom());
    }
}

/// A repository that was not read keeps its snapshot.
pub proof fn lemma_unread_repository_is_kept(
    cache: CacheView,
    head_ref: Seq<char>,
    reads: Seq<RepoReadView>,
    repo_id: Seq<char>,
)
    requires
        forall|i: int| 0 <= i < reads.len() ==> (#[trigger] reads[i]).repo_id != repo_id,
    ensures
        refreshed(cache, head_ref, reads).contains_key(repo_id) == cache.contains_key(repo_id),
        cache.contains_key(repo_id) ==> refreshed(cache, head_ref, reads)[repo_id]
            == cache[repo_id],
    decreases reads.len(),
{
    if reads.len() > 0 {
        let earlier = reads.drop_last();
        assert forall|i: int| 0 <= i < earlier.len() implies (#[trigger] earlier[i]).repo_id
            != repo_id by {
            assert(earlier[i] == reads[i]);
        }
        lemma_unread_repository_is_kept(cache, head_ref, earlier, repo_id);
        assert(reads.last() == reads[reads.len() - 1]);
    }
}

/// Each repository is reconciled on its own. Where no repository was read
/// twice, what becomes of a repository is what reconciling it alone would
/// give: a rebuild that fails for another repository changes nothing for it.
pub proof fn lemma_each_repository_is_reconciled_alone(
    cache: CacheView,
    head_ref: Seq<char>,
    reads: Seq<RepoReadView>,
    i: int,
)
    requires
        0 <= i < reads.len(),
        forall|j: int|
            0 <= j < reads.len() && j != i ==> (#[trigger] reads[j]).repo_id != reads[i].repo_id,
    ensures
        reconciled(cache, head_ref, reads).len() == reads.len(),
        reconciled(cache, head_ref, reads)[i] == reconciled_one(cache, head_ref, reads[i]),
        cache.contains_key(reads[i].repo_id) ==> refreshed(cache, head_ref, reads)[reads[i].repo_id]
            == refreshed_one(cache, head_ref, reads[i])[reads[i].repo_id],
    decreases reads.len(),
{
    let repo_id = reads[i].repo_id;
    let earlier = reads.drop_last();
    let before = refreshed(cache, head_ref, earlier);
    lemma_reconciled_len(cache, head_ref, reads);
    lemma_reconciled_len(cache, head_ref, earlier);
    if i == reads.len() - 1 {
        assert forall|j: int| 0 <= j < earlier.len() implies (#[trigger] earlier[j]).repo_id
            != repo_id by {
            assert(earlier[j] == reads[j]);
        }
        lemma_unread_repository_is_kept(cache, head_ref, earlier, repo_id);
    } else {
        assert(earlier[i] == reads[i]);
        assert forall|j: int| 0 <= j < earlier.len() && j != i implies (
        #[trigger] earlier[j]).repo_id != repo_id by {
            assert(earlier[j] == reads[j]);
        }
        lemma_each_repository_is_reconciled_alone(cache, head_ref, earlier, i);
        assert(reads.last() == reads[reads.len() - 1]);
        assert(reads.last().repo_id != repo_id);
        lemma_refreshed_keeps_repositories(cache, head_ref, earlier);
    }
}

proof fn lemma_reconciled_len(cache: CacheView, head_ref: Seq<char>, reads: Seq<RepoReadView>)
    ensures
        reconciled(cache, head_ref, reads).len() == reads.len(),
    decreases reads.len(),
{
    if reads.len() > 0 {
        lemma_reconciled_len(cache, head_ref, reads.drop_last());
    }
}

/// The repositories to rebuild are those whose snapshot is at another
/// version than the one read, and no others.
pub proof fn lemma_stale_ids(
    ids: Seq<Seq<char>>,
    snapshots: Seq<RepoIndexDataView>,
    head_ref: Seq<char>,
    id: Seq<char>,
)
    requires
        ids.len() == snapshots.len(),
    ensures
        stale_ids(ids, snapshots, head_ref).contains(id) <==> exists|k: int|
            0 <= k < ids.len() && #[trigger] ids[k] == id && snapshots[k].head_ref != head_ref,
    decreases ids.len(),
{
    let listed = stale_ids(ids, snapshots, head_ref);
    if ids.len() > 0 {
        let n = ids.len() - 1;
        let earlier = stale_ids(ids.drop_last(), snapshots.take(n), head_ref);
        lemma_stale_ids(ids.drop_last(), snapshots.take(n), head_ref, id);
        if listed.contains(id) {
            let j = choose|j: int| 0 <= j < listed.len() && listed[j] == id;
            if snapshots[n].head_ref != head_ref && j == earlier.len() {
                assert(ids[n] == id);
            } else {
                assert(earlier[j] == id);
                let k = choose|k: int|
                    0 <= k < n && #[trigger] ids.drop_last()[k] == id && snapshots.take(
                        n,
                    )[k].head_ref != head_ref;
                assert(ids[k] == id && snapshots[k].head_ref != head_ref);
            }
        }
        if exists|k: int|
            0 <= k < ids.len() && #[trigger] ids[k] == id && snapshots[k].head_ref != head_ref {
            let k = choose|k: int|
                0 <= k < ids.len() && #[trigger] ids[k] == id && snapshots[k].head_ref != head_ref;
            if k == n {
                assert(listed.last() == id);
            } else {
                assert(ids.drop_last()[k] == id && snapshots.take(n)[k].head_ref != head_ref);
                let j = choose|j: int| 0 <= j < earlier.len() && earlier[j] == id;
                assert(listed[j] == id);
            }
        }
    }
}

/// Reconciliation catches up. Where no repository was read twice, and every
/// repository whose snapshot is at another version than the one read was
/// read and can be rebuilt, every repository's snapshot is at the version
/// read afterwards.
pub proof fn lemma_reconciliation_catches_up(
    cache: CacheView,
    head_ref: Seq<char>,
    reads: Seq<RepoReadView>,
    repo_id: Seq<char>,
)
    requires
        cache.contains_key(repo_id),
        forall|i: int, j: int|
            0 <= i < j < reads.len() ==> (#[trigger] reads[i]).repo_id != (
            #[trigger] reads[j]).repo_id,
        cache[repo_id].head_ref != head_ref ==> exists|i: int|
            0 <= i < reads.len() && (#[trigger] reads[i]).repo_id == repo_id && rebuilt(
                head_ref,
                reads[i].tree,
            ) is Ok,
    ensures
        refreshed(cache, head_ref, reads).contains_key(repo_id),
        refreshed(cache, head_ref, reads)[repo_id].head_ref == head_ref,
{
    lemma_refreshed_keeps_repositories(cache, head_ref, reads);
    assert(refreshed(cache, head_ref, reads).dom().contains(repo_id));
    if exists|i: int| 0 <= i < reads.len() && (#[trigger] reads[i]).repo_id == repo_id {
        let i = choose|i: int| 0 <= i < reads.len() && (#[trigger] reads[i]).repo_id == repo_id;
        assert forall|j: int| 0 <= j < reads.len() && j != i implies (
        #[trigger] reads[j]).repo_id != reads[i].repo_id by {
            if j < i {
                assert(reads[j].repo_id != reads[i].repo_id);
            } else {
                assert(reads[i].repo_id != reads[j].repo_id);
            }
        }
        lemma_each_repository_is_reconciled_alone(cache, head_ref, reads, i);
        if cache[repo_id].head_ref != head_ref {
            let k = choose|k: int|
                0 <= k < reads.len() && (#[trigger] reads[k]).repo_id == repo_id && rebuilt(
                    head_ref,
                    reads[k].tree,
                ) is Ok;
            assert(k == i);
        }
    } else {
        lemma_unread_repository_is_kept(cache, head_ref, reads, repo_id);
    }
}

/// After startup every hosted repository has a snapshot, and each snapshot is
/// at the version that was read.
pub proof fn lemma_initial_cache_is_complete(
    repos: Seq<Seq<char>>,
    head_ref: Seq<char>,
    trees: Seq<RepoTreeView>,
    n: int,
    i: int,
)
    requires
        0 <= i < n <= repos.len(),
        n <= trees.len(),
        forall|j: int| 0 <= j < n ==> (#[trigger] rebuilt(head_ref, trees[j])) is Ok,
    ensures
        initial_cache(repos, head_ref, trees, n).contains_key(repos[i]),
        initial_cache(repos, head_ref, trees, n)[repos[i]].head_ref == head_ref,
        initial_cache(repos, head_ref, trees, n)[repos[i]].is_consistent(),
    decreases n,
{
    let earlier = initial_cache(repos, head_ref, trees, n - 1);
    let last = rebuilt(head_ref, trees[n - 1]);
    assert(last is Ok);
    lemma_rebuilt_is_consistent(head_ref, trees[n - 1]);
    assert(initial_cache(repos, head_ref, trees, n) == earlier.insert(repos[n - 1], last->Ok_0));
    if i < n - 1 {
        lemma_initial_cache_is_complete(repos, head_ref, trees, n - 1, i);
    }
}

/// The two states of the reconciliation loop.
#[derive(Debug, Clone, Copy, PartialEq, Eq, Structural)]
pub enum LoopState {
    /// Waiting out the interval.
    Idle,
    /// Comparing and rebuilding.
    Reconciling,
}

/// What the loop is told.
#[derive(Debug, Clone, Copy, PartialEq, Eq, Structural)]
pub enum LoopEvent {
    /// The interval is over.
    TimerExpired,
    /// A reconciliation is over; whether it went through without error.
    Completed(bool),
}

/// What the loop does next.
#[derive(Debug, Clone, Copy, PartialEq, Eq, Structural)]
pub enum LoopAction {
    /// Wait for this many seconds, then tell of [`LoopEvent::TimerExpired`].
    /// Where `report_failure` is set, the reconciliation before failed, and
    /// the failure is to be logged.
    Sleep { seconds: u64, report_failure: bool },
    /// Reconcile, then tell of [`LoopEvent::Completed`].
    Reconcile,
}

/// The next state and action of the loop. The timer starts a reconciliation;
/// its end leads back to waiting, whether it failed or not. An event that the
/// state does not wait for leaves the state as it is.
pub open spec fn loop_step(interval: u64, state: LoopState, event: LoopEvent) -> (
    LoopState,
    LoopAction,
) {
    match (state, event) {
        (LoopState::Idle, LoopEvent::TimerExpired) => (
            LoopState::Reconciling,
            LoopAction::Reconcile,
        ),
        (LoopState::Reconciling, LoopEvent::Completed(ok)) => (
            LoopState::Idle,
            LoopAction::Sleep { seconds: interval, report_failure: !ok },
        ),
        (LoopState::Idle, LoopEvent::Completed(_)) => (
            LoopState::Idle,
            LoopAction::Sleep { seconds: interval, report_failure: false },
        ),
        (LoopState::Reconciling, LoopEvent::TimerExpired) => (
            LoopState::Reconciling,
            LoopAction::Reconcile,
        ),
    }
}

/// How the loop starts: waiting out the first interval.
pub fn start_refreshing(config: &Config) -> (r: (LoopState, LoopAction))
    ensures
        r.0 == LoopState::Idle,
        r.1 == (LoopAction::Sleep { seconds: config.index_interval, report_failure: false }),
{
    (LoopState::Idle, LoopAction::Sleep { seconds: config.index_interval, report_failure: false })
}

/// One turn of the loop that reconciles every `config.index_interval`
/// seconds, for as long as the server runs.
pub fn refresh_indexes_forever(config: &Config, state: LoopState, event: LoopEvent) -> (r: (
    LoopState,
    LoopAction,
))
    ensures
        r == loop_step(config.index_interval, state, event),
{
    let seconds: u64 = config.index_interval;
    match (state, event) {
        (LoopState::Idle, LoopEvent::TimerExpired) => (
            LoopState::Reconciling,
            LoopAction::Reconcile,
        ),
        (LoopState::Reconciling, LoopEvent::Completed(ok)) => (
            LoopState::Idle,
            LoopAction::Sleep { seconds, report_failure: !ok },
        ),
        (LoopState::Idle, LoopEvent::Completed(_)) => (
            LoopState::Idle,
            LoopAction::Sleep { seconds, report_failure: false },
        ),
        (LoopState::Reconciling, LoopEvent::TimerExpired) => (
            LoopState::Reconciling,
            LoopAction::Reconcile,
        ),
    }
}

} // verus!
