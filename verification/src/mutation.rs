//! The course of a write operation.
//!
//! Creating or updating a package is a fixed sequence of steps on the
//! workspace, held together by the workspace's exclusive lock: check the
//! request, bring the workspace to the state of the remote, write the
//! metadata, stage, commit and push. The steps themselves are the caller's
//! to perform. A [`Mutation`] decides which step comes next: it is given
//! what came of the last step and answers with the next one, until it
//! answers with the result of the operation.

use vstd::prelude::*;

use crate::config::Config;
use crate::git::{
    add_command, clean_command, commit_command, commit_message_for_creation,
    commit_message_for_update, create_message, fetch_command, push_command, reset_command,
    rev_parse_command, update_message, GitCommand, GitCommandView, GitRepo, WorkspaceView,
};
use crate::openapi::UpdatePackageMetadataRequest;
use crate::package::{optional_text, texts};
use crate::text::trimmed;

verus! {

/// The two write operations.
#[derive(Debug, Clone, Copy, PartialEq, Eq, Structural)]
pub enum MutationKind {
    Create,
    Update,
}

/// Where a write operation stands: what it is waiting to hear of.
#[derive(Debug, Clone, Copy, PartialEq, Eq, Structural)]
pub enum Stage {
    /// Whether the package's descriptor exists.
    CheckingPackage,
    /// Whether the release's version is valid.
    CheckingVersion,
    /// The removal of what is not tracked.
    Cleaning,
    /// The fetch of the remote branch.
    Fetching,
    /// The reset to the fetched tip.
    Resetting,
    /// The commit that the workspace is at after the reset.
    ReadingSyncedHead,
    /// The writing of the package's metadata.
    Writing,
    /// The staging of the package's directory.
    Staging,
    /// The commit.
    Committing,
    /// The commit that the workspace is at after the commit.
    ReadingCommittedHead,
    /// The push.
    Pushing,
    /// Nothing: the operation is over.
    Finished,
}

/// Why a write operation failed.
#[derive(Debug, Clone, Copy, PartialEq, Eq, Structural)]
pub enum MutationError {
    /// The repository is not hosted, or the package to update does not exist.
    NotFound,
    /// The package to create exists already.
    Conflict,
    /// The version of the release is not valid.
    InvalidVersion,
    /// The metadata of the package to create was not accepted.
    InvalidMetadata,
    /// The metadata of the package to update could not be rewritten.
    Repository,
    /// A command on the workspace failed before anything was committed.
    Workspace,
    /// The commit was made but could not be read back or pushed: the
    /// workspace is ahead of the remote until it is next brought to the
    /// remote's state.
    CommittedNotPushed,
    /// The operation was told of something it was not waiting for.
    OutOfTurn,
}

/// What came of a step.
#[derive(Debug, Clone, PartialEq, Eq)]
pub enum Event {
    /// Whether the package's descriptor exists.
    PackageFound(bool),
    /// Whether the version is valid.
    VersionChecked(bool),
    /// Whether the command ran and succeeded.
    CommandRan(bool),
    /// Whether the metadata was written.
    MetadataWritten(bool),
    /// What `git rev-parse HEAD` printed; `None` if it failed.
    HeadRead(Option<String>),
}

/// The step to perform next.
#[derive(Debug, PartialEq, Eq)]
pub enum Action {
    /// Find out whether the file at this path under the workspace exists,
    /// and answer with [`Event::PackageFound`].
    FindPackage(Vec<String>),
    /// Check this version, and answer with [`Event::VersionChecked`].
    CheckVersion(String),
    /// Run this command, and answer with [`Event::CommandRan`].
    Run(GitCommand),
    /// Run this command, and answer with [`Event::HeadRead`].
    ReadHead(GitCommand),
    /// Write the package's metadata, and answer with
    /// [`Event::MetadataWritten`].
    WriteMetadata,
    /// The operation is over, with this result.
    Finish(Result<(), MutationError>),
}

/// What came of a step, as contracts see it.
pub enum EventView {
    PackageFound(bool),
    VersionChecked(bool),
    CommandRan(bool),
    MetadataWritten(bool),
    HeadRead(Option<Seq<char>>),
}

/// The step to perform next, as contracts see it.
pub enum ActionView {
    FindPackage(Seq<Seq<char>>),
    CheckVersion(Seq<char>),
    Run(GitCommandView),
    ReadHead(GitCommandView),
    WriteMetadata,
    Finish(Result<(), MutationError>),
}

impl View for Event {
    type V = EventView;

    open spec fn view(&self) -> EventView {
        match self {
            Event::PackageFound(b) => EventView::PackageFound(*b),
            Event::VersionChecked(b) => EventView::VersionChecked(*b),
            Event::CommandRan(b) => EventView::CommandRan(*b),
            Event::MetadataWritten(b) => EventView::MetadataWritten(*b),
            Event::HeadRead(o) => EventView::HeadRead(optional_text(*o)),
        }
    }
}

impl View for Action {
    type V = ActionView;

    open spec fn view(&self) -> ActionView {
        match self {
            Action::FindPackage(p) => ActionView::FindPackage(texts(p@)),
            Action::CheckVersion(v) => ActionView::CheckVersion(v@),
            Action::Run(c) => ActionView::Run(c@),
            Action::ReadHead(c) => ActionView::ReadHead(c@),
            Action::WriteMetadata => ActionView::WriteMetadata,
            Action::Finish(r) => ActionView::Finish(*r),
        }
    }
}

/// A write operation under way.
#[derive(Debug, Clone, PartialEq, Eq)]
pub struct Mutation {
    pub kind: MutationKind,
    pub repo_id: String,
    pub package_id: String,
    /// The version of the release to add; empty for a creation.
    pub version: String,
    /// The message of the commit to make.
    pub message: String,
    /// The branch of the remote to push to.
    pub branch: String,
    pub stage: Stage,
}

/// A write operation under way, as contracts see it.
pub struct MutationView {
    pub kind: MutationKind,
    pub repo_id: Seq<char>,
    pub package_id: Seq<char>,
    pub version: Seq<char>,
    pub message: Seq<char>,
    pub branch: Seq<char>,
    pub stage: Stage,
}

impl View for Mutation {
    type V = MutationView;

    open spec fn view(&self) -> MutationView {
        MutationView {
            kind: self.kind,
            repo_id: self.repo_id@,
            package_id: self.package_id@,
            version: self.version@,
            message: self.message@,
            branch: self.branch@,
            stage: self.stage,
        }
    }
}

impl MutationView {
    /// The operation at another stage.
    pub open spec fn at(self, stage: Stage) -> MutationView {
        MutationView { stage: stage, ..self }
    }
}

/// The path of a package's descriptor under the workspace.
pub open spec fn descriptor_path(repo_id: Seq<char>, package_id: Seq<char>) -> Seq<Seq<char>> {
    seq![repo_id, "packages"@, package_id, "index.toml"@]
}

/// The end of an operation that failed with `e`.
pub open spec fn fail(w: WorkspaceView, e: MutationError) -> (Stage, WorkspaceView, ActionView) {
    (Stage::Finished, w, ActionView::Finish(Err(e)))
}

/// The next stage, the workspace and the next step, for an operation `m` on
/// the workspace `w` that is told `e`.
pub open spec fn step(m: MutationView, w: WorkspaceView, e: EventView) -> (
    Stage,
    WorkspaceView,
    ActionView,
) {
    match (m.stage, e) {
        (Stage::CheckingPackage, EventView::PackageFound(found)) => match m.kind {
            MutationKind::Create => if found {
                fail(w, MutationError::Conflict)
            } else {
                (Stage::Cleaning, w, ActionView::Run(clean_command(w.path)))
            },
            MutationKind::Update => if found {
                (Stage::CheckingVersion, w, ActionView::CheckVersion(m.version))
            } else {
                fail(w, MutationError::NotFound)
            },
        },
        (Stage::CheckingVersion, EventView::VersionChecked(valid)) => if valid {
            (Stage::Cleaning, w, ActionView::Run(clean_command(w.path)))
        } else {
            fail(w, MutationError::InvalidVersion)
        },
        (Stage::Cleaning, EventView::CommandRan(ok)) => if ok {
            (Stage::Fetching, w, ActionView::Run(fetch_command(w.path, m.branch)))
        } else {
            fail(w, MutationError::Workspace)
        },
        (Stage::Fetching, EventView::CommandRan(ok)) => if ok {
            (Stage::Resetting, w, ActionView::Run(reset_command(w.path, m.branch)))
        } else {
            fail(w, MutationError::Workspace)
        },
        (Stage::Resetting, EventView::CommandRan(ok)) => if ok {
            (Stage::ReadingSyncedHead, w, ActionView::ReadHead(rev_parse_command(w.path)))
        } else {
            fail(w, MutationError::Workspace)
        },
        (Stage::ReadingSyncedHead, EventView::HeadRead(head)) => match head {
            Some(head) => (
                Stage::Writing,
                WorkspaceView { path: w.path, head_ref: trimmed(head) },
                ActionView::WriteMetadata,
            ),
            None => fail(w, MutationError::Workspace),
        },
        (Stage::Writing, EventView::MetadataWritten(ok)) => if ok {
            (Stage::Staging, w, ActionView::Run(add_command(w.path, m.repo_id, m.package_id)))
        } else {
            match m.kind {
                MutationKind::Create => fail(w, MutationError::InvalidMetadata),
                MutationKind::Update => fail(w, MutationError::Repository),
            }
        },
        (Stage::Staging, EventView::CommandRan(ok)) => if ok {
            (Stage::Committing, w, ActionView::Run(commit_command(w.path, m.message)))
        } else {
            fail(w, MutationError::Workspace)
        },
        (Stage::Committing, EventView::CommandRan(ok)) => if ok {
            (Stage::ReadingCommittedHead, w, ActionView::ReadHead(rev_parse_command(w.path)))
        } else {
            fail(w, MutationError::Workspace)
        },
        (Stage::ReadingCommittedHead, EventView::HeadRead(head)) => match head {
            Some(head) => (
                Stage::Pushing,
                WorkspaceView { path: w.path, head_ref: trimmed(head) },
                ActionView::Run(push_command(w.path, m.branch)),
            ),
            None => fail(w, MutationError::CommittedNotPushed),
        },
        (Stage::Pushing, EventView::CommandRan(ok)) => if ok {
            (Stage::Finished, w, ActionView::Finish(Ok(())))
        } else {
            fail(w, MutationError::CommittedNotPushed)
        },
        _ => fail(w, MutationError::OutOfTurn),
    }
}

/// How an operation on a repository begins: with the question whether the
/// package exists, or, for a repository that is not hosted, with its end.
pub open spec fn first_step(hosted: bool, repo_id: Seq<char>, package_id: Seq<char>) -> (
    Stage,
    ActionView,
) {
    if hosted {
        (Stage::CheckingPackage, ActionView::FindPackage(descriptor_path(repo_id, package_id)))
    } else {
        (Stage::Finished, ActionView::Finish(Err(MutationError::NotFound)))
    }
}

/// The course of an operation `m` on the workspace `w` that is told
/// `events`, one after the other: the operation and the workspace at the end,
/// and the steps it answered with.
pub open spec fn run(m: MutationView, w: WorkspaceView, events: Seq<EventView>) -> (
    MutationView,
    WorkspaceView,
    Seq<ActionView>,
)
    decreases events.len(),
{
    if events.len() == 0 {
        (m, w, Seq::empty())
    } else {
        let s = step(m, w, events[0]);
        let rest = run(m.at(s.0), s.1, events.drop_first());
        (rest.0, rest.1, seq![s.2] + rest.2)
    }
}

/// Whether a step leaves the workspace as it is: it runs no command and
/// writes nothing.
pub open spec fn is_harmless(a: ActionView) -> bool {
    a is FindPackage || a is CheckVersion || a is Finish
}

/// A course has one step for each event.
pub proof fn lemma_run_len(m: MutationView, w: WorkspaceView, events: Seq<EventView>)
    ensures
        run(m, w, events).2.len() == events.len(),
    decreases events.len(),
{
    if events.len() > 0 {
        let s = step(m, w, events[0]);
        lemma_run_len(m.at(s.0), s.1, events.drop_first());
    }
}

/// An operation that is over stays over: whatever it is told, it answers
/// that this was out of turn, and the workspace stays as it is.
pub proof fn lemma_finished_is_final(m: MutationView, w: WorkspaceView, events: Seq<EventView>)
    requires
        m.stage == Stage::Finished,
    ensures
        run(m, w, events).0 == m,
        run(m, w, events).1 == w,
        run(m, w, events).2.len() == events.len(),
        forall|k: int|
            0 <= k < events.len() ==> #[trigger] run(m, w, events).2[k] == ActionView::Finish(
                Err(MutationError::OutOfTurn),
            ),
    decreases events.len(),
{
    if events.len() > 0 {
        assert(m.at(Stage::Finished) == m);
        lemma_finished_is_final(m, w, events.drop_first());
    }
}

/// Creating a package that exists is a conflict and leaves the workspace
/// alone: the answer to the news that the package exists is the conflict,
/// no step of the whole course runs a command or writes anything, and the
/// workspace ends at the version it was at.
pub proof fn lemma_create_conflict_leaves_workspace(
    m: MutationView,
    w: WorkspaceView,
    events: Seq<EventView>,
)
    requires
        m.kind == MutationKind::Create,
        m.stage == Stage::CheckingPackage,
        events.len() > 0,
        events[0] == EventView::PackageFound(true),
    ensures
        run(m, w, events).2[0] == ActionView::Finish(Err(MutationError::Conflict)),
        run(m, w, events).1 == w,
        forall|k: int| 0 <= k < events.len() ==> is_harmless(#[trigger] run(m, w, events).2[k]),
{
    lemma_finished_is_final(m.at(Stage::Finished), w, events.drop_first());
}

/// Updating a package with a version that is not valid is refused for that
/// reason, and nothing is committed or pushed: no step of the whole course
/// runs a command or writes anything, and the workspace ends at the version
/// it was at.
pub proof fn lemma_invalid_version_leaves_workspace(
    m: MutationView,
    w: WorkspaceView,
    events: Seq<EventView>,
)
    requires
        m.kind == MutationKind::Update,
        m.stage == Stage::CheckingPackage,
        events.len() > 1,
        events[0] == EventView::PackageFound(true),
        events[1] == EventView::VersionChecked(false),
    ensures
        run(m, w, events).2[1] == ActionView::Finish(Err(MutationError::InvalidVersion)),
        run(m, w, events).1 == w,
        forall|k: int| 0 <= k < events.len() ==> is_harmless(#[trigger] run(m, w, events).2[k]),
{
    let later = events.drop_first();
    assert(later[0] == events[1]);
    let m1 = m.at(Stage::CheckingVersion);
    lemma_finished_is_final(m1.at(Stage::Finished), w, later.drop_first());
    assert(run(m, w, events).2 =~= seq![ActionView::CheckVersion(m.version)] + run(
        m1,
        w,
        later,
    ).2);
}

/// The stage that follows `stage` where the step it waits for succeeds.
pub open spec fn next_stage(kind: MutationKind, stage: Stage) -> Stage {
    match stage {
        Stage::CheckingPackage => match kind {
            MutationKind::Create => Stage::Cleaning,
            MutationKind::Update => Stage::CheckingVersion,
        },
        Stage::CheckingVersion => Stage::Cleaning,
        Stage::Cleaning => Stage::Fetching,
        Stage::Fetching => Stage::Resetting,
        Stage::Resetting => Stage::ReadingSyncedHead,
        Stage::ReadingSyncedHead => Stage::Writing,
        Stage::Writing => Stage::Staging,
        Stage::Staging => Stage::Committing,
        Stage::Committing => Stage::ReadingCommittedHead,
        Stage::ReadingCommittedHead => Stage::Pushing,
        Stage::Pushing => Stage::Finished,
        Stage::Finished => Stage::Finished,
    }
}

/// The step that an operation answers with where the step it waits for
/// succeeded, for a workspace at `path`.
pub open spec fn next_action(m: MutationView, path: Seq<char>) -> ActionView {
    match m.stage {
        Stage::CheckingPackage => match m.kind {
            MutationKind::Create => ActionView::Run(clean_command(path)),
            MutationKind::Update => ActionView::CheckVersion(m.version),
        },
        Stage::CheckingVersion => ActionView::Run(clean_command(path)),
        Stage::Cleaning => ActionView::Run(fetch_command(path, m.branch)),
        Stage::Fetching => ActionView::Run(reset_command(path, m.branch)),
        Stage::Resetting => ActionView::ReadHead(rev_parse_command(path)),
        Stage::ReadingSyncedHead => ActionView::WriteMetadata,
        Stage::Writing => ActionView::Run(add_command(path, m.repo_id, m.package_id)),
        Stage::Staging => ActionView::Run(commit_command(path, m.message)),
        Stage::Committing => ActionView::ReadHead(rev_parse_command(path)),
        Stage::ReadingCommittedHead => ActionView::Run(push_command(path, m.branch)),
        Stage::Pushing => ActionView::Finish(Ok(())),
        Stage::Finished => ActionView::Finish(Err(MutationError::OutOfTurn)),
    }
}

/// How many steps have to succeed, from `stage` on, for the operation to
/// succeed.
pub open spec fn steps_left(kind: MutationKind, stage: Stage) -> nat {
    match stage {
        Stage::CheckingPackage => match kind {
            MutationKind::Create => 10,
            MutationKind::Update => 11,
        },
        Stage::CheckingVersion => 10,
        Stage::Cleaning => 9,
        Stage::Fetching => 8,
        Stage::Resetting => 7,
        Stage::ReadingSyncedHead => 6,
        Stage::Writing => 5,
        Stage::Staging => 4,
        Stage::Committing => 3,
        Stage::ReadingCommittedHead => 2,
        Stage::Pushing => 1,
        Stage::Finished => 0,
    }
}

/// The steps of an operation from its stage on, where each succeeds.
pub open spec fn steps_to_success(m: MutationView, path: Seq<char>) -> Seq<ActionView>
    decreases steps_left(m.kind, m.stage),
{
    if m.stage == Stage::Finished {
        Seq::empty()
    } else {
        seq![next_action(m, path)] + steps_to_success(m.at(next_stage(m.kind, m.stage)), path)
    }
}

/// The steps of a creation that goes through, in their order.
pub open spec fn creation_steps(m: MutationView, path: Seq<char>) -> Seq<ActionView> {
    seq![
        ActionView::Run(clean_command(path)),
        ActionView::Run(fetch_command(path, m.branch)),
        ActionView::Run(reset_command(path, m.branch)),
        ActionView::ReadHead(rev_parse_command(path)),
        ActionView::WriteMetadata,
        ActionView::Run(add_command(path, m.repo_id, m.package_id)),
        ActionView::Run(commit_command(path, m.message)),
        ActionView::ReadHead(rev_parse_command(path)),
        ActionView::Run(push_command(path, m.branch)),
        ActionView::Finish(Ok(())),
    ]
}

/// The steps of an update that goes through, in their order.
pub open spec fn update_steps(m: MutationView, path: Seq<char>) -> Seq<ActionView> {
    seq![ActionView::CheckVersion(m.version)] + creation_steps(m, path)
}

/// On the way to success every step is the one that follows: where a course
/// comes to succeed at step `k`, its first step is the one that success at
/// the stage leads to, the workspace stays where it lies, and the rest of
/// the course succeeds one step earlier.
proof fn lemma_first_step_to_success(
    m: MutationView,
    w: WorkspaceView,
    events: Seq<EventView>,
    k: int,
)
    requires
        0 <= k < events.len(),
        run(m, w, events).2.len() == events.len(),
        run(m, w, events).2[k] == ActionView::Finish(Ok(())),
    ensures
        m.stage != Stage::Finished,
        step(m, w, events[0]).0 == next_stage(m.kind, m.stage),
        step(m, w, events[0]).1.path == w.path,
        step(m, w, events[0]).2 == next_action(m, w.path),
        k == 0 <==> m.stage == Stage::Pushing,
        k > 0 ==> run(
            m.at(next_stage(m.kind, m.stage)),
            step(m, w, events[0]).1,
            events.drop_first(),
        ).2[k - 1] == ActionView::Finish(Ok(())),
{
    let s = step(m, w, events[0]);
    let rest = run(m.at(s.0), s.1, events.drop_first());
    lemma_run_len(m.at(s.0), s.1, events.drop_first());
    assert(run(m, w, events).2 =~= seq![s.2] + rest.2);
    if s.0 == Stage::Finished {
        lemma_finished_is_final(m.at(s.0), s.1, events.drop_first());
        if k > 0 {
            assert(rest.2[k - 1] == ActionView::Finish(Err(MutationError::OutOfTurn)));
        }
    } else {
        assert(k > 0);
        assert(rest.2[k - 1] == run(m, w, events).2[k]);
    }
}

/// An operation succeeds by every step only: where a course comes to succeed
/// at step `k`, that is after as many steps as are left at its stage, and the
/// steps up to there are those that lead to success, in their order.
pub proof fn lemma_success_takes_every_step(
    m: MutationView,
    w: WorkspaceView,
    events: Seq<EventView>,
    k: int,
)
    requires
        0 <= k < events.len(),
        run(m, w, events).2[k] == ActionView::Finish(Ok(())),
    ensures
        k + 1 == steps_left(m.kind, m.stage),
        run(m, w, events).2.take(k + 1) == steps_to_success(m, w.path),
    decreases events.len(),
{
    lemma_run_len(m, w, events);
    lemma_first_step_to_success(m, w, events, k);
    let s = step(m, w, events[0]);
    let m1 = m.at(next_stage(m.kind, m.stage));
    let later = events.drop_first();
    let rest = run(m1, s.1, later);
    lemma_run_len(m1, s.1, later);
    assert(run(m, w, events).2 =~= seq![s.2] + rest.2);
    if k > 0 {
        lemma_success_takes_every_step(m1, s.1, later, k - 1);
        assert(run(m, w, events).2.take(k + 1) =~= seq![s.2] + rest.2.take(k));
    } else {
        assert(m1.stage == Stage::Finished);
        assert(steps_to_success(m1, w.path) =~= Seq::<ActionView>::empty());
        assert(run(m, w, events).2.take(1) =~= seq![s.2]);
    }
}

/// A creation succeeds in one way: the package is new, the workspace is
/// brought to the remote's state, the metadata is written, staged and
/// committed, the commit is read back, and the push goes through. Where a
/// course comes to succeed, it does so with its tenth step, and the ten steps
/// are these, in this order.
pub proof fn lemma_creation_succeeds_in_one_way(
    m: MutationView,
    w: WorkspaceView,
    events: Seq<EventView>,
    k: int,
)
    requires
        m.kind == MutationKind::Create,
        m.stage == Stage::CheckingPackage,
        0 <= k < events.len(),
        run(m, w, events).2[k] == ActionView::Finish(Ok(())),
    ensures
        k == 9,
        run(m, w, events).2.take(10) == creation_steps(m, w.path),
{
    lemma_success_takes_every_step(m, w, events, k);
    lemma_steps_from_cleaning(m.at(Stage::Cleaning), w.path);
    assert(steps_to_success(m, w.path) =~= creation_steps(m, w.path));
}

/// An update succeeds in one way: the package exists, the version is valid,
/// and what follows is what a creation does. Where a course comes to
/// succeed, it does so with its eleventh step.
pub proof fn lemma_update_succeeds_in_one_way(
    m: MutationView,
    w: WorkspaceView,
    events: Seq<EventView>,
    k: int,
)
    requires
        m.kind == MutationKind::Update,
        m.stage == Stage::CheckingPackage,
        0 <= k < events.len(),
        run(m, w, events).2[k] == ActionView::Finish(Ok(())),
    ensures
        k == 10,
        run(m, w, events).2.take(11) == update_steps(m, w.path),
{
    lemma_success_takes_every_step(m, w, events, k);
    let checking = m.at(Stage::CheckingVersion);
    lemma_steps_from_cleaning(m.at(Stage::Cleaning), w.path);
    assert(checking.at(Stage::Cleaning) == m.at(Stage::Cleaning));
    assert(steps_to_success(checking, w.path) =~= creation_steps(m, w.path));
    assert(steps_to_success(m, w.path) =~= update_steps(m, w.path));
}

proof fn lemma_steps_from_cleaning(m: MutationView, path: Seq<char>)
    requires
        m.stage == Stage::Cleaning,
    ensures
        steps_to_success(m, path) == creation_steps(m, path).skip(1),
{
    let m2 = m.at(Stage::Fetching);
    let m3 = m.at(Stage::Resetting);
    let m4 = m.at(Stage::ReadingSyncedHead);
    let m5 = m.at(Stage::Writing);
    let m6 = m.at(Stage::Staging);
    let m7 = m.at(Stage::Committing);
    let m8 = m.at(Stage::ReadingCommittedHead);
    let m9 = m.at(Stage::Pushing);
    let m10 = m.at(Stage::Finished);
    assert(m9.at(Stage::Finished) == m10);
    assert(m8.at(Stage::Pushing) == m9);
    assert(m7.at(Stage::ReadingCommittedHead) == m8);
    assert(m6.at(Stage::Committing) == m7);
    assert(m5.at(Stage::Staging) == m6);
    assert(m4.at(Stage::Writing) == m5);
    assert(m3.at(Stage::ReadingSyncedHead) == m4);
    assert(m2.at(Stage::Resetting) == m3);
    assert(steps_to_success(m10, path) =~= Seq::<ActionView>::empty());
    assert(steps_to_success(m9, path) =~= seq![next_action(m9, path)]);
    assert(steps_to_success(m8, path) =~= seq![next_action(m8, path)] + steps_to_success(m9, path));
    assert(steps_to_success(m7, path) =~= seq![next_action(m7, path)] + steps_to_success(m8, path));
    assert(steps_to_success(m6, path) =~= seq![next_action(m6, path)] + steps_to_success(m7, path));
    assert(steps_to_success(m5, path) =~= seq![next_action(m5, path)] + steps_to_success(m6, path));
    assert(steps_to_success(m4, path) =~= seq![next_action(m4, path)] + steps_to_success(m5, path));
    assert(steps_to_success(m3, path) =~= seq![next_action(m3, path)] + steps_to_success(m4, path));
    assert(steps_to_success(m2, path) =~= seq![next_action(m2, path)] + steps_to_success(m3, path));
    assert(steps_to_success(m, path) =~= seq![next_action(m, path)] + steps_to_success(m2, path));
    assert(steps_to_success(m, path) =~= creation_steps(m, path).skip(1));
}

/// The workspace moves to another version only on the news of the commit it
/// is at: any other event leaves it as it is.
pub proof fn lemma_workspace_moves_on_head_only(m: MutationView, w: WorkspaceView, e: EventView)
    ensures
        step(m, w, e).1.path == w.path,
        !(e is HeadRead) ==> step(m, w, e).1 == w,
{
}

/// A push is the answer to one thing only: the commit read back after the
/// commit was made.
pub proof fn lemma_push_follows_commit(m: MutationView, w: WorkspaceView, e: EventView)
    requires
        step(m, w, e).0 == Stage::Pushing,
    ensures
        m.stage == Stage::ReadingCommittedHead,
        e is HeadRead,
        e->HeadRead_0 is Some,
{
}

/// The path of a package's descriptor under the workspace.
pub fn package_descriptor_path(repo_id: &str, package_id: &str) -> (path: Vec<String>)
    ensures
        texts(path@) == descriptor_path(repo_id@, package_id@),
{
    let mut path: Vec<String> = Vec::new();
    path.push(String::from_str(repo_id));
    path.push(String::from_str("packages"));
    path.push(String::from_str(package_id));
    path.push(String::from_str("index.toml"));
    assert(texts(path@) =~= descriptor_path(repo_id@, package_id@));
    path
}

impl Mutation {
    fn begin(
        config: &Config,
        kind: MutationKind,
        repo_id: &str,
        package_id: &str,
        version: String,
        message: String,
    ) -> (r: (Mutation, Action))
        ensures
            r.0@ == (MutationView {
                kind: kind,
                repo_id: repo_id@,
                package_id: package_id@,
                version: version@,
                message: message@,
                branch: config.branch_name@,
                stage: first_step(config.hosts_spec(repo_id@), repo_id@, package_id@).0,
            }),
            r.1@ == first_step(config.hosts_spec(repo_id@), repo_id@, package_id@).1,
    {
        let hosted = config.hosts(repo_id);
        let (stage, action) = if hosted {
            (
                Stage::CheckingPackage,
                Action::FindPackage(package_descriptor_path(repo_id, package_id)),
            )
        } else {
            (Stage::Finished, Action::Finish(Err(MutationError::NotFound)))
        };
        let mutation = Mutation {
            kind,
            repo_id: String::from_str(repo_id),
            package_id: String::from_str(package_id),
            version,
            message,
            branch: config.branch_name.clone(),
            stage,
        };
        (mutation, action)
    }

    /// Begins the creation of a package.
    pub fn create(config: &Config, repo_id: &str, package_id: &str) -> (r: (Mutation, Action))
        ensures
            r.0@ == (MutationView {
                kind: MutationKind::Create,
                repo_id: repo_id@,
                package_id: package_id@,
                version: Seq::<char>::empty(),
                message: create_message(repo_id@, package_id@),
                branch: config.branch_name@,
                stage: first_step(config.hosts_spec(repo_id@), repo_id@, package_id@).0,
            }),
            r.1@ == first_step(config.hosts_spec(repo_id@), repo_id@, package_id@).1,
    {
        let message = commit_message_for_creation(repo_id, package_id);
        Mutation::begin(config, MutationKind::Create, repo_id, package_id, String::new(), message)
    }

    /// Begins the update of a package with `release`.
    pub fn update(
        config: &Config,
        repo_id: &str,
        package_id: &str,
        release: &UpdatePackageMetadataRequest,
    ) -> (r: (Mutation, Action))
        ensures
            r.0@ == (MutationView {
                kind: MutationKind::Update,
                repo_id: repo_id@,
                package_id: package_id@,
                version: release.version@,
                message: update_message(repo_id@, package_id@, release.summary_spec()),
                branch: config.branch_name@,
                stage: first_step(config.hosts_spec(repo_id@), repo_id@, package_id@).0,
            }),
            r.1@ == first_step(config.hosts_spec(repo_id@), repo_id@, package_id@).1,
    {
        let message = commit_message_for_update(repo_id, package_id, release);
        Mutation::begin(
            config,
            MutationKind::Update,
            repo_id,
            package_id,
            release.version.clone(),
            message,
        )
    }

    fn finish(&mut self, e: MutationError) -> (action: Action)
        ensures
            final(self)@ == old(self)@.at(Stage::Finished),
            action@ == ActionView::Finish(Err(e)),
    {
        self.stage = Stage::Finished;
        Action::Finish(Err(e))
    }

    /// Takes what came of the last step and gives the next one. Where the
    /// event carries the commit that the workspace is at, the workspace
    /// records it.
    pub fn advance(&mut self, workspace: &mut GitRepo, event: Event) -> (action: Action)
        ensures
            final(self)@ == old(self)@.at(step(old(self)@, old(workspace)@, event@).0),
            final(workspace)@ == step(old(self)@, old(workspace)@, event@).1,
            action@ == step(old(self)@, old(workspace)@, event@).2,
    {
        match (self.stage, event) {
            (Stage::CheckingPackage, Event::PackageFound(found)) => match self.kind {
                MutationKind::Create => {
                    if found {
                        self.finish(MutationError::Conflict)
                    } else {
                        self.stage = Stage::Cleaning;
                        Action::Run(workspace.clean())
                    }
                },
                MutationKind::Update => {
                    if found {
                        self.stage = Stage::CheckingVersion;
                        Action::CheckVersion(self.version.clone())
                    } else {
                        self.finish(MutationError::NotFound)
                    }
                },
            },
            (Stage::CheckingVersion, Event::VersionChecked(valid)) => {
                if valid {
                    self.stage = Stage::Cleaning;
                    Action::Run(workspace.clean())
                } else {
                    self.finish(MutationError::InvalidVersion)
                }
            },
            (Stage::Cleaning, Event::CommandRan(ok)) => {
                if ok {
                    self.stage = Stage::Fetching;
                    Action::Run(workspace.fetch(self.branch.as_str()))
                } else {
                    self.finish(MutationError::Workspace)
                }
            },
            (Stage::Fetching, Event::CommandRan(ok)) => {
                if ok {
                    self.stage = Stage::Resetting;
                    Action::Run(workspace.reset(self.branch.as_str()))
                } else {
                    self.finish(MutationError::Workspace)
                }
            },
            (Stage::Resetting, Event::CommandRan(ok)) => {
                if ok {
                    self.stage = Stage::ReadingSyncedHead;
                    Action::ReadHead(workspace.rev_parse_head())
                } else {
                    self.finish(MutationError::Workspace)
                }
            },
            (Stage::ReadingSyncedHead, Event::HeadRead(head)) => match head {
                Some(head) => {
                    workspace.set_head(head.as_str());
                    self.stage = Stage::Writing;
                    Action::WriteMetadata
                },
                None => self.finish(MutationError::Workspace),
            },
            (Stage::Writing, Event::MetadataWritten(ok)) => {
                if ok {
                    self.stage = Stage::Staging;
                    Action::Run(
                        workspace.add_package_to_index_tree(
                            self.repo_id.as_str(),
                            self.package_id.as_str(),
                        ),
                    )
                } else {
                    match self.kind {
                        MutationKind::Create => self.finish(MutationError::InvalidMetadata),
                        MutationKind::Update => self.finish(MutationError::Repository),
                    }
                }
            },
            (Stage::Staging, Event::CommandRan(ok)) => {
                if ok {
                    self.stage = Stage::Committing;
                    Action::Run(workspace.commit(self.message.clone()))
                } else {
                    self.finish(MutationError::Workspace)
                }
            },
            (Stage::Committing, Event::CommandRan(ok)) => {
                if ok {
                    self.stage = Stage::ReadingCommittedHead;
                    Action::ReadHead(workspace.rev_parse_head())
                } else {
                    self.finish(MutationError::Workspace)
                }
            },
            (Stage::ReadingCommittedHead, Event::HeadRead(head)) => match head {
                Some(head) => {
                    workspace.set_head(head.as_str());
                    self.stage = Stage::Pushing;
                    Action::Run(workspace.push_to(self.branch.as_str()))
                },
                None => self.finish(MutationError::CommittedNotPushed),
            },
            (Stage::Pushing, Event::CommandRan(ok)) => {
                if ok {
                    self.stage = Stage::Finished;
                    Action::Finish(Ok(()))
                } else {
                    self.finish(MutationError::CommittedNotPushed)
                }
            },
            _ => self.finish(MutationError::OutOfTurn),
        }
    }
}

} // verus!
