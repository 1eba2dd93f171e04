//! The workspace: one directory under version control that holds every
//! hosted repository.
//!
//! The workspace is worked on by running `git` in it. This module says which
//! command each operation runs; running them is left to the caller, who
//! hands back what `git rev-parse HEAD` printed where the version moved.

use vstd::prelude::*;

use crate::config::Config;
use crate::openapi::UpdatePackageMetadataRequest;
use crate::package::{optional_text, texts};
use crate::text::{join2, join3, trim, trimmed};

verus! {

/// One run of `git`.
#[derive(Debug, Clone, PartialEq, Eq)]
pub struct GitCommand {
    /// The arguments after the program's name.
    pub args: Vec<String>,
    /// The directory to run in; `None` is the directory of the process.
    pub current_dir: Option<String>,
}

/// A run of `git` as contracts see it.
pub struct GitCommandView {
    pub args: Seq<Seq<char>>,
    pub current_dir: Option<Seq<char>>,
}

impl View for GitCommand {
    type V = GitCommandView;

    open spec fn view(&self) -> GitCommandView {
        GitCommandView {
            args: texts(self.args@),
            current_dir: optional_text(self.current_dir),
        }
    }
}

/// The view of each command of a list.
pub open spec fn git_command_views(v: Seq<GitCommand>) -> Seq<GitCommandView> {
    v.map_values(|c: GitCommand| c@)
}

/// The workspace: where it lies, and the version it is at.
#[derive(Debug, Clone, PartialEq, Eq)]
pub struct GitRepo {
    /// Canonical path of the directory.
    pub path: String,
    /// The commit that the workspace was last seen at.
    pub head_ref: String,
}

/// The workspace as contracts see it.
pub struct WorkspaceView {
    pub path: Seq<char>,
    pub head_ref: Seq<char>,
}

impl View for GitRepo {
    type V = WorkspaceView;

    open spec fn view(&self) -> WorkspaceView {
        WorkspaceView { path: self.path@, head_ref: self.head_ref@ }
    }
}

/// `git` with `args`, run in `dir`.
pub open spec fn in_dir(dir: Seq<char>, args: Seq<Seq<char>>) -> GitCommandView {
    GitCommandView { args: args, current_dir: Some(dir) }
}

/// The command that asks for the current commit.
pub open spec fn rev_parse_command(dir: Seq<char>) -> GitCommandView {
    in_dir(dir, seq!["rev-parse"@, "HEAD"@])
}

/// The command that stages a package's directory.
pub open spec fn add_command(
    dir: Seq<char>,
    repo_id: Seq<char>,
    package_id: Seq<char>,
) -> GitCommandView {
    in_dir(dir, seq!["add"@, repo_id + "/packages/"@ + package_id])
}

/// The message of the commit that creates a package.
pub open spec fn create_message(repo_id: Seq<char>, package_id: Seq<char>) -> Seq<char> {
    "["@ + repo_id + ":create] `"@ + package_id + "`"@
}

/// The message of the commit that updates a package with a release.
pub open spec fn update_message(
    repo_id: Seq<char>,
    package_id: Seq<char>,
    release: Seq<char>,
) -> Seq<char> {
    "["@ + repo_id + ":update] `"@ + package_id + " "@ + release + "`"@
}

/// The command that commits what is staged under `message`.
pub open spec fn commit_command(dir: Seq<char>, message: Seq<char>) -> GitCommandView {
    in_dir(dir, seq!["commit"@, "-m"@, message])
}

/// The command that sends the current commit to `branch` of the remote.
pub open spec fn push_command(dir: Seq<char>, branch: Seq<char>) -> GitCommandView {
    in_dir(dir, seq!["push"@, "origin"@, "HEAD:"@ + branch])
}

/// The command that removes from the workspace what is not tracked.
pub open spec fn clean_command(dir: Seq<char>) -> GitCommandView {
    in_dir(dir, seq!["clean"@, "-dfx"@])
}

/// The command that fetches `branch` of the remote.
pub open spec fn fetch_command(dir: Seq<char>, branch: Seq<char>) -> GitCommandView {
    in_dir(dir, seq!["fetch"@, "origin"@, branch])
}

/// The command that resets the workspace to the fetched tip of `branch`.
pub open spec fn reset_command(dir: Seq<char>, branch: Seq<char>) -> GitCommandView {
    in_dir(dir, seq!["reset"@, "--hard"@, "origin/"@ + branch])
}

/// The commands that bring the workspace to the state of `branch` of the
/// remote: drop what is not tracked, fetch the branch, reset to its tip.
pub open spec fn cleanup_commands(dir: Seq<char>, branch: Seq<char>) -> Seq<GitCommandView> {
    seq![clean_command(dir), fetch_command(dir, branch), reset_command(dir, branch)]
}

/// The command that copies the workspace's current commit into `target`.
pub open spec fn clone_command(dir: Seq<char>, target: Seq<char>) -> GitCommandView {
    GitCommandView {
        args: seq!["clone"@, "--depth"@, "1"@, "file://"@ + dir, target],
        current_dir: None,
    }
}

fn push_arg(args: &mut Vec<String>, arg: String)
    ensures
        texts(final(args)@) == texts(old(args)@).push(arg@),
{
    args.push(arg);
    assert(texts(args@) =~= texts(old(args)@).push(arg@));
}

fn push_word(args: &mut Vec<String>, word: &str)
    ensures
        texts(final(args)@) == texts(old(args)@).push(word@),
{
    push_arg(args, String::from_str(word));
}

fn no_args() -> (args: Vec<String>)
    ensures
        texts(args@) == Seq::<Seq<char>>::empty(),
{
    let args: Vec<String> = Vec::new();
    assert(texts(args@) =~= Seq::<Seq<char>>::empty());
    args
}

/// The message of the commit that creates a package.
pub fn commit_message_for_creation(repo_id: &str, package_id: &str) -> (message: String)
    ensures
        message@ == create_message(repo_id@, package_id@),
{
    let mut message = join3("[", repo_id, ":create] `");
    message.append(package_id);
    message.append("`");
    message
}

/// The message of the commit that updates a package with `release`.
pub fn commit_message_for_update(
    repo_id: &str,
    package_id: &str,
    release: &UpdatePackageMetadataRequest,
) -> (message: String)
    ensures
        message@ == update_message(repo_id@, package_id@, release.summary_spec()),
{
    let mut message = join3("[", repo_id, ":update] `");
    message.append(package_id);
    message.append(" ");
    message.append(release.summary().as_str());
    message.append("`");
    message
}

impl GitRepo {
    /// The workspace at the canonical path `path`, at the commit that
    /// `git rev-parse HEAD` printed as `head`.
    pub fn new(path: String, head: &str) -> (repo: GitRepo)
        ensures
            repo@ == (WorkspaceView { path: path@, head_ref: trimmed(head@) }),
    {
        GitRepo { path, head_ref: trim(head) }
    }

    fn run(&self, args: Vec<String>) -> (command: GitCommand)
        ensures
            command@ == in_dir(self.path@, texts(args@)),
    {
        GitCommand { args, current_dir: Some(self.path.clone()) }
    }

    /// The version that the workspace was last seen at.
    pub fn current_version(&self) -> (version: &String)
        ensures
            version@ == self@.head_ref,
    {
        &self.head_ref
    }

    /// The command that asks which commit the workspace is at.
    pub fn rev_parse_head(&self) -> (command: GitCommand)
        ensures
            command@ == rev_parse_command(self.path@),
    {
        let mut args = no_args();
        push_word(&mut args, "rev-parse");
        push_word(&mut args, "HEAD");
        assert(texts(args@) =~= seq!["rev-parse"@, "HEAD"@]);
        self.run(args)
    }

    /// Records the commit that `git rev-parse HEAD` printed as `head`.
    pub fn set_head(&mut self, head: &str)
        ensures
            final(self).path == old(self).path,
            final(self)@ == (WorkspaceView { path: old(self)@.path, head_ref: trimmed(head@) }),
    {
        self.head_ref = trim(head);
    }

    /// The command that stages the directory of a package for the next
    /// commit.
    pub fn add_package_to_index_tree(&self, repo_id: &str, package_id: &str) -> (command:
        GitCommand)
        ensures
            command@ == add_command(self.path@, repo_id@, package_id@),
    {
        let mut args = no_args();
        push_word(&mut args, "add");
        push_arg(&mut args, join3(repo_id, "/packages/", package_id));
        assert(texts(args@) =~= seq!["add"@, repo_id@ + "/packages/"@ + package_id@]);
        self.run(args)
    }

    /// The command that commits what is staged under `message`.
    pub fn commit(&self, message: String) -> (command: GitCommand)
        ensures
            command@ == commit_command(self.path@, message@),
    {
        let mut args = no_args();
        push_word(&mut args, "commit");
        push_word(&mut args, "-m");
        push_arg(&mut args, message);
        assert(texts(args@) =~= seq!["commit"@, "-m"@, message@]);
        self.run(args)
    }

    /// The command that commits the creation of a package.
    pub fn commit_create(&self, repo_id: &str, package_id: &str) -> (command: GitCommand)
        ensures
            command@ == commit_command(self.path@, create_message(repo_id@, package_id@)),
    {
        self.commit(commit_message_for_creation(repo_id, package_id))
    }

    /// The command that commits the update of a package with `release`.
    pub fn commit_update(
        &self,
        repo_id: &str,
        package_id: &str,
        release: &UpdatePackageMetadataRequest,
    ) -> (command: GitCommand)
        ensures
            command@ == commit_command(
                self.path@,
                update_message(repo_id@, package_id@, release.summary_spec()),
            ),
    {
        self.commit(commit_message_for_update(repo_id, package_id, release))
    }

    /// The command that sends the current commit to `branch` of the remote.
    pub fn push_to(&self, branch: &str) -> (command: GitCommand)
        ensures
            command@ == push_command(self.path@, branch@),
    {
        let mut args = no_args();
        push_word(&mut args, "push");
        push_word(&mut args, "origin");
        push_arg(&mut args, join2("HEAD:", branch));
        assert(texts(args@) =~= seq!["push"@, "origin"@, "HEAD:"@ + branch@]);
        self.run(args)
    }

    /// The command that sends the current commit to the remote.
    pub fn push(&self, config: &Config) -> (command: GitCommand)
        ensures
            command@ == push_command(self.path@, config.branch_name@),
    {
        self.push_to(config.branch_name.as_str())
    }

    /// The command that removes from the workspace what is not tracked.
    pub fn clean(&self) -> (command: GitCommand)
        ensures
            command@ == clean_command(self.path@),
    {
        let mut args = no_args();
        push_word(&mut args, "clean");
        push_word(&mut args, "-dfx");
        assert(texts(args@) =~= seq!["clean"@, "-dfx"@]);
        self.run(args)
    }

    /// The command that fetches `branch` of the remote.
    pub fn fetch(&self, branch: &str) -> (command: GitCommand)
        ensures
            command@ == fetch_command(self.path@, branch@),
    {
        let mut args = no_args();
        push_word(&mut args, "fetch");
        push_word(&mut args, "origin");
        push_word(&mut args, branch);
        assert(texts(args@) =~= seq!["fetch"@, "origin"@, branch@]);
        self.run(args)
    }

    /// The command that resets the workspace to the fetched tip of `branch`.
    pub fn reset(&self, branch: &str) -> (command: GitCommand)
        ensures
            command@ == reset_command(self.path@, branch@),
    {
        let mut args = no_args();
        push_word(&mut args, "reset");
        push_word(&mut args, "--hard");
        push_arg(&mut args, join2("origin/", branch));
        assert(texts(args@) =~= seq!["reset"@, "--hard"@, "origin/"@ + branch@]);
        self.run(args)
    }

    /// The commands that bring the workspace to the state of the remote, in
    /// the order in which they run.
    pub fn cleanup(&self, config: &Config) -> (commands: Vec<GitCommand>)
        ensures
            git_command_views(commands@) == cleanup_commands(self.path@, config.branch_name@),
    {
        let branch = config.branch_name.as_str();
        let mut commands: Vec<GitCommand> = Vec::new();
        commands.push(self.clean());
        commands.push(self.fetch(branch));
        commands.push(self.reset(branch));
        assert(git_command_views(commands@) =~= cleanup_commands(self.path@, config.branch_name@));
        commands
    }

    /// The command that copies the current commit of the workspace, and no
    /// history, into the fresh directory `target`.
    pub fn shallow_clone_to_tempdir(&self, target: &str) -> (command: GitCommand)
        ensures
            command@ == clone_command(self.path@, target@),
    {
        let mut args = no_args();
        push_word(&mut args, "clone");
        push_word(&mut args, "--depth");
        push_word(&mut args, "1");
        push_arg(&mut args, join2("file://", self.path.as_str()));
        push_word(&mut args, target);
        assert(texts(args@) =~= seq![
            "clone"@,
            "--depth"@,
            "1"@,
            "file://"@ + self.path@,
            target@,
        ]);
        GitCommand { args, current_dir: None }
    }
}

} // verus!
