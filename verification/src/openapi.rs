//! The requests the server takes and the answers it gives.

use vstd::prelude::*;

use crate::catalog::{catalog_bytes, generate_empty_index};
use crate::clock::{now, Timestamp};
use crate::config::Config;
use crate::git::{create_message, update_message};
use crate::mutation::{
    descriptor_path, first_step, package_descriptor_path, Action, Mutation, MutationError,
    MutationKind, MutationView,
};
use crate::package::{
    effective_channel, first_target_for, lemma_first_target_for, optional_text, release_views,
    texts, LocalizedText, PackageRead, PackageReadView, Release, ReleaseView, Target,
};
use crate::state::{server_status, status_of, RepoIndexes, ServerStatus};
use crate::text::{join3, same_text, strip_suffix, without_suffix};
use crate::toml::Toml;

verus! {

/// The operations of the server.
#[derive(Debug, Clone, Copy, PartialEq, Eq, Structural)]
pub struct Api;

/// The description of a failure in an answer.
#[derive(Debug, Clone, PartialEq, Eq)]
pub struct Error {
    pub id: String,
    pub message: String,
}

/// The answer to a request that updates a package.
#[derive(Debug, Clone, PartialEq, Eq)]
pub struct UpdatePackageMetadataResponse {
    pub repo_id: String,
    pub package_id: String,
    pub success: bool,
    pub error: Option<Error>,
    pub timestamp: Timestamp,
}

/// A release to add to a package, or to replace in it.
#[derive(Debug, Clone, PartialEq, Eq)]
pub struct UpdatePackageMetadataRequest {
    pub version: String,
    pub channel: Option<String>,
    pub authors: Vec<String>,
    pub license: Option<String>,
    pub license_url: Option<String>,
    pub target: Target,
}

/// The metadata of a package to create.
#[derive(Debug, Clone, PartialEq, Eq)]
pub struct CreatePackageMetadataRequest {
    pub name: Vec<LocalizedText>,
    pub description: Vec<LocalizedText>,
    pub tags: Vec<String>,
}

/// The answer to a request that creates a package.
#[derive(Debug, Clone, PartialEq, Eq)]
pub struct CreatePackageMetadataResponse {
    pub repo_id: String,
    pub package_id: String,
    pub success: bool,
    pub error: Option<Error>,
    pub timestamp: Timestamp,
}

/// The token that callers of the write operations must present.
#[derive(Debug, Clone, PartialEq, Eq)]
pub struct ServerToken(pub String);

/// What tells a release apart in a query.
#[derive(Debug, Clone, PartialEq, Eq)]
pub struct PackageKeyParams {
    pub channel: Option<String>,
    pub platform: Option<String>,
}

impl UpdatePackageMetadataRequest {
    /// The release in words: version, platform, and channel in brackets.
    pub open spec fn summary_spec(&self) -> Seq<char> {
        self.version@ + " "@ + self.target.platform@ + " ("@ + effective_channel(
            optional_text(self.channel),
        ) + ")"@
    }

    /// The release in words, as commit messages name it: version, platform,
    /// and in brackets the channel, which is `stable` where none is given.
    pub fn summary(&self) -> (text: String)
        ensures
            text@ == self.summary_spec(),
    {
        let mut text = self.version.clone();
        text.append(" ");
        text.append(self.target.platform.as_str());
        text.append(" (");
        match &self.channel {
            Some(c) => text.append(c.as_str()),
            None => text.append("stable"),
        }
        text.append(")");
        text
    }
}

/// Checks the token a caller presented against the server's: `Some` where
/// they are the same text.
pub fn check_bearer_token(token: &ServerToken, bearer: &str) -> (r: Option<()>)
    ensures
        r is Some == (bearer@ == token.0@),
{
    if same_text(bearer, token.0.as_str()) {
        Some(())
    } else {
        None
    }
}

/// Why a request is refused.
#[derive(Debug, Clone, Copy, PartialEq, Eq, Structural)]
pub enum ApiError {
    /// What the request names does not exist.
    NotFound,
    /// The query names no platform.
    MissingPlatform,
    /// The version of the release is not valid.
    InvalidVersion,
    /// The metadata of the package to create was not accepted.
    InvalidMetadata,
    /// The package to create exists already.
    PackageExists,
    /// A descriptor on disk could not be read or understood.
    Descriptor,
    /// The workspace could not be worked on; nothing was committed.
    Workspace,
    /// The change was committed in the workspace but did not reach the
    /// remote.
    CommittedNotPushed,
    /// The server made a mistake of its own.
    Internal,
}

impl ApiError {
    /// The HTTP status that tells of the refusal.
    pub open spec fn status_spec(self) -> u16 {
        match self {
            ApiError::NotFound => 404,
            ApiError::MissingPlatform => 400,
            ApiError::InvalidVersion => 400,
            ApiError::InvalidMetadata => 400,
            ApiError::PackageExists => 409,
            ApiError::Descriptor => 500,
            ApiError::Workspace => 500,
            ApiError::CommittedNotPushed => 500,
            ApiError::Internal => 500,
        }
    }

    /// The HTTP status that tells of the refusal.
    pub fn status(self) -> (code: u16)
        ensures
            code == self.status_spec(),
    {
        match self {
            ApiError::NotFound => 404,
            ApiError::MissingPlatform => 400,
            ApiError::InvalidVersion => 400,
            ApiError::InvalidMetadata => 400,
            ApiError::PackageExists => 409,
            ApiError::Descriptor => 500,
            ApiError::Workspace => 500,
            ApiError::CommittedNotPushed => 500,
            ApiError::Internal => 500,
        }
    }
}

/// What a refusal says, for a request that names the package `package_id`.
pub open spec fn refusal_message(e: ApiError, package_id: Seq<char>) -> Seq<char> {
    match e {
        ApiError::NotFound => "not found"@,
        ApiError::MissingPlatform => "Missing query parameter for `platform`"@,
        ApiError::InvalidVersion => "Invalid version provided"@,
        ApiError::InvalidMetadata => "Invalid package metadata provided"@,
        ApiError::PackageExists => "Package with identifier `"@ + package_id
            + "` already exists."@,
        ApiError::Descriptor => "Descriptor could not be read"@,
        ApiError::Workspace => "Repo error"@,
        ApiError::CommittedNotPushed => "Committed locally but not pushed"@,
        ApiError::Internal => "Internal error"@,
    }
}

impl ApiError {
    /// What the refusal says, for a request that names the package
    /// `package_id`.
    pub fn message(self, package_id: &str) -> (text: String)
        ensures
            text@ == refusal_message(self, package_id@),
    {
        match self {
            ApiError::NotFound => String::from_str("not found"),
            ApiError::MissingPlatform => String::from_str("Missing query parameter for `platform`"),
            ApiError::InvalidVersion => String::from_str("Invalid version provided"),
            ApiError::InvalidMetadata => String::from_str("Invalid package metadata provided"),
            ApiError::PackageExists => join3(
                "Package with identifier `",
                package_id,
                "` already exists.",
            ),
            ApiError::Descriptor => String::from_str("Descriptor could not be read"),
            ApiError::Workspace => String::from_str("Repo error"),
            ApiError::CommittedNotPushed => String::from_str("Committed locally but not pushed"),
            ApiError::Internal => String::from_str("Internal error"),
        }
    }
}

/// The refusal that a failed write operation is answered with.
pub open spec fn refusal(e: MutationError) -> ApiError {
    match e {
        MutationError::NotFound => ApiError::NotFound,
        MutationError::Conflict => ApiError::PackageExists,
        MutationError::InvalidVersion => ApiError::InvalidVersion,
        MutationError::InvalidMetadata => ApiError::InvalidMetadata,
        MutationError::Repository => ApiError::Workspace,
        MutationError::Workspace => ApiError::Workspace,
        MutationError::CommittedNotPushed => ApiError::CommittedNotPushed,
        MutationError::OutOfTurn => ApiError::Internal,
    }
}

/// The refusal that a failed write operation is answered with.
pub fn refuse(e: MutationError) -> (r: ApiError)
    ensures
        r == refusal(e),
{
    match e {
        MutationError::NotFound => ApiError::NotFound,
        MutationError::Conflict => ApiError::PackageExists,
        MutationError::InvalidVersion => ApiError::InvalidVersion,
        MutationError::InvalidMetadata => ApiError::InvalidMetadata,
        MutationError::Repository => ApiError::Workspace,
        MutationError::Workspace => ApiError::Workspace,
        MutationError::CommittedNotPushed => ApiError::CommittedNotPushed,
        MutationError::OutOfTurn => ApiError::Internal,
    }
}

/// The URL of the payload to download: of the first release on `channel`
/// that has a target for `platform`, the first such target's.
pub open spec fn payload_location(
    releases: Seq<ReleaseView>,
    platform: Seq<char>,
    channel: Seq<char>,
) -> Option<Seq<char>>
    decreases releases.len(),
{
    if releases.len() == 0 {
        None
    } else {
        let first = releases[0];
        if effective_channel(first.channel) == channel && first_target_for(first.targets, platform)
            is Some {
            Some(first.targets[first_target_for(first.targets, platform)->0].url)
        } else {
            payload_location(releases.drop_first(), platform, channel)
        }
    }
}

/// The answer to a download, for the descriptor as read.
pub open spec fn download_answer(
    read: PackageReadView,
    platform: Seq<char>,
    channel: Seq<char>,
) -> Result<Seq<char>, ApiError> {
    match read {
        PackageReadView::Parsed(p) => match payload_location(p.releases, platform, channel) {
            Some(url) => Ok(url),
            None => Err(ApiError::NotFound),
        },
        _ => Err(ApiError::Descriptor),
    }
}

/// Whether an answer in text is the one the model gives.
pub open spec fn is_answer(
    r: Result<String, ApiError>,
    model: Result<Seq<char>, ApiError>,
) -> bool {
    match r {
        Ok(text) => model == Ok::<Seq<char>, ApiError>(text@),
        Err(e) => model == Err::<Seq<char>, ApiError>(e),
    }
}

/// Finds the payload to download among `releases`.
pub fn find_payload(releases: &Vec<Release>, platform: &str, channel: &str) -> (url: Option<String>)
    ensures
        optional_text(url) == payload_location(
            release_views(releases@),
            platform@,
            channel@,
        ),
{
    let ghost all = release_views(releases@);
    let mut i: usize = 0;
    assert(all.skip(0) =~= all);
    while i < releases.len()
        invariant
            i <= releases@.len(),
            all == release_views(releases@),
            payload_location(all, platform@, channel@) == payload_location(
                all.skip(i as int),
                platform@,
                channel@,
            ),
        decreases releases@.len() - i,
    {
        let release = &releases[i];
        proof {
            assert(all.skip(i as int)[0] == release@);
            assert(all.skip(i as int).drop_first() =~= all.skip(i + 1));
        }
        if release.is_on_channel(channel) {
            match release.target_for(platform) {
                Some(k) => {
                    proof {
                        lemma_first_target_for(release@.targets, platform@);
                    }
                    return Some(release.targets[k].url.clone());
                },
                None => {},
            }
        }
        i = i + 1;
    }
    None
}

/// What a download asks for, once the query is accepted.
#[derive(Debug, Clone, PartialEq, Eq)]
pub struct DownloadQuery {
    /// The path of the package's descriptor under the workspace.
    pub descriptor: Vec<String>,
    pub platform: String,
    /// The channel asked for; `stable` where the query names none.
    pub channel: String,
}

/// Where the binary index of an answer comes from.
#[derive(Debug, Clone, PartialEq, Eq)]
pub enum IndexAnswer {
    /// These bytes.
    Index(Vec<u8>),
    /// The synthetic index for clients of version 0.1.0.
    Workaround,
}

/// The name by which a client of version 0.1.0 calls itself.
pub open spec fn legacy_user_agent() -> Seq<char> {
    "pahkat-client/0.1.0"@
}

/// The repository whose index is replaced for clients of version
/// 0.1.0.
pub open spec fn legacy_repo() -> Seq<char> {
    "divvun-installer"@
}

/// The text file that a request for the strings of `lang` asks for: `lang`
/// without `.toml` at its end, or `en` where nothing is left of it.
pub open spec fn strings_stem(lang: Seq<char>) -> Option<Seq<char>> {
    match without_suffix(lang, ".toml"@) {
        Some(stem) => if stem.len() == 0 {
            Some("en"@)
        } else {
            Some(stem)
        },
        None => None,
    }
}

impl Api {
    /// The status of the server.
    pub fn status(&self, indexes: &RepoIndexes) -> (status: ServerStatus)
        ensures
            status@ == status_of(indexes.ids(), indexes.snapshots()),
    {
        server_status(indexes)
    }

    /// Begins the creation of a package: the first step of the operation,
    /// which is refused at once for a repository that is not hosted.
    pub fn create_package_metadata(&self, config: &Config, repo_id: &str, package_id: &str) -> (r:
        (Mutation, Action))
        ensures
            r.0@ == (MutationView {
                kind: MutationKind::Create,
                repo_id: repo_id@,
                package_id: package_id@,
                version: Seq::<char>::empty(),
                message: create_message(repo_id@, package_id@),
                branch: config.branch_name@,
                stage: first_step(config.hosts_spec(repo_id@), repo_id@, package_id@).0,
            }),
            r.1@ == first_step(config.hosts_spec(repo_id@), repo_id@, package_id@).1,
    {
        Mutation::create(config, repo_id, package_id)
    }

    /// Begins the update of a package with the release in `data`.
    pub fn update_package_metadata(
        &self,
        config: &Config,
        repo_id: &str,
        package_id: &str,
        data: &UpdatePackageMetadataRequest,
    ) -> (r: (Mutation, Action))
        ensures
            r.0@ == (MutationView {
                kind: MutationKind::Update,
                repo_id: repo_id@,
                package_id: package_id@,
                version: data.version@,
                message: update_message(repo_id@, package_id@, data.summary_spec()),
                branch: config.branch_name@,
                stage: first_step(config.hosts_spec(repo_id@), repo_id@, package_id@).0,
            }),
            r.1@ == first_step(config.hosts_spec(repo_id@), repo_id@, package_id@).1,
    {
        Mutation::update(config, repo_id, package_id, data)
    }

    /// The answer to a creation that ended with `result`: the refusal that
    /// goes with a failure, or the confirmation, stamped with the time.
    pub fn created(&self, mutation: &Mutation, result: Result<(), MutationError>) -> (r: Result<
        CreatePackageMetadataResponse,
        ApiError,
    >)
        ensures
            match (result, r) {
                (Ok(_), Ok(answer)) => {
                    &&& answer.repo_id@ == mutation.repo_id@
                    &&& answer.package_id@ == mutation.package_id@
                    &&& answer.success
                    &&& answer.error is None
                },
                (Err(e), Err(refused)) => refused == refusal(e),
                _ => false,
            },
    {
        match result {
            Ok(_) => Ok(
                CreatePackageMetadataResponse {
                    repo_id: mutation.repo_id.clone(),
                    package_id: mutation.package_id.clone(),
                    success: true,
                    error: None,
                    timestamp: now(),
                },
            ),
            Err(e) => Err(refuse(e)),
        }
    }

    /// The answer to an update that ended with `result`.
    pub fn updated(&self, mutation: &Mutation, result: Result<(), MutationError>) -> (r: Result<
        UpdatePackageMetadataResponse,
        ApiError,
    >)
        ensures
            match (result, r) {
                (Ok(_), Ok(answer)) => {
                    &&& answer.repo_id@ == mutation.repo_id@
                    &&& answer.package_id@ == mutation.package_id@
                    &&& answer.success
                    &&& answer.error is None
                },
                (Err(e), Err(refused)) => refused == refusal(e),
                _ => false,
            },
    {
        match result {
            Ok(_) => Ok(
                UpdatePackageMetadataResponse {
                    repo_id: mutation.repo_id.clone(),
                    package_id: mutation.package_id.clone(),
                    success: true,
                    error: None,
                    timestamp: now(),
                },
            ),
            Err(e) => Err(refuse(e)),
        }
    }

    /// Accepts or refuses the query of a download: the repository must be
    /// hosted and the query must name a platform. An accepted query says
    /// which descriptor to read.
    pub fn download_query(
        &self,
        config: &Config,
        repo_id: &str,
        package_id: &str,
        params: &PackageKeyParams,
    ) -> (r: Result<DownloadQuery, ApiError>)
        ensures
            match r {
                Ok(query) => {
                    &&& config.hosts_spec(repo_id@)
                    &&& params.platform is Some
                    &&& query.platform@ == params.platform->0@
                    &&& query.channel@ == effective_channel(
                        optional_text(params.channel),
                    )
                    &&& texts(query.descriptor@) == descriptor_path(repo_id@, package_id@)
                },
                Err(e) => if !config.hosts_spec(repo_id@) {
                    e == ApiError::NotFound
                } else {
                    params.platform is None && e == ApiError::MissingPlatform
                },
            },
    {
        if !config.hosts(repo_id) {
            return Err(ApiError::NotFound);
        }
        let platform = match &params.platform {
            Some(p) => p.clone(),
            None => {
                return Err(ApiError::MissingPlatform);
            },
        };
        let channel = match &params.channel {
            Some(c) => c.clone(),
            None => String::from_str("stable"),
        };
        Ok(
            DownloadQuery {
                descriptor: package_descriptor_path(repo_id, package_id),
                platform,
                channel,
            },
        )
    }

    /// Answers a download with the URL to redirect to: the payload of the
    /// first release on the channel asked for that has a target for the
    /// platform asked for.
    pub fn download(&self, query: &DownloadQuery, read: &PackageRead) -> (r: Result<
        String,
        ApiError,
    >)
        ensures
            is_answer(r, download_answer(read@, query.platform@, query.channel@)),
    {
        match read {
            PackageRead::Parsed(package) => {
                match find_payload(
                    &package.releases,
                    query.platform.as_str(),
                    query.channel.as_str(),
                ) {
                    Some(url) => Ok(url),
                    None => Err(ApiError::NotFound),
                }
            },
            _ => Err(ApiError::Descriptor),
        }
    }

    fn workaround_download(&self, read: &PackageRead) -> (r: Result<String, ApiError>)
        ensures
            is_answer(r, download_answer(read@, "windows"@, "stable"@)),
    {
        match read {
            PackageRead::Parsed(package) => {
                match find_payload(&package.releases, "windows", "stable") {
                    Some(url) => Ok(url),
                    None => Err(ApiError::NotFound),
                }
            },
            _ => Err(ApiError::Descriptor),
        }
    }

    /// Answers the download of the service by a client of version
    /// 0.1.0: the payload of its first stable release for Windows. `read` is
    /// the service's descriptor.
    pub fn workaround_download_pahkat(&self, read: &PackageRead) -> (r: Result<String, ApiError>)
        ensures
            is_answer(r, download_answer(read@, "windows"@, "stable"@)),
    {
        self.workaround_download(read)
    }

    /// Answers the download of the installer by a client of version
    /// 0.1.0: the payload of its first stable release for Windows. `read` is
    /// the installer's descriptor.
    pub fn workaround_download_divvun_manager(&self, read: &PackageRead) -> (r: Result<
        String,
        ApiError,
    >)
        ensures
            is_answer(r, download_answer(read@, "windows"@, "stable"@)),
    {
        self.workaround_download(read)
    }

    /// The path of a package's descriptor under the workspace.
    pub fn package_descriptor(&self, repo_id: &str, package_id: &str) -> (path: Vec<String>)
        ensures
            texts(path@) == descriptor_path(repo_id@, package_id@),
    {
        package_descriptor_path(repo_id, package_id)
    }

    /// The path of a repository's descriptor under the workspace.
    pub fn repository_index_toml(&self, repo_id: &str) -> (path: Vec<String>)
        ensures
            texts(path@) == seq![repo_id@, "index.toml"@],
    {
        let mut path: Vec<String> = Vec::new();
        path.push(String::from_str(repo_id));
        path.push(String::from_str("index.toml"));
        assert(texts(path@) =~= seq![repo_id@, "index.toml"@]);
        path
    }

    /// The path, under the workspace, of the file that holds a repository's
    /// strings in a language, without the extension `toml` that the file
    /// has. `lang` must end in `.toml`; where nothing stands before that, the
    /// language is `en`.
    pub fn strings(&self, repo_id: &str, lang: &str) -> (r: Result<Vec<String>, ApiError>)
        ensures
            match r {
                Ok(path) => strings_stem(lang@) is Some && texts(path@) == seq![
                    repo_id@,
                    "strings"@,
                    strings_stem(lang@)->0,
                ],
                Err(e) => strings_stem(lang@) is None && e == ApiError::NotFound,
            },
    {
        let stem = match strip_suffix(lang, ".toml") {
            Some(stem) => stem,
            None => {
                return Err(ApiError::NotFound);
            },
        };
        let stem = if stem.as_str().unicode_len() == 0 {
            String::from_str("en")
        } else {
            stem
        };
        let mut path: Vec<String> = Vec::new();
        path.push(String::from_str(repo_id));
        path.push(String::from_str("strings"));
        path.push(stem);
        assert(texts(path@) =~= seq![repo_id@, "strings"@, strings_stem(lang@)->0]);
        Ok(path)
    }

    /// The answer that serves a file of the workspace: its text as read, or
    /// not found where it could not be read.
    pub fn serve(&self, read: Option<String>) -> (r: Result<Toml<String>, ApiError>)
        ensures
            match (read, r) {
                (Some(text), Ok(body)) => body.0 == text,
                (None, Err(e)) => e == ApiError::NotFound,
                _ => false,
            },
    {
        match read {
            Some(text) => Ok(Toml(text)),
            None => Err(ApiError::NotFound),
        }
    }

    /// Answers a request for a repository's binary index. A client of
    /// version 0.1.0 gets the synthetic index for the installer's
    /// repository and an empty index for every other; any other client gets
    /// the index of the repository's current snapshot.
    pub fn repository_index_bin(
        &self,
        indexes: &RepoIndexes,
        repo_id: &str,
        user_agent: Option<&str>,
    ) -> (r: Result<IndexAnswer, ApiError>)
        ensures
            match r {
                Ok(IndexAnswer::Workaround) => {
                    &&& user_agent matches Some(agent) && agent@ == legacy_user_agent()
                    &&& repo_id@ == legacy_repo()
                },
                Ok(IndexAnswer::Index(bytes)) => if user_agent matches Some(agent) && agent@
                    == legacy_user_agent() {
                    repo_id@ != legacy_repo() && bytes@ == catalog_bytes(Seq::empty())
                } else {
                    &&& indexes@.contains_key(repo_id@)
                    &&& bytes@ == indexes@[repo_id@].package_index
                    &&& bytes@ == catalog_bytes(indexes@[repo_id@].packages)
                },
                Err(e) => {
                    &&& !(user_agent matches Some(agent) && agent@ == legacy_user_agent())
                    &&& !indexes@.contains_key(repo_id@)
                    &&& e == ApiError::NotFound
                },
            },
    {
        let legacy = match user_agent {
            Some(agent) => same_text(agent, "pahkat-client/0.1.0"),
            None => false,
        };
        if legacy {
            if same_text(repo_id, "divvun-installer") {
                Ok(IndexAnswer::Workaround)
            } else {
                Ok(IndexAnswer::Index(generate_empty_index()))
            }
        } else {
            match indexes.get(repo_id) {
                Some(data) => {
                    let index = data.package_index();
                    let mut bytes: Vec<u8> = Vec::new();
                    let mut i: usize = 0;
                    while i < index.len()
                        invariant
                            i <= index@.len(),
                            bytes@ == index@.take(i as int),
                        decreases index@.len() - i,
                    {
                        bytes.push(index[i]);
                        assert(index@.take(i + 1) =~= index@.take(i as int).push(index@[i as int]));
                        i = i + 1;
                    }
                    assert(index@.take(i as int) =~= index@);
                    Ok(IndexAnswer::Index(bytes))
                },
                None => Err(ApiError::NotFound),
            }
        }
    }
}

} // verus!
