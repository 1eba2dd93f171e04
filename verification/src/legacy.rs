//! The index served to clients of version 0.1.0.
//!
//! Such a client cannot update itself through a current index. It is given a
//! synthetic one instead: for the installer and for the service, the newest
//! stable Windows release only, under a placeholder version above every real
//! one, with a payload URL that leads back to this server.

use vstd::prelude::*;

use crate::catalog::{build_index, catalog_bytes};
use crate::config::Config;
use crate::package::{
    first_target_for, lemma_first_target_for, optional_text, package_views, release_views,
    PackageRead, PackageReadView, PackageRecord, PackageView, Release, ReleaseView, Target,
    TargetView, Version, VersionView,
};
use crate::text::join2;

verus! {

/// The two packages that the synthetic index lists.
#[derive(Debug, Clone, Copy, PartialEq, Eq, Structural)]
pub enum LegacyPackage {
    DivvunInstaller,
    PahkatService,
}

/// Why no synthetic index can be built.
#[derive(Debug, Clone, Copy, PartialEq, Eq, Structural)]
pub enum WorkaroundFault {
    /// The package's descriptor could not be read.
    Unreadable,
    /// The package's descriptor is malformed.
    Malformed,
    /// The package has no stable release for Windows.
    NoWindowsRelease,
    /// A stable Windows release of the package has no semantic version.
    InvalidVersion,
    /// The payload URL made for the package is no URL.
    InvalidUrl,
}

/// A fault and the package it was found in.
#[derive(Debug, Clone, Copy, PartialEq, Eq, Structural)]
pub struct WorkaroundError {
    pub package: LegacyPackage,
    pub fault: WorkaroundFault,
}

/// What `url::Url::parse` reads in a text, written out again: the URL in
/// its normal form, or `None` where the text is no absolute URL.
pub uninterp spec fn parsed_url(text: Seq<char>) -> Option<Seq<char>>;

/// The platform whose releases the synthetic index lists.
pub open spec fn windows() -> Seq<char> {
    "windows"@
}

/// The version that every release in the synthetic index carries.
pub open spec fn placeholder_version() -> VersionView {
    VersionView { text: "99.0.0"@, semantic_rank: Some(u64::MAX) }
}

/// The path segment under which the server redirects to a package's payload.
pub open spec fn download_segment(package: LegacyPackage) -> Seq<char> {
    match package {
        LegacyPackage::DivvunInstaller => "1AAB4845-32A9-41A8-BBDE-120847548A81"@,
        LegacyPackage::PahkatService => "1AAB4845-32A9-41A8-BBDE-120847548A82"@,
    }
}

/// The identifier of a package, which is also the stem of its file name.
pub open spec fn package_name(package: LegacyPackage) -> Seq<char> {
    match package {
        LegacyPackage::DivvunInstaller => "divvun-installer"@,
        LegacyPackage::PahkatService => "pahkat-service"@,
    }
}

/// The text of the payload URL: the server's URL, the package's segment, and
/// a file name made of the package's name and the nonce.
pub open spec fn payload_url_text(
    base: Seq<char>,
    package: LegacyPackage,
    nonce: Seq<char>,
) -> Seq<char> {
    base + "/"@ + download_segment(package) + "/"@ + package_name(package) + "-"@ + nonce
        + ".exe"@
}

/// Whether a release is a candidate: on the stable channel, with a target for
/// Windows.
pub open spec fn is_windows_stable(r: ReleaseView) -> bool {
    r.channel is None && first_target_for(r.targets, windows()) is Some
}

/// Whether there is a candidate among `releases`.
pub open spec fn has_windows_stable(releases: Seq<ReleaseView>) -> bool {
    exists|j: int| 0 <= j < releases.len() && is_windows_stable(#[trigger] releases[j])
}

/// Whether a candidate among `releases` has a version without rank.
pub open spec fn has_unranked_candidate(releases: Seq<ReleaseView>) -> bool {
    exists|j: int|
        0 <= j < releases.len() && is_windows_stable(#[trigger] releases[j])
            && releases[j].version.semantic_rank is None
}

/// The rank of a release's version; below every rank where it has none.
pub open spec fn rank(r: ReleaseView) -> int {
    match r.version.semantic_rank {
        Some(k) => k as int,
        None => -1,
    }
}

/// Whether release `i` is the candidate of the highest rank, and the last of
/// those where several share it.
pub open spec fn is_newest_windows_stable(releases: Seq<ReleaseView>, i: int) -> bool {
    &&& 0 <= i < releases.len()
    &&& is_windows_stable(releases[i])
    &&& forall|j: int|
        0 <= j < releases.len() && is_windows_stable(#[trigger] releases[j]) ==> rank(releases[j])
            <= rank(releases[i])
    &&& forall|j: int|
        i < j < releases.len() && is_windows_stable(#[trigger] releases[j]) ==> rank(releases[j])
            < rank(releases[i])
}

/// The index of the newest stable Windows release.
pub open spec fn newest_windows_stable(releases: Seq<ReleaseView>) -> int {
    choose|i: int| is_newest_windows_stable(releases, i)
}

/// Why no release of `releases` can be chosen, if none can.
pub open spec fn selection_fault(releases: Seq<ReleaseView>) -> Option<WorkaroundFault> {
    if !has_windows_stable(releases) {
        Some(WorkaroundFault::NoWindowsRelease)
    } else if has_unranked_candidate(releases) {
        Some(WorkaroundFault::InvalidVersion)
    } else {
        None
    }
}

/// The package with release `i` alone, under the placeholder version, and of
/// that release the first Windows target alone, with `url` as its payload.
pub open spec fn downgraded_at(p: PackageView, i: int, url: Seq<char>) -> PackageView {
    let r = p.releases[i];
    let t = r.targets[first_target_for(r.targets, windows())->0];
    PackageView {
        id: p.id,
        name: p.name,
        description: p.description,
        tags: p.tags,
        releases: seq![
            ReleaseView {
                version: placeholder_version(),
                channel: r.channel,
                targets: seq![TargetView { platform: t.platform, url: url }],
            },
        ],
    }
}

/// The package as the synthetic index lists it.
pub open spec fn downgraded(p: PackageView, url: Seq<char>) -> PackageView {
    downgraded_at(p, newest_windows_stable(p.releases), url)
}

/// The error that names `fault` in `package`.
pub open spec fn fault_in(package: LegacyPackage, fault: WorkaroundFault) -> WorkaroundError {
    WorkaroundError { package, fault }
}

/// The synthetic index for the two descriptors as read, and for the two
/// payload URLs as parsed; or the first fault that stands in its way.
pub open spec fn workaround_outcome(
    installer: PackageReadView,
    service: PackageReadView,
    installer_url: Option<Seq<char>>,
    service_url: Option<Seq<char>>,
) -> Result<Seq<u8>, WorkaroundError> {
    if installer is Unreadable {
        Err(fault_in(LegacyPackage::DivvunInstaller, WorkaroundFault::Unreadable))
    } else if service is Unreadable {
        Err(fault_in(LegacyPackage::PahkatService, WorkaroundFault::Unreadable))
    } else if installer is Malformed {
        Err(fault_in(LegacyPackage::DivvunInstaller, WorkaroundFault::Malformed))
    } else if service is Malformed {
        Err(fault_in(LegacyPackage::PahkatService, WorkaroundFault::Malformed))
    } else {
        let installer = installer->Parsed_0;
        let service = service->Parsed_0;
        if selection_fault(installer.releases) is Some {
            Err(fault_in(LegacyPackage::DivvunInstaller, selection_fault(installer.releases)->0))
        } else if selection_fault(service.releases) is Some {
            Err(fault_in(LegacyPackage::PahkatService, selection_fault(service.releases)->0))
        } else if installer_url is None {
            Err(fault_in(LegacyPackage::DivvunInstaller, WorkaroundFault::InvalidUrl))
        } else if service_url is None {
            Err(fault_in(LegacyPackage::PahkatService, WorkaroundFault::InvalidUrl))
        } else {
            Ok(
                catalog_bytes(
                    seq![
                        downgraded(installer, installer_url->0),
                        downgraded(service, service_url->0),
                    ],
                ),
            )
        }
    }
}

/// The synthetic index for a server at `base` and for `nonce`, or the first
/// fault that stands in its way.
pub open spec fn workaround_outcome_for(
    base: Seq<char>,
    nonce: Seq<char>,
    installer: PackageReadView,
    service: PackageReadView,
) -> Result<Seq<u8>, WorkaroundError> {
    workaround_outcome(
        installer,
        service,
        parsed_url(payload_url_text(base, LegacyPackage::DivvunInstaller, nonce)),
        parsed_url(payload_url_text(base, LegacyPackage::PahkatService, nonce)),
    )
}

/// Whether an outcome in bytes and texts is the one the model gives.
pub open spec fn is_outcome(
    r: Result<Vec<u8>, WorkaroundError>,
    model: Result<Seq<u8>, WorkaroundError>,
) -> bool {
    match r {
        Ok(index) => model == Ok::<Seq<u8>, WorkaroundError>(index@),
        Err(e) => model == Err::<Seq<u8>, WorkaroundError>(e),
    }
}

/// At most one release is the newest.
pub proof fn lemma_newest_is_unique(releases: Seq<ReleaseView>, i: int, j: int)
    requires
        is_newest_windows_stable(releases, i),
        is_newest_windows_stable(releases, j),
    ensures
        i == j,
{
}

/// Calls `url::Url::parse` on `text` and, where it reads a URL there, hands
/// back the URL as the crate writes it out. The contract claims one thing:
/// the answer depends on `text` alone, and is what [`parsed_url`] names.
#[verifier::external_body]
fn parse_url(text: &str) -> (url: Option<String>)
    ensures
        optional_text(url) == parsed_url(text@),
{
    match url::Url::parse(text) {
        Ok(url) => Some(String::from(url)),
        Err(_) => None,
    }
}

/// Draws a random identifier with `uuid::Uuid::new_v4` and writes it out.
/// Nothing is claimed of it. The call panics on a machine that gives no
/// random bytes.
#[verifier::external_body]
fn fresh_nonce() -> (nonce: String) {
    uuid::Uuid::new_v4().to_string()
}

/// Finds the newest stable Windows release.
pub fn select_release(releases: &Vec<Release>) -> (r: Result<usize, WorkaroundFault>)
    ensures
        match r {
            Ok(i) => {
                &&& selection_fault(release_views(releases@)) is None
                &&& i == newest_windows_stable(release_views(releases@))
                &&& is_newest_windows_stable(release_views(releases@), i as int)
            },
            Err(fault) => selection_fault(release_views(releases@)) == Some(fault),
        },
{
    let ghost all = release_views(releases@);
    let mut best: Option<(usize, u64)> = None;
    let mut unranked: bool = false;
    let mut i: usize = 0;
    while i < releases.len()
        invariant
            i <= releases@.len(),
            all == release_views(releases@),
            unranked <==> exists|j: int|
                0 <= j < i && is_windows_stable(#[trigger] all[j])
                    && all[j].version.semantic_rank is None,
            best is None ==> forall|j: int|
                0 <= j < i && is_windows_stable(#[trigger] all[j]) ==> all[j].version.semantic_rank
                    is None,
            best matches Some((b, k)) ==> {
                &&& b < i
                &&& is_windows_stable(all[b as int])
                &&& all[b as int].version.semantic_rank == Some(k)
                &&& forall|j: int|
                    0 <= j < i && is_windows_stable(#[trigger] all[j]) ==> rank(all[j]) <= k
                &&& forall|j: int|
                    b < j < i && is_windows_stable(#[trigger] all[j]) ==> rank(all[j]) < k
            },
        decreases releases@.len() - i,
    {
        let release = &releases[i];
        assert(release@ == all[i as int]);
        if release.channel.is_none() && release.target_for("windows").is_some() {
            match release.version.semantic_rank {
                None => {
                    unranked = true;
                },
                Some(k) => {
                    let later = match best {
                        None => true,
                        Some((_, top)) => k >= top,
                    };
                    if later {
                        best = Some((i, k));
                    }
                },
            }
        }
        i = i + 1;
    }
    if unranked {
        assert(has_windows_stable(all));
        return Err(WorkaroundFault::InvalidVersion);
    }
    match best {
        None => Err(WorkaroundFault::NoWindowsRelease),
        Some((b, _)) => {
            assert(is_newest_windows_stable(all, b as int));
            proof {
                lemma_newest_is_unique(all, b as int, newest_windows_stable(all));
            }
            Ok(b)
        },
    }
}

/// Reduces a package to release `i` and its first Windows target, under the
/// placeholder version and with `url` as the payload. `None` where the
/// package has no release `i`, or that release no target for Windows.
pub fn downgrade(package: PackageRecord, i: usize, url: String) -> (r: Option<PackageRecord>)
    ensures
        r is Some == (i < package@.releases.len() && first_target_for(
            package@.releases[i as int].targets,
            windows(),
        ) is Some),
        r matches Some(p) ==> p@ == downgraded_at(package@, i as int, url@),
{
    let ghost before = package@;
    if i >= package.releases.len() {
        return None;
    }
    let PackageRecord { id, name, description, tags, releases } = package;
    let mut releases = releases;
    let release = releases.remove(i);
    assert(release@ == before.releases[i as int]);
    let k: usize = match release.target_for("windows") {
        Some(k) => k,
        None => {
            return None;
        },
    };
    let Release { version: _, channel, targets } = release;
    let mut targets = targets;
    proof {
        lemma_first_target_for(before.releases[i as int].targets, windows());
    }
    let target = targets.remove(k);
    let mut only_target: Vec<Target> = Vec::new();
    only_target.push(Target { platform: target.platform, url });
    let mut only_release: Vec<Release> = Vec::new();
    only_release.push(
        Release {
            version: Version { text: String::from_str("99.0.0"), semantic_rank: Some(u64::MAX) },
            channel,
            targets: only_target,
        },
    );
    let r = PackageRecord { id, name, description, tags, releases: only_release };
    assert(r@.releases[0].targets =~= downgraded_at(before, i as int, url@).releases[0].targets);
    assert(r@.releases =~= downgraded_at(before, i as int, url@).releases);
    Some(r)
}

/// Builds the synthetic index from the two descriptors as read, with the
/// payload URLs as they were parsed.
pub fn workaround_index_with_urls(
    installer: PackageRead,
    service: PackageRead,
    installer_url: Option<String>,
    service_url: Option<String>,
) -> (r: Result<Vec<u8>, WorkaroundError>)
    ensures
        is_outcome(
            r,
            workaround_outcome(
                installer@,
                service@,
                optional_text(installer_url),
                optional_text(service_url),
            ),
        ),
{
    let a = LegacyPackage::DivvunInstaller;
    let b = LegacyPackage::PahkatService;
    if let PackageRead::Unreadable = installer {
        return Err(WorkaroundError { package: a, fault: WorkaroundFault::Unreadable });
    }
    if let PackageRead::Unreadable = service {
        return Err(WorkaroundError { package: b, fault: WorkaroundFault::Unreadable });
    }
    let installer = match installer {
        PackageRead::Parsed(p) => p,
        _ => {
            return Err(WorkaroundError { package: a, fault: WorkaroundFault::Malformed });
        },
    };
    let service = match service {
        PackageRead::Parsed(p) => p,
        _ => {
            return Err(WorkaroundError { package: b, fault: WorkaroundFault::Malformed });
        },
    };
    let i: usize = match select_release(&installer.releases) {
        Ok(i) => i,
        Err(fault) => {
            return Err(WorkaroundError { package: a, fault });
        },
    };
    let k: usize = match select_release(&service.releases) {
        Ok(k) => k,
        Err(fault) => {
            return Err(WorkaroundError { package: b, fault });
        },
    };
    let installer_url = match installer_url {
        Some(url) => url,
        None => {
            return Err(WorkaroundError { package: a, fault: WorkaroundFault::InvalidUrl });
        },
    };
    let service_url = match service_url {
        Some(url) => url,
        None => {
            return Err(WorkaroundError { package: b, fault: WorkaroundFault::InvalidUrl });
        },
    };
    let ghost first = downgraded(installer@, installer_url@);
    let ghost second = downgraded(service@, service_url@);
    let mut listed: Vec<PackageRecord> = Vec::new();
    if let Some(package) = downgrade(installer, i, installer_url) {
        listed.push(package);
    }
    if let Some(package) = downgrade(service, k, service_url) {
        listed.push(package);
    }
    assert(package_views(listed@) =~= seq![first, second]);
    Ok(build_index(&listed))
}

/// Writes the payload URL of a package: the server's URL, the package's
/// segment, and a file name made of the package's name and `nonce`.
pub fn payload_url(base: &str, package: LegacyPackage, nonce: &str) -> (text: String)
    ensures
        text@ == payload_url_text(base@, package, nonce@),
{
    let mut text = join2(base, "/");
    match package {
        LegacyPackage::DivvunInstaller => {
            text.append("1AAB4845-32A9-41A8-BBDE-120847548A81");
            text.append("/");
            text.append("divvun-installer");
        },
        LegacyPackage::PahkatService => {
            text.append("1AAB4845-32A9-41A8-BBDE-120847548A82");
            text.append("/");
            text.append("pahkat-service");
        },
    }
    text.append("-");
    text.append(nonce);
    text.append(".exe");
    text
}

/// Builds the synthetic index: payload URLs under `config.url`, named with
/// `nonce`, replace those of the two descriptors.
pub fn generate_010_workaround_index(
    config: &Config,
    nonce: &str,
    installer: PackageRead,
    service: PackageRead,
) -> (r: Result<Vec<u8>, WorkaroundError>)
    ensures
        is_outcome(r, workaround_outcome_for(config.url@, nonce@, installer@, service@)),
{
    let installer_text = payload_url(config.url.as_str(), LegacyPackage::DivvunInstaller, nonce);
    let service_text = payload_url(config.url.as_str(), LegacyPackage::PahkatService, nonce);
    let installer_url = parse_url(installer_text.as_str());
    let service_url = parse_url(service_text.as_str());
    workaround_index_with_urls(installer, service, installer_url, service_url)
}

/// The synthetic index, built once and kept, with the nonce that its payload
/// URLs carry.
#[derive(Debug, Clone, PartialEq, Eq)]
pub struct WorkaroundIndex {
    /// The nonce, once it is drawn.
    pub nonce: Option<String>,
    /// The index, once it is built.
    pub index: Option<Vec<u8>>,
}

impl WorkaroundIndex {
    /// Nothing drawn, nothing built.
    pub fn new() -> (r: WorkaroundIndex)
        ensures
            r.nonce is None,
            r.index is None,
    {
        WorkaroundIndex { nonce: None, index: None }
    }

    /// The index, if it was built.
    pub fn cached(&self) -> (r: Option<&Vec<u8>>)
        ensures
            r is Some == self.index is Some,
            r matches Some(index) ==> *index == self.index->0,
    {
        match &self.index {
            Some(index) => Some(index),
            None => None,
        }
    }

    /// Builds the index from the two descriptors as read and keeps it, unless
    /// one is kept already. The nonce is drawn the first time one is needed,
    /// and stays the same from then on.
    pub fn build(&mut self, config: &Config, installer: PackageRead, service: PackageRead) -> (r:
        Result<(), WorkaroundError>)
        ensures
            old(self).index is Some ==> r is Ok && *final(self) == *old(self),
            old(self).index is None ==> {
                &&& final(self).nonce is Some
                &&& old(self).nonce is Some ==> final(self).nonce == old(self).nonce
                &&& match r {
                    Ok(_) => final(self).index is Some && is_outcome(
                        Ok(final(self).index->0),
                        workaround_outcome_for(
                            config.url@,
                            final(self).nonce->0@,
                            installer@,
                            service@,
                        ),
                    ),
                    Err(e) => final(self).index is None && workaround_outcome_for(
                        config.url@,
                        final(self).nonce->0@,
                        installer@,
                        service@,
                    ) == Err::<Seq<u8>, WorkaroundError>(e),
                }
            },
    {
        if self.index.is_some() {
            return Ok(());
        }
        if self.nonce.is_none() {
            self.nonce = Some(fresh_nonce());
        }
        let built = match &self.nonce {
            Some(nonce) => generate_010_workaround_index(
                config,
                nonce.as_str(),
                installer,
                service,
            ),
            None => Err(
                WorkaroundError {
                    package: LegacyPackage::DivvunInstaller,
                    fault: WorkaroundFault::InvalidUrl,
                },
            ),
        };
        match built {
            Ok(index) => {
                self.index = Some(index);
                Ok(())
            },
            Err(e) => Err(e),
        }
    }
}

} // verus!
