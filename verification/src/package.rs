//! Package metadata as the server holds it in memory.

use vstd::prelude::*;

use crate::text::same_text;

verus! {

/// One entry of a text given per language.
#[derive(Debug, Clone, PartialEq, Eq)]
pub struct LocalizedText {
    /// Language tag.
    pub lang: String,
    /// The text in that language.
    pub text: String,
}

/// Where a release can be had for one platform.
#[derive(Debug, Clone, PartialEq, Eq)]
pub struct Target {
    /// Platform tag, such as `windows`.
    pub platform: String,
    /// URL of the installable payload.
    pub url: String,
}

/// The version of a release.
#[derive(Debug, Clone, PartialEq, Eq)]
pub struct Version {
    /// The version as the descriptor writes it.
    pub text: String,
    /// For a semantic version, its rank in the precedence order of semantic
    /// versions: a higher rank is a later version, equal ranks are equal
    /// versions. `None` for a version of another scheme.
    pub semantic_rank: Option<u64>,
}

/// One release of a package.
#[derive(Debug, Clone, PartialEq, Eq)]
pub struct Release {
    pub version: Version,
    /// Release channel; `None` is the stable channel.
    pub channel: Option<String>,
    pub targets: Vec<Target>,
}

/// The metadata of one package.
#[derive(Debug, Clone, PartialEq, Eq)]
pub struct PackageRecord {
    /// Identifier, unique within a repository.
    pub id: String,
    pub name: Vec<LocalizedText>,
    pub description: Vec<LocalizedText>,
    pub tags: Vec<String>,
    pub releases: Vec<Release>,
}

/// The metadata of a repository itself.
#[derive(Debug, Clone, PartialEq, Eq)]
pub struct RepositoryDescriptor {
    pub name: Vec<LocalizedText>,
    pub description: Vec<LocalizedText>,
    /// Channels that the repository offers.
    pub channels: Vec<String>,
}

/// One entry of a text given per language, as contracts see it.
pub struct LocalizedTextView {
    pub lang: Seq<char>,
    pub text: Seq<char>,
}

/// A target as contracts see it.
pub struct TargetView {
    pub platform: Seq<char>,
    pub url: Seq<char>,
}

/// A version as contracts see it.
pub struct VersionView {
    pub text: Seq<char>,
    pub semantic_rank: Option<u64>,
}

/// A release as contracts see it.
pub struct ReleaseView {
    pub version: VersionView,
    pub channel: Option<Seq<char>>,
    pub targets: Seq<TargetView>,
}

/// The metadata of a package as contracts see it.
pub struct PackageView {
    pub id: Seq<char>,
    pub name: Seq<LocalizedTextView>,
    pub description: Seq<LocalizedTextView>,
    pub tags: Seq<Seq<char>>,
    pub releases: Seq<ReleaseView>,
}

/// The metadata of a repository as contracts see it.
pub struct RepositoryDescriptorView {
    pub name: Seq<LocalizedTextView>,
    pub description: Seq<LocalizedTextView>,
    pub channels: Seq<Seq<char>>,
}

/// The characters of an optional text.
pub open spec fn optional_text(o: Option<String>) -> Option<Seq<char>> {
    match o {
        Some(s) => Some(s@),
        None => None,
    }
}

/// The characters of each text of a list.
pub open spec fn texts(v: Seq<String>) -> Seq<Seq<char>> {
    v.map_values(|s: String| s@)
}

/// The view of each entry of a text given per language.
pub open spec fn localized_text_views(v: Seq<LocalizedText>) -> Seq<LocalizedTextView> {
    v.map_values(|t: LocalizedText| t@)
}

/// The view of each target of a list.
pub open spec fn target_views(v: Seq<Target>) -> Seq<TargetView> {
    v.map_values(|t: Target| t@)
}

/// The view of each release of a list.
pub open spec fn release_views(v: Seq<Release>) -> Seq<ReleaseView> {
    v.map_values(|r: Release| r@)
}

/// The view of each package of a list.
pub open spec fn package_views(v: Seq<PackageRecord>) -> Seq<PackageView> {
    v.map_values(|p: PackageRecord| p@)
}

impl View for LocalizedText {
    type V = LocalizedTextView;

    open spec fn view(&self) -> LocalizedTextView {
        LocalizedTextView { lang: self.lang@, text: self.text@ }
    }
}

impl View for Target {
    type V = TargetView;

    open spec fn view(&self) -> TargetView {
        TargetView { platform: self.platform@, url: self.url@ }
    }
}

impl View for Version {
    type V = VersionView;

    open spec fn view(&self) -> VersionView {
        VersionView { text: self.text@, semantic_rank: self.semantic_rank }
    }
}

impl View for Release {
    type V = ReleaseView;

    open spec fn view(&self) -> ReleaseView {
        ReleaseView {
            version: self.version@,
            channel: optional_text(self.channel),
            targets: target_views(self.targets@),
        }
    }
}

impl View for PackageRecord {
    type V = PackageView;

    open spec fn view(&self) -> PackageView {
        PackageView {
            id: self.id@,
            name: localized_text_views(self.name@),
            description: localized_text_views(self.description@),
            tags: texts(self.tags@),
            releases: release_views(self.releases@),
        }
    }
}

impl View for RepositoryDescriptor {
    type V = RepositoryDescriptorView;

    open spec fn view(&self) -> RepositoryDescriptorView {
        RepositoryDescriptorView {
            name: localized_text_views(self.name@),
            description: localized_text_views(self.description@),
            channels: texts(self.channels@),
        }
    }
}

/// The channel a release is on: the one it names, or `stable`.
pub open spec fn effective_channel(channel: Option<Seq<char>>) -> Seq<char> {
    match channel {
        Some(c) => c,
        None => "stable"@,
    }
}

impl ReleaseView {
    /// Index of the first target for `platform`, if there is one.
    pub open spec fn target_for(self, platform: Seq<char>) -> Option<int> {
        first_target_for(self.targets, platform)
    }
}

/// Index of the first target of `targets` for `platform`, if there is one.
pub open spec fn first_target_for(targets: Seq<TargetView>, platform: Seq<char>) -> Option<int>
    decreases targets.len(),
{
    if targets.len() == 0 {
        None
    } else if targets[0].platform == platform {
        Some(0)
    } else {
        match first_target_for(targets.drop_first(), platform) {
            Some(i) => Some(i + 1),
            None => None,
        }
    }
}

/// The first target for a platform is one for that platform, and no target
/// before it is; where there is none, no target is for that platform.
pub proof fn lemma_first_target_for(targets: Seq<TargetView>, platform: Seq<char>)
    ensures
        match first_target_for(targets, platform) {
            Some(i) => {
                &&& 0 <= i < targets.len()
                &&& targets[i].platform == platform
                &&& forall|j: int| 0 <= j < i ==> (#[trigger] targets[j]).platform != platform
            },
            None => forall|j: int|
                0 <= j < targets.len() ==> (#[trigger] targets[j]).platform != platform,
        },
    decreases targets.len(),
{
    if targets.len() > 0 && targets[0].platform != platform {
        let rest = targets.drop_first();
        lemma_first_target_for(rest, platform);
        match first_target_for(rest, platform) {
            Some(i) => {
                assert(targets[i + 1] == rest[i]);
                assert forall|j: int| 0 <= j < i + 1 implies (#[trigger] targets[j]).platform
                    != platform by {
                    if j > 0 {
                        assert(targets[j] == rest[j - 1]);
                    }
                }
            },
            None => {
                assert forall|j: int| 0 <= j < targets.len() implies (
                #[trigger] targets[j]).platform != platform by {
                    if j > 0 {
                        assert(targets[j] == rest[j - 1]);
                    }
                }
            },
        }
    }
}

/// What came of reading one package's descriptor.
#[derive(Debug, Clone, PartialEq, Eq)]
pub enum PackageRead {
    /// The descriptor was read and understood.
    Parsed(PackageRecord),
    /// The file is missing or could not be read.
    Unreadable,
    /// The file does not hold a package descriptor.
    Malformed,
}

/// What came of reading a repository's descriptor.
#[derive(Debug, Clone, PartialEq, Eq)]
pub enum DescriptorRead {
    /// The descriptor was read and understood.
    Parsed(RepositoryDescriptor),
    /// The file is missing or could not be read.
    Unreadable,
    /// The file does not hold a repository descriptor.
    Malformed,
}

/// What came of reading a package's descriptor, as contracts see it.
pub enum PackageReadView {
    Parsed(PackageView),
    Unreadable,
    Malformed,
}

/// What came of reading a repository's descriptor, as contracts see it.
pub enum DescriptorReadView {
    Parsed(RepositoryDescriptorView),
    Unreadable,
    Malformed,
}

impl View for PackageRead {
    type V = PackageReadView;

    open spec fn view(&self) -> PackageReadView {
        match self {
            PackageRead::Parsed(p) => PackageReadView::Parsed(p@),
            PackageRead::Unreadable => PackageReadView::Unreadable,
            PackageRead::Malformed => PackageReadView::Malformed,
        }
    }
}

impl View for DescriptorRead {
    type V = DescriptorReadView;

    open spec fn view(&self) -> DescriptorReadView {
        match self {
            DescriptorRead::Parsed(d) => DescriptorReadView::Parsed(d@),
            DescriptorRead::Unreadable => DescriptorReadView::Unreadable,
            DescriptorRead::Malformed => DescriptorReadView::Malformed,
        }
    }
}

/// The view of each read of a list.
pub open spec fn package_read_views(v: Seq<PackageRead>) -> Seq<PackageReadView> {
    v.map_values(|r: PackageRead| r@)
}

impl Release {
    /// Index of the first target for `platform`, if there is one.
    pub fn target_for(&self, platform: &str) -> (found: Option<usize>)
        ensures
            match found {
                Some(i) => first_target_for(self@.targets, platform@) == Some(i as int),
                None => first_target_for(self@.targets, platform@) is None,
            },
    {
        let ghost all = self@.targets;
        let mut i: usize = 0;
        while i < self.targets.len()
            invariant
                i <= self.targets@.len(),
                all == self@.targets,
                forall|j: int| 0 <= j < i ==> (#[trigger] all[j]).platform != platform@,
            decreases self.targets@.len() - i,
        {
            if same_text(self.targets[i].platform.as_str(), platform) {
                proof {
                    assert(all[i as int].platform == platform@);
                    lemma_first_target_for(all, platform@);
                }
                return Some(i);
            }
            i = i + 1;
        }
        proof {
            lemma_first_target_for(all, platform@);
        }
        None
    }

    /// Whether the release is on `channel`, where a release that names no
    /// channel is on `stable`.
    pub fn is_on_channel(&self, channel: &str) -> (on: bool)
        ensures
            on == (effective_channel(self@.channel) == channel@),
    {
        match &self.channel {
            Some(c) => same_text(c.as_str(), channel),
            None => same_text("stable", channel),
        }
    }
}

} // verus!
