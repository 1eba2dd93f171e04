use pahkat_reposrv::graphql::Query;
use pahkat_reposrv::indexing::{generate_repo_index, RepoTree};
use pahkat_reposrv::package::{
    DescriptorRead, LocalizedText, PackageRead, PackageRecord, RepositoryDescriptor,
};
use pahkat_reposrv::state::{RepoIndexData, RepoIndexes, ServerStatus, StatusEntry};

fn query_descriptor(name: &str) -> RepositoryDescriptor {
    RepositoryDescriptor {
        name: vec![LocalizedText { lang: "en".to_string(), text: name.to_string() }],
        description: Vec::new(),
        channels: Vec::new(),
    }
}

fn query_package(id: &str, tag: &str) -> PackageRecord {
    PackageRecord {
        id: id.to_string(),
        name: Vec::new(),
        description: Vec::new(),
        tags: vec![tag.to_string()],
        releases: Vec::new(),
    }
}

fn query_snapshot(head: &str, name: &str, packages: Vec<PackageRecord>) -> RepoIndexData {
    let tree = RepoTree {
        index: DescriptorRead::Parsed(query_descriptor(name)),
        packages: packages.into_iter().map(PackageRead::Parsed).collect(),
    };
    generate_repo_index(head.to_string(), tree).expect("the rebuild goes through")
}

fn query_cache() -> RepoIndexes {
    let mut cache = RepoIndexes::new();
    cache.insert(
        "main",
        query_snapshot(
            "abc",
            "Main",
            vec![query_package("a", "1"), query_package("b", "2"), query_package("a", "3")],
        ),
    );
    cache.insert("tools", query_snapshot("def", "Tools", Vec::new()));
    cache
}

#[test]
fn query_status_lists_the_versions() {
    assert_eq!(
        Query.status(&query_cache()),
        ServerStatus {
            index_ref: vec![
                StatusEntry { repo_id: "main".to_string(), head_ref: "abc".to_string() },
                StatusEntry { repo_id: "tools".to_string(), head_ref: "def".to_string() },
            ]
        }
    );
}

#[test]
fn query_repos_gives_every_repository() {
    let cache = query_cache();
    let repos = Query.repos(&cache);
    assert_eq!(repos.len(), 2);
    assert_eq!(repos[0].index(), &query_descriptor("Main"));
    assert_eq!(repos[0].packages().len(), 3);
    assert_eq!(repos[1].index(), &query_descriptor("Tools"));
    assert_eq!(repos[1].packages(), &Vec::new());
    assert_eq!(Query.repos(&RepoIndexes::new()).len(), 0);
}

#[test]
fn query_repo_finds_a_hosted_repository_only() {
    let cache = query_cache();
    let repo = Query.repo(&cache, "tools").expect("tools is hosted");
    assert_eq!(repo.index(), &query_descriptor("Tools"));
    assert_eq!(repo.model.head_ref(), "def");
    assert!(Query.repo(&cache, "other").is_none());
}

#[test]
fn package_of_a_repository_is_the_first_with_the_identifier() {
    let cache = query_cache();
    let repo = Query.repo(&cache, "main").expect("main is hosted");
    assert_eq!(repo.package("a"), Some(&query_package("a", "1")));
    assert_eq!(repo.package("b"), Some(&query_package("b", "2")));
    assert_eq!(repo.package("c"), None);
    assert_eq!(repo.package(""), None);
}
