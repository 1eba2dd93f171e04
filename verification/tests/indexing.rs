use pahkat_reposrv::catalog::build_index;
use pahkat_reposrv::config::Config;
use pahkat_reposrv::indexing::{
    collect_parsed, generate_repo_index, init_repo_indexes, refresh_indexes,
    refresh_indexes_forever, stale_repos, start_refreshing, InitError, LoopAction, LoopEvent,
    LoopState, RebuildError, Reconciled, RepoRead, RepoTree,
};
use pahkat_reposrv::package::{
    DescriptorRead, LocalizedText, PackageRead, PackageRecord, RepositoryDescriptor,
};
use pahkat_reposrv::state::{RepoIndexData, RepoIndexes};

fn indexing_config(repos: &[&str]) -> Config {
    Config {
        api_token: "secret".to_string(),
        git_path: "/srv/pahkat".to_string(),
        repos: repos.iter().map(|r| r.to_string()).collect(),
        url: "https://pahkat.example".to_string(),
        host: "localhost".to_string(),
        port: 8080,
        index_interval: 30,
        branch_name: "main".to_string(),
        skip_repo_cleanup: false,
    }
}

fn indexing_descriptor(name: &str) -> RepositoryDescriptor {
    RepositoryDescriptor {
        name: vec![LocalizedText { lang: "en".to_string(), text: name.to_string() }],
        description: Vec::new(),
        channels: Vec::new(),
    }
}

fn indexing_package(id: &str) -> PackageRecord {
    PackageRecord {
        id: id.to_string(),
        name: Vec::new(),
        description: Vec::new(),
        tags: Vec::new(),
        releases: Vec::new(),
    }
}

fn indexing_tree(name: &str, packages: Vec<PackageRead>) -> RepoTree {
    RepoTree { index: DescriptorRead::Parsed(indexing_descriptor(name)), packages }
}

fn indexing_parsed(ids: &[&str]) -> Vec<PackageRead> {
    ids.iter().map(|id| PackageRead::Parsed(indexing_package(id))).collect()
}

fn indexing_read(repo_id: &str, tree: RepoTree) -> RepoRead {
    RepoRead { repo_id: repo_id.to_string(), tree }
}

fn indexing_snapshot(head: &str, name: &str, ids: &[&str]) -> RepoIndexData {
    generate_repo_index(head.to_string(), indexing_tree(name, indexing_parsed(ids)))
        .expect("the rebuild goes through")
}

fn indexing_cache(head: &str) -> RepoIndexes {
    let mut cache = RepoIndexes::new();
    cache.insert("main", indexing_snapshot(head, "Main", &["a"]));
    cache.insert("tools", indexing_snapshot(head, "Tools", &["t"]));
    cache
}

#[test]
fn collect_parsed_keeps_what_was_understood_in_order() {
    let reads = vec![
        PackageRead::Parsed(indexing_package("c")),
        PackageRead::Unreadable,
        PackageRead::Parsed(indexing_package("a")),
        PackageRead::Malformed,
        PackageRead::Parsed(indexing_package("b")),
    ];
    assert_eq!(
        collect_parsed(reads),
        vec![indexing_package("c"), indexing_package("a"), indexing_package("b")]
    );
    assert_eq!(collect_parsed(Vec::new()), Vec::new());
    assert_eq!(collect_parsed(vec![PackageRead::Malformed, PackageRead::Unreadable]), Vec::new());
}

#[test]
fn rebuild_leaves_out_the_one_package_that_is_malformed() {
    let tree = indexing_tree(
        "Main",
        vec![
            PackageRead::Parsed(indexing_package("a")),
            PackageRead::Malformed,
            PackageRead::Parsed(indexing_package("c")),
        ],
    );
    let snapshot = generate_repo_index("abc".to_string(), tree).expect("the rebuild goes through");
    assert_eq!(snapshot.packages(), &vec![indexing_package("a"), indexing_package("c")]);
    assert_eq!(snapshot.packages().len(), 2);
    assert_eq!(snapshot, indexing_snapshot("abc", "Main", &["a", "c"]));
}

#[test]
fn rebuild_of_a_repository_without_packages_has_the_empty_index() {
    let snapshot = generate_repo_index("abc".to_string(), indexing_tree("Main", Vec::new()))
        .expect("the rebuild goes through");
    assert_eq!(snapshot.head_ref(), "abc");
    assert_eq!(snapshot.packages(), &Vec::new());
    assert_eq!(snapshot.package_index(), &build_index(&Vec::new()));
}

#[test]
fn rebuild_fails_on_the_repository_descriptor_only() {
    let unreadable =
        RepoTree { index: DescriptorRead::Unreadable, packages: indexing_parsed(&["a"]) };
    assert_eq!(
        generate_repo_index("abc".to_string(), unreadable),
        Err(RebuildError::DescriptorUnreadable)
    );
    let malformed =
        RepoTree { index: DescriptorRead::Malformed, packages: indexing_parsed(&["a"]) };
    assert_eq!(
        generate_repo_index("abc".to_string(), malformed),
        Err(RebuildError::DescriptorMalformed)
    );
    let all_bad = indexing_tree("Main", vec![PackageRead::Malformed, PackageRead::Unreadable]);
    assert_eq!(
        generate_repo_index("abc".to_string(), all_bad),
        Ok(indexing_snapshot("abc", "Main", &[]))
    );
}

#[test]
fn stale_repos_are_those_at_another_version() {
    let mut cache = indexing_cache("abc");
    assert_eq!(stale_repos(&cache, "abc"), Vec::<String>::new());
    assert_eq!(stale_repos(&cache, "def"), vec!["main".to_string(), "tools".to_string()]);
    assert!(cache.publish("main", indexing_snapshot("def", "Main", &[])));
    assert_eq!(stale_repos(&cache, "def"), vec!["tools".to_string()]);
    assert_eq!(stale_repos(&RepoIndexes::new(), "def"), Vec::<String>::new());
}

#[test]
fn refresh_skips_a_repository_at_the_version_read() {
    let mut cache = indexing_cache("abc");
    let before = cache.clone();
    let report = refresh_indexes(
        &mut cache,
        "abc",
        vec![indexing_read("main", indexing_tree("Changed", indexing_parsed(&["x"])))],
    );
    assert_eq!(report, vec![Reconciled::Current]);
    assert_eq!(cache, before);
}

#[test]
fn refresh_publishes_a_rebuilt_snapshot_at_the_version_read() {
    let mut cache = indexing_cache("abc");
    let report = refresh_indexes(
        &mut cache,
        "def",
        vec![indexing_read("main", indexing_tree("Main", indexing_parsed(&["a", "b"])))],
    );
    assert_eq!(report, vec![Reconciled::Updated]);
    assert_eq!(
        **cache.get("main").expect("main is hosted"),
        indexing_snapshot("def", "Main", &["a", "b"])
    );
    assert_eq!(
        **cache.get("tools").expect("tools is hosted"),
        indexing_snapshot("abc", "Tools", &["t"])
    );
}

#[test]
fn refresh_goes_on_after_a_repository_that_fails() {
    let mut cache = indexing_cache("abc");
    let report = refresh_indexes(
        &mut cache,
        "def",
        vec![
            indexing_read(
                "main",
                RepoTree { index: DescriptorRead::Malformed, packages: indexing_parsed(&["a"]) },
            ),
            indexing_read("elsewhere", indexing_tree("Elsewhere", Vec::new())),
            indexing_read("tools", indexing_tree("Tools", indexing_parsed(&["t", "u"]))),
        ],
    );
    assert_eq!(
        report,
        vec![
            Reconciled::Failed(RebuildError::DescriptorMalformed),
            Reconciled::NotHosted,
            Reconciled::Updated
        ]
    );
    assert_eq!(
        **cache.get("main").expect("main is hosted"),
        indexing_snapshot("abc", "Main", &["a"])
    );
    assert_eq!(
        **cache.get("tools").expect("tools is hosted"),
        indexing_snapshot("def", "Tools", &["t", "u"])
    );
    assert!(cache.get("elsewhere").is_none());
}

#[test]
fn refresh_without_reads_changes_nothing() {
    let mut cache = indexing_cache("abc");
    let before = cache.clone();
    assert_eq!(refresh_indexes(&mut cache, "def", Vec::new()), Vec::new());
    assert_eq!(cache, before);
}

#[test]
fn refresh_reads_a_repository_twice_only_once() {
    let mut cache = indexing_cache("abc");
    let report = refresh_indexes(
        &mut cache,
        "def",
        vec![
            indexing_read("main", indexing_tree("First", Vec::new())),
            indexing_read("main", indexing_tree("Second", Vec::new())),
        ],
    );
    assert_eq!(report, vec![Reconciled::Updated, Reconciled::Current]);
    assert_eq!(
        **cache.get("main").expect("main is hosted"),
        indexing_snapshot("def", "First", &[])
    );
}

#[test]
fn startup_gives_every_hosted_repository_a_snapshot() {
    let cache = init_repo_indexes(
        &indexing_config(&["main", "tools"]),
        "abc",
        vec![
            indexing_tree("Main", indexing_parsed(&["a"])),
            indexing_tree("Tools", vec![PackageRead::Malformed]),
        ],
    )
    .expect("the cache is set up");
    assert_eq!(
        **cache.get("main").expect("main is hosted"),
        indexing_snapshot("abc", "Main", &["a"])
    );
    assert_eq!(
        **cache.get("tools").expect("tools is hosted"),
        indexing_snapshot("abc", "Tools", &[])
    );
    assert_eq!(cache.slots.len(), 2);
    assert_eq!(stale_repos(&cache, "abc"), Vec::<String>::new());
}

#[test]
fn startup_without_repositories_gives_an_empty_cache() {
    let cache =
        init_repo_indexes(&indexing_config(&[]), "abc", Vec::new()).expect("the cache is set up");
    assert_eq!(cache, RepoIndexes::new());
}

#[test]
fn startup_needs_one_tree_for_each_repository() {
    assert_eq!(
        init_repo_indexes(
            &indexing_config(&["main", "tools"]),
            "abc",
            vec![indexing_tree("Main", Vec::new())]
        ),
        Err(InitError::TreeCount)
    );
    assert_eq!(
        init_repo_indexes(&indexing_config(&[]), "abc", vec![indexing_tree("Main", Vec::new())]),
        Err(InitError::TreeCount)
    );
}

#[test]
fn startup_fails_at_the_first_repository_that_cannot_be_built() {
    assert_eq!(
        init_repo_indexes(
            &indexing_config(&["main", "tools", "more"]),
            "abc",
            vec![
                indexing_tree("Main", Vec::new()),
                RepoTree { index: DescriptorRead::Unreadable, packages: Vec::new() },
                RepoTree { index: DescriptorRead::Malformed, packages: Vec::new() },
            ]
        ),
        Err(InitError::Rebuild(1, RebuildError::DescriptorUnreadable))
    );
}

#[test]
fn loop_starts_by_waiting_out_the_interval() {
    assert_eq!(
        start_refreshing(&indexing_config(&[])),
        (LoopState::Idle, LoopAction::Sleep { seconds: 30, report_failure: false })
    );
}

#[test]
fn loop_reconciles_when_the_timer_expires_and_waits_again_after() {
    let config = indexing_config(&[]);
    assert_eq!(
        refresh_indexes_forever(&config, LoopState::Idle, LoopEvent::TimerExpired),
        (LoopState::Reconciling, LoopAction::Reconcile)
    );
    assert_eq!(
        refresh_indexes_forever(&config, LoopState::Reconciling, LoopEvent::Completed(true)),
        (LoopState::Idle, LoopAction::Sleep { seconds: 30, report_failure: false })
    );
}

#[test]
fn loop_goes_back_to_waiting_after_a_failure_too() {
    let config = indexing_config(&[]);
    assert_eq!(
        refresh_indexes_forever(&config, LoopState::Reconciling, LoopEvent::Completed(false)),
        (LoopState::Idle, LoopAction::Sleep { seconds: 30, report_failure: true })
    );
}

#[test]
fn loop_stays_where_it_is_on_an_event_it_does_not_wait_for() {
    let config = indexing_config(&[]);
    assert_eq!(
        refresh_indexes_forever(&config, LoopState::Idle, LoopEvent::Completed(false)),
        (LoopState::Idle, LoopAction::Sleep { seconds: 30, report_failure: false })
    );
    assert_eq!(
        refresh_indexes_forever(&config, LoopState::Reconciling, LoopEvent::TimerExpired),
        (LoopState::Reconciling, LoopAction::Reconcile)
    );
}
