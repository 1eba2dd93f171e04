use pahkat_reposrv::catalog::{build_index, generate_empty_index};
use pahkat_reposrv::config::Config;
use pahkat_reposrv::git::GitRepo;
use pahkat_reposrv::indexing::{
    init_repo_indexes, refresh_indexes, stale_repos, Reconciled, RepoRead, RepoTree,
};
use pahkat_reposrv::mutation::{Action, Event, Mutation, Stage};
use pahkat_reposrv::openapi::{Api, UpdatePackageMetadataRequest};
use pahkat_reposrv::package::{
    DescriptorRead, PackageRead, PackageRecord, Release, RepositoryDescriptor, Target, Version,
};

fn scenario_config() -> Config {
    Config {
        api_token: "secret".to_string(),
        git_path: "/srv/pahkat".to_string(),
        repos: vec!["R".to_string()],
        url: "https://pahkat.example".to_string(),
        host: "localhost".to_string(),
        port: 8080,
        index_interval: 60,
        branch_name: "main".to_string(),
        skip_repo_cleanup: false,
    }
}

fn scenario_descriptor() -> RepositoryDescriptor {
    RepositoryDescriptor { name: Vec::new(), description: Vec::new(), channels: Vec::new() }
}

fn scenario_tree(packages: Vec<PackageRead>) -> RepoTree {
    RepoTree { index: DescriptorRead::Parsed(scenario_descriptor()), packages }
}

fn scenario_package() -> PackageRecord {
    PackageRecord {
        id: "P".to_string(),
        name: Vec::new(),
        description: Vec::new(),
        tags: Vec::new(),
        releases: vec![Release {
            version: Version { text: "1.0.0".to_string(), semantic_rank: Some(0) },
            channel: None,
            targets: vec![Target {
                platform: "windows".to_string(),
                url: "https://x.example/P-1.0.0.exe".to_string(),
            }],
        }],
    }
}

fn scenario_drive(mutation: &mut Mutation, workspace: &mut GitRepo, events: Vec<Event>) -> Action {
    let mut last = Action::WriteMetadata;
    for event in events {
        last = mutation.advance(workspace, event);
    }
    last
}

#[test]
fn a_created_and_released_package_shows_after_the_next_reconciliation() {
    let api = Api;
    let config = scenario_config();
    let mut workspace = GitRepo::new("/srv/pahkat".to_string(), "v0\n");

    // The repository starts without packages: its index is the empty one.
    let mut cache = init_repo_indexes(&config, &workspace.head_ref, vec![scenario_tree(Vec::new())])
        .expect("the cache is set up");
    {
        let snapshot = cache.get("R").expect("R is hosted");
        assert_eq!(snapshot.head_ref(), "v0");
        assert_eq!(snapshot.packages(), &Vec::new());
        assert_eq!(snapshot.package_index(), &generate_empty_index());
    }

    // The package is created, committed and pushed.
    let (mut create, first) = api.create_package_metadata(&config, "R", "P");
    assert_eq!(first, Action::FindPackage(api.package_descriptor("R", "P")));
    let last = scenario_drive(
        &mut create,
        &mut workspace,
        vec![
            Event::PackageFound(false),
            Event::CommandRan(true),
            Event::CommandRan(true),
            Event::CommandRan(true),
            Event::HeadRead(Some("v0\n".to_string())),
            Event::MetadataWritten(true),
            Event::CommandRan(true),
            Event::CommandRan(true),
            Event::HeadRead(Some("v1\n".to_string())),
            Event::CommandRan(true),
        ],
    );
    assert_eq!(last, Action::Finish(Ok(())));
    assert!(api.created(&create, Ok(())).is_ok());
    assert_eq!(workspace.head_ref, "v1");

    // Version 1.0.0 for Windows is released.
    let release = UpdatePackageMetadataRequest {
        version: "1.0.0".to_string(),
        channel: None,
        authors: Vec::new(),
        license: None,
        license_url: None,
        target: Target {
            platform: "windows".to_string(),
            url: "https://x.example/P-1.0.0.exe".to_string(),
        },
    };
    let (mut update, _) = api.update_package_metadata(&config, "R", "P", &release);
    let last = scenario_drive(
        &mut update,
        &mut workspace,
        vec![
            Event::PackageFound(true),
            Event::VersionChecked(true),
            Event::CommandRan(true),
            Event::CommandRan(true),
            Event::CommandRan(true),
            Event::HeadRead(Some("v1\n".to_string())),
            Event::MetadataWritten(true),
            Event::CommandRan(true),
            Event::CommandRan(true),
            Event::HeadRead(Some("v2\n".to_string())),
            Event::CommandRan(true),
        ],
    );
    assert_eq!(last, Action::Finish(Ok(())));
    assert_eq!(update.stage, Stage::Finished);
    assert_eq!(workspace.head_ref, "v2");

    // The write operations published nothing: readers still see the snapshot before.
    assert_eq!(cache.get("R").expect("R is hosted").head_ref(), "v0");
    assert_eq!(cache.get("R").expect("R is hosted").packages(), &Vec::new());

    // The next reconciliation sees the new version and rebuilds.
    assert_eq!(stale_repos(&cache, &workspace.head_ref), vec!["R".to_string()]);
    let report = refresh_indexes(
        &mut cache,
        &workspace.head_ref,
        vec![RepoRead {
            repo_id: "R".to_string(),
            tree: scenario_tree(vec![PackageRead::Parsed(scenario_package())]),
        }],
    );
    assert_eq!(report, vec![Reconciled::Updated]);
    let snapshot = cache.get("R").expect("R is hosted");
    assert_eq!(snapshot.head_ref(), "v2");
    assert_eq!(snapshot.packages().len(), 1);
    assert_eq!(snapshot.packages()[0].id, "P");
    assert_eq!(snapshot.packages()[0].releases.len(), 1);
    assert_eq!(snapshot.packages()[0].releases[0].version.text, "1.0.0");
    assert_eq!(snapshot.package_index(), &build_index(&vec![scenario_package()]));
    assert_eq!(stale_repos(&cache, &workspace.head_ref), Vec::<String>::new());
}
