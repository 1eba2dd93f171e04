use pahkat_reposrv::catalog::build_index;
use pahkat_reposrv::config::Config;
use pahkat_reposrv::legacy::{
    downgrade, generate_010_workaround_index, payload_url, select_release,
    workaround_index_with_urls, LegacyPackage, WorkaroundError, WorkaroundFault, WorkaroundIndex,
};
use pahkat_reposrv::package::{PackageRead, PackageRecord, Release, Target, Version};

fn legacy_config(url: &str) -> Config {
    Config {
        api_token: "secret".to_string(),
        git_path: "/srv/pahkat".to_string(),
        repos: vec!["divvun-installer".to_string()],
        url: url.to_string(),
        host: "localhost".to_string(),
        port: 8080,
        index_interval: 60,
        branch_name: "main".to_string(),
        skip_repo_cleanup: false,
    }
}

fn legacy_target(platform: &str, url: &str) -> Target {
    Target { platform: platform.to_string(), url: url.to_string() }
}

fn legacy_release(
    version: &str,
    rank: Option<u64>,
    channel: Option<&str>,
    targets: Vec<Target>,
) -> Release {
    Release {
        version: Version { text: version.to_string(), semantic_rank: rank },
        channel: channel.map(|c| c.to_string()),
        targets,
    }
}

fn legacy_package(id: &str, releases: Vec<Release>) -> PackageRecord {
    PackageRecord {
        id: id.to_string(),
        name: Vec::new(),
        description: Vec::new(),
        tags: vec!["cat:tool".to_string()],
        releases,
    }
}

fn legacy_installer() -> PackageRecord {
    legacy_package(
        "divvun-installer",
        vec![
            legacy_release(
                "1.0.0",
                Some(10),
                None,
                vec![legacy_target("windows", "https://x.example/di-1.0.0.exe")],
            ),
            legacy_release(
                "2.0.0",
                Some(20),
                None,
                vec![
                    legacy_target("macos", "https://x.example/di-2.0.0.pkg"),
                    legacy_target("windows", "https://x.example/di-2.0.0.exe"),
                ],
            ),
            legacy_release(
                "3.0.0-beta",
                Some(25),
                Some("beta"),
                vec![legacy_target("windows", "https://x.example/di-3.0.0.exe")],
            ),
            legacy_release(
                "2.5.0",
                Some(22),
                None,
                vec![legacy_target("macos", "https://x.example/di-2.5.0.pkg")],
            ),
        ],
    )
}

fn legacy_service() -> PackageRecord {
    legacy_package(
        "pahkat-service",
        vec![legacy_release(
            "0.9.0",
            Some(9),
            None,
            vec![legacy_target("windows", "https://x.example/ps-0.9.0.exe")],
        )],
    )
}

fn legacy_synthetic(id: &str, url: &str) -> PackageRecord {
    legacy_package(
        id,
        vec![legacy_release("99.0.0", Some(u64::MAX), None, vec![legacy_target("windows", url)])],
    )
}

fn legacy_error(package: LegacyPackage, fault: WorkaroundFault) -> WorkaroundError {
    WorkaroundError { package, fault }
}

#[test]
fn payload_url_is_made_of_server_segment_name_and_nonce() {
    assert_eq!(
        payload_url("https://pahkat.example", LegacyPackage::DivvunInstaller, "n0nce"),
        "https://pahkat.example/1AAB4845-32A9-41A8-BBDE-120847548A81/divvun-installer-n0nce.exe"
    );
    assert_eq!(
        payload_url("https://pahkat.example", LegacyPackage::PahkatService, "n0nce"),
        "https://pahkat.example/1AAB4845-32A9-41A8-BBDE-120847548A82/pahkat-service-n0nce.exe"
    );
}

#[test]
fn select_release_takes_the_highest_rank_among_stable_windows_releases() {
    assert_eq!(select_release(&legacy_installer().releases), Ok(1));
}

#[test]
fn select_release_takes_the_last_of_equal_ranks() {
    let releases = vec![
        legacy_release("1.0.0", Some(5), None, vec![legacy_target("windows", "https://a/")]),
        legacy_release("1.0.0+b", Some(5), None, vec![legacy_target("windows", "https://b/")]),
        legacy_release("0.9.0", Some(4), None, vec![legacy_target("windows", "https://c/")]),
    ];
    assert_eq!(select_release(&releases), Ok(1));
}

#[test]
fn select_release_finds_nothing_without_a_stable_windows_release() {
    assert_eq!(select_release(&Vec::new()), Err(WorkaroundFault::NoWindowsRelease));
    let releases = vec![
        legacy_release(
            "1.0.0",
            Some(5),
            Some("beta"),
            vec![legacy_target("windows", "https://a/")],
        ),
        legacy_release("1.0.0", Some(5), None, vec![legacy_target("macos", "https://b/")]),
        legacy_release(
            "1.0.0",
            Some(5),
            Some("stable"),
            vec![legacy_target("windows", "https://c/")],
        ),
    ];
    assert_eq!(select_release(&releases), Err(WorkaroundFault::NoWindowsRelease));
}

#[test]
fn select_release_refuses_a_candidate_without_semantic_version() {
    let releases = vec![
        legacy_release("1.0.0", Some(5), None, vec![legacy_target("windows", "https://a/")]),
        legacy_release("2020-01-01", None, None, vec![legacy_target("windows", "https://b/")]),
    ];
    assert_eq!(select_release(&releases), Err(WorkaroundFault::InvalidVersion));
}

#[test]
fn select_release_ignores_versions_of_releases_that_are_no_candidates() {
    let releases = vec![
        legacy_release(
            "nightly",
            None,
            Some("nightly"),
            vec![legacy_target("windows", "https://a/")],
        ),
        legacy_release("1.0.0", Some(5), None, vec![legacy_target("windows", "https://b/")]),
        legacy_release("weird", None, None, vec![legacy_target("linux", "https://c/")]),
    ];
    assert_eq!(select_release(&releases), Ok(1));
}

#[test]
fn downgrade_keeps_one_release_and_its_first_windows_target() {
    let mut package = legacy_installer();
    package.releases[1].targets.push(legacy_target("windows", "https://x.example/other.exe"));
    let downgraded = downgrade(package, 1, "https://srv.example/new.exe".to_string());
    assert_eq!(
        downgraded,
        Some(legacy_synthetic("divvun-installer", "https://srv.example/new.exe"))
    );
}

#[test]
fn downgrade_needs_a_release_with_a_windows_target() {
    assert_eq!(downgrade(legacy_installer(), 4, "https://srv.example/x".to_string()), None);
    assert_eq!(downgrade(legacy_installer(), 3, "https://srv.example/x".to_string()), None);
    assert_eq!(
        downgrade(legacy_package("p", Vec::new()), 0, "https://srv.example/x".to_string()),
        None
    );
}

#[test]
fn workaround_index_lists_installer_then_service() {
    let index = workaround_index_with_urls(
        PackageRead::Parsed(legacy_installer()),
        PackageRead::Parsed(legacy_service()),
        Some("https://srv.example/a.exe".to_string()),
        Some("https://srv.example/b.exe".to_string()),
    );
    let expected = build_index(&vec![
        legacy_synthetic("divvun-installer", "https://srv.example/a.exe"),
        legacy_synthetic("pahkat-service", "https://srv.example/b.exe"),
    ]);
    assert_eq!(index, Ok(expected));
}

#[test]
fn workaround_index_reports_the_first_fault() {
    let ok = || Some("https://srv.example/x.exe".to_string());
    let di = LegacyPackage::DivvunInstaller;
    let ps = LegacyPackage::PahkatService;
    assert_eq!(
        workaround_index_with_urls(PackageRead::Unreadable, PackageRead::Unreadable, ok(), ok()),
        Err(legacy_error(di, WorkaroundFault::Unreadable))
    );
    assert_eq!(
        workaround_index_with_urls(PackageRead::Malformed, PackageRead::Unreadable, ok(), ok()),
        Err(legacy_error(ps, WorkaroundFault::Unreadable))
    );
    assert_eq!(
        workaround_index_with_urls(PackageRead::Malformed, PackageRead::Malformed, ok(), ok()),
        Err(legacy_error(di, WorkaroundFault::Malformed))
    );
    assert_eq!(
        workaround_index_with_urls(
            PackageRead::Parsed(legacy_installer()),
            PackageRead::Malformed,
            ok(),
            ok()
        ),
        Err(legacy_error(ps, WorkaroundFault::Malformed))
    );
    assert_eq!(
        workaround_index_with_urls(
            PackageRead::Parsed(legacy_package("divvun-installer", Vec::new())),
            PackageRead::Parsed(legacy_package("pahkat-service", Vec::new())),
            None,
            None
        ),
        Err(legacy_error(di, WorkaroundFault::NoWindowsRelease))
    );
    let unranked = legacy_package(
        "pahkat-service",
        vec![legacy_release("x", None, None, vec![legacy_target("windows", "https://a/")])],
    );
    assert_eq!(
        workaround_index_with_urls(
            PackageRead::Parsed(legacy_installer()),
            PackageRead::Parsed(unranked),
            None,
            None
        ),
        Err(legacy_error(ps, WorkaroundFault::InvalidVersion))
    );
    assert_eq!(
        workaround_index_with_urls(
            PackageRead::Parsed(legacy_installer()),
            PackageRead::Parsed(legacy_service()),
            None,
            None
        ),
        Err(legacy_error(di, WorkaroundFault::InvalidUrl))
    );
    assert_eq!(
        workaround_index_with_urls(
            PackageRead::Parsed(legacy_installer()),
            PackageRead::Parsed(legacy_service()),
            ok(),
            None
        ),
        Err(legacy_error(ps, WorkaroundFault::InvalidUrl))
    );
}

#[test]
fn generated_index_carries_urls_as_the_url_parser_writes_them() {
    let index = generate_010_workaround_index(
        &legacy_config("HTTPS://Pahkat.Example:443"),
        "0a1b",
        PackageRead::Parsed(legacy_installer()),
        PackageRead::Parsed(legacy_service()),
    );
    let expected = build_index(&vec![
        legacy_synthetic(
            "divvun-installer",
            "https://pahkat.example/1AAB4845-32A9-41A8-BBDE-120847548A81/divvun-installer-0a1b.exe",
        ),
        legacy_synthetic(
            "pahkat-service",
            "https://pahkat.example/1AAB4845-32A9-41A8-BBDE-120847548A82/pahkat-service-0a1b.exe",
        ),
    ]);
    assert_eq!(index, Ok(expected));
}

#[test]
fn generated_index_needs_a_server_url_that_is_one() {
    let index = generate_010_workaround_index(
        &legacy_config(""),
        "0a1b",
        PackageRead::Parsed(legacy_installer()),
        PackageRead::Parsed(legacy_service()),
    );
    assert_eq!(
        index,
        Err(legacy_error(LegacyPackage::DivvunInstaller, WorkaroundFault::InvalidUrl))
    );
}

#[test]
fn kept_index_is_built_once_with_one_nonce() {
    let config = legacy_config("https://pahkat.example");
    let mut kept = WorkaroundIndex::new();
    assert_eq!(kept.cached(), None);
    assert_eq!(
        kept.build(&config, PackageRead::Unreadable, PackageRead::Parsed(legacy_service())),
        Err(legacy_error(LegacyPackage::DivvunInstaller, WorkaroundFault::Unreadable))
    );
    assert_eq!(kept.cached(), None);
    let nonce = kept.nonce.clone().expect("a nonce is drawn with the first build");
    assert!(!nonce.is_empty());
    assert_eq!(
        kept.build(
            &config,
            PackageRead::Parsed(legacy_installer()),
            PackageRead::Parsed(legacy_service())
        ),
        Ok(())
    );
    assert_eq!(kept.nonce, Some(nonce.clone()));
    let expected = generate_010_workaround_index(
        &config,
        &nonce,
        PackageRead::Parsed(legacy_installer()),
        PackageRead::Parsed(legacy_service()),
    )
    .expect("the index can be built");
    assert_eq!(kept.cached(), Some(&expected));
    assert_eq!(kept.build(&config, PackageRead::Unreadable, PackageRead::Unreadable), Ok(()));
    assert_eq!(kept.cached(), Some(&expected));
}

#[test]
fn two_caches_draw_different_nonces() {
    let config = legacy_config("https://pahkat.example");
    let mut one = WorkaroundIndex::new();
    let mut two = WorkaroundIndex::new();
    let _ = one.build(&config, PackageRead::Unreadable, PackageRead::Unreadable);
    let _ = two.build(&config, PackageRead::Unreadable, PackageRead::Unreadable);
    assert!(one.nonce.is_some());
    assert_ne!(one.nonce, two.nonce);
}
