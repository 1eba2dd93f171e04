use pahkat_reposrv::catalog::{build_index, generate_empty_index};
use pahkat_reposrv::package::{PackageRecord, Release, Target, Version};

fn catalog_target(platform: &str, url: &str) -> Target {
    Target { platform: platform.to_string(), url: url.to_string() }
}

fn catalog_release(version: &str, channel: Option<&str>, targets: Vec<Target>) -> Release {
    Release {
        version: Version { text: version.to_string(), semantic_rank: None },
        channel: channel.map(|c| c.to_string()),
        targets,
    }
}

fn catalog_package(id: &str, releases: Vec<Release>) -> PackageRecord {
    PackageRecord {
        id: id.to_string(),
        name: Vec::new(),
        description: Vec::new(),
        tags: Vec::new(),
        releases,
    }
}

fn catalog_len(n: usize) -> Vec<u8> {
    let mut out = Vec::new();
    let mut left = n;
    while left >= 128 {
        out.push((128 + left % 128) as u8);
        left /= 128;
    }
    out.push(left as u8);
    out
}

fn catalog_text(s: &str) -> Vec<u8> {
    let mut out = catalog_len(s.len());
    out.extend_from_slice(s.as_bytes());
    out
}

#[test]
fn empty_index_is_the_magic_and_a_count_of_zero() {
    let expected: Vec<u8> = vec![0x50, 0x49, 0x44, 0x58, 0];
    assert_eq!(generate_empty_index(), expected);
    assert_eq!(build_index(&Vec::new()), expected);
}

#[test]
fn index_of_one_package_byte_for_byte() {
    let packages = vec![catalog_package(
        "p",
        vec![catalog_release("1.0", None, vec![catalog_target("w", "u:")])],
    )];
    let expected: Vec<u8> = vec![
        0x50, 0x49, 0x44, 0x58, // magic
        1, // one package
        1, b'p', // id
        1, // one release
        3, b'1', b'.', b'0', // version
        0, // no channel
        1, // one target
        1, b'w', // platform
        2, b'u', b':', // url
    ];
    assert_eq!(build_index(&packages), expected);
}

#[test]
fn index_writes_a_channel_after_a_one() {
    let packages = vec![catalog_package("p", vec![catalog_release("2", Some("beta"), Vec::new())])];
    let mut expected: Vec<u8> = vec![0x50, 0x49, 0x44, 0x58];
    expected.extend(catalog_len(1));
    expected.extend(catalog_text("p"));
    expected.extend(catalog_len(1));
    expected.extend(catalog_text("2"));
    expected.push(1);
    expected.extend(catalog_text("beta"));
    expected.extend(catalog_len(0));
    assert_eq!(build_index(&packages), expected);
}

#[test]
fn index_counts_text_in_bytes_of_utf8() {
    let packages = vec![catalog_package("smé", Vec::new())];
    let mut expected: Vec<u8> = vec![0x50, 0x49, 0x44, 0x58];
    expected.extend(catalog_len(1));
    expected.extend(vec![4, b's', b'm', 0xc3, 0xa9]);
    expected.extend(catalog_len(0));
    assert_eq!(build_index(&packages), expected);
}

#[test]
fn index_writes_a_count_of_128_or_more_in_several_bytes() {
    let long = "x".repeat(200);
    let packages = vec![catalog_package(&long, Vec::new())];
    let mut expected: Vec<u8> = vec![0x50, 0x49, 0x44, 0x58, 1, 0xc8, 0x01];
    expected.extend(long.as_bytes());
    expected.push(0);
    assert_eq!(build_index(&packages), expected);

    let longer = "y".repeat(16384);
    let packages = vec![catalog_package(&longer, Vec::new())];
    let mut expected: Vec<u8> = vec![0x50, 0x49, 0x44, 0x58, 1, 0x80, 0x80, 0x01];
    expected.extend(longer.as_bytes());
    expected.push(0);
    assert_eq!(build_index(&packages), expected);

    let many: Vec<_> = (0..130).map(|_| catalog_package("", Vec::new())).collect();
    let mut expected: Vec<u8> = vec![0x50, 0x49, 0x44, 0x58, 0x82, 0x01];
    for _ in 0..130 {
        expected.extend(vec![0, 0]);
    }
    assert_eq!(build_index(&many), expected);
}

#[test]
fn index_writes_a_count_below_128_in_one_byte() {
    let text = "z".repeat(127);
    let packages = vec![catalog_package(&text, Vec::new())];
    let mut expected: Vec<u8> = vec![0x50, 0x49, 0x44, 0x58, 1, 127];
    expected.extend(text.as_bytes());
    expected.push(0);
    assert_eq!(build_index(&packages), expected);
}

#[test]
fn index_lists_packages_releases_and_targets_in_order() {
    let packages = vec![
        catalog_package(
            "b",
            vec![
                catalog_release(
                    "1.1.0",
                    None,
                    vec![
                        catalog_target("windows", "https://x.example/w"),
                        catalog_target("macos", "https://x.example/m"),
                    ],
                ),
                catalog_release("1.0.0", Some("nightly"), Vec::new()),
            ],
        ),
        catalog_package("a", Vec::new()),
    ];
    let mut expected: Vec<u8> = vec![0x50, 0x49, 0x44, 0x58];
    expected.extend(catalog_len(2));
    expected.extend(catalog_text("b"));
    expected.extend(catalog_len(2));
    expected.extend(catalog_text("1.1.0"));
    expected.push(0);
    expected.extend(catalog_len(2));
    expected.extend(catalog_text("windows"));
    expected.extend(catalog_text("https://x.example/w"));
    expected.extend(catalog_text("macos"));
    expected.extend(catalog_text("https://x.example/m"));
    expected.extend(catalog_text("1.0.0"));
    expected.push(1);
    expected.extend(catalog_text("nightly"));
    expected.extend(catalog_len(0));
    expected.extend(catalog_text("a"));
    expected.extend(catalog_len(0));
    assert_eq!(build_index(&packages), expected);
}

#[test]
fn building_twice_from_the_same_packages_gives_the_same_bytes() {
    let make = || {
        vec![
            catalog_package(
                "speller-sme",
                vec![catalog_release(
                    "1.2.3",
                    Some("beta"),
                    vec![catalog_target("windows", "https://x.example/sme.exe")],
                )],
            ),
            catalog_package("keyboard-sme", Vec::new()),
        ]
    };
    let first = build_index(&make());
    let second = build_index(&make());
    assert_eq!(first, second);
    let packages = make();
    assert_eq!(build_index(&packages), build_index(&packages));
}

#[test]
fn index_does_not_depend_on_what_it_does_not_list() {
    let plain = catalog_package("p", vec![catalog_release("1.0.0", None, Vec::new())]);
    let mut decorated = plain.clone();
    decorated.tags.push("cat:speller".to_string());
    decorated.releases[0].version.semantic_rank = Some(7);
    assert_eq!(build_index(&vec![plain]), build_index(&vec![decorated]));
}

#[test]
fn packages_that_differ_in_what_is_listed_have_different_indexes() {
    let a = vec![catalog_package("p", vec![catalog_release("1.0.0", None, Vec::new())])];
    let b = vec![catalog_package("p", vec![catalog_release("1.0.1", None, Vec::new())])];
    let c = vec![catalog_package("p", vec![catalog_release("1.0.0", Some("stable"), Vec::new())])];
    assert_ne!(build_index(&a), build_index(&b));
    assert_ne!(build_index(&a), build_index(&c));
}

#[test]
fn order_of_packages_shows_in_the_index() {
    let ab = vec![catalog_package("a", Vec::new()), catalog_package("b", Vec::new())];
    let ba = vec![catalog_package("b", Vec::new()), catalog_package("a", Vec::new())];
    assert_ne!(build_index(&ab), build_index(&ba));
}
