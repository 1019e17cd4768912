use krate::catalog::unique_game_versions;
use krate::models::PluginVersion;
use krate::order::compare_versions;

#[test]
fn sorts_minecraft_versions_numerically_descending() {
    let mut versions = ["1.8.9", "1.21.11", "1.21.10", "26.1"]
        .map(String::from)
        .to_vec();
    versions.sort_by(|left, right| compare_versions(right, left));

    assert_eq!(versions, ["26.1", "1.21.11", "1.21.10", "1.8.9"]);
}

#[test]
fn unique_game_versions_are_sorted() {
    let versions = vec![PluginVersion {
        id: "id".into(),
        name: "name".into(),
        version_number: "version".into(),
        game_versions: vec!["1.8.9".into(), "1.21.11".into(), "1.21.10".into()],
        loaders: Vec::new(),
        files: Vec::new(),
    }];

    assert_eq!(
        unique_game_versions(&versions),
        ["1.21.11", "1.21.10", "1.8.9"]
    );
}

use krate::order::is_newer;
use krate::version::version_parts;
use std::cmp::Ordering;

#[test]
fn version_parts_reads_digit_runs() {
    assert_eq!(version_parts("1.21.11"), vec![1, 21, 11]);
    assert_eq!(version_parts("1.20-pre3"), vec![1, 20, 3]);
    assert_eq!(version_parts("abc"), Vec::<u32>::new());
    assert_eq!(version_parts(""), Vec::<u32>::new());
    assert_eq!(version_parts("007"), vec![7]);
    assert_eq!(version_parts("4294967295.1"), vec![4294967295, 1]);
    assert_eq!(version_parts("4294967296.7"), vec![7]);
    assert_eq!(version_parts("99999999999999999999999"), Vec::<u32>::new());
}

#[test]
fn compare_versions_uses_parts_then_text() {
    assert_eq!(compare_versions("1.21.11", "1.21.10"), Ordering::Greater);
    assert_eq!(compare_versions("1.8.9", "1.21"), Ordering::Less);
    assert_eq!(compare_versions("1.0", "1.0.0"), Ordering::Less);
    assert_eq!(compare_versions("1.20", "1.20"), Ordering::Equal);
    // same parts: the texts decide
    assert_eq!(compare_versions("v1.2", "1.2"), Ordering::Greater);
    assert_eq!(compare_versions("1.2", "1-2"), Ordering::Greater);
    assert_eq!(compare_versions("4294967296.1", "1"), "4294967296.1".cmp("1"));
    assert!(is_newer("26.1", "1.21.11"));
    assert!(!is_newer("1.21.11", "26.1"));
    assert!(!is_newer("1.2", "1.2"));
}

#[test]
fn version_order_is_a_total_order_on_samples() {
    let samples = [
        "1.8.9", "1.21.11", "1.21.10", "26.1", "1.21", "1.21.0", "v1.21", "b1.7.3", "", "abc", "1.20-pre3",
        "4294967296", "1.2", "1-2",
    ];
    for a in samples {
        assert_eq!(compare_versions(a, a), Ordering::Equal);
        for b in samples {
            assert_eq!(compare_versions(a, b), compare_versions(b, a).reverse());
            assert_eq!(compare_versions(a, b) == Ordering::Equal, a == b);
            for c in samples {
                if compare_versions(a, b) == Ordering::Less && compare_versions(b, c) == Ordering::Less {
                    assert_eq!(compare_versions(a, c), Ordering::Less);
                }
            }
        }
    }
}

#[test]
fn unique_game_versions_merges_and_dedupes() {
    let first = PluginVersion {
        id: "a".into(),
        name: "a".into(),
        version_number: "1".into(),
        game_versions: vec!["1.20".into(), "1.21".into()],
        loaders: vec!["paper".into()],
        files: Vec::new(),
    };
    let second = PluginVersion {
        id: "b".into(),
        name: "b".into(),
        version_number: "2".into(),
        game_versions: vec!["1.21".into(), "1.19.4".into(), "1.21.1".into()],
        loaders: vec!["paper".into()],
        files: Vec::new(),
    };
    assert_eq!(
        unique_game_versions(&[first, second]),
        ["1.21.1", "1.21", "1.20", "1.19.4"]
    );
    assert_eq!(unique_game_versions(&[]), Vec::<String>::new());
}
