use krate::catalog::plan_for_selection;
use krate::downloader::{DownloadProgress, expected_total, sanitize_filename};
use krate::models::{DownloadPlan, InstalledManifest, InstalledPlugin, PluginFile, PluginSummary, PluginVersion, ProviderKind};

fn plan(project: &str, version_id: &str, name: &str) -> DownloadPlan {
    let plugin = PluginSummary {
        provider: ProviderKind::Modrinth,
        project_id: project.into(),
        slug: name.to_lowercase(),
        name: name.into(),
        description: String::new(),
        downloads: 5,
    };
    let version = PluginVersion {
        id: version_id.into(),
        name: format!("{name} {version_id}"),
        version_number: format!("{version_id}.0"),
        game_versions: vec!["1.21".into()],
        loaders: vec!["paper".into()],
        files: vec![PluginFile { filename: format!("{name}.jar"), url: "u".into(), primary: true, size: None }],
    };
    plan_for_selection(plugin, vec![version], "1.21".into(), "paper".into()).unwrap()
}

fn entry(project: &str, filename: &str) -> InstalledPlugin {
    InstalledPlugin {
        name: project.into(),
        provider: ProviderKind::Modrinth,
        project_id: project.into(),
        slug: project.into(),
        version_id: String::new(),
        version_number: String::new(),
        game_version: "1.20".into(),
        loader: "paper".into(),
        filename: filename.into(),
    }
}

#[test]
fn sanitize_replaces_reserved_characters() {
    assert_eq!(sanitize_filename("a/b\\c:d*e?f\"g<h>i|j.jar"), "a_b_c_d_e_f_g_h_i_j.jar");
    assert_eq!(sanitize_filename("LuckPerms-Bukkit-5.4.jar"), "LuckPerms-Bukkit-5.4.jar");
    assert_eq!(sanitize_filename(""), "");
    let once = sanitize_filename("x/y.jar");
    assert_eq!(sanitize_filename(&once), once);
}

#[test]
fn total_prefers_the_announced_length() {
    assert_eq!(expected_total(Some(10), Some(20)), Some(10));
    assert_eq!(expected_total(None, Some(20)), Some(20));
    assert_eq!(expected_total(None, None), None);
}

#[test]
fn progress_counts_chunks() {
    let mut progress = DownloadProgress::start(Some(100));
    assert_eq!(progress.downloaded, 0);
    progress.advance(40);
    progress.advance(2);
    assert_eq!(progress.downloaded, 42);
    assert_eq!(progress.total, Some(100));
}

#[test]
fn record_replaces_the_same_project_and_keeps_others() {
    let mut manifest = InstalledManifest { plugins: vec![entry("A", "a.jar"), entry("B", "b.jar"), entry("C", "c.jar")] };
    let p = plan("B", "7", "Beta");
    manifest.record(&p, "Beta.jar");
    let ids: Vec<&str> = manifest.plugins.iter().map(|e| e.project_id.as_str()).collect();
    assert_eq!(ids, ["A", "C", "B"]);
    let last = manifest.plugins.last().unwrap();
    assert_eq!(last.name, "Beta");
    assert_eq!(last.version_id, "7");
    assert_eq!(last.version_number, "7.0");
    assert_eq!(last.game_version, "1.21");
    assert_eq!(last.loader, "paper");
    assert_eq!(last.filename, "Beta.jar");
    assert_eq!(last.slug, "beta");

    manifest.record(&p, "Beta.jar");
    let ids: Vec<&str> = manifest.plugins.iter().map(|e| e.project_id.as_str()).collect();
    assert_eq!(ids, ["A", "C", "B"]);

    let mut empty = InstalledManifest::default();
    empty.record(&plan("Z", "1", "Zed"), "Zed.jar");
    assert_eq!(empty.plugins.len(), 1);
    assert_eq!(empty.plugins[0].project_id, "Z");
}
