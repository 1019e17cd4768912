use krate::catalog::plan_for_selection;
use krate::downloader::DownloadProgress;
use krate::http::{REQUEST_ATTEMPTS, retry_delay_ms};
use krate::models::{PluginFile, PluginSummary, PluginVersion, ProviderKind};
use krate::report::{
    completed_line, counter_line, download_lines, summary_lines, target_line, unsupported_warning, update_lines,
    update_search_lines,
};

fn sample_plan() -> krate::models::DownloadPlan {
    let plugin = PluginSummary {
        provider: ProviderKind::Modrinth,
        project_id: "p".into(),
        slug: "alpha".into(),
        name: "Alpha".into(),
        description: String::new(),
        downloads: 0,
    };
    let version = PluginVersion {
        id: "v".into(),
        name: "Alpha 2".into(),
        version_number: "2.0.1".into(),
        game_versions: vec!["1.21.4".into()],
        loaders: vec!["paper".into()],
        files: vec![PluginFile { filename: "alpha.jar".into(), url: "u".into(), primary: true, size: None }],
    };
    plan_for_selection(plugin, vec![version], "1.21.4".into(), "paper".into()).unwrap()
}

#[test]
fn single_lines() {
    assert_eq!(counter_line(0, 3, "Alpha"), "Plugin 1/3: Alpha");
    assert_eq!(counter_line(9, 10, "Beta"), "Plugin 10/10: Beta");
    assert_eq!(target_line("1.21.11", "paper"), "Target: 1.21.11 / paper");
    assert_eq!(
        unsupported_warning("Alpha", "1.21", "forge"),
        "warning: Alpha does not support Minecraft 1.21 / forge"
    );
    assert_eq!(completed_line("Alpha", "./alpha.jar"), "[ok] Alpha -> ./alpha.jar");
}

#[test]
fn progress_screens() {
    let plan = sample_plan();
    let progress = DownloadProgress { downloaded: 2048, total: Some(4096) };
    assert_eq!(
        download_lines(1, 2, &plan, progress),
        ["Plugin 2/2: Alpha", "Plugin version: 2.0.1", "Target: 1.21.4 / paper", "2.0 KiB / 4.0 KiB"]
    );
    assert_eq!(
        update_lines(0, 1, &plan, "1.9", DownloadProgress { downloaded: 10, total: None }),
        [
            "Plugin 1/1: Alpha",
            "Installed version: 1.9",
            "New version: 2.0.1",
            "Target: 1.21.4 / paper",
            "10 B downloaded",
        ]
    );
    assert_eq!(
        update_search_lines(0, 4, "Alpha", "1.21", "paper"),
        ["Plugin 1/4: Alpha", "Target: 1.21 / paper", "Looking for a compatible release..."]
    );
}

#[test]
fn update_summary_groups_lines() {
    let complete = vec!["[ok] A -> ./a.jar".to_string(), "[ok] B -> ./b.jar".to_string()];
    let warnings = vec!["warning: C does not support Minecraft 1.21 / paper".to_string()];
    assert_eq!(
        summary_lines("1.21", "paper", &complete, &warnings),
        [
            "Target: 1.21 / paper",
            "Updated: 2",
            "",
            "[ok] A -> ./a.jar",
            "[ok] B -> ./b.jar",
            "",
            "warning: C does not support Minecraft 1.21 / paper",
        ]
    );
    assert_eq!(summary_lines("1.20", "folia", &[], &[]), ["Target: 1.20 / folia", "Updated: 0"]);
    assert_eq!(
        summary_lines("1.20", "folia", &[], &warnings),
        ["Target: 1.20 / folia", "Updated: 0", "", "warning: C does not support Minecraft 1.21 / paper"]
    );
}

#[test]
fn retry_delays_grow_quadratically() {
    assert_eq!(REQUEST_ATTEMPTS, 3);
    let delays: Vec<u64> = (0..REQUEST_ATTEMPTS).map(retry_delay_ms).collect();
    assert_eq!(delays, [250, 1000, 2250]);
}
