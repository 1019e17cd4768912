use krate::catalog::{
    GetStep, default_loaders, loaders_for_version, next_get_step, plan_for_selection, plan_for_update,
    plugin_items, selected_markers, upsert_plan,
};
use krate::models::{DownloadPlan, InstalledPlugin, PluginFile, PluginSummary, PluginVersion, ProviderKind};
use krate::tui::SelectAction;

fn file(name: &str, primary: bool) -> PluginFile {
    PluginFile {
        filename: name.into(),
        url: format!("https://example.invalid/{name}"),
        primary,
        size: Some(10),
    }
}

fn version(id: &str, games: &[&str], loaders: &[&str], files: Vec<PluginFile>) -> PluginVersion {
    PluginVersion {
        id: id.into(),
        name: format!("name {id}"),
        version_number: format!("v{id}"),
        game_versions: games.iter().map(|g| g.to_string()).collect(),
        loaders: loaders.iter().map(|l| l.to_string()).collect(),
        files,
    }
}

fn summary(provider: ProviderKind, id: &str, name: &str) -> PluginSummary {
    PluginSummary {
        provider,
        project_id: id.into(),
        slug: id.to_lowercase(),
        name: name.into(),
        description: format!("about {name}"),
        downloads: 1234,
    }
}

fn plan_for(plugin: PluginSummary, version_id: &str) -> DownloadPlan {
    let v = version(version_id, &["1.21"], &["paper"], vec![file("a.jar", true)]);
    plan_for_selection(plugin, vec![v], "1.21".into(), "paper".into()).unwrap()
}

#[test]
fn default_loaders_in_order() {
    assert_eq!(
        default_loaders(),
        ["paper", "purpur", "spigot", "bukkit", "folia", "fabric", "forge", "neoforge"]
    );
}

#[test]
fn loaders_put_defaults_first_then_others_once() {
    let versions = vec![
        version("1", &["1.21"], &["velocity", "spigot", "custom"], Vec::new()),
        version("2", &["1.20"], &["forge"], Vec::new()),
        version("3", &["1.21", "1.20"], &["paper", "custom", "other"], Vec::new()),
    ];
    assert_eq!(
        loaders_for_version(&versions, "1.21"),
        ["paper", "spigot", "velocity", "custom", "other"]
    );
    assert_eq!(loaders_for_version(&versions, "1.20"), ["paper", "forge", "custom", "other"]);
    assert_eq!(loaders_for_version(&versions, "1.19"), Vec::<String>::new());
}

#[test]
fn plugin_rows_show_name_downloads_and_description() {
    let plugins = vec![summary(ProviderKind::Modrinth, "P1", "LuckPerms")];
    assert_eq!(plugin_items(&plugins), ["LuckPerms  1234 downloads  about LuckPerms"]);
    let mut zero = summary(ProviderKind::Modrinth, "P2", "X");
    zero.downloads = 0;
    zero.description = String::new();
    assert_eq!(plugin_items(&[zero]), ["X  0 downloads  "]);
}

#[test]
fn markers_follow_plans_by_provider_and_project() {
    let a = summary(ProviderKind::Modrinth, "A", "Alpha");
    let b = summary(ProviderKind::Modrinth, "B", "Beta");
    let a_elsewhere = summary(ProviderKind::CurseForge, "A", "Alpha");
    let plans = vec![plan_for(a.clone(), "1")];
    assert_eq!(selected_markers(&[a, b, a_elsewhere], &plans), [true, false, false]);
}

#[test]
fn upsert_replaces_the_plan_of_the_same_project() {
    let a = summary(ProviderKind::Modrinth, "A", "Alpha");
    let b = summary(ProviderKind::Modrinth, "B", "Beta");
    let a_cf = summary(ProviderKind::CurseForge, "A", "Alpha");
    let mut plans = Vec::new();
    upsert_plan(&mut plans, plan_for(a.clone(), "1"));
    upsert_plan(&mut plans, plan_for(b.clone(), "2"));
    upsert_plan(&mut plans, plan_for(a_cf.clone(), "3"));
    upsert_plan(&mut plans, plan_for(a.clone(), "4"));
    let ids: Vec<(String, ProviderKind, String)> = plans
        .iter()
        .map(|p| (p.plugin.project_id.clone(), p.plugin.provider, p.version.id.clone()))
        .collect();
    assert_eq!(
        ids,
        [
            ("B".to_string(), ProviderKind::Modrinth, "2".to_string()),
            ("A".to_string(), ProviderKind::CurseForge, "3".to_string()),
            ("A".to_string(), ProviderKind::Modrinth, "4".to_string()),
        ]
    );
    assert_eq!(selected_markers(&[a, b], &plans), [true, true]);
}

#[test]
fn plan_takes_first_fitting_version_and_primary_file() {
    let plugin = summary(ProviderKind::Modrinth, "A", "Alpha");
    let versions = vec![
        version("1", &["1.21"], &["fabric"], vec![file("fabric.jar", true)]),
        version("2", &["1.21"], &["paper"], Vec::new()),
        version("3", &["1.20", "1.21"], &["spigot", "paper"], vec![file("extra.jar", false), file("main.jar", true)]),
        version("4", &["1.21"], &["paper"], vec![file("later.jar", true)]),
    ];
    let plan = plan_for_selection(plugin, versions, "1.21".into(), "paper".into()).unwrap();
    assert_eq!(plan.version.id, "3");
    assert_eq!(plan.file.filename, "main.jar");
    assert_eq!(plan.game_version, "1.21");
    assert_eq!(plan.loader, "paper");
    assert_eq!(plan.plugin.project_id, "A");
}

#[test]
fn plan_falls_back_to_first_file() {
    let plugin = summary(ProviderKind::Modrinth, "A", "Alpha");
    let versions = vec![version("1", &["1.21"], &["paper"], vec![file("one.jar", false), file("two.jar", false)])];
    let plan = plan_for_selection(plugin, versions, "1.21".into(), "paper".into()).unwrap();
    assert_eq!(plan.file.filename, "one.jar");
}

#[test]
fn plan_without_fitting_version_is_an_error() {
    let plugin = summary(ProviderKind::Modrinth, "A", "Alpha");
    let versions = vec![version("1", &["1.20"], &["paper"], vec![file("a.jar", true)])];
    let error = plan_for_selection(plugin, versions, "1.21".into(), "paper".into()).unwrap_err();
    assert_eq!(error.message(), "no matching version for Alpha 1.21 paper");
}

#[test]
fn update_plan_uses_installed_plugin() {
    let installed = InstalledPlugin {
        name: "Alpha".into(),
        provider: ProviderKind::CurseForge,
        project_id: "42".into(),
        slug: "alpha".into(),
        version_id: "old".into(),
        version_number: "0.9".into(),
        game_version: "1.20".into(),
        loader: "paper".into(),
        filename: "alpha-0.9.jar".into(),
    };
    let versions = vec![version("7", &["1.21"], &["paper"], vec![file("alpha-1.0.jar", true)])];
    let plan = plan_for_update(&installed, versions.clone(), "1.21".into(), "paper".into()).unwrap();
    assert_eq!(plan.plugin.name, "Alpha");
    assert_eq!(plan.plugin.provider, ProviderKind::CurseForge);
    assert_eq!(plan.plugin.project_id, "42");
    assert_eq!(plan.plugin.description, "");
    assert_eq!(plan.plugin.downloads, 0);
    assert_eq!(plan.file.filename, "alpha-1.0.jar");
    assert!(plan_for_update(&installed, versions, "1.21".into(), "forge".into()).is_none());
}

#[test]
fn get_steps_follow_the_search_list() {
    assert_eq!(next_get_step(SelectAction::Search, false, false), GetStep::AskQuery);
    assert_eq!(next_get_step(SelectAction::Install, true, false), GetStep::NothingSelected);
    assert_eq!(next_get_step(SelectAction::Install, false, true), GetStep::Install);
    assert_eq!(next_get_step(SelectAction::Confirm, true, false), GetStep::Configure);
    assert_eq!(next_get_step(SelectAction::Confirm, false, true), GetStep::Leave);
    assert_eq!(next_get_step(SelectAction::Back, true, true), GetStep::Leave);
    assert_eq!(next_get_step(SelectAction::Quit, true, true), GetStep::Leave);
}
