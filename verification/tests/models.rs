use krate::config::Config;
use krate::models::{InstalledManifest, InstalledPlugin, PluginSummary, ProviderKind};

#[test]
fn provider_names_read_back() {
    for kind in ProviderKind::all() {
        assert_eq!(ProviderKind::parse(&kind.display_name()).unwrap(), kind);
        assert_eq!(ProviderKind::at_position(kind.position()), kind);
    }
    assert_eq!(ProviderKind::Modrinth.display_name(), "Modrinth");
    assert_eq!(ProviderKind::CurseForge.display_name(), "CurseForge");
    assert_eq!(ProviderKind::all(), [ProviderKind::Modrinth, ProviderKind::CurseForge]);
}

#[test]
fn provider_parse_ignores_ascii_case() {
    assert_eq!(ProviderKind::parse("MODRINTH").unwrap(), ProviderKind::Modrinth);
    assert_eq!(ProviderKind::parse("curse-forge").unwrap(), ProviderKind::CurseForge);
    assert_eq!(ProviderKind::parse("CurseForge").unwrap(), ProviderKind::CurseForge);
    let error = ProviderKind::parse("hangar").unwrap_err();
    assert_eq!(error.value, "hangar");
    assert_eq!(error.message(), "unknown provider: hangar");
    assert!(ProviderKind::parse("modrinth ").is_err());
    assert!(ProviderKind::parse("").is_err());
}

#[test]
fn defaults() {
    assert_eq!(Config::default().provider, ProviderKind::Modrinth);
    assert!(InstalledManifest::default().plugins.is_empty());
}

#[test]
fn summary_of_installed_plugin() {
    let installed = InstalledPlugin {
        name: "Alpha".into(),
        provider: ProviderKind::Modrinth,
        project_id: "abc".into(),
        slug: "alpha".into(),
        version_id: "v1".into(),
        version_number: "1.0".into(),
        game_version: "1.21".into(),
        loader: "paper".into(),
        filename: "alpha.jar".into(),
    };
    let summary = PluginSummary::from_installed(&installed);
    assert_eq!(summary.name, "Alpha");
    assert_eq!(summary.slug, "alpha");
    assert_eq!(summary.project_id, "abc");
    assert_eq!(summary.description, "");
    assert_eq!(summary.downloads, 0);
}
