use krate::providers::{
    CurseForgeFile, CurseForgeMod, ModrinthHit, curseforge_files_url, curseforge_search_url, modrinth_search_url,
    modrinth_versions_url, summaries_from_curseforge, summaries_from_modrinth, versions_from_curseforge,
};
use krate::models::ProviderKind;

#[test]
fn modrinth_addresses() {
    assert_eq!(
        modrinth_search_url("luck perms").unwrap(),
        "https://api.modrinth.com/v2/search?query=luck+perms&facets=%5B%5B%22project_type%3Amod%22%5D%2C%5B%22server_side%3Arequired%22%2C%22server_side%3Aoptional%22%5D%5D&index=downloads&limit=50"
    );
    assert_eq!(modrinth_versions_url("AbC1"), "https://api.modrinth.com/v2/project/AbC1/version");
}

#[test]
fn curseforge_addresses() {
    assert_eq!(
        curseforge_search_url("world edit&more").unwrap(),
        "https://api.curseforge.com/v1/mods/search?gameId=432&classId=5&searchFilter=world+edit%26more&sortField=6&sortOrder=desc&pageSize=50"
    );
    assert_eq!(
        curseforge_files_url("31043").unwrap(),
        "https://api.curseforge.com/v1/mods/31043/files?pageSize=50"
    );
}

#[test]
fn modrinth_hits_become_summaries() {
    let hits = vec![ModrinthHit {
        project_id: "Vebnzrzj".into(),
        slug: "luckperms".into(),
        title: "LuckPerms".into(),
        description: "A permissions plugin".into(),
        downloads: 99,
    }];
    let plugins = summaries_from_modrinth(hits);
    assert_eq!(plugins.len(), 1);
    assert_eq!(plugins[0].provider, ProviderKind::Modrinth);
    assert_eq!(plugins[0].project_id, "Vebnzrzj");
    assert_eq!(plugins[0].name, "LuckPerms");
    assert_eq!(plugins[0].slug, "luckperms");
    assert_eq!(plugins[0].description, "A permissions plugin");
    assert_eq!(plugins[0].downloads, 99);
}

#[test]
fn curseforge_mods_become_summaries() {
    let mods = vec![
        CurseForgeMod { id: 31043, name: "WorldEdit".into(), slug: "worldedit".into(), summary: Some("Edit".into()), download_count: 7 },
        CurseForgeMod { id: 0, name: "X".into(), slug: "x".into(), summary: None, download_count: 0 },
    ];
    let plugins = summaries_from_curseforge(mods);
    assert_eq!(plugins[0].provider, ProviderKind::CurseForge);
    assert_eq!(plugins[0].project_id, "31043");
    assert_eq!(plugins[0].description, "Edit");
    assert_eq!(plugins[0].downloads, 7);
    assert_eq!(plugins[1].project_id, "0");
    assert_eq!(plugins[1].description, "");
}

#[test]
fn curseforge_files_become_versions() {
    let files = vec![
        CurseForgeFile {
            id: 4001,
            display_name: Some("WorldEdit 7".into()),
            file_name: "worldedit-7.jar".into(),
            download_url: Some("https://edge.example/worldedit-7.jar".into()),
            game_versions: vec!["1.21".into(), "1.20.6".into()],
            file_length: Some(5000),
        },
        CurseForgeFile {
            id: 4002,
            display_name: None,
            file_name: "hidden.jar".into(),
            download_url: None,
            game_versions: vec!["1.21".into()],
            file_length: None,
        },
        CurseForgeFile {
            id: 4003,
            display_name: None,
            file_name: "plain.jar".into(),
            download_url: Some("https://edge.example/plain.jar".into()),
            game_versions: Vec::new(),
            file_length: None,
        },
    ];
    let versions = versions_from_curseforge(files);
    assert_eq!(versions.len(), 2);
    assert_eq!(versions[0].id, "4001");
    assert_eq!(versions[0].version_number, "4001");
    assert_eq!(versions[0].name, "WorldEdit 7");
    assert_eq!(versions[0].game_versions, ["1.21", "1.20.6"]);
    assert_eq!(versions[0].loaders, ["bukkit", "spigot", "paper"]);
    assert_eq!(versions[0].files.len(), 1);
    assert_eq!(versions[0].files[0].filename, "worldedit-7.jar");
    assert_eq!(versions[0].files[0].url, "https://edge.example/worldedit-7.jar");
    assert!(versions[0].files[0].primary);
    assert_eq!(versions[0].files[0].size, Some(5000));
    assert_eq!(versions[1].id, "4003");
    assert_eq!(versions[1].name, "plain.jar");
}
