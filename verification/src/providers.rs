//! The Modrinth and CurseForge APIs: the addresses the library asks, and how
//! their answers become plugins and versions. The requests themselves are
//! sent outside the library.

use vstd::prelude::*;
use vstd::string::*;
use crate::models::{file_views, texts, PluginFile, PluginFileView, PluginSummary, PluginSummaryView, PluginVersion, PluginVersionView, ProviderKind};
use crate::text::{decimal, decimal_string};

verus! {

/// The text of a URL that `reqwest::Url::parse_with_params` builds from a
/// base address and query pairs, or `None` when the base is no valid URL.
pub uninterp spec fn url_with_query(base: Seq<char>, pairs: Seq<(Seq<char>, Seq<char>)>) -> Option<Seq<char>>;

/// The texts of query pairs.
pub open spec fn pair_texts(pairs: Seq<(String, String)>) -> Seq<(Seq<char>, Seq<char>)> {
    pairs.map_values(|p: (String, String)| (p.0@, p.1@))
}

/// The text of an optional string.
pub open spec fn optional_text(s: Option<String>) -> Option<Seq<char>> {
    match s {
        Some(t) => Some(t@),
        None => None,
    }
}

/// `reqwest::Url::parse_with_params`: parses `base` and appends `pairs` to
/// its query, form-encoded; returns the URL's text, or `None` when `base`
/// does not parse. What the text is, is named by `url_with_query` and not
/// stated further.
#[verifier::external_body]
fn parse_with_params(base: &str, pairs: &Vec<(String, String)>) -> (url: Option<String>)
    ensures
        optional_text(url) == url_with_query(base@, pair_texts(pairs@)),
{
    match reqwest::Url::parse_with_params(base, pairs.iter()) {
        Ok(parsed) => Some(String::from(parsed)),
        Err(_) => None,
    }
}

fn pair(key: &str, value: &str) -> (p: (String, String))
    ensures
        p.0@ == key@,
        p.1@ == value@,
{
    (String::from_str(key), String::from_str(value))
}

/// The Modrinth API address.
pub open spec fn modrinth_base() -> Seq<char> {
    "https://api.modrinth.com/v2"@
}

/// The search facets sent to Modrinth: mods that run on servers.
pub open spec fn modrinth_facets() -> Seq<char> {
    "[[\"project_type:mod\"],[\"server_side:required\",\"server_side:optional\"]]"@
}

/// The query of a Modrinth search: the search text, the facets, ordering by
/// downloads, at most 50 results.
pub open spec fn modrinth_search_query(query: Seq<char>) -> Seq<(Seq<char>, Seq<char>)> {
    seq![("query"@, query), ("facets"@, modrinth_facets()), ("index"@, "downloads"@), ("limit"@, "50"@)]
}

/// The address of a Modrinth search for `query`.
pub fn modrinth_search_url(query: &str) -> (url: Option<String>)
    ensures
        optional_text(url) == url_with_query(modrinth_base() + "/search"@, modrinth_search_query(query@)),
{
    let base = String::from_str("https://api.modrinth.com/v2").concat("/search");
    let mut pairs: Vec<(String, String)> = Vec::new();
    pairs.push(pair("query", query));
    pairs.push(pair("facets", "[[\"project_type:mod\"],[\"server_side:required\",\"server_side:optional\"]]"));
    pairs.push(pair("index", "downloads"));
    pairs.push(pair("limit", "50"));
    assert(pair_texts(pairs@) =~= modrinth_search_query(query@));
    parse_with_params(base.as_str(), &pairs)
}

/// The address of the version list of a Modrinth project.
pub fn modrinth_versions_url(project_id: &str) -> (url: String)
    ensures
        url@ == modrinth_base() + "/project/"@ + project_id@ + "/version"@,
{
    String::from_str("https://api.modrinth.com/v2").concat("/project/").concat(project_id).concat("/version")
}

/// The CurseForge API address.
pub open spec fn curseforge_base() -> Seq<char> {
    "https://api.curseforge.com/v1"@
}

/// The query of a CurseForge search: Minecraft (game 432), Bukkit plugins
/// (class 5), the search text, ordered by downloads (field 6) descending, at
/// most 50 results.
pub open spec fn curseforge_search_query(query: Seq<char>) -> Seq<(Seq<char>, Seq<char>)> {
    seq![
        ("gameId"@, "432"@),
        ("classId"@, "5"@),
        ("searchFilter"@, query),
        ("sortField"@, "6"@),
        ("sortOrder"@, "desc"@),
        ("pageSize"@, "50"@),
    ]
}

/// The address of a CurseForge search for `query`.
pub fn curseforge_search_url(query: &str) -> (url: Option<String>)
    ensures
        optional_text(url) == url_with_query(curseforge_base() + "/mods/search"@, curseforge_search_query(query@)),
{
    let base = String::from_str("https://api.curseforge.com/v1").concat("/mods/search");
    let mut pairs: Vec<(String, String)> = Vec::new();
    pairs.push(pair("gameId", "432"));
    pairs.push(pair("classId", "5"));
    pairs.push(pair("searchFilter", query));
    pairs.push(pair("sortField", "6"));
    pairs.push(pair("sortOrder", "desc"));
    pairs.push(pair("pageSize", "50"));
    assert(pair_texts(pairs@) =~= curseforge_search_query(query@));
    parse_with_params(base.as_str(), &pairs)
}

/// The address of the file list of a CurseForge project, at most 50 files.
pub fn curseforge_files_url(project_id: &str) -> (url: Option<String>)
    ensures
        optional_text(url) == url_with_query(
            curseforge_base() + "/mods/"@ + project_id@ + "/files"@,
            seq![("pageSize"@, "50"@)],
        ),
{
    let base = String::from_str("https://api.curseforge.com/v1").concat("/mods/").concat(project_id).concat("/files");
    let mut pairs: Vec<(String, String)> = Vec::new();
    pairs.push(pair("pageSize", "50"));
    assert(pair_texts(pairs@) =~= seq![("pageSize"@, "50"@)]);
    parse_with_params(base.as_str(), &pairs)
}

/// A Modrinth search hit.
#[derive(Debug, Clone)]
pub struct ModrinthHit {
    pub project_id: String,
    pub slug: String,
    pub title: String,
    pub description: String,
    pub downloads: u64,
}

/// The search entry for a Modrinth hit.
pub open spec fn modrinth_summary(hit: ModrinthHit) -> PluginSummaryView {
    PluginSummaryView {
        provider: ProviderKind::Modrinth,
        project_id: hit.project_id@,
        slug: hit.slug@,
        name: hit.title@,
        description: hit.description@,
        downloads: hit.downloads,
    }
}

/// The search entries for Modrinth hits, one per hit, in order.
pub fn summaries_from_modrinth(hits: Vec<ModrinthHit>) -> (plugins: Vec<PluginSummary>)
    ensures
        plugins@.len() == hits@.len(),
        forall|i: int| 0 <= i < hits@.len() ==> (#[trigger] plugins@[i])@ == modrinth_summary(hits@[i]),
        forall|i: int| 0 <= i < hits@.len() ==> {
            &&& (#[trigger] plugins@[i]).provider == ProviderKind::Modrinth
            &&& plugins@[i].project_id@ == hits@[i].project_id@
            &&& plugins@[i].slug@ == hits@[i].slug@
            &&& plugins@[i].name@ == hits@[i].title@
            &&& plugins@[i].description@ == hits@[i].description@
            &&& plugins@[i].downloads == hits@[i].downloads
        },
{
    let ghost original = hits@;
    let mut hits = hits;
    let count = hits.len();
    assert(original.len() == count);
    let mut plugins: Vec<PluginSummary> = Vec::new();
    let mut i: usize = 0;
    while hits.len() > 0
        invariant
            i + hits@.len() == original.len(),
            original.len() <= usize::MAX,
            hits@ == original.skip(i as int),
            plugins@.len() == i,
            forall|k: int| 0 <= k < i ==> (#[trigger] plugins@[k])@ == modrinth_summary(original[k]),
        decreases hits.len(),
    {
        let ghost rest = hits@;
        let hit = hits.remove(0);
        proof {
            assert(hit == original[i as int]);
            assert(hits@ =~= original.skip(i + 1));
        }
        plugins.push(PluginSummary {
            provider: ProviderKind::Modrinth,
            project_id: hit.project_id,
            slug: hit.slug,
            name: hit.title,
            description: hit.description,
            downloads: hit.downloads,
        });
        i = i + 1;
    }
    plugins
}

/// A CurseForge search result. The download count arrives as a number with
/// a fraction and is handed over already truncated to a whole count.
#[derive(Debug, Clone)]
pub struct CurseForgeMod {
    pub id: u64,
    pub name: String,
    pub slug: String,
    pub summary: Option<String>,
    pub download_count: u64,
}

/// The search entry for a CurseForge project: its id in decimal, and an
/// empty description where it has no summary.
pub open spec fn curseforge_summary(m: CurseForgeMod) -> PluginSummaryView {
    PluginSummaryView {
        provider: ProviderKind::CurseForge,
        project_id: decimal(m.id as nat),
        slug: m.slug@,
        name: m.name@,
        description: match m.summary {
            Some(s) => s@,
            None => Seq::empty(),
        },
        downloads: m.download_count,
    }
}

/// The search entries for CurseForge results, one per result, in order.
pub fn summaries_from_curseforge(mods: Vec<CurseForgeMod>) -> (plugins: Vec<PluginSummary>)
    ensures
        plugins@.len() == mods@.len(),
        forall|i: int| 0 <= i < mods@.len() ==> (#[trigger] plugins@[i])@ == curseforge_summary(mods@[i]),
        forall|i: int| 0 <= i < mods@.len() ==> {
            &&& (#[trigger] plugins@[i]).provider == ProviderKind::CurseForge
            &&& plugins@[i].project_id@ == decimal(mods@[i].id as nat)
            &&& plugins@[i].slug@ == mods@[i].slug@
            &&& plugins@[i].name@ == mods@[i].name@
            &&& plugins@[i].description@ == (match mods@[i].summary {
                Some(t) => t@,
                None => Seq::<char>::empty(),
            })
            &&& plugins@[i].downloads == mods@[i].download_count
        },
{
    let ghost original = mods@;
    let mut mods = mods;
    let count = mods.len();
    assert(original.len() == count);
    let mut plugins: Vec<PluginSummary> = Vec::new();
    let mut i: usize = 0;
    while mods.len() > 0
        invariant
            i + mods@.len() == original.len(),
            original.len() <= usize::MAX,
            mods@ == original.skip(i as int),
            plugins@.len() == i,
            forall|k: int| 0 <= k < i ==> (#[trigger] plugins@[k])@ == curseforge_summary(original[k]),
        decreases mods.len(),
    {
        let item = mods.remove(0);
        proof {
            assert(item == original[i as int]);
            assert(mods@ =~= original.skip(i + 1));
        }
        let description = match item.summary {
            Some(s) => s,
            None => String::new(),
        };
        plugins.push(PluginSummary {
            provider: ProviderKind::CurseForge,
            project_id: decimal_string(item.id),
            slug: item.slug,
            name: item.name,
            description,
            downloads: item.download_count,
        });
        i = i + 1;
    }
    plugins
}

/// The search entry for a CurseForge result keeps the result's name, slug
/// and download count, gives its id in decimal as the project, takes its
/// summary (or nothing) as the description, and names CurseForge.
pub proof fn lemma_curseforge_summary_fields(m: CurseForgeMod)
    ensures
        curseforge_summary(m).provider == ProviderKind::CurseForge,
        curseforge_summary(m).project_id == decimal(m.id as nat),
        curseforge_summary(m).slug == m.slug@,
        curseforge_summary(m).name == m.name@,
        curseforge_summary(m).downloads == m.download_count,
        m.summary matches Some(t) ==> curseforge_summary(m).description == t@,
        m.summary is None ==> curseforge_summary(m).description.len() == 0,
{
}

/// The search entry for a Modrinth hit keeps its project, slug, title (as
/// the name), description and download count, and names Modrinth.
pub proof fn lemma_modrinth_summary_fields(hit: ModrinthHit)
    ensures
        modrinth_summary(hit).provider == ProviderKind::Modrinth,
        modrinth_summary(hit).project_id == hit.project_id@,
        modrinth_summary(hit).slug == hit.slug@,
        modrinth_summary(hit).name == hit.title@,
        modrinth_summary(hit).description == hit.description@,
        modrinth_summary(hit).downloads == hit.downloads,
{
}

/// A file of a CurseForge project.
#[derive(Debug, Clone)]
pub struct CurseForgeFile {
    pub id: u64,
    pub display_name: Option<String>,
    pub file_name: String,
    pub download_url: Option<String>,
    pub game_versions: Vec<String>,
    pub file_length: Option<u64>,
}

/// The loaders every CurseForge plugin file is taken to run on.
pub open spec fn curseforge_loaders() -> Seq<Seq<char>> {
    seq!["bukkit"@, "spigot"@, "paper"@]
}

/// The version that a downloadable CurseForge file stands for: its id (as
/// id and as version number), its display name or else its file name, its
/// Minecraft versions, the Bukkit-family loaders, and the file itself as the
/// one primary file.
pub open spec fn curseforge_version(f: CurseForgeFile, url: Seq<char>) -> PluginVersionView {
    PluginVersionView {
        id: decimal(f.id as nat),
        name: match f.display_name {
            Some(n) => n@,
            None => f.file_name@,
        },
        version_number: decimal(f.id as nat),
        game_versions: texts(f.game_versions@),
        loaders: curseforge_loaders(),
        files: seq![PluginFileView { filename: f.file_name@, url, primary: true, size: f.file_length }],
    }
}

/// The versions of CurseForge files, in order, leaving out files that have
/// no download address.
pub open spec fn curseforge_versions(files: Seq<CurseForgeFile>) -> Seq<PluginVersionView>
    decreases files.len(),
{
    if files.len() == 0 {
        Seq::empty()
    } else {
        let rest = curseforge_versions(files.drop_last());
        match files.last().download_url {
            Some(u) => rest.push(curseforge_version(files.last(), u@)),
            None => rest,
        }
    }
}

/// The version for a downloadable CurseForge file has the file's id in
/// decimal as id and version number, its display name or else its file
/// name, its Minecraft versions, the Bukkit-family loaders, and exactly one
/// file: this one, primary, at the download address, with the file's length.
pub proof fn lemma_curseforge_version_fields(f: CurseForgeFile, url: Seq<char>)
    ensures
        curseforge_version(f, url).id == decimal(f.id as nat),
        curseforge_version(f, url).version_number == decimal(f.id as nat),
        f.display_name matches Some(n) ==> curseforge_version(f, url).name == n@,
        f.display_name is None ==> curseforge_version(f, url).name == f.file_name@,
        curseforge_version(f, url).game_versions == texts(f.game_versions@),
        curseforge_version(f, url).loaders == seq!["bukkit"@, "spigot"@, "paper"@],
        curseforge_version(f, url).files.len() == 1,
        curseforge_version(f, url).files[0].filename == f.file_name@,
        curseforge_version(f, url).files[0].url == url,
        curseforge_version(f, url).files[0].primary,
        curseforge_version(f, url).files[0].size == f.file_length,
{
}

fn curseforge_loader_names() -> (names: Vec<String>)
    ensures
        texts(names@) == curseforge_loaders(),
{
    let mut names: Vec<String> = Vec::new();
    names.push(String::from_str("bukkit"));
    names.push(String::from_str("spigot"));
    names.push(String::from_str("paper"));
    assert(texts(names@) =~= curseforge_loaders());
    names
}

/// The versions of CurseForge files, as `curseforge_versions` describes them.
pub fn versions_from_curseforge(files: Vec<CurseForgeFile>) -> (versions: Vec<PluginVersion>)
    ensures
        versions@.map_values(|v: PluginVersion| v@) == curseforge_versions(files@),
{
    let ghost original = files@;
    let mut files = files;
    let count = files.len();
    assert(original.len() == count);
    let mut versions: Vec<PluginVersion> = Vec::new();
    let mut i: usize = 0;
    assert(original.take(0) =~= Seq::<CurseForgeFile>::empty());
    while files.len() > 0
        invariant
            i + files@.len() == original.len(),
            original.len() <= usize::MAX,
            files@ == original.skip(i as int),
            versions@.map_values(|v: PluginVersion| v@) == curseforge_versions(original.take(i as int)),
        decreases files.len(),
    {
        let file = files.remove(0);
        let ghost before = versions@;
        proof {
            assert(file == original[i as int]);
            assert(files@ =~= original.skip(i + 1));
            assert(original.take(i + 1).drop_last() =~= original.take(i as int));
            assert(original.take(i + 1).last() == file);
        }
        match file.download_url {
            Some(url) => {
                let id = decimal_string(file.id);
                let name = match file.display_name {
                    Some(n) => n,
                    None => file.file_name.clone(),
                };
                let entry = PluginFile { filename: file.file_name, url, primary: true, size: file.file_length };
                let mut entries: Vec<PluginFile> = Vec::new();
                entries.push(entry);
                let version = PluginVersion {
                    id: id.clone(),
                    name,
                    version_number: id,
                    game_versions: file.game_versions,
                    loaders: curseforge_loader_names(),
                    files: entries,
                };
                proof {
                    assert(file_views(version.files@) =~= seq![entry@]);
                }
                versions.push(version);
                proof {
                    assert(versions@.map_values(|v: PluginVersion| v@)
                        =~= before.map_values(|v: PluginVersion| v@).push(version@));
                }
            },
            None => {},
        }
        i = i + 1;
    }
    proof {
        assert(original.take(i as int) =~= original);
    }
    versions
}

} // verus!
