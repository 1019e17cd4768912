//! The plugins, versions, files, download plans and install records that
//! the rest of the library works on, with their mathematical views.

use vstd::prelude::*;
use vstd::string::*;
use crate::text::chars_of;

verus! {

/// A plugin provider server.
#[derive(Debug, Clone, Copy, PartialEq, Eq, Structural)]
pub enum ProviderKind {
    Modrinth,
    CurseForge,
}

/// The texts of a sequence of strings.
pub open spec fn texts(v: Seq<String>) -> Seq<Seq<char>> {
    v.map_values(|s: String| s@)
}

/// The name under which a provider is shown.
pub open spec fn provider_label(kind: ProviderKind) -> Seq<char> {
    match kind {
        ProviderKind::Modrinth => "Modrinth"@,
        ProviderKind::CurseForge => "CurseForge"@,
    }
}

/// ASCII lowercase of one character; other characters are kept.
pub open spec fn ascii_lower(c: char) -> char {
    if 'A' <= c && c <= 'Z' {
        ((c as int) + 32) as char
    } else {
        c
    }
}

/// ASCII lowercase of a text.
pub open spec fn ascii_lowercase(s: Seq<char>) -> Seq<char> {
    s.map_values(|c: char| ascii_lower(c))
}

/// The provider that a text names, ignoring ASCII case: `modrinth`, or
/// `curseforge` / `curse-forge`.
pub open spec fn provider_named(value: Seq<char>) -> Option<ProviderKind> {
    let lower = ascii_lowercase(value);
    if lower == "modrinth"@ {
        Some(ProviderKind::Modrinth)
    } else if lower == "curseforge"@ || lower == "curse-forge"@ {
        Some(ProviderKind::CurseForge)
    } else {
        None
    }
}

/// The position of a provider in the list of all providers.
pub open spec fn provider_position(kind: ProviderKind) -> int {
    match kind {
        ProviderKind::Modrinth => 0,
        ProviderKind::CurseForge => 1,
    }
}

/// A text that names no provider.
#[derive(Debug, Clone)]
pub struct UnknownProvider {
    pub value: String,
}

impl UnknownProvider {
    /// The error text: `unknown provider: ` and the value.
    pub fn message(&self) -> (m: String)
        ensures
            m@ == "unknown provider: "@ + self.value@,
    {
        String::from_str("unknown provider: ").concat(self.value.as_str())
    }
}

/// Whether the ASCII lowercase of `value` is `target`.
fn lowercase_equals(value: &str, target: &str) -> (equal: bool)
    ensures
        equal == (ascii_lowercase(value@) == target@),
{
    let a = chars_of(value);
    let b = chars_of(target);
    if a.len() != b.len() {
        proof {
            assert(ascii_lowercase(value@).len() != target@.len());
        }
        return false;
    }
    let mut i: usize = 0;
    while i < a.len()
        invariant
            a@ == value@,
            b@ == target@,
            a.len() == b.len(),
            i <= a.len(),
            forall|j: int| 0 <= j < i ==> ascii_lower(#[trigger] a@[j]) == b@[j],
        decreases a.len() - i,
    {
        let c = a[i];
        let lower: char = if 'A' <= c && c <= 'Z' {
            let code: u8 = (c as u8) + 32;
            code as char
        } else {
            c
        };
        assert(lower == ascii_lower(c));
        if lower != b[i] {
            proof {
                assert(ascii_lowercase(value@)[i as int] != target@[i as int]);
            }
            return false;
        }
        i = i + 1;
    }
    proof {
        assert(ascii_lowercase(value@) =~= target@);
    }
    true
}

impl ProviderKind {
    /// Every provider, in the order in which they are offered.
    pub fn all() -> (kinds: [ProviderKind; 2])
        ensures
            kinds@ == seq![ProviderKind::Modrinth, ProviderKind::CurseForge],
    {
        [ProviderKind::Modrinth, ProviderKind::CurseForge]
    }

    /// The name under which the provider is shown.
    pub fn display_name(&self) -> (name: String)
        ensures
            name@ == provider_label(*self),
    {
        match self {
            ProviderKind::Modrinth => String::from_str("Modrinth"),
            ProviderKind::CurseForge => String::from_str("CurseForge"),
        }
    }

    /// Reads a provider name, ignoring ASCII case.
    pub fn parse(value: &str) -> (result: Result<ProviderKind, UnknownProvider>)
        ensures
            match result {
                Ok(kind) => provider_named(value@) == Some(kind),
                Err(e) => provider_named(value@) is None && e.value@ == value@,
            },
    {
        if lowercase_equals(value, "modrinth") {
            Ok(ProviderKind::Modrinth)
        } else if lowercase_equals(value, "curseforge") || lowercase_equals(value, "curse-forge") {
            Ok(ProviderKind::CurseForge)
        } else {
            Err(UnknownProvider { value: String::from_str(value) })
        }
    }

    /// The position of the provider in `all()`.
    pub fn position(&self) -> (index: usize)
        ensures
            index == provider_position(*self),
            index < 2,
            seq![ProviderKind::Modrinth, ProviderKind::CurseForge][index as int] == *self,
    {
        match self {
            ProviderKind::Modrinth => 0,
            ProviderKind::CurseForge => 1,
        }
    }

    /// The provider at a position of `all()`.
    pub fn at_position(index: usize) -> (kind: ProviderKind)
        requires
            index < 2,
        ensures
            provider_position(kind) == index,
            kind == seq![ProviderKind::Modrinth, ProviderKind::CurseForge][index as int],
    {
        if index == 0 {
            ProviderKind::Modrinth
        } else {
            ProviderKind::CurseForge
        }
    }
}

impl std::str::FromStr for ProviderKind {
    type Err = UnknownProvider;

    fn from_str(value: &str) -> (result: Result<ProviderKind, UnknownProvider>)
        ensures
            match result {
                Ok(kind) => provider_named(value@) == Some(kind),
                Err(e) => provider_named(value@) is None && e.value@ == value@,
            },
    {
        ProviderKind::parse(value)
    }
}

/// Reading the shown name of a provider gives the provider back.
pub proof fn lemma_parse_display_name(kind: ProviderKind)
    ensures
        provider_named(provider_label(kind)) == Some(kind),
{
    reveal_strlit("Modrinth");
    reveal_strlit("CurseForge");
    reveal_strlit("modrinth");
    reveal_strlit("curseforge");
    reveal_strlit("curse-forge");
    match kind {
        ProviderKind::Modrinth => {
            assert(ascii_lowercase("Modrinth"@) =~= "modrinth"@);
        },
        ProviderKind::CurseForge => {
            assert(ascii_lowercase("CurseForge"@) =~= "curseforge"@);
            assert(ascii_lowercase("CurseForge"@) != "modrinth"@) by {
                assert("modrinth"@.len() != "CurseForge"@.len());
            }
        },
    }
}

/// The position of a provider is its place in the list of all providers,
/// and every place of that list holds the provider whose position it is.
pub proof fn lemma_position_in_all(kind: ProviderKind, index: int)
    ensures
        0 <= provider_position(kind) < 2,
        seq![ProviderKind::Modrinth, ProviderKind::CurseForge][provider_position(kind)] == kind,
        0 <= index < 2 ==> provider_position(seq![ProviderKind::Modrinth, ProviderKind::CurseForge][index]) == index,
{
}

/// The position of a provider leads back to the provider, and every
/// position below two belongs to exactly one provider.
pub proof fn lemma_position_round_trip(kind: ProviderKind, other: ProviderKind)
    ensures
        0 <= provider_position(kind) < 2,
        provider_position(kind) == provider_position(other) ==> kind == other,
{
}

/// A plugin as a search lists it.
#[derive(Debug, Clone)]
pub struct PluginSummary {
    pub provider: ProviderKind,
    pub project_id: String,
    pub slug: String,
    pub name: String,
    pub description: String,
    pub downloads: u64,
}

/// A released version of a plugin.
#[derive(Debug, Clone)]
pub struct PluginVersion {
    pub id: String,
    pub name: String,
    pub version_number: String,
    pub game_versions: Vec<String>,
    pub loaders: Vec<String>,
    pub files: Vec<PluginFile>,
}

/// A downloadable file of a plugin version.
#[derive(Debug, Clone)]
pub struct PluginFile {
    pub filename: String,
    pub url: String,
    pub primary: bool,
    pub size: Option<u64>,
}

/// What to download: a plugin, the chosen version and file, and the
/// Minecraft version and loader that were asked for.
#[derive(Debug, Clone)]
pub struct DownloadPlan {
    pub plugin: PluginSummary,
    pub version: PluginVersion,
    pub file: PluginFile,
    pub game_version: String,
    pub loader: String,
}

/// The plugins installed in a directory.
#[derive(Debug, Clone)]
pub struct InstalledManifest {
    pub plugins: Vec<InstalledPlugin>,
}

/// One installed plugin, as the manifest records it.
#[derive(Debug, Clone)]
pub struct InstalledPlugin {
    pub name: String,
    pub provider: ProviderKind,
    pub project_id: String,
    pub slug: String,
    pub version_id: String,
    pub version_number: String,
    pub game_version: String,
    pub loader: String,
    pub filename: String,
}

#[verifier::ext_equal]
pub struct PluginSummaryView {
    pub provider: ProviderKind,
    pub project_id: Seq<char>,
    pub slug: Seq<char>,
    pub name: Seq<char>,
    pub description: Seq<char>,
    pub downloads: u64,
}

#[verifier::ext_equal]
pub struct PluginFileView {
    pub filename: Seq<char>,
    pub url: Seq<char>,
    pub primary: bool,
    pub size: Option<u64>,
}

#[verifier::ext_equal]
pub struct PluginVersionView {
    pub id: Seq<char>,
    pub name: Seq<char>,
    pub version_number: Seq<char>,
    pub game_versions: Seq<Seq<char>>,
    pub loaders: Seq<Seq<char>>,
    pub files: Seq<PluginFileView>,
}

#[verifier::ext_equal]
pub struct DownloadPlanView {
    pub plugin: PluginSummaryView,
    pub version: PluginVersionView,
    pub file: PluginFileView,
    pub game_version: Seq<char>,
    pub loader: Seq<char>,
}

#[verifier::ext_equal]
pub struct InstalledPluginView {
    pub name: Seq<char>,
    pub provider: ProviderKind,
    pub project_id: Seq<char>,
    pub slug: Seq<char>,
    pub version_id: Seq<char>,
    pub version_number: Seq<char>,
    pub game_version: Seq<char>,
    pub loader: Seq<char>,
    pub filename: Seq<char>,
}

impl View for PluginSummary {
    type V = PluginSummaryView;

    open spec fn view(&self) -> PluginSummaryView {
        PluginSummaryView {
            provider: self.provider,
            project_id: self.project_id@,
            slug: self.slug@,
            name: self.name@,
            description: self.description@,
            downloads: self.downloads,
        }
    }
}

impl View for PluginFile {
    type V = PluginFileView;

    open spec fn view(&self) -> PluginFileView {
        PluginFileView { filename: self.filename@, url: self.url@, primary: self.primary, size: self.size }
    }
}

/// The views of a sequence of files.
pub open spec fn file_views(v: Seq<PluginFile>) -> Seq<PluginFileView> {
    v.map_values(|f: PluginFile| f@)
}

impl View for PluginVersion {
    type V = PluginVersionView;

    open spec fn view(&self) -> PluginVersionView {
        PluginVersionView {
            id: self.id@,
            name: self.name@,
            version_number: self.version_number@,
            game_versions: texts(self.game_versions@),
            loaders: texts(self.loaders@),
            files: file_views(self.files@),
        }
    }
}

/// The views of a sequence of versions.
pub open spec fn version_views(v: Seq<PluginVersion>) -> Seq<PluginVersionView> {
    v.map_values(|x: PluginVersion| x@)
}

impl View for DownloadPlan {
    type V = DownloadPlanView;

    open spec fn view(&self) -> DownloadPlanView {
        DownloadPlanView {
            plugin: self.plugin@,
            version: self.version@,
            file: self.file@,
            game_version: self.game_version@,
            loader: self.loader@,
        }
    }
}

/// The views of a sequence of plans.
pub open spec fn plan_views(v: Seq<DownloadPlan>) -> Seq<DownloadPlanView> {
    v.map_values(|x: DownloadPlan| x@)
}

impl View for InstalledPlugin {
    type V = InstalledPluginView;

    open spec fn view(&self) -> InstalledPluginView {
        InstalledPluginView {
            name: self.name@,
            provider: self.provider,
            project_id: self.project_id@,
            slug: self.slug@,
            version_id: self.version_id@,
            version_number: self.version_number@,
            game_version: self.game_version@,
            loader: self.loader@,
            filename: self.filename@,
        }
    }
}

/// The views of a sequence of installed plugins.
pub open spec fn installed_views(v: Seq<InstalledPlugin>) -> Seq<InstalledPluginView> {
    v.map_values(|x: InstalledPlugin| x@)
}

impl View for InstalledManifest {
    type V = Seq<InstalledPluginView>;

    open spec fn view(&self) -> Seq<InstalledPluginView> {
        installed_views(self.plugins@)
    }
}

impl Default for InstalledManifest {
    fn default() -> (m: InstalledManifest)
        ensures
            m@ == Seq::<InstalledPluginView>::empty(),
    {
        InstalledManifest { plugins: Vec::new() }
    }
}

/// The manifest record of an installed download: the plugin's name, provider,
/// project and slug, the version's id and number, the target Minecraft
/// version and loader, and the file name it was saved under.
pub open spec fn installed_record(plan: DownloadPlanView, filename: Seq<char>) -> InstalledPluginView {
    InstalledPluginView {
        name: plan.plugin.name,
        provider: plan.plugin.provider,
        project_id: plan.plugin.project_id,
        slug: plan.plugin.slug,
        version_id: plan.version.id,
        version_number: plan.version.version_number,
        game_version: plan.game_version,
        loader: plan.loader,
        filename,
    }
}

/// The search entry that stands for an installed plugin: no description and
/// no download count.
pub open spec fn summary_of_installed(p: InstalledPluginView) -> PluginSummaryView {
    PluginSummaryView {
        provider: p.provider,
        project_id: p.project_id,
        slug: p.slug,
        name: p.name,
        description: Seq::empty(),
        downloads: 0,
    }
}

impl InstalledPlugin {
    /// The record of a download of `plan`, saved as `filename`.
    pub fn from_plan(plan: &DownloadPlan, filename: &str) -> (p: InstalledPlugin)
        ensures
            p@ == installed_record(plan@, filename@),
            p.name@ == plan.plugin.name@,
            p.provider == plan.plugin.provider,
            p.project_id@ == plan.plugin.project_id@,
            p.slug@ == plan.plugin.slug@,
            p.version_id@ == plan.version.id@,
            p.version_number@ == plan.version.version_number@,
            p.game_version@ == plan.game_version@,
            p.loader@ == plan.loader@,
            p.filename@ == filename@,
    {
        InstalledPlugin {
            name: plan.plugin.name.clone(),
            provider: plan.plugin.provider,
            project_id: plan.plugin.project_id.clone(),
            slug: plan.plugin.slug.clone(),
            version_id: plan.version.id.clone(),
            version_number: plan.version.version_number.clone(),
            game_version: plan.game_version.clone(),
            loader: plan.loader.clone(),
            filename: String::from_str(filename),
        }
    }
}

impl PluginSummary {
    /// The search entry that stands for an installed plugin.
    pub fn from_installed(installed: &InstalledPlugin) -> (s: PluginSummary)
        ensures
            s@ == summary_of_installed(installed@),
            s.provider == installed.provider,
            s.project_id@ == installed.project_id@,
            s.slug@ == installed.slug@,
            s.name@ == installed.name@,
            s.description@.len() == 0,
            s.downloads == 0,
    {
        PluginSummary {
            provider: installed.provider,
            project_id: installed.project_id.clone(),
            slug: installed.slug.clone(),
            name: installed.name.clone(),
            description: String::new(),
            downloads: 0,
        }
    }
}

} // verus!
