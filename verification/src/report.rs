//! The lines that the download, update and summary screens show.

use vstd::prelude::*;
use vstd::string::*;
use crate::downloader::DownloadProgress;
use crate::models::{texts, DownloadPlan};
use crate::progress::{progress_line, progress_text};
use crate::text::{decimal, decimal_string};

verus! {

/// `Plugin <n>/<count>: <name>`, counting from one.
pub open spec fn counter_text(index: nat, count: nat, name: Seq<char>) -> Seq<char> {
    "Plugin "@ + decimal(index + 1) + "/"@ + decimal(count) + ": "@ + name
}

/// `Target: <version> / <loader>`.
pub open spec fn target_text(version: Seq<char>, loader: Seq<char>) -> Seq<char> {
    "Target: "@ + version + " / "@ + loader
}

/// The line that counts plugins, counting from one.
pub fn counter_line(index: usize, count: usize, name: &str) -> (line: String)
    requires
        index < count,
    ensures
        line@ == counter_text(index as nat, count as nat, name@),
{
    String::from_str("Plugin ")
        .concat(decimal_string((index + 1) as u64).as_str())
        .concat("/")
        .concat(decimal_string(count as u64).as_str())
        .concat(": ")
        .concat(name)
}

/// The line that names the target Minecraft version and loader.
pub fn target_line(version: &str, loader: &str) -> (line: String)
    ensures
        line@ == target_text(version@, loader@),
{
    String::from_str("Target: ").concat(version).concat(" / ").concat(loader)
}

/// The lines shown while a planned plugin downloads: which plugin of how
/// many, its version, the target, and the progress.
pub fn download_lines(index: usize, count: usize, plan: &DownloadPlan, progress: DownloadProgress) -> (lines: Vec<String>)
    requires
        index < count,
    ensures
        texts(lines@) == seq![
            counter_text(index as nat, count as nat, plan.plugin.name@),
            "Plugin version: "@ + plan.version.version_number@,
            target_text(plan.game_version@, plan.loader@),
            progress_line(progress.downloaded, progress.total),
        ],
{
    let mut lines: Vec<String> = Vec::new();
    lines.push(counter_line(index, count, plan.plugin.name.as_str()));
    lines.push(String::from_str("Plugin version: ").concat(plan.version.version_number.as_str()));
    lines.push(target_line(plan.game_version.as_str(), plan.loader.as_str()));
    lines.push(progress_text(progress.downloaded, progress.total));
    assert(texts(lines@) =~= seq![
        counter_text(index as nat, count as nat, plan.plugin.name@),
        "Plugin version: "@ + plan.version.version_number@,
        target_text(plan.game_version@, plan.loader@),
        progress_line(progress.downloaded, progress.total),
    ]);
    lines
}

/// The lines shown while an installed plugin updates: which plugin of how
/// many, the installed and the new version, the target, and the progress.
pub fn update_lines(
    index: usize,
    count: usize,
    plan: &DownloadPlan,
    installed_version: &str,
    progress: DownloadProgress,
) -> (lines: Vec<String>)
    requires
        index < count,
    ensures
        texts(lines@) == seq![
            counter_text(index as nat, count as nat, plan.plugin.name@),
            "Installed version: "@ + installed_version@,
            "New version: "@ + plan.version.version_number@,
            target_text(plan.game_version@, plan.loader@),
            progress_line(progress.downloaded, progress.total),
        ],
{
    let mut lines: Vec<String> = Vec::new();
    lines.push(counter_line(index, count, plan.plugin.name.as_str()));
    lines.push(String::from_str("Installed version: ").concat(installed_version));
    lines.push(String::from_str("New version: ").concat(plan.version.version_number.as_str()));
    lines.push(target_line(plan.game_version.as_str(), plan.loader.as_str()));
    lines.push(progress_text(progress.downloaded, progress.total));
    assert(texts(lines@) =~= seq![
        counter_text(index as nat, count as nat, plan.plugin.name@),
        "Installed version: "@ + installed_version@,
        "New version: "@ + plan.version.version_number@,
        target_text(plan.game_version@, plan.loader@),
        progress_line(progress.downloaded, progress.total),
    ]);
    lines
}

/// The lines shown while looking for a release of an installed plugin.
pub fn update_search_lines(index: usize, count: usize, name: &str, version: &str, loader: &str) -> (lines: Vec<String>)
    requires
        index < count,
    ensures
        texts(lines@) == seq![
            counter_text(index as nat, count as nat, name@),
            target_text(version@, loader@),
            "Looking for a compatible release..."@,
        ],
{
    let mut lines: Vec<String> = Vec::new();
    lines.push(counter_line(index, count, name));
    lines.push(target_line(version, loader));
    lines.push(String::from_str("Looking for a compatible release..."));
    assert(texts(lines@) =~= seq![
        counter_text(index as nat, count as nat, name@),
        target_text(version@, loader@),
        "Looking for a compatible release..."@,
    ]);
    lines
}

/// The warning for a plugin that has no release for the target.
pub fn unsupported_warning(name: &str, version: &str, loader: &str) -> (line: String)
    ensures
        line@ == "warning: "@ + name@ + " does not support Minecraft "@ + version@ + " / "@ + loader@,
{
    String::from_str("warning: ").concat(name).concat(" does not support Minecraft ").concat(version).concat(" / ").concat(loader)
}

/// The line for a finished download: the plugin and where it was saved.
pub fn completed_line(name: &str, path: &str) -> (line: String)
    ensures
        line@ == "[ok] "@ + name@ + " -> "@ + path@,
{
    String::from_str("[ok] ").concat(name).concat(" -> ").concat(path)
}

/// A blank line, then the given lines, when there are any.
pub open spec fn section(lines: Seq<Seq<char>>) -> Seq<Seq<char>> {
    if lines.len() > 0 { seq![Seq::<char>::empty()] + lines } else { Seq::empty() }
}

/// The summary of an update: the target, how many plugins were updated, the
/// finished downloads and the warnings, each group after a blank line.
pub open spec fn update_summary(
    version: Seq<char>,
    loader: Seq<char>,
    complete: Seq<Seq<char>>,
    warnings: Seq<Seq<char>>,
) -> Seq<Seq<char>> {
    seq![target_text(version, loader), "Updated: "@ + decimal(complete.len())] + section(complete) + section(warnings)
}

fn append_section(lines: &mut Vec<String>, extra: &[String])
    ensures
        texts(final(lines)@) == texts(old(lines)@) + section(texts(extra@)),
{
    if extra.len() > 0 {
        let ghost start = texts(lines@);
        let ghost raw = lines@;
        lines.push(String::new());
        assert(texts(lines@) =~= start.push(Seq::<char>::empty()));
        assert(start + seq![Seq::<char>::empty()] + texts(extra@).take(0) =~= start.push(Seq::<char>::empty()));
        let mut i: usize = 0;
        while i < extra.len()
            invariant
                i <= extra.len(),
                texts(lines@) == start + seq![Seq::<char>::empty()] + texts(extra@).take(i as int),
            decreases extra.len() - i,
        {
            let ghost before = lines@;
            let item = extra[i].clone();
            lines.push(item);
            assert(texts(lines@) =~= texts(before).push(item@));
            assert(texts(extra@).take(i + 1) =~= texts(extra@).take(i as int).push(extra@[i as int]@));
            assert(start + seq![Seq::<char>::empty()] + texts(extra@).take(i + 1)
                =~= (start + seq![Seq::<char>::empty()] + texts(extra@).take(i as int)).push(item@));
            i = i + 1;
        }
        assert(texts(extra@).take(extra.len() as int) =~= texts(extra@));
    } else {
        assert(section(texts(extra@)) =~= Seq::<Seq<char>>::empty());
    }
}

/// The summary lines of an update, as `update_summary` describes them.
pub fn summary_lines(version: &str, loader: &str, complete: &[String], warnings: &[String]) -> (lines: Vec<String>)
    ensures
        texts(lines@) == update_summary(version@, loader@, texts(complete@), texts(warnings@)),
{
    let mut lines: Vec<String> = Vec::new();
    lines.push(target_line(version, loader));
    lines.push(String::from_str("Updated: ").concat(decimal_string(complete.len() as u64).as_str()));
    assert(texts(lines@) =~= seq![target_text(version@, loader@), "Updated: "@ + decimal(complete@.len())]);
    append_section(&mut lines, complete);
    append_section(&mut lines, warnings);
    lines
}

} // verus!
