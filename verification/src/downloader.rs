//! Downloading a planned file: the name it is saved under, the progress
//! count, and the manifest record of what was installed.

use vstd::prelude::*;
use crate::models::{installed_record, installed_views, DownloadPlan, DownloadPlanView, InstalledManifest, InstalledPlugin, InstalledPluginView};
use crate::text::{chars_of, push_char};

verus! {

/// A character that file names may not hold; it is replaced by `_`.
pub open spec fn is_reserved_char(c: char) -> bool {
    c == '/' || c == '\\' || c == ':' || c == '*' || c == '?' || c == '"' || c == '<' || c == '>' || c == '|'
}

/// One character of a saved file name.
pub open spec fn safe_char(c: char) -> char {
    if is_reserved_char(c) { '_' } else { c }
}

/// A file name with every reserved character replaced by `_`.
pub open spec fn safe_filename(s: Seq<char>) -> Seq<char> {
    s.map_values(|c: char| safe_char(c))
}

/// The name a downloaded file is saved under.
pub fn sanitize_filename(value: &str) -> (name: String)
    ensures
        name@ == safe_filename(value@),
{
    let chars = chars_of(value);
    let mut name = String::new();
    let mut i: usize = 0;
    while i < chars.len()
        invariant
            chars@ == value@,
            i <= chars.len(),
            name@ =~= safe_filename(value@).take(i as int),
        decreases chars.len() - i,
    {
        let c = chars[i];
        let out = if c == '/' || c == '\\' || c == ':' || c == '*' || c == '?' || c == '"' || c == '<'
            || c == '>' || c == '|' {
            '_'
        } else {
            c
        };
        push_char(&mut name, out);
        i = i + 1;
    }
    proof {
        assert(safe_filename(value@).take(chars.len() as int) =~= safe_filename(value@));
    }
    name
}

/// A saved file name holds no reserved character, has one character per
/// character of the original name, and saving it again changes nothing.
pub proof fn lemma_safe_filename(s: Seq<char>)
    ensures
        safe_filename(s).len() == s.len(),
        forall|i: int| 0 <= i < s.len() ==> !is_reserved_char(#[trigger] safe_filename(s)[i]),
        safe_filename(safe_filename(s)) == safe_filename(s),
{
    assert(safe_filename(safe_filename(s)) =~= safe_filename(s));
}

/// How much of a file has arrived, and how large it is, where known.
#[derive(Debug, Clone, Copy)]
pub struct DownloadProgress {
    pub downloaded: u64,
    pub total: Option<u64>,
}

/// The size of a download: the length that the server announces, or else the
/// size that the provider listed.
pub fn expected_total(content_length: Option<u64>, listed_size: Option<u64>) -> (total: Option<u64>)
    ensures
        total == (match content_length {
            Some(n) => Some(n),
            None => listed_size,
        }),
{
    match content_length {
        Some(n) => Some(n),
        None => listed_size,
    }
}

impl DownloadProgress {
    /// Nothing downloaded yet.
    pub fn start(total: Option<u64>) -> (p: DownloadProgress)
        ensures
            p.downloaded == 0,
            p.total == total,
    {
        DownloadProgress { downloaded: 0, total }
    }

    /// Counts a chunk that has arrived.
    pub fn advance(&mut self, chunk_len: usize)
        requires
            old(self).downloaded + chunk_len <= u64::MAX,
        ensures
            final(self).downloaded == old(self).downloaded + chunk_len,
            final(self).total == old(self).total,
    {
        self.downloaded = self.downloaded + chunk_len as u64;
    }
}

/// The manifest entries that are not for project `project_id`, in order.
pub open spec fn entries_for_others(entries: Seq<InstalledPluginView>, project_id: Seq<char>) -> Seq<InstalledPluginView>
    decreases entries.len(),
{
    if entries.len() == 0 {
        entries
    } else {
        let rest = entries_for_others(entries.drop_last(), project_id);
        if entries.last().project_id == project_id { rest } else { rest.push(entries.last()) }
    }
}

/// The manifest after recording an install: the entries for other projects,
/// in order, then the new record.
pub open spec fn recorded(entries: Seq<InstalledPluginView>, plan: DownloadPlanView, filename: Seq<char>) -> Seq<InstalledPluginView> {
    entries_for_others(entries, plan.plugin.project_id).push(installed_record(plan, filename))
}

impl InstalledManifest {
    /// Records that `plan` was downloaded and saved as `filename`, dropping
    /// any earlier record of the same project.
    pub fn record(&mut self, plan: &DownloadPlan, filename: &str)
        ensures
            final(self)@ == recorded(old(self)@, plan@, filename@),
            final(self).plugins@.len() > 0,
            ({
                let last = final(self).plugins@.last();
                &&& last.name@ == plan.plugin.name@
                &&& last.provider == plan.plugin.provider
                &&& last.project_id@ == plan.plugin.project_id@
                &&& last.slug@ == plan.plugin.slug@
                &&& last.version_id@ == plan.version.id@
                &&& last.version_number@ == plan.version.version_number@
                &&& last.game_version@ == plan.game_version@
                &&& last.loader@ == plan.loader@
                &&& last.filename@ == filename@
            }),
            forall|i: int| 0 <= i < final(self).plugins@.len() - 1
                ==> (#[trigger] final(self).plugins@[i]).project_id@ != plan.plugin.project_id@,
    {
        let ghost pv = self@;
        let ghost pid = plan@.plugin.project_id;
        let mut kept: Vec<InstalledPlugin> = Vec::new();
        assert(pv.take(0) =~= Seq::<InstalledPluginView>::empty());
        assert(pv.skip(0) =~= pv);
        while self.plugins.len() > 0
            invariant
                pv == installed_views(old(self).plugins@),
                pid == plan@.plugin.project_id,
                self.plugins.len() <= pv.len(),
                installed_views(self.plugins@) == pv.skip(pv.len() - self.plugins.len()),
                installed_views(kept@) == entries_for_others(pv.take(pv.len() - self.plugins.len()), pid),
            decreases self.plugins.len(),
        {
            let ghost m = pv.len() - self.plugins.len();
            let ghost rest = self.plugins@;
            let next = self.plugins.remove(0);
            proof {
                assert(installed_views(rest)[0] == next@);
                assert(pv[m] == next@);
                assert(self.plugins@ =~= rest.subrange(1, rest.len() as int));
                assert forall|i: int| 0 <= i < self.plugins@.len()
                    implies installed_views(self.plugins@)[i] == pv.skip(m + 1)[i] by {
                    assert(self.plugins@[i] == rest[i + 1]);
                    assert(installed_views(rest)[i + 1] == pv.skip(m)[i + 1]);
                }
                assert(installed_views(self.plugins@) =~= pv.skip(m + 1));
                assert(pv.take(m + 1).drop_last() =~= pv.take(m));
                assert(pv.take(m + 1).last() == next@);
            }
            if next.project_id != plan.plugin.project_id {
                let ghost raw = kept@;
                kept.push(next);
                proof {
                    assert(installed_views(kept@) =~= installed_views(raw).push(next@));
                }
            }
        }
        proof {
            assert(pv.take(pv.len() as int) =~= pv);
        }
        let entry = InstalledPlugin::from_plan(plan, filename);
        let ghost before_push = kept@;
        kept.push(entry);
        proof {
            assert(installed_views(kept@) =~= installed_views(before_push).push(entry@));
            lemma_record(pv, plan@, filename@);
            assert forall|i: int| 0 <= i < kept@.len() - 1
                implies (#[trigger] kept@[i]).project_id@ != plan.plugin.project_id@ by {
                assert(installed_views(kept@)[i] == kept@[i]@);
            }
        }
        self.plugins = kept;
    }
}

/// The last record of a manifest after an install carries the plan's
/// plugin name, provider, project and slug, the version's id and number, the
/// requested Minecraft version and loader, and the saved file name.
pub proof fn lemma_record_fields(entries: Seq<InstalledPluginView>, plan: DownloadPlanView, filename: Seq<char>)
    ensures
        ({
            let last = recorded(entries, plan, filename).last();
            &&& last.name == plan.plugin.name
            &&& last.provider == plan.plugin.provider
            &&& last.project_id == plan.plugin.project_id
            &&& last.slug == plan.plugin.slug
            &&& last.version_id == plan.version.id
            &&& last.version_number == plan.version.version_number
            &&& last.game_version == plan.game_version
            &&& last.loader == plan.loader
            &&& last.filename == filename
        }),
{
}

proof fn lemma_others_exclude(entries: Seq<InstalledPluginView>, project_id: Seq<char>)
    ensures
        forall|i: int| 0 <= i < entries_for_others(entries, project_id).len()
            ==> (#[trigger] entries_for_others(entries, project_id)[i]).project_id != project_id,
    decreases entries.len(),
{
    if entries.len() > 0 {
        lemma_others_exclude(entries.drop_last(), project_id);
    }
}

proof fn lemma_others_keep_all(entries: Seq<InstalledPluginView>, project_id: Seq<char>)
    requires
        forall|i: int| 0 <= i < entries.len() ==> (#[trigger] entries[i]).project_id != project_id,
    ensures
        entries_for_others(entries, project_id) == entries,
    decreases entries.len(),
{
    if entries.len() > 0 {
        lemma_others_keep_all(entries.drop_last(), project_id);
        assert(entries.drop_last().push(entries.last()) =~= entries);
    }
}

/// After recording an install, the manifest holds exactly one record of the
/// project, the new one, in last place; every other record is one that was
/// there before, for another project, in its former order; and recording
/// the same install again changes nothing.
pub proof fn lemma_record(entries: Seq<InstalledPluginView>, plan: DownloadPlanView, filename: Seq<char>)
    ensures
        ({
            let after = recorded(entries, plan, filename);
            &&& after.last() == installed_record(plan, filename)
            &&& after.drop_last() == entries_for_others(entries, plan.plugin.project_id)
            &&& forall|i: int| 0 <= i < after.len() - 1
                ==> (#[trigger] after[i]).project_id != plan.plugin.project_id
            &&& recorded(after, plan, filename) == after
        }),
{
    let pid = plan.plugin.project_id;
    let after = recorded(entries, plan, filename);
    let rest = entries_for_others(entries, pid);
    lemma_others_exclude(entries, pid);
    assert(after.drop_last() =~= rest);
    assert(after.last() == installed_record(plan, filename));
    lemma_others_keep_all(rest, pid);
    assert(entries_for_others(after, pid) == entries_for_others(rest, pid));
}

} // verus!
