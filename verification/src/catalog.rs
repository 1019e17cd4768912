//! Choosing what to install: the Minecraft versions and loaders that a
//! plugin's releases offer, the rows of the search list, and the plans
//! picked so far.

use vstd::prelude::*;
use vstd::string::*;
use crate::models::{
    summary_of_installed, InstalledPlugin, file_views, plan_views, texts, version_views, DownloadPlan, DownloadPlanView, PluginFile,
    PluginFileView, PluginSummary, PluginSummaryView, PluginVersion, PluginVersionView,
};
use crate::tui::SelectAction;
use crate::order::{is_newer, lemma_newer_total, lemma_newer_transitive, newer};
use crate::text::{contains_text, decimal, decimal_string};

verus! {

/// Every Minecraft version that the versions list, in order, with repeats.
pub open spec fn listed_game_versions(vs: Seq<PluginVersionView>) -> Seq<Seq<char>>
    decreases vs.len(),
{
    if vs.len() == 0 {
        Seq::empty()
    } else {
        listed_game_versions(vs.drop_last()) + vs.last().game_versions
    }
}

/// Each entry is newer than every entry after it.
pub open spec fn newest_first(s: Seq<Seq<char>>) -> bool {
    forall|i: int, j: int| 0 <= i < j < s.len() ==> newer(#[trigger] s[i], #[trigger] s[j])
}

proof fn lemma_texts_push(v: Seq<String>, x: String)
    ensures
        texts(v.push(x)) == texts(v).push(x@),
{
    assert(texts(v.push(x)) =~= texts(v).push(x@));
}

proof fn lemma_push_contains(s: Seq<Seq<char>>, x: Seq<char>, g: Seq<char>)
    ensures
        s.push(x).contains(g) <==> (s.contains(g) || g == x),
{
    if s.contains(g) {
        let w = choose|w: int| 0 <= w < s.len() && s[w] == g;
        assert(s.push(x)[w] == g);
    }
    if g == x {
        assert(s.push(x)[s.len() as int] == g);
    }
    if s.push(x).contains(g) && g != x {
        let w = choose|w: int| 0 <= w < s.len() + 1 && s.push(x)[w] == g;
        assert(s[w] == g);
    }
}

fn distinct_game_versions(versions: &[PluginVersion]) -> (values: Vec<String>)
    ensures
        texts(values@).no_duplicates(),
        forall|g: Seq<char>| #[trigger] texts(values@).contains(g)
            <==> listed_game_versions(version_views(versions@)).contains(g),
{
    let ghost vs = version_views(versions@);
    let mut values: Vec<String> = Vec::new();
    let ghost mut seen: Seq<Seq<char>> = Seq::empty();
    let mut i: usize = 0;
    while i < versions.len()
        invariant
            vs == version_views(versions@),
            i <= versions.len(),
            seen == listed_game_versions(vs.take(i as int)),
            texts(values@).no_duplicates(),
            forall|g: Seq<char>| #[trigger] texts(values@).contains(g) <==> seen.contains(g),
        decreases versions.len() - i,
    {
        let gvs = &versions[i].game_versions;
        let ghost current = texts(gvs@);
        let ghost start = seen;
        assert(vs[i as int].game_versions == current);
        let mut j: usize = 0;
        while j < gvs.len()
            invariant
                vs == version_views(versions@),
                i < versions.len(),
                current == texts(gvs@),
                j <= gvs.len(),
                seen == start + current.take(j as int),
                texts(values@).no_duplicates(),
                forall|g: Seq<char>| #[trigger] texts(values@).contains(g) <==> seen.contains(g),
            decreases gvs.len() - j,
        {
            let found = contains_text(&values, gvs[j].as_str());
            let ghost before = texts(values@);
            let ghost raw = values@;
            let ghost x = current[j as int];
            if !found {
                values.push(gvs[j].clone());
                proof {
                    lemma_texts_push(raw, gvs@[j as int]);
                    assert forall|a: int, b: int| 0 <= a < b < texts(values@).len()
                        implies texts(values@)[a] != texts(values@)[b] by {
                        if b == before.len() {
                            assert(before[a] != x);
                        } else {
                            assert(before[a] != before[b]);
                        }
                    }
                }
            }
            proof {
                assert(current.take(j + 1) =~= current.take(j as int).push(x));
                let old_seen = seen;
                seen = seen.push(x);
                assert forall|g: Seq<char>| #[trigger] texts(values@).contains(g) <==> seen.contains(g) by {
                    lemma_push_contains(old_seen, x, g);
                    if !found {
                        lemma_push_contains(before, x, g);
                    }
                }
            }
            j = j + 1;
        }
        proof {
            assert(current.take(gvs.len() as int) =~= current);
            assert(vs.take(i + 1).drop_last() =~= vs.take(i as int));
            assert(vs.take(i + 1).last() == vs[i as int]);
        }
        i = i + 1;
    }
    proof {
        assert(vs.take(versions.len() as int) =~= vs);
    }
    values
}

fn sort_newest_first(values: Vec<String>) -> (sorted: Vec<String>)
    requires
        texts(values@).no_duplicates(),
    ensures
        newest_first(texts(sorted@)),
        forall|g: Seq<char>| #[trigger] texts(sorted@).contains(g) <==> texts(values@).contains(g),
{
    let ghost vt = texts(values@);
    let mut sorted: Vec<String> = Vec::new();
    let mut m: usize = 0;
    while m < values.len()
        invariant
            vt == texts(values@),
            vt.no_duplicates(),
            m <= values.len(),
            newest_first(texts(sorted@)),
            forall|g: Seq<char>| #[trigger] texts(sorted@).contains(g) <==> vt.take(m as int).contains(g),
        decreases values.len() - m,
    {
        let x = &values[m];
        let ghost ts = texts(sorted@);
        let ghost xv = x@;
        assert(vt[m as int] == xv);
        assert(!ts.contains(xv)) by {
            if ts.contains(xv) {
                assert(vt.take(m as int).contains(xv));
                let w = choose|w: int| 0 <= w < m && vt.take(m as int)[w] == xv;
                assert(vt[w] == vt[m as int]);
            }
        }
        let mut p: usize = 0;
        while p < sorted.len() && is_newer(sorted[p].as_str(), x.as_str())
            invariant
                ts == texts(sorted@),
                xv == x@,
                p <= sorted.len(),
                forall|q: int| 0 <= q < p ==> newer(#[trigger] ts[q], xv),
            decreases sorted.len() - p,
        {
            p = p + 1;
        }
        proof {
            if p < sorted.len() {
                assert(!newer(ts[p as int], xv));
                assert(ts[p as int] != xv) by {
                    assert(ts.contains(ts[p as int]));
                }
                lemma_newer_total(ts[p as int], xv);
                assert(newer(xv, ts[p as int]));
                assert forall|q: int| p < q < ts.len() implies newer(xv, #[trigger] ts[q]) by {
                    assert(newer(ts[p as int], ts[q]));
                    lemma_newer_transitive(xv, ts[p as int], ts[q]);
                }
            }
        }
        let ghost raw = sorted@;
        sorted.insert(p, x.clone());
        proof {
            let nt = texts(sorted@);
            assert(nt =~= ts.insert(p as int, xv));
            assert forall|i: int, j: int| 0 <= i < j < nt.len() implies newer(#[trigger] nt[i], #[trigger] nt[j]) by {
                if j < p {
                    assert(newer(ts[i], ts[j]));
                } else if j == p {
                    assert(newer(ts[i], xv));
                } else if i < p {
                    assert(newer(ts[i], ts[j - 1]));
                } else if i == p {
                    assert(newer(xv, ts[j - 1]));
                } else {
                    assert(newer(ts[i - 1], ts[j - 1]));
                }
            }
            assert(vt.take(m + 1) =~= vt.take(m as int).push(xv));
            assert forall|g: Seq<char>| #[trigger] nt.contains(g) <==> vt.take(m + 1).contains(g) by {
                lemma_push_contains(vt.take(m as int), xv, g);
                if nt.contains(g) && g != xv {
                    let w = choose|w: int| 0 <= w < nt.len() && nt[w] == g;
                    if w < p {
                        assert(ts[w] == g);
                    } else {
                        assert(ts[w - 1] == g);
                    }
                }
                if ts.contains(g) {
                    let w = choose|w: int| 0 <= w < ts.len() && ts[w] == g;
                    if w < p {
                        assert(nt[w] == g);
                    } else {
                        assert(nt[w + 1] == g);
                    }
                }
                if g == xv {
                    assert(nt[p as int] == g);
                }
            }
        }
        m = m + 1;
    }
    proof {
        assert(vt.take(values.len() as int) =~= vt);
    }
    sorted
}

/// The Minecraft versions that any of `versions` lists, each once, newest
/// first.
pub fn unique_game_versions(versions: &[PluginVersion]) -> (values: Vec<String>)
    ensures
        texts(values@).no_duplicates(),
        forall|g: Seq<char>| #[trigger] texts(values@).contains(g)
            <==> listed_game_versions(version_views(versions@)).contains(g),
        newest_first(texts(values@)),
{
    let distinct = distinct_game_versions(versions);
    let sorted = sort_newest_first(distinct);
    proof {
        lemma_newest_first_distinct(texts(sorted@));
    }
    sorted
}

/// A list whose entries are each newer than the ones after them holds no
/// text twice.
pub proof fn lemma_newest_first_distinct(s: Seq<Seq<char>>)
    requires
        newest_first(s),
    ensures
        s.no_duplicates(),
{
    assert forall|i: int, j: int| 0 <= i < s.len() && 0 <= j < s.len() && i != j implies s[i] != s[j] by {
        lemma_newer_total(s[i], s[i]);
        if i < j {
            assert(newer(s[i], s[j]));
        } else {
            assert(newer(s[j], s[i]));
        }
    }
}

/// The loaders that are offered first, in this order.
pub open spec fn default_loader_names() -> Seq<Seq<char>> {
    seq!["paper"@, "purpur"@, "spigot"@, "bukkit"@, "folia"@, "fabric"@, "forge"@, "neoforge"@]
}

/// The loaders of the versions that list Minecraft version `g`, in order,
/// with repeats.
pub open spec fn loaders_of_matching(vs: Seq<PluginVersionView>, g: Seq<char>) -> Seq<Seq<char>>
    decreases vs.len(),
{
    if vs.len() == 0 {
        Seq::empty()
    } else {
        loaders_of_matching(vs.drop_last(), g) + (if vs.last().game_versions.contains(g) {
            vs.last().loaders
        } else {
            Seq::empty()
        })
    }
}

/// The first occurrence of each text, in order.
pub open spec fn first_occurrences(s: Seq<Seq<char>>) -> Seq<Seq<char>>
    decreases s.len(),
{
    if s.len() == 0 {
        s
    } else {
        let d = first_occurrences(s.drop_last());
        if d.contains(s.last()) { d } else { d.push(s.last()) }
    }
}

/// The entries of `s` that `pool` holds, in order.
pub open spec fn kept_in(s: Seq<Seq<char>>, pool: Seq<Seq<char>>) -> Seq<Seq<char>>
    decreases s.len(),
{
    if s.len() == 0 {
        s
    } else {
        let k = kept_in(s.drop_last(), pool);
        if pool.contains(s.last()) { k.push(s.last()) } else { k }
    }
}

/// The loader list for Minecraft version `g`: the default loaders that some
/// matching version offers, in their fixed order, then every other loader of
/// the matching versions in the order they first appear.
pub open spec fn loader_listing(vs: Seq<PluginVersionView>, g: Seq<char>) -> Seq<Seq<char>> {
    let offered = loaders_of_matching(vs, g);
    first_occurrences(kept_in(default_loader_names(), offered) + offered)
}

proof fn lemma_concat_contains(a: Seq<Seq<char>>, b: Seq<Seq<char>>, x: Seq<char>)
    ensures
        (a + b).contains(x) <==> (a.contains(x) || b.contains(x)),
{
    if a.contains(x) {
        let w = choose|w: int| 0 <= w < a.len() && a[w] == x;
        assert((a + b)[w] == x);
    }
    if b.contains(x) {
        let w = choose|w: int| 0 <= w < b.len() && b[w] == x;
        assert((a + b)[a.len() + w] == x);
    }
    if (a + b).contains(x) {
        let w = choose|w: int| 0 <= w < a.len() + b.len() && (a + b)[w] == x;
        if w < a.len() {
            assert(a[w] == x);
        } else {
            assert(b[w - a.len()] == x);
        }
    }
}

/// The first occurrences hold the same texts as the whole list, each once.
pub proof fn lemma_first_occurrences(s: Seq<Seq<char>>, x: Seq<char>)
    ensures
        first_occurrences(s).contains(x) <==> s.contains(x),
        first_occurrences(s).no_duplicates(),
    decreases s.len(),
{
    if s.len() > 0 {
        let r = s.drop_last();
        lemma_first_occurrences(r, x);
        lemma_first_occurrences(r, s.last());
        assert(s =~= r.push(s.last()));
        lemma_push_contains(r, s.last(), x);
        let d = first_occurrences(r);
        lemma_push_contains(d, s.last(), x);
        if !d.contains(s.last()) {
            assert forall|a: int, b: int| 0 <= a < b < d.push(s.last()).len()
                implies d.push(s.last())[a] != d.push(s.last())[b] by {
                if b == d.len() {
                    assert(d[a] != s.last()) by {
                        if d[a] == s.last() {
                            assert(d.contains(s.last()));
                        }
                    }
                } else {
                    assert(d[a] != d[b]);
                }
            }
        }
    }
}

proof fn lemma_kept_in_contains(s: Seq<Seq<char>>, pool: Seq<Seq<char>>, x: Seq<char>)
    ensures
        kept_in(s, pool).contains(x) <==> (s.contains(x) && pool.contains(x)),
    decreases s.len(),
{
    if s.len() > 0 {
        let r = s.drop_last();
        lemma_kept_in_contains(r, pool, x);
        assert(s =~= r.push(s.last()));
        lemma_push_contains(r, s.last(), x);
        lemma_push_contains(kept_in(r, pool), s.last(), x);
    }
}

proof fn lemma_defaults_distinct()
    ensures
        default_loader_names().no_duplicates(),
{
    reveal_strlit("paper");
    reveal_strlit("purpur");
    reveal_strlit("spigot");
    reveal_strlit("bukkit");
    reveal_strlit("folia");
    reveal_strlit("fabric");
    reveal_strlit("forge");
    reveal_strlit("neoforge");
    let d = default_loader_names();
    assert forall|a: int, b: int| 0 <= a < b < d.len() implies d[a] != d[b] by {
        if a == 0 && b == 1 {
            assert(d[0].len() != d[1].len());
        } else if a == 0 && b == 2 {
            assert(d[0].len() != d[2].len());
        } else if a == 0 && b == 3 {
            assert(d[0].len() != d[3].len());
        } else if a == 0 && b == 4 {
            assert(d[0][0] != d[4][0]);
        } else if a == 0 && b == 5 {
            assert(d[0].len() != d[5].len());
        } else if a == 0 && b == 6 {
            assert(d[0][0] != d[6][0]);
        } else if a == 0 && b == 7 {
            assert(d[0].len() != d[7].len());
        } else if a == 1 && b == 2 {
            assert(d[1][0] != d[2][0]);
        } else if a == 1 && b == 3 {
            assert(d[1][0] != d[3][0]);
        } else if a == 1 && b == 4 {
            assert(d[1].len() != d[4].len());
        } else if a == 1 && b == 5 {
            assert(d[1][0] != d[5][0]);
        } else if a == 1 && b == 6 {
            assert(d[1].len() != d[6].len());
        } else if a == 1 && b == 7 {
            assert(d[1].len() != d[7].len());
        } else if a == 2 && b == 3 {
            assert(d[2][0] != d[3][0]);
        } else if a == 2 && b == 4 {
            assert(d[2].len() != d[4].len());
        } else if a == 2 && b == 5 {
            assert(d[2][0] != d[5][0]);
        } else if a == 2 && b == 6 {
            assert(d[2].len() != d[6].len());
        } else if a == 2 && b == 7 {
            assert(d[2].len() != d[7].len());
        } else if a == 3 && b == 4 {
            assert(d[3].len() != d[4].len());
        } else if a == 3 && b == 5 {
            assert(d[3][0] != d[5][0]);
        } else if a == 3 && b == 6 {
            assert(d[3].len() != d[6].len());
        } else if a == 3 && b == 7 {
            assert(d[3].len() != d[7].len());
        } else if a == 4 && b == 5 {
            assert(d[4].len() != d[5].len());
        } else if a == 4 && b == 6 {
            assert(d[4][2] != d[6][2]);
        } else if a == 4 && b == 7 {
            assert(d[4].len() != d[7].len());
        } else if a == 5 && b == 6 {
            assert(d[5].len() != d[6].len());
        } else if a == 5 && b == 7 {
            assert(d[5].len() != d[7].len());
        } else if a == 6 && b == 7 {
            assert(d[6].len() != d[7].len());
        }
    }
}

proof fn lemma_first_occurrences_distinct(a: Seq<Seq<char>>)
    requires
        a.no_duplicates(),
    ensures
        first_occurrences(a) == a,
    decreases a.len(),
{
    if a.len() > 0 {
        let r = a.drop_last();
        assert(r.no_duplicates());
        lemma_first_occurrences_distinct(r);
        lemma_first_occurrences(r, a.last());
        if r.contains(a.last()) {
            let w = choose|w: int| 0 <= w < r.len() && r[w] == a.last();
            assert(a[w] == a[a.len() - 1]);
        }
        assert(r.push(a.last()) =~= a);
    }
}

proof fn lemma_first_occurrences_keep_prefix(a: Seq<Seq<char>>, b: Seq<Seq<char>>)
    requires
        a.no_duplicates(),
    ensures
        first_occurrences(a + b).len() >= a.len(),
        first_occurrences(a + b).take(a.len() as int) == a,
    decreases b.len(),
{
    if b.len() == 0 {
        assert(a + b =~= a);
        lemma_first_occurrences_distinct(a);
        assert(a.take(a.len() as int) =~= a);
    } else {
        lemma_first_occurrences_keep_prefix(a, b.drop_last());
        assert((a + b).drop_last() =~= a + b.drop_last());
        assert((a + b).last() == b.last());
        let d = first_occurrences(a + b.drop_last());
        if !d.contains(b.last()) {
            assert(d.push(b.last()).take(a.len() as int) =~= d.take(a.len() as int));
        }
    }
}

proof fn lemma_kept_in_distinct(s: Seq<Seq<char>>, pool: Seq<Seq<char>>)
    requires
        s.no_duplicates(),
    ensures
        kept_in(s, pool).no_duplicates(),
    decreases s.len(),
{
    if s.len() > 0 {
        let r = s.drop_last();
        assert(r.no_duplicates());
        lemma_kept_in_distinct(r, pool);
        let k = kept_in(r, pool);
        if pool.contains(s.last()) {
            lemma_kept_in_contains(r, pool, s.last());
            if r.contains(s.last()) {
                let w = choose|w: int| 0 <= w < r.len() && r[w] == s.last();
                assert(s[w] == s[s.len() - 1]);
            }
            assert forall|i: int, j: int| 0 <= i < j < k.push(s.last()).len()
                implies k.push(s.last())[i] != k.push(s.last())[j] by {
                if j == k.len() {
                    assert(k.contains(k[i]));
                } else {
                    assert(k[i] != k[j]);
                }
            }
        }
    }
}

/// The loader list names every loader that some version listing the
/// Minecraft version offers, each once, and nothing else; the default
/// loaders on offer come first, in their fixed order.
pub proof fn lemma_loader_listing(vs: Seq<PluginVersionView>, g: Seq<char>)
    ensures
        loader_listing(vs, g).no_duplicates(),
        forall|x: Seq<char>| #[trigger] loader_listing(vs, g).contains(x) <==> loaders_of_matching(vs, g).contains(x),
        ({
            let defaults = kept_in(default_loader_names(), loaders_of_matching(vs, g));
            loader_listing(vs, g).len() >= defaults.len()
                && loader_listing(vs, g).take(defaults.len() as int) == defaults
        }),
{
    let offered = loaders_of_matching(vs, g);
    let defaults = kept_in(default_loader_names(), offered);
    lemma_defaults_distinct();
    lemma_kept_in_distinct(default_loader_names(), offered);
    lemma_first_occurrences_keep_prefix(defaults, offered);
    assert forall|x: Seq<char>| #[trigger] loader_listing(vs, g).contains(x) <==> offered.contains(x) by {
        lemma_first_occurrences(defaults + offered, x);
        lemma_concat_contains(defaults, offered, x);
        lemma_kept_in_contains(default_loader_names(), offered, x);
    }
    lemma_first_occurrences(defaults + offered, Seq::empty());
}

/// The default loaders, in the order in which they are offered.
pub fn default_loaders() -> (names: Vec<String>)
    ensures
        texts(names@) == default_loader_names(),
{
    let mut names: Vec<String> = Vec::new();
    names.push(String::from_str("paper"));
    names.push(String::from_str("purpur"));
    names.push(String::from_str("spigot"));
    names.push(String::from_str("bukkit"));
    names.push(String::from_str("folia"));
    names.push(String::from_str("fabric"));
    names.push(String::from_str("forge"));
    names.push(String::from_str("neoforge"));
    assert(texts(names@) =~= default_loader_names());
    names
}

/// Whether a version lists Minecraft version `game_version`.
fn lists_game_version(version: &PluginVersion, game_version: &str) -> (listed: bool)
    ensures
        listed == version@.game_versions.contains(game_version@),
{
    contains_text(&version.game_versions, game_version)
}

proof fn lemma_matching_grows(vs: Seq<PluginVersionView>, m: int, g: Seq<char>, x: Seq<char>)
    requires
        0 <= m <= vs.len(),
        loaders_of_matching(vs.take(m), g).contains(x),
    ensures
        loaders_of_matching(vs, g).contains(x),
    decreases vs.len() - m,
{
    if m < vs.len() {
        assert(vs.take(m + 1).drop_last() =~= vs.take(m));
        let extra = if vs[m].game_versions.contains(g) { vs[m].loaders } else { Seq::empty() };
        assert(loaders_of_matching(vs.take(m + 1), g) == loaders_of_matching(vs.take(m), g) + extra);
        lemma_concat_contains(loaders_of_matching(vs.take(m), g), extra, x);
        lemma_matching_grows(vs, m + 1, g, x);
    } else {
        assert(vs.take(m) =~= vs);
    }
}

/// Whether some version that lists `game_version` offers `loader`.
fn matching_version_offers(versions: &[PluginVersion], game_version: &str, loader: &str) -> (offered: bool)
    ensures
        offered == loaders_of_matching(version_views(versions@), game_version@).contains(loader@),
{
    let ghost vs = version_views(versions@);
    let ghost g = game_version@;
    let mut k: usize = 0;
    assert(vs.take(0) =~= Seq::<PluginVersionView>::empty());
    while k < versions.len()
        invariant
            vs == version_views(versions@),
            g == game_version@,
            k <= versions.len(),
            !loaders_of_matching(vs.take(k as int), g).contains(loader@),
        decreases versions.len() - k,
    {
        let version = &versions[k];
        let listed = lists_game_version(version, game_version);
        let ghost before = loaders_of_matching(vs.take(k as int), g);
        proof {
            assert(vs.take(k + 1).drop_last() =~= vs.take(k as int));
            assert(vs.take(k + 1).last() == version@);
            let extra = if version@.game_versions.contains(g) { version@.loaders } else { Seq::empty() };
            assert(loaders_of_matching(vs.take(k + 1), g) == before + extra);
            lemma_concat_contains(before, extra, loader@);
        }
        if listed && contains_text(&version.loaders, loader) {
            proof {
                lemma_matching_grows(vs, k + 1, g, loader@);
            }
            return true;
        }
        k = k + 1;
    }
    proof {
        assert(vs.take(versions.len() as int) =~= vs);
    }
    false
}

/// The loaders on offer for Minecraft version `game_version`, as
/// `loader_listing` describes them.
pub fn loaders_for_version(versions: &[PluginVersion], game_version: &str) -> (values: Vec<String>)
    ensures
        texts(values@) == loader_listing(version_views(versions@), game_version@),
{
    let ghost vs = version_views(versions@);
    let ghost g = game_version@;
    let ghost offered = loaders_of_matching(vs, g);
    let defaults = default_loaders();
    let ghost dn = default_loader_names();
    proof {
        lemma_defaults_distinct();
    }
    let mut values: Vec<String> = Vec::new();
    let mut i: usize = 0;
    assert(dn.take(0) =~= Seq::<Seq<char>>::empty());
    while i < defaults.len()
        invariant
            vs == version_views(versions@),
            g == game_version@,
            offered == loaders_of_matching(vs, g),
            dn == default_loader_names(),
            dn.no_duplicates(),
            texts(defaults@) == dn,
            i <= defaults.len(),
            texts(values@) == first_occurrences(kept_in(dn.take(i as int), offered)),
        decreases defaults.len() - i,
    {
        let preferred = &defaults[i];
        let ghost kept = kept_in(dn.take(i as int), offered);
        let ghost p = preferred@;
        proof {
            assert(dn.take(i + 1).drop_last() =~= dn.take(i as int));
            assert(dn.take(i + 1).last() == p);
        }
        if matching_version_offers(versions, game_version, preferred.as_str()) {
            let ghost raw = values@;
            values.push(preferred.clone());
            proof {
                lemma_texts_push(raw, *preferred);
                lemma_kept_in_contains(dn.take(i as int), offered, p);
                if dn.take(i as int).contains(p) {
                    let w = choose|w: int| 0 <= w < i && dn.take(i as int)[w] == p;
                    assert(dn[w] == dn[i as int]);
                }
                lemma_first_occurrences(kept, p);
                assert(kept_in(dn.take(i + 1), offered) == kept.push(p));
                assert(kept.push(p).drop_last() =~= kept);
            }
        }
        i = i + 1;
    }
    proof {
        assert(dn.take(defaults.len() as int) =~= dn);
    }
    let ghost base = kept_in(dn, offered);
    let ghost mut seen: Seq<Seq<char>> = base;
    let mut k: usize = 0;
    assert(base + loaders_of_matching(vs.take(0), g) =~= base) by {
        assert(vs.take(0) =~= Seq::<PluginVersionView>::empty());
    }
    while k < versions.len()
        invariant
            vs == version_views(versions@),
            g == game_version@,
            offered == loaders_of_matching(vs, g),
            base == kept_in(default_loader_names(), offered),
            k <= versions.len(),
            seen == base + loaders_of_matching(vs.take(k as int), g),
            texts(values@) == first_occurrences(seen),
        decreases versions.len() - k,
    {
        let version = &versions[k];
        let ghost start = seen;
        proof {
            assert(vs.take(k + 1).drop_last() =~= vs.take(k as int));
            assert(vs.take(k + 1).last() == version@);
        }
        if lists_game_version(version, game_version) {
            let loaders = &version.loaders;
            let ghost lt = texts(loaders@);
            let mut j: usize = 0;
            assert(start + lt.take(0) =~= start);
            while j < loaders.len()
                invariant
                    lt == texts(loaders@),
                    j <= loaders.len(),
                    seen == start + lt.take(j as int),
                    texts(values@) == first_occurrences(seen),
                decreases loaders.len() - j,
            {
                let loader = &loaders[j];
                let found = contains_text(&values, loader.as_str());
                proof {
                    assert(seen.push(loader@).drop_last() =~= seen);
                    assert(start + lt.take(j + 1) =~= seen.push(loader@));
                }
                if !found {
                    let ghost raw = values@;
                    values.push(loader.clone());
                    proof {
                        lemma_texts_push(raw, *loader);
                    }
                }
                proof {
                    seen = seen.push(loader@);
                }
                j = j + 1;
            }
            proof {
                assert(lt.take(loaders.len() as int) =~= lt);
                assert(seen =~= base + loaders_of_matching(vs.take(k + 1), g));
            }
        } else {
            proof {
                assert(seen =~= base + loaders_of_matching(vs.take(k + 1), g));
            }
        }
        k = k + 1;
    }
    proof {
        assert(vs.take(versions.len() as int) =~= vs);
    }
    values
}

/// The row that the search list shows for a plugin: its name, its download
/// count and its description.
pub open spec fn plugin_row(p: PluginSummaryView) -> Seq<char> {
    p.name + "  "@ + decimal(p.downloads as nat) + " downloads  "@ + p.description
}

/// The rows of the search list, one per plugin.
pub fn plugin_items(plugins: &[PluginSummary]) -> (rows: Vec<String>)
    ensures
        rows@.len() == plugins@.len(),
        forall|i: int| 0 <= i < plugins@.len() ==> (#[trigger] rows@[i])@ == plugin_row(plugins@[i]@),
{
    let mut rows: Vec<String> = Vec::new();
    let mut i: usize = 0;
    while i < plugins.len()
        invariant
            i <= plugins.len(),
            rows@.len() == i,
            forall|k: int| 0 <= k < i ==> (#[trigger] rows@[k])@ == plugin_row(plugins@[k]@),
        decreases plugins.len() - i,
    {
        let plugin = &plugins[i];
        let row = plugin.name.clone()
            .concat("  ")
            .concat(decimal_string(plugin.downloads).as_str())
            .concat(" downloads  ")
            .concat(plugin.description.as_str());
        rows.push(row);
        i = i + 1;
    }
    rows
}

/// Two plugins are the same project of the same provider.
pub open spec fn same_project(a: PluginSummaryView, b: PluginSummaryView) -> bool {
    a.provider == b.provider && a.project_id == b.project_id
}

/// Some plan is for the same project as `p`.
pub open spec fn is_planned(plans: Seq<DownloadPlanView>, p: PluginSummaryView) -> bool {
    exists|j: int| 0 <= j < plans.len() && same_project(#[trigger] plans[j].plugin, p)
}

fn same_project_exec(a: &PluginSummary, b: &PluginSummary) -> (same: bool)
    ensures
        same == same_project(a@, b@),
{
    a.provider == b.provider && a.project_id == b.project_id
}

/// For each plugin, whether a plan for it has been made.
pub fn selected_markers(plugins: &[PluginSummary], plans: &[DownloadPlan]) -> (marks: Vec<bool>)
    ensures
        marks@.len() == plugins@.len(),
        forall|i: int| 0 <= i < plugins@.len()
            ==> (#[trigger] marks@[i] <==> is_planned(plan_views(plans@), plugins@[i]@)),
{
    let ghost pv = plan_views(plans@);
    let mut marks: Vec<bool> = Vec::new();
    let mut i: usize = 0;
    while i < plugins.len()
        invariant
            pv == plan_views(plans@),
            i <= plugins.len(),
            marks@.len() == i,
            forall|k: int| 0 <= k < i ==> (#[trigger] marks@[k] <==> is_planned(pv, plugins@[k]@)),
        decreases plugins.len() - i,
    {
        let plugin = &plugins[i];
        let mut found = false;
        let mut j: usize = 0;
        while j < plans.len()
            invariant
                pv == plan_views(plans@),
                j <= plans.len(),
                found <==> exists|w: int| 0 <= w < j && same_project(#[trigger] pv[w].plugin, plugin@),
            decreases plans.len() - j,
        {
            if same_project_exec(&plans[j].plugin, plugin) {
                found = true;
                assert(same_project(pv[j as int].plugin, plugin@));
            }
            j = j + 1;
        }
        marks.push(found);
        i = i + 1;
    }
    marks
}

/// The plans that are not for the project of `p`, in order.
pub open spec fn plans_for_others(plans: Seq<DownloadPlanView>, p: PluginSummaryView) -> Seq<DownloadPlanView>
    decreases plans.len(),
{
    if plans.len() == 0 {
        plans
    } else {
        let rest = plans_for_others(plans.drop_last(), p);
        if same_project(plans.last().plugin, p) { rest } else { rest.push(plans.last()) }
    }
}

/// Adds a plan, replacing any earlier plan for the same project: the plans
/// for other projects keep their order, and the new plan comes last.
pub fn upsert_plan(plans: &mut Vec<DownloadPlan>, plan: DownloadPlan)
    ensures
        plan_views(final(plans)@) == plans_for_others(plan_views(old(plans)@), plan@.plugin).push(plan@),
{
    let ghost pv = plan_views(plans@);
    let mut kept: Vec<DownloadPlan> = Vec::new();
    assert(pv.take(0) =~= Seq::<DownloadPlanView>::empty());
    assert(pv.skip(0) =~= pv);
    while plans.len() > 0
        invariant
            pv == plan_views(old(plans)@),
            plans.len() <= pv.len(),
            plan_views(plans@) == pv.skip(pv.len() - plans.len()),
            plan_views(kept@) == plans_for_others(pv.take(pv.len() - plans.len()), plan@.plugin),
        decreases plans.len(),
    {
        let ghost m = pv.len() - plans.len();
        let ghost rest = plans@;
        let next = plans.remove(0);
        proof {
            assert(plan_views(rest)[0] == next@);
            assert(pv[m] == next@);
            assert(plans@ =~= rest.subrange(1, rest.len() as int));
            assert forall|i: int| 0 <= i < plans@.len() implies plan_views(plans@)[i] == pv.skip(m + 1)[i] by {
                assert(plans@[i] == rest[i + 1]);
                assert(plan_views(rest)[i + 1] == pv.skip(m)[i + 1]);
            }
            assert(plan_views(plans@) =~= pv.skip(m + 1));
            assert(pv.take(m + 1).drop_last() =~= pv.take(m));
            assert(pv.take(m + 1).last() == next@);
        }
        if !same_project_exec(&next.plugin, &plan.plugin) {
            let ghost raw = kept@;
            kept.push(next);
            proof {
                assert(plan_views(kept@) =~= plan_views(raw).push(next@));
            }
        }
    }
    proof {
        assert(pv.take(pv.len() as int) =~= pv);
    }
    let ghost before_push = kept@;
    kept.push(plan);
    proof {
        assert(plan_views(kept@) =~= plan_views(before_push).push(plan@));
    }
    *plans = kept;
}

proof fn lemma_plans_others_exclude(plans: Seq<DownloadPlanView>, p: PluginSummaryView)
    ensures
        forall|i: int| 0 <= i < plans_for_others(plans, p).len()
            ==> !same_project((#[trigger] plans_for_others(plans, p)[i]).plugin, p),
    decreases plans.len(),
{
    if plans.len() > 0 {
        lemma_plans_others_exclude(plans.drop_last(), p);
    }
}

proof fn lemma_plans_others_keep_all(plans: Seq<DownloadPlanView>, p: PluginSummaryView)
    requires
        forall|i: int| 0 <= i < plans.len() ==> !same_project((#[trigger] plans[i]).plugin, p),
    ensures
        plans_for_others(plans, p) == plans,
    decreases plans.len(),
{
    if plans.len() > 0 {
        lemma_plans_others_keep_all(plans.drop_last(), p);
        assert(plans.drop_last().push(plans.last()) =~= plans);
    }
}

/// After a plan is added, the search list marks its plugin; the plan is the
/// only one for its project and comes last; and adding it again changes
/// nothing.
pub proof fn lemma_upsert_plan(plans: Seq<DownloadPlanView>, plan: DownloadPlanView)
    ensures
        ({
            let after = plans_for_others(plans, plan.plugin).push(plan);
            &&& is_planned(after, plan.plugin)
            &&& forall|i: int| 0 <= i < after.len() - 1 ==> !same_project((#[trigger] after[i]).plugin, plan.plugin)
            &&& plans_for_others(after, plan.plugin).push(plan) == after
        }),
{
    let rest = plans_for_others(plans, plan.plugin);
    let after = rest.push(plan);
    lemma_plans_others_exclude(plans, plan.plugin);
    assert(same_project(after[rest.len() as int].plugin, plan.plugin));
    lemma_plans_others_keep_all(rest, plan.plugin);
    assert(after.drop_last() =~= rest);
}

/// A version fits a request when it lists the Minecraft version and the
/// loader and has at least one file.
pub open spec fn fits(v: PluginVersionView, g: Seq<char>, l: Seq<char>) -> bool {
    v.game_versions.contains(g) && v.loaders.contains(l) && v.files.len() > 0
}

/// The position of the first version that fits.
pub open spec fn first_fitting(vs: Seq<PluginVersionView>, g: Seq<char>, l: Seq<char>) -> Option<int>
    decreases vs.len(),
{
    if vs.len() == 0 {
        None
    } else {
        match first_fitting(vs.drop_last(), g, l) {
            Some(k) => Some(k),
            None => if fits(vs.last(), g, l) { Some(vs.len() - 1) } else { None },
        }
    }
}

/// The position of the first primary file.
pub open spec fn primary_position(files: Seq<PluginFileView>) -> Option<int>
    decreases files.len(),
{
    if files.len() == 0 {
        None
    } else {
        match primary_position(files.drop_last()) {
            Some(k) => Some(k),
            None => if files.last().primary { Some(files.len() - 1) } else { None },
        }
    }
}

/// The file to download: the first primary one, or else the first one.
pub open spec fn chosen_file(files: Seq<PluginFileView>) -> PluginFileView {
    match primary_position(files) {
        Some(k) => files[k],
        None => files[0],
    }
}

/// The plan for a plugin, a fitting version and the requested target.
pub open spec fn plan_of(plugin: PluginSummaryView, version: PluginVersionView, g: Seq<char>, l: Seq<char>) -> DownloadPlanView {
    DownloadPlanView {
        plugin,
        version,
        file: chosen_file(version.files),
        game_version: g,
        loader: l,
    }
}

proof fn lemma_first_fitting_prefix(vs: Seq<PluginVersionView>, m: int, g: Seq<char>, l: Seq<char>)
    requires
        0 <= m <= vs.len(),
        first_fitting(vs.take(m), g, l) is Some,
    ensures
        first_fitting(vs, g, l) == first_fitting(vs.take(m), g, l),
    decreases vs.len() - m,
{
    if m < vs.len() {
        assert(vs.take(m + 1).drop_last() =~= vs.take(m));
        lemma_first_fitting_prefix(vs, m + 1, g, l);
    } else {
        assert(vs.take(m) =~= vs);
    }
}

/// The first fitting version is a version of the list, it fits, and no
/// version before it fits.
pub proof fn lemma_first_fitting(vs: Seq<PluginVersionView>, g: Seq<char>, l: Seq<char>)
    ensures
        match first_fitting(vs, g, l) {
            Some(k) => 0 <= k < vs.len() && fits(vs[k], g, l)
                && forall|j: int| 0 <= j < k ==> !fits(#[trigger] vs[j], g, l),
            None => forall|j: int| 0 <= j < vs.len() ==> !fits(#[trigger] vs[j], g, l),
        },
    decreases vs.len(),
{
    if vs.len() > 0 {
        let r = vs.drop_last();
        lemma_first_fitting(r, g, l);
        assert forall|j: int| 0 <= j < r.len() implies r[j] == vs[j] by {}
    }
}

proof fn lemma_primary_prefix(fs: Seq<PluginFileView>, m: int)
    requires
        0 <= m <= fs.len(),
        primary_position(fs.take(m)) is Some,
    ensures
        primary_position(fs) == primary_position(fs.take(m)),
    decreases fs.len() - m,
{
    if m < fs.len() {
        assert(fs.take(m + 1).drop_last() =~= fs.take(m));
        lemma_primary_prefix(fs, m + 1);
    } else {
        assert(fs.take(m) =~= fs);
    }
}

/// The position of the first version that fits the request.
pub fn find_fitting(versions: &[PluginVersion], game_version: &str, loader: &str) -> (found: Option<usize>)
    ensures
        match found {
            Some(k) => first_fitting(version_views(versions@), game_version@, loader@) == Some(k as int),
            None => first_fitting(version_views(versions@), game_version@, loader@) is None,
        },
        found matches Some(k) ==> k < versions@.len(),
{
    let ghost vs = version_views(versions@);
    let ghost g = game_version@;
    let ghost l = loader@;
    let mut k: usize = 0;
    assert(vs.take(0) =~= Seq::<PluginVersionView>::empty());
    while k < versions.len()
        invariant
            vs == version_views(versions@),
            g == game_version@,
            l == loader@,
            k <= versions.len(),
            first_fitting(vs.take(k as int), g, l) is None,
        decreases versions.len() - k,
    {
        let version = &versions[k];
        proof {
            assert(vs.take(k + 1).drop_last() =~= vs.take(k as int));
            assert(vs.take(k + 1).last() == version@);
        }
        if lists_game_version(version, game_version) && contains_text(&version.loaders, loader)
            && version.files.len() > 0 {
            proof {
                lemma_first_fitting_prefix(vs, k + 1, g, l);
            }
            return Some(k);
        }
        k = k + 1;
    }
    proof {
        assert(vs.take(versions.len() as int) =~= vs);
    }
    None
}

fn copy_file(file: &PluginFile) -> (copy: PluginFile)
    ensures
        copy@ == file@,
{
    PluginFile { filename: file.filename.clone(), url: file.url.clone(), primary: file.primary, size: file.size }
}

/// A copy of the file to download from a version: the first primary file,
/// or else the first file.
pub fn choose_file(files: &Vec<PluginFile>) -> (file: PluginFile)
    requires
        files.len() > 0,
    ensures
        file@ == chosen_file(file_views(files@)),
{
    let ghost fs = file_views(files@);
    let mut k: usize = 0;
    assert(fs.take(0) =~= Seq::<PluginFileView>::empty());
    while k < files.len()
        invariant
            fs == file_views(files@),
            k <= files.len(),
            primary_position(fs.take(k as int)) is None,
        decreases files.len() - k,
    {
        proof {
            assert(fs.take(k + 1).drop_last() =~= fs.take(k as int));
            assert(fs.take(k + 1).last() == files@[k as int]@);
        }
        if files[k].primary {
            proof {
                lemma_primary_prefix(fs, k + 1);
            }
            return copy_file(&files[k]);
        }
        k = k + 1;
    }
    proof {
        assert(fs.take(files.len() as int) =~= fs);
    }
    copy_file(&files[0])
}

/// A plan answers a request for Minecraft version `g` and loader `l` among
/// `vs`: it is for `plugin`, it keeps the requested Minecraft version and
/// loader, its version is the first of `vs` that lists both and has a file,
/// and its file is one of that version's files, a primary one whenever the
/// version has a primary file, and no file before it is primary.
pub open spec fn plan_answers(
    plan: DownloadPlanView,
    plugin: PluginSummaryView,
    vs: Seq<PluginVersionView>,
    g: Seq<char>,
    l: Seq<char>,
) -> bool {
    &&& plan.plugin == plugin
    &&& plan.game_version == g
    &&& plan.loader == l
    &&& plan.version.game_versions.contains(g)
    &&& plan.version.loaders.contains(l)
    &&& exists|k: int| 0 <= k < vs.len() && #[trigger] vs[k] == plan.version
        && forall|j: int| 0 <= j < k ==> !((#[trigger] vs[j]).game_versions.contains(g)
            && vs[j].loaders.contains(l) && vs[j].files.len() > 0)
    &&& exists|i: int| 0 <= i < plan.version.files.len() && #[trigger] plan.version.files[i] == plan.file
        && (plan.file.primary || forall|m: int| 0 <= m < plan.version.files.len() ==> !(#[trigger] plan.version.files[m]).primary)
        && forall|m: int| 0 <= m < i ==> !(#[trigger] plan.version.files[m]).primary
}

/// The first primary file is a primary file of the list with no primary
/// file before it; without one, no file is primary.
pub proof fn lemma_primary_position(files: Seq<PluginFileView>)
    ensures
        match primary_position(files) {
            Some(k) => 0 <= k < files.len() && files[k].primary
                && forall|m: int| 0 <= m < k ==> !(#[trigger] files[m]).primary,
            None => forall|m: int| 0 <= m < files.len() ==> !(#[trigger] files[m]).primary,
        },
    decreases files.len(),
{
    if files.len() > 0 {
        let r = files.drop_last();
        lemma_primary_position(r);
        assert forall|m: int| 0 <= m < r.len() implies r[m] == files[m] by {}
    }
}

/// Planning the first fitting version for a request answers the request.
pub proof fn lemma_plan_answers(plugin: PluginSummaryView, vs: Seq<PluginVersionView>, k: int, g: Seq<char>, l: Seq<char>)
    requires
        first_fitting(vs, g, l) == Some(k),
    ensures
        plan_answers(plan_of(plugin, vs[k], g, l), plugin, vs, g, l),
{
    lemma_first_fitting(vs, g, l);
    let v = vs[k];
    lemma_primary_position(v.files);
    let plan = plan_of(plugin, v, g, l);
    assert(vs[k] == plan.version);
    match primary_position(v.files) {
        Some(i) => {
            assert(v.files[i] == plan.file);
        },
        None => {
            assert(v.files[0] == plan.file);
        },
    }
}

/// No version fits the requested Minecraft version and loader.
#[derive(Debug, Clone)]
pub struct NoMatchingVersion {
    pub plugin_name: String,
    pub game_version: String,
    pub loader: String,
}

impl NoMatchingVersion {
    /// The error text: `no matching version for`, the plugin's name, the
    /// Minecraft version and the loader.
    pub fn message(&self) -> (m: String)
        ensures
            m@ == "no matching version for "@ + self.plugin_name@ + " "@ + self.game_version@ + " "@ + self.loader@,
    {
        String::from_str("no matching version for ")
            .concat(self.plugin_name.as_str())
            .concat(" ")
            .concat(self.game_version.as_str())
            .concat(" ")
            .concat(self.loader.as_str())
    }
}

/// The plan for a plugin at a chosen Minecraft version and loader: the first
/// version that fits, and its first primary file (or its first file).
pub fn plan_for_selection(
    plugin: PluginSummary,
    versions: Vec<PluginVersion>,
    game_version: String,
    loader: String,
) -> (result: Result<DownloadPlan, NoMatchingVersion>)
    ensures
        match first_fitting(version_views(versions@), game_version@, loader@) {
            Some(k) => result matches Ok(plan)
                && plan@ == plan_of(plugin@, version_views(versions@)[k], game_version@, loader@),
            None => result matches Err(e) && e.plugin_name@ == plugin@.name
                && e.game_version@ == game_version@ && e.loader@ == loader@,
        },
        result is Ok <==> exists|i: int| 0 <= i < versions@.len()
            && (#[trigger] version_views(versions@)[i]).game_versions.contains(game_version@)
            && version_views(versions@)[i].loaders.contains(loader@)
            && version_views(versions@)[i].files.len() > 0,
        result matches Ok(plan) ==> plan_answers(plan@, plugin@, version_views(versions@), game_version@, loader@),
        result matches Ok(plan) ==> plan@.game_version == game_version@ && plan@.loader == loader@
            && plan@.plugin == plugin@,
{
    let ghost vs = version_views(versions@);
    match find_fitting(versions.as_slice(), game_version.as_str(), loader.as_str()) {
        Some(k) => {
            let mut versions = versions;
            let version = versions.remove(k);
            assert(version@ == vs[k as int]);
            proof {
                lemma_first_fitting(vs, game_version@, loader@);
            }
            let file = choose_file(&version.files);
            proof {
                lemma_primary_position(version@.files);
                lemma_plan_answers(plugin@, vs, k as int, game_version@, loader@);
            }
            Ok(DownloadPlan { plugin, version, file, game_version, loader })
        },
        None => {
            proof {
                lemma_first_fitting(vs, game_version@, loader@);
            }
            Err(NoMatchingVersion { plugin_name: plugin.name, game_version, loader })
        },
    }
}

/// The plan to update an installed plugin to a target Minecraft version and
/// loader: the first version that fits, and its first primary file (or its
/// first file); `None` when no version fits.
pub fn plan_for_update(
    installed: &InstalledPlugin,
    versions: Vec<PluginVersion>,
    game_version: String,
    loader: String,
) -> (plan: Option<DownloadPlan>)
    ensures
        match first_fitting(version_views(versions@), game_version@, loader@) {
            Some(k) => plan matches Some(p) && p@ == plan_of(
                summary_of_installed(installed@),
                version_views(versions@)[k],
                game_version@,
                loader@,
            ),
            None => plan is None,
        },
        plan is Some <==> exists|i: int| 0 <= i < versions@.len()
            && (#[trigger] version_views(versions@)[i]).game_versions.contains(game_version@)
            && version_views(versions@)[i].loaders.contains(loader@)
            && version_views(versions@)[i].files.len() > 0,
        plan matches Some(p) ==> {
            &&& plan_answers(p@, p@.plugin, version_views(versions@), game_version@, loader@)
            &&& p@.game_version == game_version@
            &&& p@.loader == loader@
            &&& p@.plugin.provider == installed@.provider
            &&& p@.plugin.project_id == installed@.project_id
            &&& p@.plugin.slug == installed@.slug
            &&& p@.plugin.name == installed@.name
            &&& p@.plugin.description.len() == 0
            &&& p@.plugin.downloads == 0
        },
{
    let plugin = PluginSummary::from_installed(installed);
    match plan_for_selection(plugin, versions, game_version, loader) {
        Ok(p) => Some(p),
        Err(_) => None,
    }
}

/// What the search screen does next.
#[derive(Debug, Clone, Copy, PartialEq, Eq, Structural)]
pub enum GetStep {
    /// Ask for a new search text.
    AskQuery,
    /// The install was asked for before any plugin was set up: say so.
    NothingSelected,
    /// Download the plans.
    Install,
    /// Set up the chosen plugins.
    Configure,
    /// Leave without installing.
    Leave,
}

/// The step after the search list returns: a new search, the install (when
/// some plan exists), setting up the chosen plugins (when some were chosen),
/// or leaving.
pub fn next_get_step(action: SelectAction, chose_any: bool, planned_any: bool) -> (step: GetStep)
    ensures
        step == match action {
            SelectAction::Search => GetStep::AskQuery,
            SelectAction::Install => if planned_any { GetStep::Install } else { GetStep::NothingSelected },
            SelectAction::Confirm => if chose_any { GetStep::Configure } else { GetStep::Leave },
            _ => GetStep::Leave,
        },
{
    match action {
        SelectAction::Search => GetStep::AskQuery,
        SelectAction::Install => if planned_any { GetStep::Install } else { GetStep::NothingSelected },
        SelectAction::Confirm => if chose_any { GetStep::Configure } else { GetStep::Leave },
        _ => GetStep::Leave,
    }
}

} // verus!
