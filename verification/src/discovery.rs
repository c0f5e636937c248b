//! App discovery: reading Spotlight's answer, choosing between Spotlight and
//! the folder scan, keeping each app bundle once, and building the sorted
//! catalog rows.
use vstd::prelude::*;

use crate::bundle::{in_supported_location, is_supported_app_location, safe_file_name, safe_file_name_text};
use crate::catalog::{AppRow, InstalledApp, encodable_icon, icon_url, rows};
use crate::icons::{png_bytes_to_data_url, png_data_url_text};
use crate::paths::{extension_of, path_extension};
use crate::text::{
    chars_equal, chars_less, chars_of, lemma_text_lt_total, lemma_text_lt_transitive, lowercase_text,
    same_text, split_chars, split_text, string_from_chars, text_lt, texts_of, to_lowercase, trim,
    trim_chars, trim_text,
};

verus! {

/// The lines of Spotlight's output, trimmed, that are not empty and lie in a
/// supported app location (`home` being the user's home directory), in order.
pub open spec fn spotlight_candidates(stdout: Seq<char>, home: Seq<char>) -> Seq<Seq<char>> {
    split_text(stdout, '\n').map_values(|line: Seq<char>| trim(line)).filter(
        |path: Seq<char>| path.len() > 0 && in_supported_location(path, home),
    )
}

/// The app paths Spotlight reported (`mdfind` with its exit status and
/// output), before they are checked on disk; or why Spotlight failed.
/// Splitting on `\n` and trimming each piece gives the trimmed lines that
/// `str::lines` would, plus at most an empty last piece, which is dropped.
pub fn discover_app_paths_with_spotlight(
    succeeded: bool,
    stdout: &str,
    stderr: &str,
    home: &str,
) -> (r: Result<Vec<String>, String>)
    ensures
        !succeeded ==> (r matches Err(message) && message@ == "Spotlight app discovery failed: "@
            + trim(stderr@)),
        succeeded ==> (r matches Ok(paths) && paths@.map_values(|p: String| p@)
            == spotlight_candidates(stdout@, home@)),
{
    if !succeeded {
        let mut message = String::from_str("Spotlight app discovery failed: ");
        let detail = trim_text(stderr);
        message.append(&detail);
        return Err(message);
    }
    let lines = split_chars(&chars_of(stdout), '\n');
    let ghost trimmed = texts_of(lines@).map_values(|line: Seq<char>| trim(line));
    let ghost keep = |path: Seq<char>| path.len() > 0 && in_supported_location(path, home@);
    let mut paths: Vec<String> = Vec::new();
    let n = lines.len();
    let mut i: usize = 0;
    assert(trimmed.take(0).filter(keep) =~= Seq::<Seq<char>>::empty()) by {
        reveal(Seq::filter);
    }
    while i < n
        invariant
            n == lines@.len(),
            i <= n,
            texts_of(lines@) == split_text(stdout@, '\n'),
            trimmed == texts_of(lines@).map_values(|line: Seq<char>| trim(line)),
            keep == (|path: Seq<char>| path.len() > 0 && in_supported_location(path, home@)),
            paths@.map_values(|p: String| p@) == trimmed.take(i as int).filter(keep),
        decreases n - i,
    {
        let line = trim_chars(&lines[i]);
        let path = string_from_chars(&line);
        assert(line@ == trimmed[i as int]);
        let wanted = line.len() > 0 && is_supported_app_location(&path, home);
        proof {
            reveal(Seq::filter);
            assert(trimmed.take(i + 1).drop_last() =~= trimmed.take(i as int));
            assert(trimmed.take(i + 1).last() == line@);
        }
        let ghost before = paths@;
        if wanted {
            paths.push(path);
            assert(paths@.map_values(|p: String| p@) =~= before.map_values(|p: String| p@).push(
                line@,
            ));
        }
        assert(paths@.map_values(|p: String| p@) =~= trimmed.take(i + 1).filter(keep));
        i += 1;
    }
    assert(trimmed.take(n as int) =~= trimmed);
    Ok(paths)
}

/// Where the catalog's app paths came from.
pub enum DiscoverySource {
    /// Spotlight's paths, which were usable.
    Spotlight(Vec<String>),
    /// Spotlight failed or found nothing usable: scan the app folders.
    FolderScan,
}

/// Spotlight's paths when it succeeded with at least one; otherwise the
/// folder scan.
pub fn discover_installed_apps_source(spotlight: Result<Vec<String>, String>) -> (r:
    DiscoverySource)
    ensures
        match spotlight {
            Ok(paths) => if paths@.len() > 0 {
                r == DiscoverySource::Spotlight(paths)
            } else {
                r is FolderScan
            },
            Err(_) => r is FolderScan,
        },
{
    match spotlight {
        Ok(paths) => {
            if paths.len() > 0 {
                DiscoverySource::Spotlight(paths)
            } else {
                DiscoverySource::FolderScan
            }
        },
        Err(_) => DiscoverySource::FolderScan,
    }
}

/// A discovered path with what the file system says of it: whether it
/// exists, and its canonical form if it could be resolved.
pub struct PathCandidate {
    pub path: String,
    pub exists: bool,
    pub canonical: Option<String>,
}

/// A path candidate as values.
pub type CandidateView = (Seq<char>, bool, Option<Seq<char>>);

impl View for PathCandidate {
    type V = CandidateView;

    open spec fn view(&self) -> CandidateView {
        (
            self.path@,
            self.exists,
            match self.canonical {
                Some(c) => Some(c@),
                None => None,
            },
        )
    }
}

/// A candidate that is an existing `.app` bundle.
pub open spec fn is_app_bundle(c: CandidateView) -> bool {
    c.1 && path_extension(c.0) == Some("app"@)
}

/// What two candidates are compared by to find duplicates: the canonical
/// path when it could be resolved, else the path as given.
pub open spec fn dedupe_key(c: CandidateView) -> Seq<char> {
    match c.2 {
        Some(canonical) => canonical,
        None => c.0,
    }
}

/// Candidate `i` is an app bundle and no earlier app bundle has its key.
pub open spec fn is_kept_candidate(cs: Seq<CandidateView>, i: int) -> bool {
    &&& 0 <= i < cs.len()
    &&& is_app_bundle(cs[i])
    &&& forall|j: int|
        0 <= j < i ==> !(is_app_bundle(cs[j]) && #[trigger] dedupe_key(cs[j]) == dedupe_key(cs[i]))
}

/// The paths of the kept candidates, in order.
pub open spec fn normalized_paths(cs: Seq<CandidateView>) -> Seq<Seq<char>>
    decreases cs.len(),
{
    if cs.len() == 0 {
        Seq::empty()
    } else {
        let prev = normalized_paths(cs.drop_last());
        if is_kept_candidate(cs, cs.len() - 1) {
            prev.push(cs.last().0)
        } else {
            prev
        }
    }
}

/// The views of a sequence of candidates.
pub open spec fn candidate_views(cs: Seq<PathCandidate>) -> Seq<CandidateView> {
    cs.map_values(|c: PathCandidate| c@)
}

/// Keeps the existing `.app` bundles among the candidates, each bundle once:
/// a candidate whose key (canonical path, else path) an earlier kept one had
/// is dropped.
pub fn normalize_app_paths(candidates: Vec<PathCandidate>) -> (r: Vec<String>)
    ensures
        r@.map_values(|p: String| p@) == normalized_paths(candidate_views(candidates@)),
{
    let ghost cs = candidate_views(candidates@);
    let ghost all = candidates@;
    let app_ext = chars_of("app");
    // The keys of the app bundles met so far. vstd specifies `HashSet` only for
    // keys that obey its key model, which `String` is not shown to, so the keys
    // are kept in a vector and searched.
    let mut seen: Vec<Vec<char>> = Vec::new();
    let mut kept: Vec<String> = Vec::new();
    assert(cs.take(0) =~= Seq::<CandidateView>::empty());
    for candidate in it: candidates
        invariant
            it.seq() == all,
            cs == candidate_views(all),
            app_ext@ == "app"@,
            kept@.map_values(|p: String| p@) == normalized_paths(cs.take(it.index() as int)),
            forall|key: Seq<char>|
                texts_of(seen@).contains(key) <==> exists|j: int|
                    0 <= j < it.index() && is_app_bundle(cs[j]) && #[trigger] dedupe_key(cs[j])
                        == key,
    {
        let ghost i = it.index() as int;
        let ghost c = cs[i];
        assert(candidate == all[i]);
        assert(c == candidate@);
        let PathCandidate { path, exists, canonical } = candidate;
        let bundle = exists && match extension_of(&path) {
            Some(ext) => same_text(&ext, "app"),
            None => false,
        };
        assert(bundle == is_app_bundle(c));
        let key: Vec<char> = match &canonical {
            Some(k) => chars_of(k),
            None => chars_of(&path),
        };
        assert(key@ == dedupe_key(c));
        let mut found = false;
        if bundle {
            let m = seen.len();
            let mut s: usize = 0;
            while s < m
                invariant_except_break
                    !found,
                    forall|t: int| 0 <= t < s ==> seen@[t]@ != key@,
                invariant
                    m == seen@.len(),
                    s <= m,
                ensures
                    found ==> texts_of(seen@).contains(key@),
                    !found ==> forall|t: int| 0 <= t < m ==> seen@[t]@ != key@,
                decreases m - s,
            {
                if chars_equal(&seen[s], &key) {
                    found = true;
                    assert(texts_of(seen@)[s as int] == key@);
                    break;
                }
                s += 1;
            }
            proof {
                if !found {
                    assert forall|t: int| 0 <= t < texts_of(seen@).len() implies texts_of(
                        seen@,
                    )[t] != key@ by {
                        assert(texts_of(seen@)[t] == seen@[t]@);
                    }
                    assert(!texts_of(seen@).contains(key@));
                }
            }
        }
        let keep = bundle && !found;
        proof {
            assert(cs.take(i + 1).drop_last() =~= cs.take(i));
            assert(cs.take(i + 1).last() == c);
            assert forall|j: int| 0 <= j < i implies cs.take(i + 1)[j] == cs[j] by {}
            if bundle {
                if found {
                    let j = choose|j: int|
                        0 <= j < i && is_app_bundle(cs[j]) && #[trigger] dedupe_key(cs[j])
                            == key@;
                    assert(cs.take(i + 1)[j] == cs[j]);
                    assert(!is_kept_candidate(cs.take(i + 1), i));
                } else {
                    assert forall|j: int|
                        0 <= j < i implies !(is_app_bundle(cs.take(i + 1)[j]) && #[trigger] dedupe_key(
                            cs.take(i + 1)[j],
                        ) == dedupe_key(cs.take(i + 1)[i])) by {
                        assert(cs.take(i + 1)[j] == cs[j]);
                        if is_app_bundle(cs[j]) && dedupe_key(cs[j]) == key@ {
                            assert(texts_of(seen@).contains(key@));
                        }
                    }
                    assert(is_kept_candidate(cs.take(i + 1), i));
                }
            }
        }
        let ghost before_kept = kept@;
        if keep {
            kept.push(path);
            assert(kept@.map_values(|p: String| p@) =~= before_kept.map_values(|p: String| p@).push(
                c.0,
            ));
        }
        if bundle && !found {
            let ghost before_seen = seen@;
            seen.push(key);
            proof {
                assert(texts_of(seen@) =~= texts_of(before_seen).push(key@));
                assert forall|k2: Seq<char>|
                    texts_of(seen@).contains(k2) <==> exists|j: int|
                        0 <= j < i + 1 && is_app_bundle(cs[j]) && #[trigger] dedupe_key(cs[j])
                            == k2 by {
                    if texts_of(seen@).contains(k2) {
                        if k2 != key@ {
                            let t = choose|t: int|
                                0 <= t < texts_of(seen@).len() && texts_of(seen@)[t] == k2;
                            assert(texts_of(before_seen)[t] == k2);
                            assert(texts_of(before_seen).contains(k2));
                        }
                    }
                    if exists|j: int|
                        0 <= j < i + 1 && is_app_bundle(cs[j]) && #[trigger] dedupe_key(cs[j])
                            == k2 {
                        let j = choose|j: int|
                            0 <= j < i + 1 && is_app_bundle(cs[j]) && #[trigger] dedupe_key(cs[j])
                                == k2;
                        if j < i {
                            assert(texts_of(before_seen).contains(k2));
                            let t = choose|t: int|
                                0 <= t < texts_of(before_seen).len() && texts_of(before_seen)[t]
                                    == k2;
                            assert(texts_of(seen@)[t] == k2);
                        } else {
                            assert(texts_of(seen@)[texts_of(before_seen).len() as int] == k2);
                        }
                    }
                }
            }
        } else {
            proof {
                assert forall|k2: Seq<char>|
                    texts_of(seen@).contains(k2) <==> exists|j: int|
                        0 <= j < i + 1 && is_app_bundle(cs[j]) && #[trigger] dedupe_key(cs[j])
                            == k2 by {
                    if exists|j: int|
                        0 <= j < i + 1 && is_app_bundle(cs[j]) && #[trigger] dedupe_key(cs[j])
                            == k2 {
                        let j = choose|j: int|
                            0 <= j < i + 1 && is_app_bundle(cs[j]) && #[trigger] dedupe_key(cs[j])
                                == k2;
                        if j == i {
                            assert(found);
                            let jj = choose|jj: int|
                                0 <= jj < i && is_app_bundle(cs[jj]) && #[trigger] dedupe_key(cs[jj])
                                    == key@;
                            assert(dedupe_key(cs[jj]) == k2);
                        }
                    }
                }
            }
        }
        assert(kept@.map_values(|p: String| p@) =~= normalized_paths(cs.take(i + 1)));
    }
    assert(cs.take(cs.len() as int) =~= cs);
    kept
}

/// What was found out about one app bundle: its path, the name to show for
/// it, its bundle identifier if the bundle gives one, and its cached icon if
/// one could be read.
pub struct AppBundleFacts {
    pub path: String,
    pub name: String,
    pub bundle_id: Option<String>,
    pub icon: Option<Vec<u8>>,
}

/// Bundle facts as values.
pub type BundleFactsView = (Seq<char>, Seq<char>, Option<Seq<char>>, Option<Seq<u8>>);

impl View for AppBundleFacts {
    type V = BundleFactsView;

    open spec fn view(&self) -> BundleFactsView {
        (
            self.path@,
            self.name@,
            match self.bundle_id {
                Some(id) => Some(id@),
                None => None,
            },
            match self.icon {
                Some(bytes) => Some(bytes@),
                None => None,
            },
        )
    }
}

/// The catalog row for a bundle: its name and path, its bundle identifier
/// (else its safe file name), and the data URL of its cached icon if any.
pub open spec fn bundle_row(f: BundleFactsView) -> AppRow {
    (
        f.1,
        f.0,
        match f.2 {
            Some(id) => id,
            None => safe_file_name_text(f.0),
        },
        icon_url(f.3),
    )
}

/// The catalog rows for a sequence of bundles.
pub open spec fn bundle_rows(bundles: Seq<AppBundleFacts>) -> Seq<AppRow> {
    bundles.map_values(|f: AppBundleFacts| bundle_row(f@))
}

/// The key rows are sorted by: the name, lowercased.
pub open spec fn name_keys(rows: Seq<AppRow>) -> Seq<Seq<char>> {
    rows.map_values(|row: AppRow| lowercase_text(row.0))
}

/// Index `a` goes before index `b`: by key, and by position between equal keys.
pub open spec fn ranks_before(keys: Seq<Seq<char>>, a: int, b: int) -> bool {
    text_lt(keys[a], keys[b]) || (keys[a] == keys[b] && a < b)
}

/// `perm` lists each of `0..n` exactly once.
pub open spec fn is_permutation(perm: Seq<int>, n: int) -> bool {
    &&& perm.len() == n
    &&& forall|k: int| 0 <= k < n ==> 0 <= #[trigger] perm[k] < n
    &&& forall|a: int, b: int| 0 <= a < b < n ==> perm[a] != perm[b]
}

/// `output` is `input` reordered by `perm` so that names ascend by their
/// lowercase form, rows with equal lowercase names keeping their order: the
/// order a stable sort by lowercase name gives.
pub open spec fn is_sorted_by_name(input: Seq<AppRow>, output: Seq<AppRow>, perm: Seq<int>) -> bool {
    &&& is_permutation(perm, input.len() as int)
    &&& output.len() == input.len()
    &&& forall|k: int| 0 <= k < output.len() ==> #[trigger] output[k] == input[perm[k]]
    &&& forall|a: int, b: int|
        0 <= a < b < output.len() ==> ranks_before(name_keys(input), perm[a], perm[b])
}

/// The catalog row for the facts gathered about a bundle.
pub fn installed_app_from_facts(facts: AppBundleFacts) -> (r: InstalledApp)
    requires
        encodable_icon(facts@.3),
    ensures
        r@ == bundle_row(facts@),
        r.name@ == facts.name@,
        r.path@ == facts.path@,
        facts.bundle_id matches Some(id) ==> r.bundle_id@ == id@,
        facts.bundle_id is None ==> r.bundle_id@ == safe_file_name_text(facts.path@),
        facts.icon matches Some(bytes) ==> (r.cached_icon matches Some(url) && url@
            == png_data_url_text(bytes@)),
        facts.icon is None ==> r.cached_icon is None,
{
    let ghost f = facts@;
    let AppBundleFacts { path, name, bundle_id, icon } = facts;
    let bundle_id = match bundle_id {
        Some(id) => id,
        None => safe_file_name(&path),
    };
    let cached_icon = match &icon {
        Some(bytes) => Some(png_bytes_to_data_url(bytes.as_slice())),
        None => None,
    };
    InstalledApp { name, path, bundle_id, cached_icon }
}

proof fn lemma_insert_keeps_ranking(keys: Seq<Seq<char>>, order: Seq<usize>, p: int, i: usize)
    requires
        i < keys.len(),
        0 <= p <= order.len(),
        forall|k: int| 0 <= k < order.len() ==> #[trigger] order[k] < i,
        forall|a: int, b: int|
            0 <= a < b < order.len() ==> ranks_before(keys, order[a] as int, order[b] as int),
        forall|q: int| 0 <= q < p ==> !text_lt(keys[i as int], #[trigger] keys[order[q] as int]),
        p < order.len() ==> text_lt(keys[i as int], keys[order[p] as int]),
    ensures
        forall|a: int, b: int|
            0 <= a < b < order.len() + 1 ==> ranks_before(
                keys,
                order.insert(p, i)[a] as int,
                order.insert(p, i)[b] as int,
            ),
{
    let n = order.insert(p, i);
    order.insert_ensures(p, i);
    assert forall|a: int, b: int| 0 <= a < b < order.len() + 1 implies ranks_before(
        keys,
        n[a] as int,
        n[b] as int,
    ) by {
        if a == p {
            let ob = order[b - 1] as int;
            assert(n[b] == order[b - 1]);
            if b - 1 == p {
            } else {
                let op = order[p] as int;
                assert(ranks_before(keys, op, ob));
                if text_lt(keys[op], keys[ob]) {
                    lemma_text_lt_transitive(keys[i as int], keys[op], keys[ob]);
                }
            }
        } else if b == p {
            let oa = order[a] as int;
            assert(n[a] == order[a]);
            assert(!text_lt(keys[i as int], keys[oa]));
            if keys[oa] != keys[i as int] {
                lemma_text_lt_total(keys[oa], keys[i as int]);
            }
        } else {
            let a2 = if a < p {
                a
            } else {
                a - 1
            };
            let b2 = if b < p {
                b
            } else {
                b - 1
            };
            assert(n[a] == order[a2]);
            assert(n[b] == order[b2]);
        }
    }
}

/// The apps reordered by lowercase name, apps with equal lowercase names
/// keeping their order (a stable sort).
pub fn sort_installed_apps_by_name(apps: Vec<InstalledApp>) -> (r: Vec<InstalledApp>)
    ensures
        exists|perm: Seq<int>| #[trigger] is_sorted_by_name(rows(apps@), rows(r@), perm),
{
    let n = apps.len();
    let ghost input = rows(apps@);
    let ghost keys = name_keys(input);
    let mut key_chars: Vec<Vec<char>> = Vec::new();
    for j in 0..n
        invariant
            n == apps@.len(),
            input == rows(apps@),
            keys == name_keys(input),
            key_chars@.len() == j,
            forall|k: int| 0 <= k < j ==> #[trigger] key_chars@[k]@ == keys[k],
    {
        let lower = to_lowercase(&apps[j].name);
        key_chars.push(chars_of(&lower));
        assert(input[j as int] == apps@[j as int]@);
    }
    let mut order: Vec<usize> = Vec::new();
    for i in 0..n
        invariant
            n == apps@.len(),
            n == key_chars@.len(),
            keys.len() == n,
            forall|k: int| 0 <= k < n ==> #[trigger] key_chars@[k]@ == keys[k],
            order@.len() == i,
            forall|k: int| 0 <= k < i ==> #[trigger] order@[k] < i,
            forall|a: int, b: int| 0 <= a < b < i ==> order@[a] != order@[b],
            forall|a: int, b: int|
                0 <= a < b < i ==> ranks_before(keys, order@[a] as int, order@[b] as int),
    {
        let mut p: usize = 0;
        while p < order.len() && !chars_less(&key_chars[i], &key_chars[order[p]])
            invariant
                p <= order@.len(),
                i < n,
                n == key_chars@.len(),
                forall|k: int| 0 <= k < n ==> #[trigger] key_chars@[k]@ == keys[k],
                forall|k: int| 0 <= k < order@.len() ==> #[trigger] order@[k] < i,
                forall|q: int|
                    0 <= q < p ==> !text_lt(keys[i as int], #[trigger] keys[order@[q] as int]),
            decreases order@.len() - p,
        {
            p += 1;
        }
        proof {
            if p < order@.len() {
                assert(key_chars@[order@[p as int] as int]@ == keys[order@[p as int] as int]);
            }
            assert(key_chars@[i as int]@ == keys[i as int]);
            lemma_insert_keeps_ranking(keys, order@, p as int, i);
            order@.insert_ensures(p as int, i);
        }
        let ghost before = order@;
        order.insert(p, i);
        proof {
            assert forall|k: int| 0 <= k < i + 1 implies #[trigger] order@[k] < i + 1 by {
                if k < p {
                } else if k > p {
                    assert(order@[k] == before[k - 1]);
                }
            }
            assert forall|a: int, b: int| 0 <= a < b < i + 1 implies order@[a] != order@[b] by {
                if a == p {
                    assert(order@[b] == before[b - 1]);
                } else if b == p {
                } else {
                    let a2 = if a < p {
                        a
                    } else {
                        a - 1
                    };
                    let b2 = if b < p {
                        b
                    } else {
                        b - 1
                    };
                    assert(order@[a] == before[a2]);
                    assert(order@[b] == before[b2]);
                }
            }
        }
    }
    let mut out: Vec<InstalledApp> = Vec::new();
    for k in 0..n
        invariant
            n == apps@.len(),
            n == order@.len(),
            input == rows(apps@),
            forall|t: int| 0 <= t < n ==> #[trigger] order@[t] < n,
            out@.len() == k,
            forall|t: int| 0 <= t < k ==> #[trigger] rows(out@)[t] == input[order@[t] as int],
    {
        let copy = apps[order[k]].duplicate();
        let ghost before = out@;
        out.push(copy);
        proof {
            assert forall|t: int| 0 <= t < k + 1 implies #[trigger] rows(out@)[t]
                == input[order@[t] as int] by {
                if t < k {
                    assert(out@[t] == before[t]);
                    assert(rows(before)[t] == input[order@[t] as int]);
                } else {
                    assert(out@[t] == copy);
                }
            }
        }
    }
    let ghost perm = order@.map_values(|x: usize| x as int);
    assert(is_sorted_by_name(input, rows(out@), perm));
    out
}

/// The catalog rows for the bundles found, sorted by lowercase name (apps
/// with equal lowercase names keep the order they were found in).
pub fn build_installed_apps_from_paths(bundles: Vec<AppBundleFacts>) -> (r: Vec<InstalledApp>)
    requires
        forall|k: int| 0 <= k < bundles@.len() ==> encodable_icon(#[trigger] bundles@[k]@.3),
    ensures
        exists|perm: Seq<int>|
            #[trigger] is_sorted_by_name(bundle_rows(bundles@), rows(r@), perm),
{
    let ghost all = bundles@;
    let ghost wanted = bundle_rows(all);
    let mut apps: Vec<InstalledApp> = Vec::new();
    for facts in it: bundles
        invariant
            it.seq() == all,
            wanted == bundle_rows(all),
            forall|k: int| 0 <= k < all.len() ==> encodable_icon(#[trigger] all[k]@.3),
            rows(apps@) == wanted.take(it.index() as int),
    {
        let ghost i = it.index() as int;
        assert(facts == all[i]);
        assert(encodable_icon(all[i]@.3));
        let app = installed_app_from_facts(facts);
        let ghost before = apps@;
        apps.push(app);
        assert(rows(apps@) =~= rows(before).push(app@));
        assert(rows(apps@) =~= wanted.take(i + 1));
    }
    assert(wanted.take(wanted.len() as int) =~= wanted);
    sort_installed_apps_by_name(apps)
}

} // verus!
