//! Properties of the library that span its functions, proved over the spec
//! functions their contracts are written in.
use vstd::prelude::*;

use crate::bundle::{fallback_name_text, icns_file_name, is_ascii_alphanumeric, safe_file_name_text};
use crate::catalog::{
    AppRow, DiskCacheEntryView, claim_refresh_guard, cached_row_of, icon_url, memory_listing,
    released_refresh_guard, rows_from_disk_entries,
};
use crate::discovery::{
    AppBundleFacts, BundleFactsView, CandidateView, bundle_row, bundle_rows, dedupe_key,
    is_app_bundle, is_kept_candidate, is_sorted_by_name, name_keys, ranks_before, normalized_paths,
    spotlight_candidates,
};
use crate::bundle::in_supported_location;
use crate::icons::png_data_url_text;
use crate::metadata::{display_name_text, metadata_value};
use crate::paths::path_extension;
use crate::text::{
    has_suffix, is_white_space, lemma_text_lt_asymmetric, lemma_text_lt_irreflexive,
    lemma_piece_span_is_split, lemma_piece_spans_in_order, lemma_separators_before_grow,
    lemma_split_piece_span, lemma_text_lt_lexicographic, lowercase_text,
    is_piece_span, split_text, text_lt, trim, trim_end, trim_start,
};

verus! {

/// A listing request answers with exactly the rows last stored in the memory
/// cache (by a store, a refresh or a discovery), as long as there are any.
pub proof fn law_listing_returns_stored_rows(stored: Seq<AppRow>)
    requires
        stored.len() > 0,
    ensures
        memory_listing(stored) == Some(stored),
{
}

/// After the memory cache is cleared, a listing request goes to the disk cache.
pub proof fn law_cleared_cache_lists_nothing()
    ensures
        memory_listing(Seq::<AppRow>::empty()) is None,
{
}

/// At most one background refresh runs at a time: once the guard is claimed,
/// claiming it again starts nothing until the refresh finishes, after which a
/// claim starts one.
pub proof fn law_one_background_refresh_at_a_time(held: bool)
    ensures
        !claim_refresh_guard(claim_refresh_guard(held).1).0,
        claim_refresh_guard(released_refresh_guard()).0,
{
}

/// A saved row together with what the file system says of its app when the
/// disk cache is read back: whether it still exists, and its cached icon.
pub type SavedApp = (AppRow, (bool, Option<Seq<u8>>));

/// The saved rows paired with what the file system says of each.
pub open spec fn saved_with_facts(saved: Seq<AppRow>, found: Seq<(bool, Option<Seq<u8>>)>) -> Seq<
    SavedApp,
> {
    Seq::new(saved.len(), |i: int| (saved[i], found[i]))
}

/// The disk-cache entries read back: each saved row as the disk cache keeps
/// it, with its file-system facts.
pub open spec fn entries_read_back(apps: Seq<SavedApp>) -> Seq<DiskCacheEntryView> {
    apps.map_values(|a: SavedApp| (cached_row_of(a.0), a.1.0, a.1.1))
}

/// The rows of the saved apps that still exist, in order, each with its
/// saved name, path and bundle identifier and its found icon as a data URL.
pub open spec fn surviving_rows(apps: Seq<SavedApp>) -> Seq<AppRow> {
    apps.filter(|a: SavedApp| a.1.0).map_values(|a: SavedApp| (a.0.0, a.0.1, a.0.2, icon_url(a.1.1)))
}

proof fn lemma_read_back(apps: Seq<SavedApp>)
    ensures
        rows_from_disk_entries(entries_read_back(apps)) == surviving_rows(apps),
    decreases apps.len(),
{
    reveal(Seq::filter);
    let entries = entries_read_back(apps);
    if apps.len() == 0 {
        assert(entries =~= Seq::<DiskCacheEntryView>::empty());
        assert(surviving_rows(apps) =~= Seq::<AppRow>::empty());
    } else {
        let prev = apps.drop_last();
        lemma_read_back(prev);
        assert(entries.drop_last() =~= entries_read_back(prev));
        let kept = |a: SavedApp| a.1.0;
        assert(apps.filter(kept) == if kept(apps.last()) {
            prev.filter(kept).push(apps.last())
        } else {
            prev.filter(kept)
        });
        if apps.last().1.0 {
            assert(surviving_rows(apps) =~= surviving_rows(prev).push(
                (apps.last().0.0, apps.last().0.1, apps.last().0.2, icon_url(apps.last().1.1)),
            ));
        } else {
            assert(surviving_rows(apps) =~= surviving_rows(prev));
        }
    }
}

/// The disk cache gives back what was saved to it: the entries written for a
/// catalog, read back with what the file system then says of each app, are
/// the rows of the apps that still exist, in order, each with its saved
/// name, path and bundle identifier and the data URL of the icon found for
/// it, if any.
pub proof fn law_disk_cache_round_trip(saved: Seq<AppRow>, found: Seq<(bool, Option<Seq<u8>>)>)
    requires
        saved.len() == found.len(),
    ensures
        rows_from_disk_entries(entries_read_back(saved_with_facts(saved, found)))
            == surviving_rows(saved_with_facts(saved, found)),
        forall|i: int|
            0 <= i < saved.len() ==> #[trigger] entries_read_back(saved_with_facts(saved, found))[i]
                == (cached_row_of(saved[i]), found[i].0, found[i].1),
{
    lemma_read_back(saved_with_facts(saved, found));
}

/// Candidate `i` is kept and its path is `path`.
pub open spec fn is_kept_with_path(cs: Seq<CandidateView>, i: int, path: Seq<char>) -> bool {
    is_kept_candidate(cs, i) && cs[i].0 == path
}

/// `path` is the path of some kept candidate.
pub open spec fn is_path_of_kept(cs: Seq<CandidateView>, path: Seq<char>) -> bool {
    exists|i: int| #[trigger] is_kept_with_path(cs, i, path)
}

/// Whether a prefix of the candidates keeps a candidate does not depend on
/// the candidates after it.
proof fn lemma_kept_in_prefix(cs: Seq<CandidateView>, n: int, i: int)
    requires
        0 <= i < n <= cs.len(),
    ensures
        is_kept_candidate(cs.take(n), i) == is_kept_candidate(cs, i),
{
    assert forall|j: int| 0 <= j <= i implies cs.take(n)[j] == cs[j] by {}
    if is_kept_candidate(cs, i) {
        assert forall|j: int| 0 <= j < i implies !(is_app_bundle(cs.take(n)[j]) && #[trigger] dedupe_key(
            cs.take(n)[j],
        ) == dedupe_key(cs.take(n)[i])) by {
            assert(cs.take(n)[j] == cs[j]);
        }
    }
    if is_kept_candidate(cs.take(n), i) {
        assert forall|j: int| 0 <= j < i implies !(is_app_bundle(cs[j]) && #[trigger] dedupe_key(
            cs[j],
        ) == dedupe_key(cs[i])) by {
            assert(cs.take(n)[j] == cs[j]);
        }
    }
}

proof fn lemma_normalized_member(cs: Seq<CandidateView>, k: int)
    requires
        0 <= k < normalized_paths(cs).len(),
    ensures
        exists|i: int| #[trigger] is_kept_with_path(cs, i, normalized_paths(cs)[k]),
    decreases cs.len(),
{
    let prev_cs = cs.drop_last();
    let prev = normalized_paths(prev_cs);
    let last = cs.len() - 1;
    assert(prev_cs =~= cs.take(last));
    if k < prev.len() {
        lemma_normalized_member(prev_cs, k);
        assert(normalized_paths(cs)[k] == prev[k]);
        let i = choose|i: int| #[trigger] is_kept_with_path(prev_cs, i, prev[k]);
        lemma_kept_in_prefix(cs, last, i);
        assert(prev_cs[i] == cs[i]);
        assert(is_kept_with_path(cs, i, normalized_paths(cs)[k]));
    } else {
        assert(is_kept_with_path(cs, last, normalized_paths(cs)[k]));
    }
}

proof fn lemma_kept_is_listed(cs: Seq<CandidateView>, i: int)
    requires
        is_kept_candidate(cs, i),
    ensures
        normalized_paths(cs).contains(cs[i].0),
    decreases cs.len(),
{
    let prev_cs = cs.drop_last();
    let prev = normalized_paths(prev_cs);
    let out = normalized_paths(cs);
    let last = cs.len() - 1;
    assert(prev_cs =~= cs.take(last));
    if i < last {
        lemma_kept_in_prefix(cs, last, i);
        assert(prev_cs[i] == cs[i]);
        lemma_kept_is_listed(prev_cs, i);
        let k = choose|k: int| 0 <= k < prev.len() && prev[k] == cs[i].0;
        assert(out[k] == prev[k]);
    } else {
        assert(out[prev.len() as int] == cs[i].0);
    }
}

proof fn lemma_bundle_key_kept(cs: Seq<CandidateView>, i: int)
    requires
        0 <= i < cs.len(),
        is_app_bundle(cs[i]),
    ensures
        exists|j: int|
            0 <= j <= i && #[trigger] is_kept_candidate(cs, j) && dedupe_key(cs[j]) == dedupe_key(
                cs[i],
            ),
    decreases i,
{
    if is_kept_candidate(cs, i) {
        assert(0 <= i <= i && is_kept_candidate(cs, i) && dedupe_key(cs[i]) == dedupe_key(cs[i]));
    } else {
        let j = choose|j: int|
            0 <= j < i && is_app_bundle(cs[j]) && #[trigger] dedupe_key(cs[j]) == dedupe_key(cs[i]);
        lemma_bundle_key_kept(cs, j);
        let k = choose|k: int|
            0 <= k <= j && #[trigger] is_kept_candidate(cs, k) && dedupe_key(cs[k]) == dedupe_key(
                cs[j],
            );
        assert(0 <= k <= i && is_kept_candidate(cs, k) && dedupe_key(cs[k]) == dedupe_key(cs[i]));
    }
}

/// Each app bundle is listed once: every path kept is that of an existing
/// `.app` candidate that no earlier candidate duplicates; no two kept
/// candidates share a key; every existing `.app` candidate has its key
/// kept, by itself or an earlier candidate; and every kept candidate's path
/// is in the result.
pub proof fn law_normalize_keeps_each_bundle_once(cs: Seq<CandidateView>)
    ensures
        forall|k: int|
            0 <= k < normalized_paths(cs).len() ==> is_path_of_kept(
                cs,
                #[trigger] normalized_paths(cs)[k],
            ),
        forall|i: int, j: int|
            is_kept_candidate(cs, i) && is_kept_candidate(cs, j) && i != j ==> #[trigger] dedupe_key(
                cs[i],
            ) != #[trigger] dedupe_key(cs[j]),
        forall|i: int|
            0 <= i < cs.len() && #[trigger] is_app_bundle(cs[i]) ==> exists|j: int|
                0 <= j <= i && #[trigger] is_kept_candidate(cs, j) && dedupe_key(cs[j])
                    == dedupe_key(cs[i]),
        forall|i: int| #[trigger] is_kept_candidate(cs, i) ==> normalized_paths(cs).contains(cs[i].0),
{
    assert forall|k: int| 0 <= k < normalized_paths(cs).len() implies is_path_of_kept(
        cs,
        #[trigger] normalized_paths(cs)[k],
    ) by {
        lemma_normalized_member(cs, k);
    }
    assert forall|i: int| #[trigger] is_kept_candidate(cs, i) implies normalized_paths(cs).contains(
        cs[i].0,
    ) by {
        lemma_kept_is_listed(cs, i);
    }
    assert forall|i: int, j: int|
        is_kept_candidate(cs, i) && is_kept_candidate(cs, j) && i != j implies #[trigger] dedupe_key(
        cs[i],
    ) != #[trigger] dedupe_key(cs[j]) by {
        if i < j {
            assert(!(is_app_bundle(cs[i]) && dedupe_key(cs[i]) == dedupe_key(cs[j])));
        } else {
            assert(!(is_app_bundle(cs[j]) && dedupe_key(cs[j]) == dedupe_key(cs[i])));
        }
    }
    assert forall|i: int| 0 <= i < cs.len() && #[trigger] is_app_bundle(cs[i]) implies exists|j: int|
        0 <= j <= i && #[trigger] is_kept_candidate(cs, j) && dedupe_key(cs[j]) == dedupe_key(
            cs[i],
        ) by {
        lemma_bundle_key_kept(cs, i);
    }
}

/// The candidates for `paths` on a file system that says, of each path,
/// whether it exists and what it canonicalises to.
pub open spec fn candidates_on(
    paths: Seq<Seq<char>>,
    present: spec_fn(Seq<char>) -> bool,
    canonical: spec_fn(Seq<char>) -> Option<Seq<char>>,
) -> Seq<CandidateView> {
    paths.map_values(|p: Seq<char>| (p, present(p), canonical(p)))
}

/// Candidates that are all app bundles with pairwise different keys are
/// all kept.
proof fn lemma_all_kept(cs: Seq<CandidateView>)
    requires
        forall|i: int| 0 <= i < cs.len() ==> #[trigger] is_app_bundle(cs[i]),
        forall|i: int, j: int|
            0 <= i < j < cs.len() ==> #[trigger] dedupe_key(cs[i]) != #[trigger] dedupe_key(cs[j]),
    ensures
        normalized_paths(cs) == cs.map_values(|c: CandidateView| c.0),
    decreases cs.len(),
{
    if cs.len() == 0 {
        assert(cs.map_values(|c: CandidateView| c.0) =~= Seq::<Seq<char>>::empty());
    } else {
        let prev = cs.drop_last();
        let last = cs.len() - 1;
        assert forall|i: int| 0 <= i < prev.len() implies #[trigger] is_app_bundle(prev[i]) by {
            assert(prev[i] == cs[i]);
        }
        assert forall|i: int, j: int| 0 <= i < j < prev.len() implies #[trigger] dedupe_key(prev[i])
            != #[trigger] dedupe_key(prev[j]) by {
            assert(prev[i] == cs[i] && prev[j] == cs[j]);
            assert(dedupe_key(cs[i]) != dedupe_key(cs[j]));
        }
        lemma_all_kept(prev);
        assert forall|j: int| 0 <= j < last implies !(is_app_bundle(cs[j]) && #[trigger] dedupe_key(
            cs[j],
        ) == dedupe_key(cs[last])) by {
            assert(dedupe_key(cs[j]) != dedupe_key(cs[last]));
        }
        assert(is_app_bundle(cs[last]));
        assert(is_kept_candidate(cs, last));
        assert(cs.map_values(|c: CandidateView| c.0) =~= prev.map_values(|c: CandidateView| c.0).push(
            cs[last].0,
        ));
    }
}

/// On a fixed file system, every path `normalize_app_paths` keeps is an app
/// bundle there, and no two kept paths share a key there.
proof fn lemma_kept_paths_distinct(
    paths: Seq<Seq<char>>,
    present: spec_fn(Seq<char>) -> bool,
    canonical: spec_fn(Seq<char>) -> Option<Seq<char>>,
)
    ensures
        forall|k: int|
            0 <= k < normalized_paths(candidates_on(paths, present, canonical)).len()
                ==> #[trigger] is_app_bundle(
                candidates_on(normalized_paths(candidates_on(paths, present, canonical)), present, canonical)[k],
            ),
        forall|a: int, b: int|
            0 <= a < b < normalized_paths(candidates_on(paths, present, canonical)).len() ==> #[trigger] dedupe_key(
                candidates_on(normalized_paths(candidates_on(paths, present, canonical)), present, canonical)[a],
            ) != #[trigger] dedupe_key(
                candidates_on(normalized_paths(candidates_on(paths, present, canonical)), present, canonical)[b],
            ),
    decreases paths.len(),
{
    let cs = candidates_on(paths, present, canonical);
    let out = normalized_paths(cs);
    let cs2 = candidates_on(out, present, canonical);
    if paths.len() == 0 {
        assert(out =~= Seq::<Seq<char>>::empty());
    } else {
        let prev_paths = paths.drop_last();
        let prev_cs = candidates_on(prev_paths, present, canonical);
        let last = paths.len() - 1;
        assert(prev_cs =~= cs.drop_last());
        assert(prev_cs =~= cs.take(last));
        let prev = normalized_paths(prev_cs);
        let prev2 = candidates_on(prev, present, canonical);
        lemma_kept_paths_distinct(prev_paths, present, canonical);
        if is_kept_candidate(cs, last) {
            assert(out == prev.push(cs[last].0));
            assert forall|k: int| 0 <= k < out.len() implies #[trigger] is_app_bundle(cs2[k]) by {
                if k < prev.len() {
                    assert(cs2[k] == prev2[k]);
                } else {
                    assert(cs2[k] == cs[last]);
                }
            }
            assert forall|a: int, b: int| 0 <= a < b < out.len() implies #[trigger] dedupe_key(cs2[a])
                != #[trigger] dedupe_key(cs2[b]) by {
                assert(cs2[a] == prev2[a]);
                if b < prev.len() {
                    assert(cs2[b] == prev2[b]);
                } else {
                    assert(cs2[b] == cs[last]);
                    lemma_normalized_member(prev_cs, a);
                    let i = choose|i: int| #[trigger] is_kept_with_path(prev_cs, i, prev[a]);
                    lemma_kept_in_prefix(cs, last, i);
                    assert(prev_cs[i] == cs[i]);
                    assert(cs[i] == (paths[i], present(paths[i]), canonical(paths[i])));
                    assert(cs2[a] == cs[i]);
                    assert(!(is_app_bundle(cs[i]) && dedupe_key(cs[i]) == dedupe_key(cs[last])));
                }
            }
        } else {
            assert(out == prev);
            assert(cs2 == prev2);
        }
    }
}

/// Normalising app paths twice on an unchanged file system gives what
/// normalising once gave: the kept paths are existing `.app` bundles with
/// pairwise different keys, so a second pass keeps them all.
pub proof fn law_normalize_is_idempotent(
    paths: Seq<Seq<char>>,
    present: spec_fn(Seq<char>) -> bool,
    canonical: spec_fn(Seq<char>) -> Option<Seq<char>>,
)
    ensures
        normalized_paths(
            candidates_on(normalized_paths(candidates_on(paths, present, canonical)), present, canonical),
        ) == normalized_paths(candidates_on(paths, present, canonical)),
{
    let out = normalized_paths(candidates_on(paths, present, canonical));
    let cs2 = candidates_on(out, present, canonical);
    lemma_kept_paths_distinct(paths, present, canonical);
    lemma_all_kept(cs2);
    assert(cs2.map_values(|c: CandidateView| c.0) =~= out);
}

/// Every path taken from Spotlight's answer is non-empty, trimmed of
/// whitespace, and lies in a supported app location.
pub proof fn law_spotlight_paths_are_supported(stdout: Seq<char>, home: Seq<char>)
    ensures
        forall|k: int|
            0 <= k < spotlight_candidates(stdout, home).len() ==> {
                let p = #[trigger] spotlight_candidates(stdout, home)[k];
                p.len() > 0 && in_supported_location(p, home)
            },
{
    let keep = |path: Seq<char>| path.len() > 0 && in_supported_location(path, home);
    let lines = crate::text::split_text(stdout, '\n').map_values(|line: Seq<char>| trim(line));
    assert forall|k: int| 0 <= k < lines.filter(keep).len() implies keep(#[trigger] lines.filter(keep)[k]) by {
        lines.lemma_filter_pred(keep, k);
    }
}

/// The catalog reads in order of lowercase name: a later row's lowercase
/// name never sorts before an earlier row's; and every row of the catalog is
/// one of the rows it was built from.
pub proof fn law_catalog_is_in_name_order(input: Seq<AppRow>, output: Seq<AppRow>, perm: Seq<int>)
    requires
        is_sorted_by_name(input, output, perm),
    ensures
        forall|a: int, b: int|
            0 <= a < b < output.len() ==> !text_lt(
                lowercase_text(#[trigger] output[b].0),
                lowercase_text(#[trigger] output[a].0),
            ),
        forall|k: int| 0 <= k < output.len() ==> input.contains(#[trigger] output[k]),
        forall|k: int| 0 <= k < input.len() ==> output.contains(#[trigger] input[k]),
{
    let keys = name_keys(input);
    let n = input.len() as int;
    assert forall|a: int, b: int| 0 <= a < b < output.len() implies !text_lt(
        lowercase_text(#[trigger] output[b].0),
        lowercase_text(#[trigger] output[a].0),
    ) by {
        let pa = perm[a];
        let pb = perm[b];
        assert(0 <= pa < n && 0 <= pb < n);
        assert(ranks_before(keys, pa, pb));
        assert(output[a] == input[pa]);
        assert(output[b] == input[pb]);
        assert(keys[pa] == lowercase_text(input[pa].0));
        assert(keys[pb] == lowercase_text(input[pb].0));
        if text_lt(keys[pa], keys[pb]) {
            lemma_text_lt_asymmetric(keys[pa], keys[pb]);
        } else {
            lemma_text_lt_irreflexive(keys[pa]);
        }
    }
    assert forall|k: int| 0 <= k < output.len() implies input.contains(#[trigger] output[k]) by {
        assert(output[k] == input[perm[k]]);
    }
    // `perm` is injective on `0..n` into `0..n`, so it takes every value there.
    let range = vstd::set_lib::set_int_range(0, n);
    vstd::set_lib::lemma_int_range(0, n);
    assert(perm.no_duplicates());
    perm.unique_seq_to_set();
    assert forall|x: int| perm.to_set().contains(x) implies range.contains(x) by {
        let k = choose|k: int| 0 <= k < perm.len() && perm[k] == x;
    }
    vstd::set_lib::lemma_len_subset(perm.to_set(), range);
    vstd::set_lib::lemma_subset_equality(perm.to_set(), range);
    assert forall|k: int| 0 <= k < input.len() implies output.contains(#[trigger] input[k]) by {
        assert(range.contains(k));
        assert(perm.to_set().contains(k));
        let t = choose|t: int| 0 <= t < perm.len() && perm[t] == k;
        assert(output[t] == input[k]);
    }
}

/// Every character of a safe file name is an ASCII letter or digit, `-` or
/// `_`; a fallback app name has no `-` left.
pub proof fn law_safe_names_use_safe_characters(path: Seq<char>)
    ensures
        forall|k: int|
            0 <= k < safe_file_name_text(path).len() ==> {
                let c = #[trigger] safe_file_name_text(path)[k];
                is_ascii_alphanumeric(c) || c == '-' || c == '_'
            },
        forall|k: int| 0 <= k < fallback_name_text(path).len() ==> #[trigger] fallback_name_text(path)[k] != '-',
{
}

/// An icon file name ends in `.icns`, and adding the extension twice changes
/// nothing.
pub proof fn law_icns_extension_is_idempotent(name: Seq<char>)
    ensures
        has_suffix(icns_file_name(name), ".icns"@),
        icns_file_name(icns_file_name(name)) == icns_file_name(name),
{
    let with = name + ".icns"@;
    assert(with.subrange(with.len() - ".icns"@.len(), with.len() as int) =~= ".icns"@);
}

proof fn lemma_trim_end_is_prefix(s: Seq<char>)
    ensures
        trim_end(s).len() <= s.len(),
        trim_end(s) =~= s.take(trim_end(s).len() as int),
        trim_end(s).len() == 0 || !is_white_space(trim_end(s).last()),
    decreases s.len(),
{
    if s.len() > 0 && is_white_space(s.last()) {
        lemma_trim_end_is_prefix(s.drop_last());
    }
}

proof fn lemma_trim_start_is_clean(s: Seq<char>)
    ensures
        trim_start(s).len() == 0 || !is_white_space(trim_start(s)[0]),
    decreases s.len(),
{
    if s.len() > 0 && is_white_space(s[0]) {
        lemma_trim_start_is_clean(s.drop_first());
    }
}

/// Trimming trimmed text changes nothing.
pub proof fn law_trim_is_idempotent(s: Seq<char>)
    ensures
        trim(trim(s)) == trim(s),
{
    let u = trim_start(s);
    let t = trim_end(u);
    lemma_trim_start_is_clean(s);
    lemma_trim_end_is_prefix(u);
    if t.len() > 0 {
        assert(t[0] == u[0]);
    }
    assert(trim_start(t) == t);
    assert(trim_end(t) == t);
}

/// A metadata value, once cleaned, is clean: cleaning it again gives it back.
pub proof fn law_metadata_value_is_stable(reported: Seq<char>)
    ensures
        metadata_value(reported) matches Some(value) ==> metadata_value(value) == Some(value),
{
    law_trim_is_idempotent(reported);
}

/// A catalog row keeps what was found for its bundle: the name and path as
/// found, and the bundle identifier the bundle reports; only a bundle that
/// reports none gets its safe file name as identifier.
pub proof fn law_row_keeps_reported_bundle_id(f: BundleFactsView)
    ensures
        bundle_row(f).0 == f.1,
        bundle_row(f).1 == f.0,
        f.2 matches Some(id) ==> bundle_row(f).2 == id,
        f.2 is None ==> bundle_row(f).2 == safe_file_name_text(f.0),
{
}

/// A catalog row carries the data URL of the icon found for its bundle, and
/// no icon when none was found.
pub proof fn law_row_keeps_found_icon(f: BundleFactsView)
    ensures
        f.3 matches Some(bytes) ==> bundle_row(f).3 == Some(png_data_url_text(bytes)),
        f.3 is None ==> bundle_row(f).3 is None,
{
}

/// Every row of the sorted catalog is the row of the bundle found at the
/// position the sort took it from: its name and path are that bundle's, and
/// its bundle identifier is the one the bundle reports, else the bundle's
/// safe file name.
pub proof fn law_catalog_carries_reported_bundle_ids(
    bundles: Seq<AppBundleFacts>,
    output: Seq<AppRow>,
    perm: Seq<int>,
)
    requires
        is_sorted_by_name(bundle_rows(bundles), output, perm),
    ensures
        forall|k: int|
            0 <= k < output.len() ==> {
                let f = #[trigger] bundles[perm[k]]@;
                &&& 0 <= perm[k] < bundles.len()
                &&& output[k].0 == f.1
                &&& output[k].1 == f.0
                &&& f.2 is Some ==> output[k].2 == f.2->0
                &&& f.2 is None ==> output[k].2 == safe_file_name_text(f.0)
            },
{
    assert forall|k: int| 0 <= k < output.len() implies {
        let f = #[trigger] bundles[perm[k]]@;
        &&& 0 <= perm[k] < bundles.len()
        &&& output[k].0 == f.1
        &&& output[k].1 == f.0
        &&& f.2 is Some ==> output[k].2 == f.2->0
        &&& f.2 is None ==> output[k].2 == safe_file_name_text(f.0)
    } by {
        let i = perm[k];
        assert(output[k] == bundle_rows(bundles)[i]);
        assert(bundle_rows(bundles)[i] == bundle_row(bundles[i]@));
    }
}

/// The catalog's name order is lexicographic: a name comes before another
/// exactly when it is a proper prefix of it, or when at the first position
/// where they differ it has the smaller character.
pub proof fn law_name_order_is_lexicographic(a: Seq<char>, b: Seq<char>)
    ensures
        text_lt(a, b) <==> ((a.len() < b.len() && b.take(a.len() as int) == a) || exists|i: int|
            0 <= i < a.len() && i < b.len() && a.take(i) == b.take(i) && a[i] < b[i]),
{
    lemma_text_lt_lexicographic(a, b);
}

/// A name sorts before every longer name it begins, and never after it.
pub proof fn law_prefix_sorts_first(a: Seq<char>, rest: Seq<char>)
    requires
        rest.len() > 0,
    ensures
        text_lt(a, a + rest),
        !text_lt(a + rest, a),
{
    lemma_text_lt_lexicographic(a, a + rest);
    assert((a + rest).take(a.len() as int) =~= a);
    lemma_text_lt_asymmetric(a, a + rest);
}

/// The paths normalising keeps come in the order of their candidates: any
/// two of them, at `k1 < k2`, are the paths of candidates at `idx.0 < idx.1`.
pub proof fn law_normalize_keeps_candidate_order(cs: Seq<CandidateView>, k1: int, k2: int) -> (idx: (
    int,
    int,
))
    requires
        0 <= k1 < k2 < normalized_paths(cs).len(),
    ensures
        0 <= idx.0 < idx.1 < cs.len(),
        cs[idx.0].0 == normalized_paths(cs)[k1],
        cs[idx.1].0 == normalized_paths(cs)[k2],
    decreases cs.len(),
{
    let prev_cs = cs.drop_last();
    let prev = normalized_paths(prev_cs);
    let last = cs.len() - 1;
    assert(prev_cs =~= cs.take(last));
    if k2 < prev.len() {
        assert(normalized_paths(cs)[k1] == prev[k1] && normalized_paths(cs)[k2] == prev[k2]);
        let (i1, i2) = law_normalize_keeps_candidate_order(prev_cs, k1, k2);
        assert(prev_cs[i1] == cs[i1] && prev_cs[i2] == cs[i2]);
        (i1, i2)
    } else {
        assert(normalized_paths(cs)[k1] == prev[k1]);
        lemma_normalized_member(prev_cs, k1);
        let i1 = choose|i: int| #[trigger] is_kept_with_path(prev_cs, i, prev[k1]);
        assert(prev_cs[i1] == cs[i1]);
        (i1, last)
    }
}

/// Normalising keeps every existing `.app` candidate whose whole canonical
/// path (else whole given path) differs from those of all earlier existing
/// `.app` candidates; and every path it keeps is such a candidate's.
pub proof fn law_normalize_compares_whole_paths(cs: Seq<CandidateView>)
    ensures
        forall|i: int|
            0 <= i < cs.len() && cs[i].1 && path_extension(cs[i].0) == Some("app"@) && (forall|j: int|
                0 <= j < i && cs[j].1 && path_extension(cs[j].0) == Some("app"@) ==> (match cs[j].2 {
                    Some(c) => c,
                    None => cs[j].0,
                }) != (match cs[i].2 {
                    Some(c) => c,
                    None => cs[i].0,
                })) ==> #[trigger] normalized_paths(cs).contains(cs[i].0),
        forall|k: int|
            0 <= k < normalized_paths(cs).len() ==> exists|i: int|
                0 <= i < cs.len() && cs[i].0 == #[trigger] normalized_paths(cs)[k] && cs[i].1
                    && path_extension(cs[i].0) == Some("app"@) && forall|j: int|
                    0 <= j < i && cs[j].1 && path_extension(cs[j].0) == Some("app"@) ==> (match cs[j].2 {
                        Some(c) => c,
                        None => cs[j].0,
                    }) != (match cs[i].2 {
                        Some(c) => c,
                        None => cs[i].0,
                    }),
{
    assert forall|i: int|
        0 <= i < cs.len() && cs[i].1 && path_extension(cs[i].0) == Some("app"@) && (forall|j: int|
            0 <= j < i && cs[j].1 && path_extension(cs[j].0) == Some("app"@) ==> (match cs[j].2 {
                Some(c) => c,
                None => cs[j].0,
            }) != (match cs[i].2 {
                Some(c) => c,
                None => cs[i].0,
            })) implies #[trigger] normalized_paths(cs).contains(cs[i].0) by {
        assert forall|j: int| 0 <= j < i implies !(is_app_bundle(cs[j]) && #[trigger] dedupe_key(cs[j])
            == dedupe_key(cs[i])) by {
            if is_app_bundle(cs[j]) {
                assert(dedupe_key(cs[j]) == match cs[j].2 {
                    Some(c) => c,
                    None => cs[j].0,
                });
            }
        }
        assert(is_kept_candidate(cs, i));
        lemma_kept_is_listed(cs, i);
    }
    assert forall|k: int| 0 <= k < normalized_paths(cs).len() implies exists|i: int|
        0 <= i < cs.len() && cs[i].0 == #[trigger] normalized_paths(cs)[k] && cs[i].1
            && path_extension(cs[i].0) == Some("app"@) && forall|j: int|
            0 <= j < i && cs[j].1 && path_extension(cs[j].0) == Some("app"@) ==> (match cs[j].2 {
                Some(c) => c,
                None => cs[j].0,
            }) != (match cs[i].2 {
                Some(c) => c,
                None => cs[i].0,
            }) by {
        lemma_normalized_member(cs, k);
        let i = choose|i: int| #[trigger] is_kept_with_path(cs, i, normalized_paths(cs)[k]);
        assert forall|j: int|
            0 <= j < i && cs[j].1 && path_extension(cs[j].0) == Some("app"@) implies (match cs[j].2 {
                Some(c) => c,
                None => cs[j].0,
            }) != (match cs[i].2 {
                Some(c) => c,
                None => cs[i].0,
            }) by {
            assert(is_app_bundle(cs[j]));
            assert(!(is_app_bundle(cs[j]) && dedupe_key(cs[j]) == dedupe_key(cs[i])));
        }
    }
}

/// An app is named by the first source that reports a name: Spotlight's name
/// whenever Spotlight reports one, whatever the bundle says; else the bundle's
/// display name; else its short name; else the fallback name from its path.
pub proof fn law_first_reported_name_wins(
    app_path: Seq<char>,
    spotlight: Option<Seq<char>>,
    bundle_display: Option<Seq<char>>,
    bundle_name: Option<Seq<char>>,
)
    ensures
        spotlight matches Some(n) ==> display_name_text(app_path, spotlight, bundle_display, bundle_name)
            == n,
        spotlight is None ==> (bundle_display matches Some(n) ==> display_name_text(
            app_path,
            spotlight,
            bundle_display,
            bundle_name,
        ) == n),
        spotlight is None && bundle_display is None ==> (bundle_name matches Some(n)
            ==> display_name_text(app_path, spotlight, bundle_display, bundle_name) == n),
        spotlight is None && bundle_display is None && bundle_name is None ==> display_name_text(
            app_path,
            spotlight,
            bundle_display,
            bundle_name,
        ) == fallback_name_text(app_path),
{
}

proof fn lemma_candidate_is_line(stdout: Seq<char>, home: Seq<char>, k: int)
    requires
        0 <= k < spotlight_candidates(stdout, home).len(),
    ensures
        exists|i: int, j: int|
            #![trigger is_piece_span(stdout, '\n', i, j)]
            is_piece_span(stdout, '\n', i, j) && spotlight_candidates(stdout, home)[k] == trim(
                stdout.subrange(i, j),
            ),
{
    let keep = |path: Seq<char>| path.len() > 0 && in_supported_location(path, home);
    let pieces = split_text(stdout, '\n');
    let lines = pieces.map_values(|line: Seq<char>| trim(line));
    let cands = lines.filter(keep);
    assert(cands == spotlight_candidates(stdout, home));
    assert(cands.contains(cands[k]));
    lines.lemma_filter_contains_rev(keep, cands[k]);
    let m = choose|m: int| 0 <= m < lines.len() && lines[m] == cands[k];
    let (i, j) = lemma_split_piece_span(stdout, '\n', m);
    assert(lines[m] == trim(pieces[m]));
    assert(is_piece_span(stdout, '\n', i, j) && spotlight_candidates(stdout, home)[k] == trim(
        stdout.subrange(i, j),
    ));
}

proof fn lemma_kept_lines_in_order(
    stdout: Seq<char>,
    home: Seq<char>,
    i1: int,
    j1: int,
    i2: int,
    j2: int,
)
    requires
        is_piece_span(stdout, '\n', i1, j1),
        is_piece_span(stdout, '\n', i2, j2),
        j1 < i2,
        trim(stdout.subrange(i1, j1)).len() > 0,
        in_supported_location(trim(stdout.subrange(i1, j1)), home),
        trim(stdout.subrange(i2, j2)).len() > 0,
        in_supported_location(trim(stdout.subrange(i2, j2)), home),
    ensures
        exists|k1: int, k2: int|
            0 <= k1 < k2 < spotlight_candidates(stdout, home).len()
                && #[trigger] spotlight_candidates(stdout, home)[k1] == trim(stdout.subrange(i1, j1))
                && #[trigger] spotlight_candidates(stdout, home)[k2] == trim(stdout.subrange(i2, j2)),
{
    let keep = |path: Seq<char>| path.len() > 0 && in_supported_location(path, home);
    let pieces = split_text(stdout, '\n');
    let lines = pieces.map_values(|line: Seq<char>| trim(line));
    let cands = lines.filter(keep);
    assert(cands == spotlight_candidates(stdout, home));
    let m1 = lemma_piece_span_is_split(stdout, '\n', i1, j1);
    let m2 = lemma_piece_span_is_split(stdout, '\n', i2, j2);
    lemma_piece_spans_in_order(stdout, '\n', i1, j1, i2, j2);
    let front = lines.take(m2);
    let back = lines.skip(m2);
    assert(lines =~= front + back);
    Seq::<Seq<char>>::filter_distributes_over_add(front, back, keep);
    assert(front[m1] == lines[m1]);
    assert(lines[m1] == trim(stdout.subrange(i1, j1)));
    front.lemma_filter_contains(keep, m1);
    assert(back[0] == lines[m2]);
    assert(lines[m2] == trim(stdout.subrange(i2, j2)));
    back.lemma_filter_contains(keep, 0);
    let ff = front.filter(keep);
    let bf = back.filter(keep);
    let k1 = choose|k: int| 0 <= k < ff.len() && ff[k] == front[m1];
    let k2 = choose|k: int| 0 <= k < bf.len() && bf[k] == back[0];
    assert(cands == ff + bf);
    assert(cands[k1] == ff[k1]);
    assert(cands[ff.len() + k2] == bf[k2]);
    assert(0 <= k1 < ff.len() + k2 < cands.len());
}

/// Two entries of a filtered sequence come from entries of the sequence in
/// the same order.
proof fn lemma_filter_keeps_order<A>(s: Seq<A>, pred: spec_fn(A) -> bool, k1: int, k2: int) -> (m: (
    int,
    int,
))
    requires
        0 <= k1 < k2 < s.filter(pred).len(),
    ensures
        0 <= m.0 < m.1 < s.len(),
        s[m.0] == s.filter(pred)[k1],
        s[m.1] == s.filter(pred)[k2],
    decreases s.len(),
{
    reveal(Seq::filter);
    let prev = s.drop_last();
    let pf = prev.filter(pred);
    if k2 < pf.len() {
        assert(s.filter(pred)[k1] == pf[k1] && s.filter(pred)[k2] == pf[k2]);
        let (m1, m2) = lemma_filter_keeps_order(prev, pred, k1, k2);
        (m1, m2)
    } else {
        assert(pred(s.last()) && s.filter(pred) == pf.push(s.last()));
        assert(pf.contains(pf[k1]));
        prev.lemma_filter_contains_rev(pred, pf[k1]);
        let m1 = choose|m: int| 0 <= m < prev.len() && prev[m] == pf[k1];
        (m1, s.len() - 1)
    }
}

proof fn lemma_candidates_come_in_line_order(stdout: Seq<char>, home: Seq<char>, k1: int, k2: int)
    requires
        0 <= k1 < k2 < spotlight_candidates(stdout, home).len(),
    ensures
        exists|i1: int, j1: int, i2: int, j2: int|
            #![trigger stdout.subrange(i1, j1), stdout.subrange(i2, j2)]
            is_piece_span(stdout, '\n', i1, j1) && is_piece_span(stdout, '\n', i2, j2) && j1 < i2
                && spotlight_candidates(stdout, home)[k1] == trim(stdout.subrange(i1, j1))
                && spotlight_candidates(stdout, home)[k2] == trim(stdout.subrange(i2, j2)),
{
    let keep = |path: Seq<char>| path.len() > 0 && in_supported_location(path, home);
    let pieces = split_text(stdout, '\n');
    let lines = pieces.map_values(|line: Seq<char>| trim(line));
    let cands = lines.filter(keep);
    assert(cands == spotlight_candidates(stdout, home));
    let (m1, m2) = lemma_filter_keeps_order(lines, keep, k1, k2);
    let (i1, j1) = lemma_split_piece_span(stdout, '\n', m1);
    let (i2, j2) = lemma_split_piece_span(stdout, '\n', m2);
    assert(lines[m1] == trim(pieces[m1]) && lines[m2] == trim(pieces[m2]));
    // The earlier piece starts after fewer separators, so before the later one.
    if i2 <= i1 {
        lemma_separators_before_grow(stdout, '\n', i2, i1);
    }
    assert(j1 < stdout.len());
    if i2 <= j1 {
        assert(stdout[i2 - 1] == '\n');
    }
    assert(is_piece_span(stdout, '\n', i1, j1) && is_piece_span(stdout, '\n', i2, j2) && j1 < i2
        && spotlight_candidates(stdout, home)[k1] == trim(stdout.subrange(i1, j1))
        && spotlight_candidates(stdout, home)[k2] == trim(stdout.subrange(i2, j2)));
}

/// The paths read from Spotlight's answer are its whole lines, trimmed: every
/// path returned is the trimmed text of one line of the output (a span that starts at
/// the start of the output or after a line feed, ends at the end or before a
/// line feed, and holds no line feed); every line whose trimmed text is
/// non-empty and lies in a supported location is among the paths; and such
/// lines come out in the order they appear in the output, and any two
/// (non-empty) paths come from two lines in the order of the paths.
pub proof fn law_spotlight_paths_are_whole_lines(stdout: Seq<char>, home: Seq<char>)
    ensures
        forall|path: Seq<char>|
            #[trigger] spotlight_candidates(stdout, home).contains(path) ==> exists|i: int, j: int|
                #![trigger is_piece_span(stdout, '\n', i, j)]
                is_piece_span(stdout, '\n', i, j) && path == trim(
                    stdout.subrange(i, j),
                ),
        forall|i: int, j: int|
            #![trigger stdout.subrange(i, j)]
            is_piece_span(stdout, '\n', i, j) && trim(stdout.subrange(i, j)).len() > 0
                && in_supported_location(trim(stdout.subrange(i, j)), home)
                ==> spotlight_candidates(stdout, home).contains(trim(stdout.subrange(i, j))),
        forall|i1: int, j1: int, i2: int, j2: int|
            #![trigger stdout.subrange(i1, j1), stdout.subrange(i2, j2)]
            is_piece_span(stdout, '\n', i1, j1) && is_piece_span(stdout, '\n', i2, j2) && j1 < i2
                && trim(stdout.subrange(i1, j1)).len() > 0 && in_supported_location(
                trim(stdout.subrange(i1, j1)),
                home,
            ) && trim(stdout.subrange(i2, j2)).len() > 0 && in_supported_location(
                trim(stdout.subrange(i2, j2)),
                home,
            ) ==> exists|k1: int, k2: int|
                0 <= k1 < k2 < spotlight_candidates(stdout, home).len()
                    && #[trigger] spotlight_candidates(stdout, home)[k1] == trim(
                    stdout.subrange(i1, j1),
                ) && #[trigger] spotlight_candidates(stdout, home)[k2] == trim(
                    stdout.subrange(i2, j2),
                ),
        forall|k1: int, k2: int|
            0 <= k1 < k2 < spotlight_candidates(stdout, home).len() && (#[trigger] spotlight_candidates(
                stdout,
                home,
            )[k1]).len() > 0 && (#[trigger] spotlight_candidates(stdout, home)[k2]).len() > 0 ==> exists|
                i1: int,
                j1: int,
                i2: int,
                j2: int,
            |
                #![trigger stdout.subrange(i1, j1), stdout.subrange(i2, j2)]
                is_piece_span(stdout, '\n', i1, j1) && is_piece_span(stdout, '\n', i2, j2) && j1
                    < i2 && spotlight_candidates(stdout, home)[k1] == trim(stdout.subrange(i1, j1))
                    && spotlight_candidates(stdout, home)[k2] == trim(stdout.subrange(i2, j2)),
{
    assert forall|k1: int, k2: int|
        0 <= k1 < k2 < spotlight_candidates(stdout, home).len() && (#[trigger] spotlight_candidates(
            stdout,
            home,
        )[k1]).len() > 0 && (#[trigger] spotlight_candidates(stdout, home)[k2]).len() > 0 implies exists|
            i1: int,
            j1: int,
            i2: int,
            j2: int,
        |
            #![trigger stdout.subrange(i1, j1), stdout.subrange(i2, j2)]
            is_piece_span(stdout, '\n', i1, j1) && is_piece_span(stdout, '\n', i2, j2) && j1 < i2
                && spotlight_candidates(stdout, home)[k1] == trim(stdout.subrange(i1, j1))
                && spotlight_candidates(stdout, home)[k2] == trim(stdout.subrange(i2, j2)) by {
        lemma_candidates_come_in_line_order(stdout, home, k1, k2);
    }
    assert forall|i1: int, j1: int, i2: int, j2: int|
        #![trigger stdout.subrange(i1, j1), stdout.subrange(i2, j2)]
        is_piece_span(stdout, '\n', i1, j1) && is_piece_span(stdout, '\n', i2, j2) && j1 < i2
            && trim(stdout.subrange(i1, j1)).len() > 0 && in_supported_location(
            trim(stdout.subrange(i1, j1)),
            home,
        ) && trim(stdout.subrange(i2, j2)).len() > 0 && in_supported_location(
            trim(stdout.subrange(i2, j2)),
            home,
        ) implies exists|k1: int, k2: int|
            0 <= k1 < k2 < spotlight_candidates(stdout, home).len()
                && #[trigger] spotlight_candidates(stdout, home)[k1] == trim(
                stdout.subrange(i1, j1),
            ) && #[trigger] spotlight_candidates(stdout, home)[k2] == trim(
                stdout.subrange(i2, j2),
            ) by {
        lemma_kept_lines_in_order(stdout, home, i1, j1, i2, j2);
    }
    let keep = |path: Seq<char>| path.len() > 0 && in_supported_location(path, home);
    let pieces = split_text(stdout, '\n');
    let lines = pieces.map_values(|line: Seq<char>| trim(line));
    let cands = lines.filter(keep);
    assert(cands == spotlight_candidates(stdout, home));
    assert forall|path: Seq<char>|
        #[trigger] spotlight_candidates(stdout, home).contains(path) implies exists|i: int, j: int|
            #![trigger is_piece_span(stdout, '\n', i, j)]
            is_piece_span(stdout, '\n', i, j) && path == trim(stdout.subrange(i, j)) by {
        let k = choose|k: int| 0 <= k < spotlight_candidates(stdout, home).len()
            && spotlight_candidates(stdout, home)[k] == path;
        lemma_candidate_is_line(stdout, home, k);
    }
    assert forall|i: int, j: int|
        #![trigger stdout.subrange(i, j)]
        is_piece_span(stdout, '\n', i, j) && trim(stdout.subrange(i, j)).len() > 0
            && in_supported_location(trim(stdout.subrange(i, j)), home)
        implies spotlight_candidates(stdout, home).contains(trim(stdout.subrange(i, j))) by {
        let m = lemma_piece_span_is_split(stdout, '\n', i, j);
        assert(lines[m] == trim(stdout.subrange(i, j)));
        lines.lemma_filter_contains(keep, m);
    }
}

} // verus!
