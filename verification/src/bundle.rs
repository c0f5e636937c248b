//! App bundles and the places the dock keeps its data: bundle-relative
//! paths, the names derived from a bundle's path, the app locations the
//! catalog covers, and the data directories.
use vstd::prelude::*;

use crate::paths::{
    file_stem_of, join_path, path_file_stem, path_has_prefix, path_join, path_starts_with,
};
use crate::text::{chars_have_suffix, chars_of, has_suffix, push_char};

verus! {

/// `char::is_ascii_alphanumeric`.
pub open spec fn is_ascii_alphanumeric(c: char) -> bool {
    ('0' <= c <= '9') || ('A' <= c <= 'Z') || ('a' <= c <= 'z')
}

/// A character that may stand in a cache file name as it is; every other
/// character becomes `-`.
pub open spec fn safe_char(c: char) -> char {
    if is_ascii_alphanumeric(c) || c == '-' || c == '_' {
        c
    } else {
        '-'
    }
}

/// The file stem of `path`, or `app` when it has none.
pub open spec fn stem_or_app(path: Seq<char>) -> Seq<char> {
    match path_file_stem(path) {
        Some(stem) => stem,
        None => "app"@,
    }
}

/// The file-name-safe form of the stem of `path`.
pub open spec fn safe_file_name_text(path: Seq<char>) -> Seq<char> {
    stem_or_app(path).map_values(|c: char| safe_char(c))
}

/// A name shown for an app whose bundle gives none: the safe stem with each
/// `-` read as a space.
pub open spec fn fallback_name_text(path: Seq<char>) -> Seq<char> {
    safe_file_name_text(path).map_values(|c: char| if c == '-' { ' ' } else { c })
}

/// The directories whose apps the catalog lists, `home` being the user's home.
pub open spec fn supported_locations(home: Seq<char>) -> Seq<Seq<char>> {
    seq![
        "/Applications"@,
        "/System/Applications"@,
        "/System/Library/CoreServices/Applications"@,
        home + "/Applications"@,
    ]
}

/// `path` lies in one of the directories the catalog covers.
pub open spec fn in_supported_location(path: Seq<char>, home: Seq<char>) -> bool {
    exists|i: int|
        0 <= i < supported_locations(home).len() && path_has_prefix(
            path,
            #[trigger] supported_locations(home)[i],
        )
}

/// `Contents/Info.plist` inside the bundle at `app_path`.
pub open spec fn info_plist_path_text(app_path: Seq<char>) -> Seq<char> {
    path_join(path_join(app_path, "Contents"@), "Info.plist"@)
}

/// `name`, ending in `.icns`.
pub open spec fn icns_file_name(name: Seq<char>) -> Seq<char> {
    if has_suffix(name, ".icns"@) {
        name
    } else {
        name + ".icns"@
    }
}

/// Where the bundle at `app_path` keeps the icon file it declares as `icon_name`.
pub open spec fn bundle_icon_path_text(app_path: Seq<char>, icon_name: Seq<char>) -> Seq<char> {
    path_join(path_join(path_join(app_path, "Contents"@), "Resources"@), icns_file_name(icon_name))
}

/// The dock's data directory: under the user's Application Support when the
/// home directory is known, else under the temporary directory.
pub open spec fn app_data_dir_text(home: Option<Seq<char>>, temp_dir: Seq<char>) -> Seq<char> {
    match home {
        Some(h) => path_join(
            path_join(path_join(h, "Library"@), "Application Support"@),
            "workspace-dock"@,
        ),
        None => path_join(temp_dir, "workspace-dock-data"@),
    }
}

/// The path of `Contents/Info.plist` inside the bundle at `app_path`.
pub fn info_plist_path(app_path: &str) -> (r: String)
    ensures
        r@ == info_plist_path_text(app_path@),
{
    let contents = join_path(app_path, "Contents");
    join_path(&contents, "Info.plist")
}

/// `icon_name` with the `.icns` extension, added unless it is already there.
pub fn ensure_icns_extension(icon_name: &str) -> (r: String)
    ensures
        r@ == icns_file_name(icon_name@),
{
    let suffix = chars_of(".icns");
    if chars_have_suffix(&chars_of(icon_name), &suffix) {
        icon_name.to_owned()
    } else {
        let mut r = icon_name.to_owned();
        r.append(".icns");
        r
    }
}

/// The path of the icon file `icon_name` in the bundle's `Contents/Resources`.
pub fn bundle_icon_path(app_path: &str, icon_name: &str) -> (r: String)
    ensures
        r@ == bundle_icon_path_text(app_path@, icon_name@),
{
    let contents = join_path(app_path, "Contents");
    let resources = join_path(&contents, "Resources");
    let file_name = ensure_icns_extension(icon_name);
    join_path(&resources, &file_name)
}

/// The stem of `path` reduced to ASCII letters, digits, `-` and `_`, every
/// other character becoming `-`; `app` when the path has no stem.
pub fn safe_file_name(path: &str) -> (r: String)
    ensures
        r@ == safe_file_name_text(path@),
{
    let stem = match file_stem_of(path) {
        Some(stem) => stem,
        None => String::from_str("app"),
    };
    let chars = chars_of(&stem);
    let mut r = String::new();
    let n = chars.len();
    let mut i: usize = 0;
    while i < n
        invariant
            n == chars@.len(),
            chars@ == stem_or_app(path@),
            i <= n,
            r@ == chars@.take(i as int).map_values(|c: char| safe_char(c)),
        decreases n - i,
    {
        let c = chars[i];
        let keep = ('0' <= c && c <= '9') || ('A' <= c && c <= 'Z') || ('a' <= c && c <= 'z')
            || c == '-' || c == '_';
        if keep {
            push_char(&mut r, c);
        } else {
            push_char(&mut r, '-');
        }
        assert(chars@.take(i + 1).map_values(|c: char| safe_char(c)) =~= chars@.take(
            i as int,
        ).map_values(|c: char| safe_char(c)).push(safe_char(c)));
        i += 1;
    }
    assert(chars@.take(n as int) =~= chars@);
    r
}

/// The name shown for an app when neither Spotlight nor its bundle names it:
/// its safe file name with `-` read as a space.
pub fn fallback_app_name(path: &str) -> (r: String)
    ensures
        r@ == fallback_name_text(path@),
{
    let safe = safe_file_name(path);
    let chars = chars_of(&safe);
    let mut r = String::new();
    let n = chars.len();
    let mut i: usize = 0;
    while i < n
        invariant
            n == chars@.len(),
            chars@ == safe_file_name_text(path@),
            i <= n,
            r@ == chars@.take(i as int).map_values(|c: char| if c == '-' { ' ' } else { c }),
        decreases n - i,
    {
        let c = chars[i];
        if c == '-' {
            push_char(&mut r, ' ');
        } else {
            push_char(&mut r, c);
        }
        assert(chars@.take(i + 1).map_values(|c: char| if c == '-' { ' ' } else { c })
            =~= chars@.take(i as int).map_values(|c: char| if c == '-' { ' ' } else { c }).push(
            if c == '-' {
                ' '
            } else {
                c
            },
        ));
        i += 1;
    }
    assert(chars@.take(n as int) =~= chars@);
    r
}

/// The directories whose apps the catalog lists, `home` being the user's
/// home directory (empty when unknown).
pub fn supported_app_locations(home: &str) -> (r: Vec<String>)
    ensures
        r@.len() == 4,
        forall|i: int| 0 <= i < 4 ==> #[trigger] r@[i]@ == supported_locations(home@)[i],
{
    let mut user_apps = home.to_owned();
    user_apps.append("/Applications");
    let mut r: Vec<String> = Vec::new();
    r.push(String::from_str("/Applications"));
    r.push(String::from_str("/System/Applications"));
    r.push(String::from_str("/System/Library/CoreServices/Applications"));
    r.push(user_apps);
    r
}

/// Whether `path` lies (by components) in one of the supported app locations.
pub fn is_supported_app_location(path: &str, home: &str) -> (r: bool)
    ensures
        r == in_supported_location(path@, home@),
{
    let locations = supported_app_locations(home);
    let mut i: usize = 0;
    while i < locations.len()
        invariant
            i <= locations@.len(),
            locations@.len() == 4,
            forall|k: int| 0 <= k < 4 ==> #[trigger] locations@[k]@ == supported_locations(home@)[k],
            forall|k: int| 0 <= k < i ==> !path_has_prefix(path@, supported_locations(home@)[k]),
        decreases locations@.len() - i,
    {
        if path_starts_with(path, &locations[i]) {
            assert(locations@[i as int]@ == supported_locations(home@)[i as int]);
            return true;
        }
        i += 1;
    }
    proof {
        if in_supported_location(path@, home@) {
            let k = choose|k: int|
                0 <= k < supported_locations(home@).len() && path_has_prefix(
                    path@,
                    #[trigger] supported_locations(home@)[k],
                );
            assert(!path_has_prefix(path@, supported_locations(home@)[k]));
        }
    }
    false
}

/// The dock's data directory, `home` being `$HOME` when it is set.
pub fn app_data_dir(home: Option<&str>, temp_dir: &str) -> (r: String)
    ensures
        r@ == app_data_dir_text(
            match home {
                Some(h) => Some(h@),
                None => None,
            },
            temp_dir@,
        ),
{
    match home {
        Some(h) => {
            let library = join_path(h, "Library");
            let support = join_path(&library, "Application Support");
            join_path(&support, "workspace-dock")
        },
        None => join_path(temp_dir, "workspace-dock-data"),
    }
}

/// Where the app catalog's metadata is saved between runs.
pub fn app_catalog_disk_cache_path(data_dir: &str) -> (r: String)
    ensures
        r@ == path_join(data_dir@, "app-catalog-cache.json"@),
{
    join_path(data_dir, "app-catalog-cache.json")
}

/// Where the dock's item list is saved.
pub fn dock_items_path(temp_dir: &str) -> (r: String)
    ensures
        r@ == path_join(temp_dir@, "workspace-dock-data/dock_items.json"@),
{
    join_path(temp_dir, "workspace-dock-data/dock_items.json")
}

} // verus!
