use std::path::Path;

use workspace_dock::bundle::{
    app_catalog_disk_cache_path, app_data_dir, bundle_icon_path, dock_items_path,
    ensure_icns_extension, fallback_app_name, info_plist_path, is_supported_app_location,
    safe_file_name, supported_app_locations,
};
use workspace_dock::paths::{
    components_of, extension_of, file_stem_of, join_path, path_starts_with, same_path,
};
use workspace_dock::text::{decimal_string, trim_text};

const SAMPLE_PATHS: [&str; 22] = [
    "",
    "/",
    "//",
    ".",
    "..",
    "./",
    "./a",
    "/a/.",
    "a/./b",
    "a//b/",
    "/Applications/Safari.app",
    "/Applications/Safari.app/",
    "/Applications/Visual Studio Code.app",
    "/System/Library/CoreServices/Applications/Keychain Access.app",
    "/Users/me/Applications/Tool.app",
    ".bashrc",
    "/tmp/archive.tar.gz",
    "/tmp/name.",
    "/tmp/...",
    "/tmp/..",
    "relative/dir/file.txt",
    "/Applications",
];

#[test]
fn join_path_matches_std_path_join() {
    for base in SAMPLE_PATHS {
        for part in ["Contents", "Info.plist", "/abs", "", "a/b", "x.png"] {
            let expected = Path::new(base).join(part).to_string_lossy().into_owned();
            assert_eq!(join_path(base, part), expected, "join({:?}, {:?})", base, part);
        }
    }
}

#[test]
fn file_stem_and_extension_match_std_path() {
    for path in SAMPLE_PATHS {
        let stem = Path::new(path).file_stem().and_then(|s| s.to_str()).map(str::to_string);
        let ext = Path::new(path).extension().and_then(|s| s.to_str()).map(str::to_string);
        assert_eq!(file_stem_of(path), stem, "file_stem({:?})", path);
        assert_eq!(extension_of(path), ext, "extension({:?})", path);
    }
}

#[test]
fn starts_with_and_equality_match_std_path() {
    for a in SAMPLE_PATHS {
        for b in SAMPLE_PATHS {
            assert_eq!(path_starts_with(a, b), Path::new(a).starts_with(b), "{:?} starts_with {:?}", a, b);
            assert_eq!(same_path(a, b), Path::new(a) == Path::new(b), "{:?} == {:?}", a, b);
        }
    }
}

#[test]
fn components_are_written_as_text() {
    let components: Vec<String> = components_of("/a//b/./c/")
        .into_iter()
        .map(|c| c.into_iter().collect())
        .collect();
    assert_eq!(components, vec!["/", "a", "b", "c"]);
    let leading: Vec<String> = components_of("./x")
        .into_iter()
        .map(|c| c.into_iter().collect())
        .collect();
    assert_eq!(leading, vec![".", "x"]);
}

#[test]
fn safe_file_name_replaces_unsafe_characters() {
    assert_eq!(safe_file_name("/Applications/Visual Studio Code.app"), "Visual-Studio-Code");
    assert_eq!(safe_file_name("/Applications/Caf\u{e9} & Co_2.app"), "Caf----Co_2");
    assert_eq!(safe_file_name("/"), "app");
    assert_eq!(safe_file_name(""), "app");
}

#[test]
fn safe_names_use_safe_characters_law() {
    for path in SAMPLE_PATHS {
        let safe = safe_file_name(path);
        assert!(safe.chars().all(|c| c.is_ascii_alphanumeric() || c == '-' || c == '_'));
        assert!(!fallback_app_name(path).contains('-'));
    }
}

#[test]
fn fallback_app_name_reads_dashes_as_spaces() {
    assert_eq!(fallback_app_name("/Applications/Visual Studio Code.app"), "Visual Studio Code");
    assert_eq!(fallback_app_name("/Applications/my-tool_v2.app"), "my tool_v2");
}

#[test]
fn ensure_icns_extension_adds_extension_once() {
    assert_eq!(ensure_icns_extension("AppIcon"), "AppIcon.icns");
    assert_eq!(ensure_icns_extension("AppIcon.icns"), "AppIcon.icns");
    assert_eq!(ensure_icns_extension(&ensure_icns_extension("Code")), "Code.icns");
    assert_eq!(ensure_icns_extension(""), ".icns");
}

#[test]
fn bundle_paths() {
    assert_eq!(info_plist_path("/Applications/Foo.app"), "/Applications/Foo.app/Contents/Info.plist");
    assert_eq!(
        bundle_icon_path("/Applications/Foo.app", "Foo"),
        "/Applications/Foo.app/Contents/Resources/Foo.icns"
    );
}

#[test]
fn supported_locations_include_the_users_applications() {
    let locations = supported_app_locations("/Users/me");
    assert_eq!(
        locations,
        vec![
            "/Applications".to_string(),
            "/System/Applications".to_string(),
            "/System/Library/CoreServices/Applications".to_string(),
            "/Users/me/Applications".to_string(),
        ]
    );
    assert_eq!(supported_app_locations("")[3], "/Applications");
}

#[test]
fn supported_location_is_by_components() {
    assert!(is_supported_app_location("/Applications/Safari.app", "/Users/me"));
    assert!(is_supported_app_location("/Applications/Utilities/Terminal.app", "/Users/me"));
    assert!(is_supported_app_location("/Users/me/Applications/Tool.app", "/Users/me"));
    assert!(is_supported_app_location(
        "/System/Library/CoreServices/Applications/Keychain Access.app",
        "/Users/me"
    ));
    assert!(!is_supported_app_location("/Applicationsfoo/x.app", "/Users/me"));
    assert!(!is_supported_app_location("/opt/X.app", "/Users/me"));
    assert!(!is_supported_app_location("/Users/other/Applications/X.app", "/Users/me"));
}

#[test]
fn data_directories() {
    assert_eq!(
        app_data_dir(Some("/Users/me"), "/tmp"),
        "/Users/me/Library/Application Support/workspace-dock"
    );
    assert_eq!(app_data_dir(None, "/tmp"), "/tmp/workspace-dock-data");
    assert_eq!(
        app_catalog_disk_cache_path("/Users/me/Library/Application Support/workspace-dock"),
        "/Users/me/Library/Application Support/workspace-dock/app-catalog-cache.json"
    );
    assert_eq!(dock_items_path("/tmp"), "/tmp/workspace-dock-data/dock_items.json");
    assert_eq!(dock_items_path("/tmp/"), "/tmp/workspace-dock-data/dock_items.json");
}

#[test]
fn trim_matches_std_trim() {
    for text in ["  a b \n", "\u{3000}x\u{85}", "", "   ", "\r\n/Applications/A.app\r", "\u{200b}z"] {
        assert_eq!(trim_text(text), text.trim(), "trim({:?})", text);
        assert_eq!(trim_text(&trim_text(text)), trim_text(text));
    }
}

#[test]
fn decimal_numerals() {
    assert_eq!(decimal_string(0), "0");
    assert_eq!(decimal_string(7), "7");
    assert_eq!(decimal_string(2047), "2047");
    assert_eq!(decimal_string(usize::MAX), usize::MAX.to_string());
}
