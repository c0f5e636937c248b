use base64::engine::general_purpose;
use base64::Engine;
use sha2::{Digest, Sha256};

use workspace_dock::icons::{
    app_icon_cache_dir, app_icon_cache_key, app_icon_cache_path, icon_conversion_failure_message,
    icon_fallback_failure_message, legacy_app_icon_cache_path, missing_bundle_icon_message,
    nsworkspace_icon_script, png_bytes_to_data_url, read_cached_app_icon, usable_icon,
    validate_icon_bytes, CachedIcon, IconSource, MIN_CACHED_ICON_BYTES,
};
use workspace_dock::icon_fetch::{IconFetch, IconFetchAction, IconFetchEvent, ProcessOutcome};
use workspace_dock::metadata::{
    metadata_from_tool_output, normalize_metadata_value, read_app_display_name,
    read_bundle_icon_name, read_bundle_id,
};

#[test]
fn icon_validation_threshold() {
    assert_eq!(MIN_CACHED_ICON_BYTES, 2048);
    assert_eq!(validate_icon_bytes(&vec![0u8; 2048]), Ok(()));
    assert_eq!(validate_icon_bytes(&vec![0u8; 5000]), Ok(()));
    assert_eq!(
        validate_icon_bytes(&vec![0u8; 2047]),
        Err("icon data is too small (2047 bytes)".to_string())
    );
    assert_eq!(validate_icon_bytes(&[]), Err("icon data is too small (0 bytes)".to_string()));
}

#[test]
fn usable_icon_names_its_source() {
    assert_eq!(usable_icon(vec![1u8; 3000], IconSource::Workspace), Ok(vec![1u8; 3000]));
    assert_eq!(
        usable_icon(vec![1u8; 12], IconSource::Workspace),
        Err("NSWorkspace app icon is not usable: icon data is too small (12 bytes)".to_string())
    );
    assert_eq!(
        usable_icon(vec![1u8; 12], IconSource::BundleConversion),
        Err("Converted app icon is not usable: icon data is too small (12 bytes)".to_string())
    );
}

#[test]
fn data_url_is_standard_base64() {
    assert_eq!(png_bytes_to_data_url(b"abc"), "data:image/png;base64,YWJj");
    assert_eq!(png_bytes_to_data_url(b"ab"), "data:image/png;base64,YWI=");
    assert_eq!(png_bytes_to_data_url(&[0xfb, 0xff]), "data:image/png;base64,+/8=");
    assert_eq!(png_bytes_to_data_url(&[]), "data:image/png;base64,");
}

#[test]
fn cache_key_is_sha256_in_url_safe_base64() {
    let path = "/Applications/Safari.app";
    let mut hasher = Sha256::new();
    hasher.update(path.as_bytes());
    let expected = format!("v2-{}", general_purpose::URL_SAFE_NO_PAD.encode(hasher.finalize()));
    let key = app_icon_cache_key(path);
    assert_eq!(key, expected);
    assert_eq!(key.len(), 3 + 43);
    assert_ne!(key, app_icon_cache_key("/Applications/Mail.app"));
    assert_eq!(key, app_icon_cache_key(path));
    assert!(!key.contains('='));
}

#[test]
fn icon_cache_paths() {
    assert_eq!(app_icon_cache_dir("/tmp"), "/tmp/workspace-dock-icons");
    let key = app_icon_cache_key("/Applications/Safari.app");
    assert_eq!(
        app_icon_cache_path("/tmp", "/Applications/Safari.app"),
        format!("/tmp/workspace-dock-icons/{}.png", key)
    );
    assert_eq!(
        legacy_app_icon_cache_path("/tmp/", "/Applications/Visual Studio Code.app"),
        "/tmp/workspace-dock-icons/Visual-Studio-Code.png"
    );
}

#[test]
fn cached_icon_lookup() {
    let good = vec![7u8; 4096];
    let small = vec![7u8; 10];
    let current = "/tmp/workspace-dock-icons/v2-abc.png";
    let legacy = "/tmp/workspace-dock-icons/Safari.png";
    assert!(matches!(
        read_cached_app_icon(current, legacy, Some(good.clone()), None),
        CachedIcon::Cached(ref b) if *b == good
    ));
    assert!(matches!(
        read_cached_app_icon(current, legacy, Some(small.clone()), Some(good.clone())),
        CachedIcon::Missing
    ));
    assert!(matches!(
        read_cached_app_icon(current, legacy, None, Some(good.clone())),
        CachedIcon::Migrated(ref b) if *b == good
    ));
    assert!(matches!(read_cached_app_icon(current, legacy, None, Some(small)), CachedIcon::Missing));
    assert!(matches!(read_cached_app_icon(current, legacy, None, None), CachedIcon::Missing));
    assert!(matches!(
        read_cached_app_icon(current, "/tmp//workspace-dock-icons/v2-abc.png", None, Some(good)),
        CachedIcon::Missing
    ));
}

#[test]
fn nsworkspace_script_embeds_json_paths() {
    let script = nsworkspace_icon_script("/Applications/A \"B\".app", "/tmp/x.png").unwrap();
    assert!(script.starts_with("\nObjC.import(\"AppKit\");\nObjC.import(\"Foundation\");\n\nvar appPath = "));
    assert!(script.contains("var appPath = \"/Applications/A \\\"B\\\".app\";\nvar outputPath = \"/tmp/x.png\";\n"));
    assert!(script.contains("icon.setSize({ width: 256, height: 256 });"));
    assert!(script.contains("representationUsingTypeProperties(4, $({}));"));
    assert!(script.ends_with("  throw new Error(\"Failed to write PNG icon\");\n}\n"));
}

#[test]
fn icon_failure_messages() {
    assert_eq!(
        icon_fallback_failure_message("a", "b"),
        "NSWorkspace icon failed: a; bundle icon fallback failed: b"
    );
    assert_eq!(missing_bundle_icon_message("/x/y.icns"), "App icon not found at /x/y.icns");
    assert_eq!(
        icon_conversion_failure_message("/x/y.icns", "  sips: bad\n"),
        "Failed to convert /x/y.icns: sips: bad"
    );
}

#[test]
fn metadata_values_are_trimmed_and_nulls_dropped() {
    assert_eq!(normalize_metadata_value("  Safari\n"), Some("Safari".to_string()));
    assert_eq!(normalize_metadata_value("(null)\n"), None);
    assert_eq!(normalize_metadata_value("   "), None);
    assert_eq!(normalize_metadata_value(""), None);
    assert_eq!(normalize_metadata_value("(null) x"), Some("(null) x".to_string()));
    assert_eq!(metadata_from_tool_output(false, "Safari"), None);
    assert_eq!(metadata_from_tool_output(true, "Safari\n"), Some("Safari".to_string()));
    assert_eq!(read_bundle_id(true, "com.apple.Safari\n"), Some("com.apple.Safari".to_string()));
    assert_eq!(read_bundle_id(false, "com.apple.Safari\n"), None);
}

#[test]
fn metadata_value_is_stable_law() {
    for reported in ["  Safari\n", "x", " (null) ", "\tMail\t"] {
        if let Some(value) = normalize_metadata_value(reported) {
            assert_eq!(normalize_metadata_value(&value), Some(value.clone()));
        }
    }
}

#[test]
fn bundle_icon_name_errors() {
    assert_eq!(
        read_bundle_icon_name(None, "/A.app/Contents/Info.plist"),
        Err("Failed to read icon metadata from /A.app/Contents/Info.plist".to_string())
    );
    assert_eq!(
        read_bundle_icon_name(Some(String::new()), "/A.app/Contents/Info.plist"),
        Err("No app icon declared in /A.app/Contents/Info.plist".to_string())
    );
    assert_eq!(
        read_bundle_icon_name(Some("AppIcon".to_string()), "/A.app/Contents/Info.plist"),
        Ok("AppIcon".to_string())
    );
}

#[test]
fn display_name_priority() {
    let s = |x: &str| Some(x.to_string());
    let path = "/Applications/my-tool.app";
    assert_eq!(read_app_display_name(path, s("Spot"), s("Disp"), s("Name")), "Spot");
    assert_eq!(read_app_display_name(path, None, s("Disp"), s("Name")), "Disp");
    assert_eq!(read_app_display_name(path, None, None, s("Name")), "Name");
    assert_eq!(read_app_display_name(path, None, None, None), "my tool");
}

fn step_finish(action: IconFetchAction) -> Result<Vec<u8>, String> {
    match action {
        IconFetchAction::Finish(result) => result,
        _ => panic!("the fetch was expected to end"),
    }
}

fn ran(succeeded: bool, stderr: &str) -> Result<ProcessOutcome, String> {
    Ok(ProcessOutcome { succeeded, stderr: stderr.to_string() })
}

#[test]
fn icon_fetch_prefers_the_cache() {
    let mut fetch = IconFetch::new("/tmp", "/Applications/Safari.app");
    assert!(matches!(fetch.step(IconFetchEvent::Started), IconFetchAction::ReadCache));
    let icon = vec![7u8; 3000];
    assert_eq!(step_finish(fetch.step(IconFetchEvent::CacheRead(Some(icon.clone())))), Ok(icon));
}

#[test]
fn icon_fetch_exports_through_nsworkspace() {
    let mut fetch = IconFetch::new("/tmp", "/Applications/Safari.app");
    let output = app_icon_cache_path("/tmp", "/Applications/Safari.app");
    match fetch.step(IconFetchEvent::CacheRead(None)) {
        IconFetchAction::CreateCacheDir(dir) => assert_eq!(dir, "/tmp/workspace-dock-icons"),
        _ => panic!("expected the cache directory to be created"),
    }
    match fetch.step(IconFetchEvent::CacheDirCreated(Ok(()))) {
        IconFetchAction::RunWorkspaceExport(script) => assert_eq!(
            script,
            nsworkspace_icon_script("/Applications/Safari.app", &output).unwrap()
        ),
        _ => panic!("expected the export to run"),
    }
    match fetch.step(IconFetchEvent::WorkspaceExportRan(ran(true, ""))) {
        IconFetchAction::ReadWorkspaceIcon(path) => assert_eq!(path, output),
        _ => panic!("expected the exported icon to be read"),
    }
    let icon = vec![1u8; 2048];
    assert_eq!(step_finish(fetch.step(IconFetchEvent::WorkspaceIconRead(Ok(icon.clone())))), Ok(icon));
    assert_eq!(
        step_finish(fetch.step(IconFetchEvent::CacheDirCreated(Err("read-only".into())))),
        Err("Failed to create icon cache: read-only".to_string())
    );
}

#[test]
fn icon_fetch_falls_back_to_the_bundle_icon() {
    let app = "/Applications/Old.app";
    let output = app_icon_cache_path("/tmp", app);
    let mut fetch = IconFetch::new("/tmp", app);
    match fetch.step(IconFetchEvent::WorkspaceExportRan(ran(false, "  script error\n"))) {
        IconFetchAction::ReadBundleIconName(plist) => {
            assert_eq!(plist, "/Applications/Old.app/Contents/Info.plist")
        }
        _ => panic!("expected the bundle's icon name to be read"),
    }
    match fetch.step(IconFetchEvent::BundleIconNameRead(Some("AppIcon".into()))) {
        IconFetchAction::CheckBundleIcon(path) => {
            assert_eq!(path, "/Applications/Old.app/Contents/Resources/AppIcon.icns")
        }
        _ => panic!("expected the icon file to be checked"),
    }
    match fetch.step(IconFetchEvent::BundleIconChecked(true)) {
        IconFetchAction::RunConversion { icon_path, output_path } => {
            assert_eq!(icon_path, "/Applications/Old.app/Contents/Resources/AppIcon.icns");
            assert_eq!(output_path, output);
        }
        _ => panic!("expected the conversion to run"),
    }
    match fetch.step(IconFetchEvent::ConversionRan(ran(true, ""))) {
        IconFetchAction::ReadConvertedIcon(path) => assert_eq!(path, output),
        _ => panic!("expected the converted icon to be read"),
    }
    let icon = vec![2u8; 4096];
    assert_eq!(step_finish(fetch.step(IconFetchEvent::ConvertedIconRead(Ok(icon.clone())))), Ok(icon));
    assert_eq!(
        step_finish(fetch.step(IconFetchEvent::ConvertedIconRead(Ok(vec![0u8; 10])))),
        Err("NSWorkspace icon failed: script error; bundle icon fallback failed: Converted app icon is not usable: icon data is too small (10 bytes)".to_string())
    );
    assert_eq!(
        step_finish(fetch.step(IconFetchEvent::ConversionRan(ran(false, " bad icns ")))),
        Err("NSWorkspace icon failed: script error; bundle icon fallback failed: Failed to convert /Applications/Old.app/Contents/Resources/AppIcon.icns: bad icns".to_string())
    );
    assert_eq!(
        step_finish(fetch.step(IconFetchEvent::BundleIconChecked(false))),
        Err("NSWorkspace icon failed: script error; bundle icon fallback failed: App icon not found at /Applications/Old.app/Contents/Resources/AppIcon.icns".to_string())
    );
}

#[test]
fn icon_fetch_reports_both_failures() {
    let mut fetch = IconFetch::new("/tmp", "/Applications/Bare.app");
    assert!(matches!(
        fetch.step(IconFetchEvent::WorkspaceIconRead(Ok(vec![0u8; 100]))),
        IconFetchAction::ReadBundleIconName(_)
    ));
    assert_eq!(
        step_finish(fetch.step(IconFetchEvent::BundleIconNameRead(Some(String::new())))),
        Err("NSWorkspace icon failed: NSWorkspace app icon is not usable: icon data is too small (100 bytes); bundle icon fallback failed: No app icon declared in /Applications/Bare.app/Contents/Info.plist".to_string())
    );
    assert!(matches!(
        fetch.step(IconFetchEvent::WorkspaceExportRan(Err("no osascript".into()))),
        IconFetchAction::ReadBundleIconName(_)
    ));
    assert_eq!(
        step_finish(fetch.step(IconFetchEvent::BundleIconNameRead(None))),
        Err("NSWorkspace icon failed: Failed to run NSWorkspace icon fallback: no osascript; bundle icon fallback failed: Failed to read icon metadata from /Applications/Bare.app/Contents/Info.plist".to_string())
    );
    assert!(matches!(
        fetch.step(IconFetchEvent::WorkspaceIconRead(Err("missing".into()))),
        IconFetchAction::ReadBundleIconName(_)
    ));
    assert_eq!(
        step_finish(fetch.step(IconFetchEvent::ConversionRan(Err("no sips".into())))),
        Err("NSWorkspace icon failed: Failed to read NSWorkspace app icon: missing; bundle icon fallback failed: Failed to convert app icon: no sips".to_string())
    );
    assert_eq!(
        step_finish(fetch.step(IconFetchEvent::ConvertedIconRead(Err("gone".into())))),
        Err("NSWorkspace icon failed: Failed to read NSWorkspace app icon: missing; bundle icon fallback failed: Failed to read converted app icon: gone".to_string())
    );
}

#[test]
fn script_paths_are_escaped_as_json_strings() {
    let script = nsworkspace_icon_script("/A\\B\n\t\u{1}\u{1f}é/\r\u{8}\u{c}.app", "/tmp/o.png").unwrap();
    assert!(script.contains(
        "var appPath = \"/A\\\\B\\n\\t\\u0001\\u001fé/\\r\\b\\f.app\";\nvar outputPath = \"/tmp/o.png\";\n"
    ));
}
