use workspace_dock::catalog::{
    clear_installed_apps_memory_cache, disk_cache_from_apps, installed_app_from_disk_cache,
    is_current_disk_cache_version, list_installed_apps_cached, load_installed_apps_disk_cache,
    refresh_installed_apps_cache, store_installed_apps_memory_cache, update_cached_icon_for_app,
    AppCatalogCache, CachedInstalledApp, DiskCacheEntry, InstalledApp, ListingAction,
    ListingEvent, RefreshGuard, APP_CATALOG_DISK_CACHE_VERSION,
};
use workspace_dock::discovery::{
    build_installed_apps_from_paths, discover_app_paths_with_spotlight,
    discover_installed_apps_source, normalize_app_paths, sort_installed_apps_by_name,
    AppBundleFacts, DiscoverySource, PathCandidate,
};
use workspace_dock::icons::png_bytes_to_data_url;

fn app(name: &str, path: &str) -> InstalledApp {
    InstalledApp {
        name: name.to_string(),
        path: path.to_string(),
        bundle_id: format!("id.{}", name),
        cached_icon: None,
    }
}

fn names(apps: &[InstalledApp]) -> Vec<String> {
    apps.iter().map(|a| a.name.clone()).collect()
}

fn listed(action: ListingAction) -> (&'static str, Vec<InstalledApp>) {
    match action {
        ListingAction::Respond(apps) => ("respond", apps),
        ListingAction::LoadDiskCache => ("load-disk", Vec::new()),
        ListingAction::RespondAndRefreshInBackground(apps) => ("respond-refresh", apps),
        ListingAction::Discover => ("discover", Vec::new()),
        ListingAction::RespondAndSaveToDisk(apps) => ("respond-save", apps),
    }
}

#[test]
fn listing_goes_memory_then_disk_then_discovery() {
    let mut cache = AppCatalogCache::new();
    let mut guard = RefreshGuard::new();
    let (step, _) = listed(list_installed_apps_cached(&mut cache, &mut guard, ListingEvent::Requested));
    assert_eq!(step, "load-disk");
    let (step, _) = listed(list_installed_apps_cached(&mut cache, &mut guard, ListingEvent::DiskCacheLoaded(None)));
    assert_eq!(step, "discover");
    let discovered = vec![app("Mail", "/System/Applications/Mail.app")];
    let (step, apps) =
        listed(list_installed_apps_cached(&mut cache, &mut guard, ListingEvent::Discovered(discovered)));
    assert_eq!(step, "respond-save");
    assert_eq!(names(&apps), vec!["Mail"]);
    let (step, apps) = listed(list_installed_apps_cached(&mut cache, &mut guard, ListingEvent::Requested));
    assert_eq!(step, "respond");
    assert_eq!(names(&apps), vec!["Mail"]);
}

#[test]
fn disk_cache_listing_starts_one_background_refresh() {
    let mut cache = AppCatalogCache::new();
    let mut guard = RefreshGuard::new();
    let loaded = Some(vec![app("Safari", "/Applications/Safari.app")]);
    let (step, apps) =
        listed(list_installed_apps_cached(&mut cache, &mut guard, ListingEvent::DiskCacheLoaded(loaded)));
    assert_eq!(step, "respond-refresh");
    assert_eq!(names(&apps), vec!["Safari"]);
    clear_installed_apps_memory_cache(&mut cache);
    let loaded = Some(vec![app("Notes", "/System/Applications/Notes.app")]);
    let (step, apps) =
        listed(list_installed_apps_cached(&mut cache, &mut guard, ListingEvent::DiskCacheLoaded(loaded)));
    assert_eq!(step, "respond");
    assert_eq!(names(&apps), vec!["Notes"]);
    guard.finish_background_refresh();
    assert!(guard.try_begin_background_refresh());
    assert!(!guard.try_begin_background_refresh());
}

#[test]
fn one_background_refresh_at_a_time_law() {
    let mut guard = RefreshGuard::new();
    assert!(guard.try_begin_background_refresh());
    assert!(!guard.try_begin_background_refresh());
    assert!(!guard.try_begin_background_refresh());
    guard.finish_background_refresh();
    assert!(guard.try_begin_background_refresh());
}

#[test]
fn listing_returns_stored_rows_law() {
    let mut cache = AppCatalogCache::new();
    let mut guard = RefreshGuard::new();
    let stored = store_installed_apps_memory_cache(&mut cache, vec![app("B", "/b.app"), app("A", "/a.app")]);
    assert_eq!(names(&stored), vec!["B", "A"]);
    let (step, apps) = listed(list_installed_apps_cached(&mut cache, &mut guard, ListingEvent::Requested));
    assert_eq!(step, "respond");
    assert_eq!(names(&apps), vec!["B", "A"]);
    let refreshed = refresh_installed_apps_cache(&mut cache, vec![app("C", "/c.app")]);
    assert_eq!(names(&refreshed), vec!["C"]);
    let (_, apps) = listed(list_installed_apps_cached(&mut cache, &mut guard, ListingEvent::Requested));
    assert_eq!(names(&apps), vec!["C"]);
    clear_installed_apps_memory_cache(&mut cache);
    assert!(cache.is_empty());
    let (step, _) = listed(list_installed_apps_cached(&mut cache, &mut guard, ListingEvent::Requested));
    assert_eq!(step, "load-disk");
}

#[test]
fn icon_update_touches_first_matching_app_only() {
    let mut cache = AppCatalogCache::new();
    store_installed_apps_memory_cache(
        &mut cache,
        vec![app("A", "/a.app"), app("B", "/b.app"), app("B2", "/b.app")],
    );
    update_cached_icon_for_app(&mut cache, "/b.app", b"abc");
    let apps = cache.snapshot();
    assert_eq!(apps[0].cached_icon, None);
    assert_eq!(apps[1].cached_icon, Some("data:image/png;base64,YWJj".to_string()));
    assert_eq!(apps[2].cached_icon, None);
    update_cached_icon_for_app(&mut cache, "/missing.app", b"abc");
    assert_eq!(cache.snapshot().len(), 3);
}

#[test]
fn disk_cache_round_trip_law() {
    let apps = vec![app("Safari", "/Applications/Safari.app"), app("Mail", "/System/Applications/Mail.app")];
    let saved = disk_cache_from_apps(&apps);
    assert_eq!(saved.version, APP_CATALOG_DISK_CACHE_VERSION);
    assert!(is_current_disk_cache_version(saved.version));
    assert!(!is_current_disk_cache_version(2));
    let entries: Vec<DiskCacheEntry> = saved
        .apps
        .into_iter()
        .map(|cached| DiskCacheEntry { cached, exists: true, icon: None })
        .collect();
    let loaded = load_installed_apps_disk_cache(1, entries).unwrap();
    assert_eq!(names(&loaded), vec!["Safari", "Mail"]);
    assert_eq!(loaded[1].path, "/System/Applications/Mail.app");
    assert_eq!(loaded[0].bundle_id, "id.Safari");
}

#[test]
fn disk_cache_drops_missing_apps_and_other_versions() {
    let entry = |name: &str, exists: bool, icon: Option<Vec<u8>>| DiskCacheEntry {
        cached: CachedInstalledApp {
            name: name.to_string(),
            path: format!("/Applications/{}.app", name),
            bundle_id: format!("id.{}", name),
        },
        exists,
        icon,
    };
    let loaded = load_installed_apps_disk_cache(
        1,
        vec![entry("Gone", false, None), entry("Here", true, Some(b"abc".to_vec()))],
    )
    .unwrap();
    assert_eq!(names(&loaded), vec!["Here"]);
    assert_eq!(loaded[0].cached_icon, Some(png_bytes_to_data_url(b"abc")));
    assert!(load_installed_apps_disk_cache(1, vec![entry("Gone", false, None)]).is_none());
    assert!(load_installed_apps_disk_cache(1, vec![]).is_none());
    assert!(load_installed_apps_disk_cache(2, vec![entry("Here", true, None)]).is_none());
    let cached = CachedInstalledApp { name: "X".into(), path: "/X.app".into(), bundle_id: "x".into() };
    assert!(installed_app_from_disk_cache(cached, false, None).is_none());
}

#[test]
fn spotlight_output_is_trimmed_and_filtered() {
    let stdout = "/Applications/Safari.app\n/opt/Other.app\n  /System/Applications/Mail.app  \r\n\n/Users/me/Applications/Tool.app\n";
    let paths = discover_app_paths_with_spotlight(true, stdout, "", "/Users/me").unwrap();
    assert_eq!(
        paths,
        vec![
            "/Applications/Safari.app",
            "/System/Applications/Mail.app",
            "/Users/me/Applications/Tool.app"
        ]
    );
    assert_eq!(
        discover_app_paths_with_spotlight(false, "/Applications/Safari.app", " boom \n", "/Users/me"),
        Err("Spotlight app discovery failed: boom".to_string())
    );
    assert_eq!(discover_app_paths_with_spotlight(true, "", "", "/Users/me"), Ok(vec![]));
}

#[test]
fn discovery_falls_back_to_folder_scan() {
    let paths = vec!["/Applications/Safari.app".to_string()];
    assert!(matches!(
        discover_installed_apps_source(Ok(paths.clone())),
        DiscoverySource::Spotlight(ref p) if *p == paths
    ));
    assert!(matches!(discover_installed_apps_source(Ok(vec![])), DiscoverySource::FolderScan));
    assert!(matches!(discover_installed_apps_source(Err("x".into())), DiscoverySource::FolderScan));
}

#[test]
fn normalize_keeps_each_bundle_once_law() {
    let c = |path: &str, exists: bool, canonical: Option<&str>| PathCandidate {
        path: path.to_string(),
        exists,
        canonical: canonical.map(str::to_string),
    };
    let kept = normalize_app_paths(vec![
        c("/Applications/Safari.app", true, Some("/Applications/Safari.app")),
        c("/Applications/Notes.txt", true, None),
        c("/Applications/Gone.app", false, None),
        c("/Applications//Safari.app", true, Some("/Applications/Safari.app")),
        c("/Applications/Link.app", true, Some("/System/Applications/Mail.app")),
        c("/System/Applications/Mail.app", true, Some("/System/Applications/Mail.app")),
        c("/Applications/Raw.app", true, None),
        c("/Applications/Raw.app", true, None),
        c("/Applications/.app", true, None),
    ]);
    assert_eq!(
        kept,
        vec!["/Applications/Safari.app", "/Applications/Link.app", "/Applications/Raw.app"]
    );
}

#[test]
fn catalog_rows_sorted_by_lowercase_name_stably() {
    let facts = |name: &str, path: &str, id: Option<&str>, icon: Option<&[u8]>| AppBundleFacts {
        path: path.to_string(),
        name: name.to_string(),
        bundle_id: id.map(str::to_string),
        icon: icon.map(|b| b.to_vec()),
    };
    let apps = build_installed_apps_from_paths(vec![
        facts("zed", "/Applications/Zed.app", Some("dev.zed"), None),
        facts("Alpha", "/Applications/Alpha One.app", None, Some(b"abc")),
        facts("beta", "/Applications/Beta.app", Some("b"), None),
        facts("alpha", "/Applications/alpha.app", Some("a2"), None),
    ]);
    assert_eq!(names(&apps), vec!["Alpha", "alpha", "beta", "zed"]);
    assert_eq!(apps[0].bundle_id, "Alpha-One");
    assert_eq!(apps[0].cached_icon, Some("data:image/png;base64,YWJj".to_string()));
    assert_eq!(apps[1].path, "/Applications/alpha.app");
    let resorted = sort_installed_apps_by_name(apps);
    assert_eq!(names(&resorted), vec!["Alpha", "alpha", "beta", "zed"]);
    let unicode = sort_installed_apps_by_name(vec![app("Émail", "/e.app"), app("ebook", "/b.app"), app("Zeta", "/z.app")]);
    assert_eq!(names(&unicode), vec!["ebook", "Zeta", "Émail"]);
}

#[test]
fn disk_cache_round_trip_keeps_existing_apps_with_found_icons_law() {
    let apps = vec![
        app("Safari", "/Applications/Safari.app"),
        app("Gone", "/Applications/Gone.app"),
        app("Mail", "/System/Applications/Mail.app"),
    ];
    let saved = disk_cache_from_apps(&apps);
    let facts = vec![(true, Some(b"png".to_vec())), (false, Some(b"old".to_vec())), (true, None)];
    let entries: Vec<DiskCacheEntry> = saved
        .apps
        .into_iter()
        .zip(facts)
        .map(|(cached, (exists, icon))| DiskCacheEntry { cached, exists, icon })
        .collect();
    let loaded = load_installed_apps_disk_cache(saved.version, entries).unwrap();
    assert_eq!(names(&loaded), vec!["Safari", "Mail"]);
    assert_eq!(loaded[0].path, "/Applications/Safari.app");
    assert_eq!(loaded[0].bundle_id, "id.Safari");
    assert_eq!(loaded[0].cached_icon, Some(png_bytes_to_data_url(b"png")));
    assert_eq!(loaded[1].path, "/System/Applications/Mail.app");
    assert_eq!(loaded[1].cached_icon, None);
}

#[test]
fn normalize_is_idempotent_law() {
    // One file system, asked about each path the same way on both passes.
    let on_disk = |path: &str| -> PathCandidate {
        let (exists, canonical) = match path {
            "/Applications/Safari.app" | "/Applications//Safari.app" => {
                (true, Some("/Applications/Safari.app"))
            }
            "/Applications/Link.app" | "/System/Applications/Mail.app" => {
                (true, Some("/System/Applications/Mail.app"))
            }
            "/Applications/Raw.app" | "/Applications/Notes.txt" => (true, None),
            _ => (false, None),
        };
        PathCandidate { path: path.to_string(), exists, canonical: canonical.map(str::to_string) }
    };
    let paths = [
        "/Applications/Safari.app",
        "/Applications/Notes.txt",
        "/Applications/Gone.app",
        "/Applications//Safari.app",
        "/Applications/Link.app",
        "/System/Applications/Mail.app",
        "/Applications/Raw.app",
        "/Applications/Raw.app",
    ];
    let once = normalize_app_paths(paths.iter().map(|p| on_disk(p)).collect());
    let twice = normalize_app_paths(once.iter().map(|p| on_disk(p)).collect());
    assert_eq!(once, vec!["/Applications/Safari.app", "/Applications/Link.app", "/Applications/Raw.app"]);
    assert_eq!(twice, once);
}
