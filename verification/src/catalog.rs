//! The app catalog: the installed-app rows handed to the dock, the memory
//! cache that holds them, the guard that keeps one background refresh at a
//! time, the steps of answering a listing request, and the rows as the disk
//! cache keeps them.
use vstd::prelude::*;

use crate::codec::base64_padded_len;
use crate::icons::{png_bytes_to_data_url, png_data_url_text};

verus! {

/// An installed app as the catalog hands it out.
pub struct InstalledApp {
    pub name: String,
    pub path: String,
    pub bundle_id: String,
    /// A data URL of the app's icon, when one is already cached.
    pub cached_icon: Option<String>,
}

/// An installed app as text: name, path, bundle identifier, cached icon URL.
pub type AppRow = (Seq<char>, Seq<char>, Seq<char>, Option<Seq<char>>);

impl View for InstalledApp {
    type V = AppRow;

    open spec fn view(&self) -> AppRow {
        (
            self.name@,
            self.path@,
            self.bundle_id@,
            match self.cached_icon {
                Some(url) => Some(url@),
                None => None,
            },
        )
    }
}

/// The rows of a sequence of apps.
pub open spec fn rows(apps: Seq<InstalledApp>) -> Seq<AppRow> {
    apps.map_values(|app: InstalledApp| app@)
}

/// What the memory cache answers a listing request with: its rows, unless
/// it holds none.
pub open spec fn memory_listing(cache: Seq<AppRow>) -> Option<Seq<AppRow>> {
    if cache.len() > 0 {
        Some(cache)
    } else {
        None
    }
}

/// Claiming the refresh guard when it is `held` (or not): whether the claim
/// starts a refresh, and whether the guard is held afterwards.
pub open spec fn claim_refresh_guard(held: bool) -> (bool, bool) {
    (!held, true)
}

/// Whether the refresh guard is held after a refresh finishes.
pub open spec fn released_refresh_guard() -> bool {
    false
}

/// An app as the disk cache keeps it: without its icon.
pub struct CachedInstalledApp {
    pub name: String,
    pub path: String,
    pub bundle_id: String,
}

/// A disk-cache entry as text: name, path, bundle identifier.
pub type CachedRow = (Seq<char>, Seq<char>, Seq<char>);

impl View for CachedInstalledApp {
    type V = CachedRow;

    open spec fn view(&self) -> CachedRow {
        (self.name@, self.path@, self.bundle_id@)
    }
}

/// The layout version the disk cache is written in; other versions are ignored.
pub const APP_CATALOG_DISK_CACHE_VERSION: u32 = 1;

/// The app catalog as saved on disk.
pub struct AppCatalogDiskCache {
    pub version: u32,
    pub apps: Vec<CachedInstalledApp>,
}

/// A disk-cache entry together with what the file system says of it: whether
/// the app is still there, and its cached icon if one could be read.
pub struct DiskCacheEntry {
    pub cached: CachedInstalledApp,
    pub exists: bool,
    pub icon: Option<Vec<u8>>,
}

/// A disk-cache entry with its file-system facts, as values.
pub type DiskCacheEntryView = (CachedRow, bool, Option<Seq<u8>>);

impl View for DiskCacheEntry {
    type V = DiskCacheEntryView;

    open spec fn view(&self) -> DiskCacheEntryView {
        (
            self.cached@,
            self.exists,
            match self.icon {
                Some(bytes) => Some(bytes@),
                None => None,
            },
        )
    }
}

/// Icon data short enough for its Base64 text to be counted in a `usize`.
pub open spec fn encodable_icon(icon: Option<Seq<u8>>) -> bool {
    match icon {
        Some(bytes) => base64_padded_len(bytes.len() as int) <= usize::MAX,
        None => true,
    }
}

/// The data URL of an icon, if there is one.
pub open spec fn icon_url(icon: Option<Seq<u8>>) -> Option<Seq<char>> {
    match icon {
        Some(bytes) => Some(png_data_url_text(bytes)),
        None => None,
    }
}

/// The row a disk-cache entry gives back.
pub open spec fn row_from_cached(cached: CachedRow, icon: Option<Seq<u8>>) -> AppRow {
    (cached.0, cached.1, cached.2, icon_url(icon))
}

/// The rows of the entries whose apps still exist, in order.
pub open spec fn rows_from_disk_entries(entries: Seq<DiskCacheEntryView>) -> Seq<AppRow>
    decreases entries.len(),
{
    if entries.len() == 0 {
        Seq::empty()
    } else {
        let prev = rows_from_disk_entries(entries.drop_last());
        let e = entries.last();
        if e.1 {
            prev.push(row_from_cached(e.0, e.2))
        } else {
            prev
        }
    }
}

/// The entry the disk cache keeps for a row.
pub open spec fn cached_row_of(row: AppRow) -> CachedRow {
    (row.0, row.1, row.2)
}

/// `i` is the first index whose row has path `path`.
pub open spec fn is_first_with_path(rows: Seq<AppRow>, path: Seq<char>, i: int) -> bool {
    0 <= i < rows.len() && rows[i].1 == path && forall|j: int| 0 <= j < i ==> rows[j].1 != path
}

/// Some row has path `path`.
pub open spec fn has_path(rows: Seq<AppRow>, path: Seq<char>) -> bool {
    exists|i: int| 0 <= i < rows.len() && rows[i].1 == path
}

/// `row` with its cached icon set to `url`.
pub open spec fn with_icon(row: AppRow, url: Seq<char>) -> AppRow {
    (row.0, row.1, row.2, Some(url))
}

impl InstalledApp {
    /// A copy of this app.
    pub fn duplicate(&self) -> (r: InstalledApp)
        ensures
            r@ == self@,
    {
        let cached_icon = match &self.cached_icon {
            Some(url) => Some(url.clone()),
            None => None,
        };
        InstalledApp {
            name: self.name.clone(),
            path: self.path.clone(),
            bundle_id: self.bundle_id.clone(),
            cached_icon,
        }
    }
}

/// A copy of a list of apps.
pub fn duplicate_apps(apps: &Vec<InstalledApp>) -> (r: Vec<InstalledApp>)
    ensures
        rows(r@) == rows(apps@),
{
    let mut r: Vec<InstalledApp> = Vec::new();
    let n = apps.len();
    let mut i: usize = 0;
    while i < n
        invariant
            n == apps@.len(),
            i <= n,
            rows(r@) == rows(apps@).take(i as int),
        decreases n - i,
    {
        let copy = apps[i].duplicate();
        let ghost before = r@;
        r.push(copy);
        assert(r@ == before.push(copy));
        assert(rows(r@) =~= rows(before).push(copy@));
        assert(rows(apps@)[i as int] == apps@[i as int]@);
        assert(rows(r@) =~= rows(apps@).take(i + 1));
        i += 1;
    }
    assert(rows(apps@).take(n as int) =~= rows(apps@));
    r
}

/// The catalog rows held in memory between requests.
pub struct AppCatalogCache {
    apps: Vec<InstalledApp>,
}

impl View for AppCatalogCache {
    type V = Seq<AppRow>;

    closed spec fn view(&self) -> Seq<AppRow> {
        rows(self.apps@)
    }
}

impl AppCatalogCache {
    /// An empty cache.
    pub fn new() -> (r: AppCatalogCache)
        ensures
            r@ == Seq::<AppRow>::empty(),
    {
        let r = AppCatalogCache { apps: Vec::new() };
        assert(r@ =~= Seq::<AppRow>::empty());
        r
    }

    /// Whether the cache holds no rows.
    pub fn is_empty(&self) -> (r: bool)
        ensures
            r == (self@.len() == 0),
    {
        self.apps.len() == 0
    }

    /// A copy of the rows the cache holds.
    pub fn snapshot(&self) -> (r: Vec<InstalledApp>)
        ensures
            rows(r@) == self@,
    {
        duplicate_apps(&self.apps)
    }
}

/// Replaces the memory cache's rows with `apps` and hands `apps` back.
pub fn store_installed_apps_memory_cache(cache: &mut AppCatalogCache, apps: Vec<InstalledApp>) -> (r:
    Vec<InstalledApp>)
    ensures
        final(cache)@ == rows(apps@),
        rows(r@) == rows(apps@),
{
    cache.apps = duplicate_apps(&apps);
    apps
}

/// Empties the memory cache.
pub fn clear_installed_apps_memory_cache(cache: &mut AppCatalogCache)
    ensures
        final(cache)@ == Seq::<AppRow>::empty(),
{
    cache.apps = Vec::new();
    assert(cache@ =~= Seq::<AppRow>::empty());
}

/// A refresh: the memory cache is emptied, then holds the freshly
/// discovered `discovered`, which is handed back.
pub fn refresh_installed_apps_cache(cache: &mut AppCatalogCache, discovered: Vec<InstalledApp>) -> (r:
    Vec<InstalledApp>)
    ensures
        final(cache)@ == rows(discovered@),
        rows(r@) == rows(discovered@),
{
    clear_installed_apps_memory_cache(cache);
    store_installed_apps_memory_cache(cache, discovered)
}

/// Sets the cached icon of the first app in the memory cache whose path is
/// `app_path` to the data URL of `icon_bytes`; other rows, and the cache when
/// no row has that path, are left as they were.
pub fn update_cached_icon_for_app(cache: &mut AppCatalogCache, app_path: &str, icon_bytes: &[u8])
    requires
        base64_padded_len(icon_bytes@.len() as int) <= usize::MAX,
    ensures
        has_path(old(cache)@, app_path@) ==> exists|i: int|
            is_first_with_path(old(cache)@, app_path@, i) && final(cache)@ == old(cache)@.update(
                i,
                with_icon(old(cache)@[i], png_data_url_text(icon_bytes@)),
            ),
        !has_path(old(cache)@, app_path@) ==> final(cache)@ == old(cache)@,
{
    let target = app_path.to_owned();
    let n = cache.apps.len();
    let mut i: usize = 0;
    while i < n
        invariant
            n == cache.apps@.len(),
            i <= n,
            cache@ == old(cache)@,
            target@ == app_path@,
            base64_padded_len(icon_bytes@.len() as int) <= usize::MAX,
            forall|j: int| 0 <= j < i ==> old(cache)@[j].1 != app_path@,
        decreases n - i,
    {
        assert(cache@[i as int] == cache.apps@[i as int]@);
        if cache.apps[i].path == target {
            let url = png_bytes_to_data_url(icon_bytes);
            let ghost before = cache.apps@;
            let mut app = cache.apps.remove(i);
            app.cached_icon = Some(url);
            cache.apps.insert(i, app);
            assert(rows(cache.apps@) =~= rows(before).update(
                i as int,
                with_icon(rows(before)[i as int], png_data_url_text(icon_bytes@)),
            ));
            assert(is_first_with_path(old(cache)@, app_path@, i as int));
            return;
        }
        i += 1;
    }
}

/// Keeps background refreshes of the catalog to one at a time.
pub struct RefreshGuard {
    in_flight: bool,
}

impl View for RefreshGuard {
    type V = bool;

    /// Whether a background refresh is running.
    closed spec fn view(&self) -> bool {
        self.in_flight
    }
}

impl RefreshGuard {
    /// A guard with no refresh running.
    pub fn new() -> (r: RefreshGuard)
        ensures
            !r@,
    {
        RefreshGuard { in_flight: false }
    }

    /// Claims the guard for a background refresh: `true`, and the guard held,
    /// unless a refresh already holds it.
    pub fn try_begin_background_refresh(&mut self) -> (started: bool)
        ensures
            (started, final(self)@) == claim_refresh_guard(old(self)@),
    {
        if self.in_flight {
            false
        } else {
            self.in_flight = true;
            true
        }
    }

    /// Releases the guard when a background refresh ends.
    pub fn finish_background_refresh(&mut self)
        ensures
            final(self)@ == released_refresh_guard(),
    {
        self.in_flight = false;
    }
}

/// What happened since the last step of answering a listing request.
pub enum ListingEvent {
    /// The dock asked for the installed apps.
    Requested,
    /// The disk cache was read: its rows, if it held any.
    DiskCacheLoaded(Option<Vec<InstalledApp>>),
    /// The apps were discovered afresh.
    Discovered(Vec<InstalledApp>),
}

/// What to do next to answer a listing request.
pub enum ListingAction {
    /// Answer with these apps.
    Respond(Vec<InstalledApp>),
    /// Read the disk cache and report `DiskCacheLoaded`.
    LoadDiskCache,
    /// Answer with these apps and start a background refresh.
    RespondAndRefreshInBackground(Vec<InstalledApp>),
    /// Discover the installed apps and report `Discovered`.
    Discover,
    /// Answer with these apps and save them to the disk cache.
    RespondAndSaveToDisk(Vec<InstalledApp>),
}

/// One step of answering a listing request: the memory cache first; when it
/// is empty, the disk cache (after which a background refresh starts unless
/// one is running); when that holds nothing, discovery, whose result is kept
/// in memory and saved to disk.
pub fn list_installed_apps_cached(
    cache: &mut AppCatalogCache,
    guard: &mut RefreshGuard,
    event: ListingEvent,
) -> (r: ListingAction)
    ensures
        match event {
            ListingEvent::Requested => {
                &&& final(cache)@ == old(cache)@
                &&& final(guard)@ == old(guard)@
                &&& match memory_listing(old(cache)@) {
                    Some(listed) => r matches ListingAction::Respond(apps) && rows(apps@) == listed,
                    None => r is LoadDiskCache,
                }
            },
            ListingEvent::DiskCacheLoaded(Some(apps)) => {
                &&& final(cache)@ == rows(apps@)
                &&& final(guard)@ == claim_refresh_guard(old(guard)@).1
                &&& if claim_refresh_guard(old(guard)@).0 {
                    r matches ListingAction::RespondAndRefreshInBackground(out) && rows(out@)
                        == rows(apps@)
                } else {
                    r matches ListingAction::Respond(out) && rows(out@) == rows(apps@)
                }
            },
            ListingEvent::DiskCacheLoaded(None) => {
                &&& final(cache)@ == old(cache)@
                &&& final(guard)@ == old(guard)@
                &&& r is Discover
            },
            ListingEvent::Discovered(apps) => {
                &&& final(cache)@ == rows(apps@)
                &&& final(guard)@ == old(guard)@
                &&& r matches ListingAction::RespondAndSaveToDisk(out) && rows(out@) == rows(
                    apps@,
                )
            },
        },
{
    match event {
        ListingEvent::Requested => {
            if cache.is_empty() {
                ListingAction::LoadDiskCache
            } else {
                ListingAction::Respond(cache.snapshot())
            }
        },
        ListingEvent::DiskCacheLoaded(Some(apps)) => {
            let stored = store_installed_apps_memory_cache(cache, apps);
            if guard.try_begin_background_refresh() {
                ListingAction::RespondAndRefreshInBackground(stored)
            } else {
                ListingAction::Respond(stored)
            }
        },
        ListingEvent::DiskCacheLoaded(None) => ListingAction::Discover,
        ListingEvent::Discovered(apps) => {
            let stored = store_installed_apps_memory_cache(cache, apps);
            ListingAction::RespondAndSaveToDisk(stored)
        },
    }
}

/// The disk cache's form of the catalog: the current layout version and
/// each app without its icon, in order.
pub fn disk_cache_from_apps(apps: &Vec<InstalledApp>) -> (r: AppCatalogDiskCache)
    ensures
        r.version == APP_CATALOG_DISK_CACHE_VERSION,
        r.apps@.len() == apps@.len(),
        forall|k: int| 0 <= k < apps@.len() ==> #[trigger] r.apps@[k]@ == cached_row_of(apps@[k]@),
{
    let mut entries: Vec<CachedInstalledApp> = Vec::new();
    let n = apps.len();
    let mut i: usize = 0;
    while i < n
        invariant
            n == apps@.len(),
            i <= n,
            entries@.len() == i,
            forall|k: int| 0 <= k < i ==> #[trigger] entries@[k]@ == cached_row_of(apps@[k]@),
        decreases n - i,
    {
        let app = &apps[i];
        entries.push(
            CachedInstalledApp {
                name: app.name.clone(),
                path: app.path.clone(),
                bundle_id: app.bundle_id.clone(),
            },
        );
        i += 1;
    }
    AppCatalogDiskCache { version: APP_CATALOG_DISK_CACHE_VERSION, apps: entries }
}

/// Whether a disk cache written in layout `version` can be read.
pub fn is_current_disk_cache_version(version: u32) -> (r: bool)
    ensures
        r == (version == APP_CATALOG_DISK_CACHE_VERSION),
{
    version == APP_CATALOG_DISK_CACHE_VERSION
}

/// The row a disk-cache entry gives back: none when the app no longer
/// exists; otherwise its name, path and bundle identifier with the data URL
/// of its cached icon, if one was found.
pub fn installed_app_from_disk_cache(
    cached: CachedInstalledApp,
    exists: bool,
    icon: Option<Vec<u8>>,
) -> (r: Option<InstalledApp>)
    requires
        encodable_icon(
            match icon {
                Some(bytes) => Some(bytes@),
                None => None,
            },
        ),
    ensures
        !exists ==> r is None,
        exists ==> (r matches Some(app) && app@ == row_from_cached(
            cached@,
            match icon {
                Some(bytes) => Some(bytes@),
                None => None,
            },
        )),
{
    if !exists {
        return None;
    }
    let cached_icon = match &icon {
        Some(bytes) => Some(png_bytes_to_data_url(bytes.as_slice())),
        None => None,
    };
    Some(
        InstalledApp {
            name: cached.name,
            path: cached.path,
            bundle_id: cached.bundle_id,
            cached_icon,
        },
    )
}

/// The catalog a disk cache gives back: none when it is in another layout
/// version or none of its apps exist any more; otherwise the rows of the
/// apps that exist, in order.
pub fn load_installed_apps_disk_cache(version: u32, entries: Vec<DiskCacheEntry>) -> (r: Option<
    Vec<InstalledApp>,
>)
    requires
        forall|k: int| 0 <= k < entries@.len() ==> encodable_icon(#[trigger] entries@[k]@.2),
    ensures
        version != APP_CATALOG_DISK_CACHE_VERSION ==> r is None,
        version == APP_CATALOG_DISK_CACHE_VERSION ==> {
            let loaded = rows_from_disk_entries(entries@.map_values(|e: DiskCacheEntry| e@));
            if loaded.len() == 0 {
                r is None
            } else {
                r matches Some(apps) && rows(apps@) == loaded
            }
        },
{
    if !is_current_disk_cache_version(version) {
        return None;
    }
    let ghost views = entries@.map_values(|e: DiskCacheEntry| e@);
    let ghost all = entries@;
    let mut apps: Vec<InstalledApp> = Vec::new();
    assert(views.take(0) =~= Seq::<DiskCacheEntryView>::empty());
    for entry in it: entries
        invariant
            views == all.map_values(|e: DiskCacheEntry| e@),
            it.seq() == all,
            forall|k: int| 0 <= k < all.len() ==> encodable_icon(#[trigger] all[k]@.2),
            rows(apps@) == rows_from_disk_entries(views.take(it.index() as int)),
    {
        let ghost i = it.index() as int;
        assert(entry == all[i]);
        let ghost e = views[i];
        assert(e == entry@);
        assert(encodable_icon(all[i]@.2));
        assert(views.take(i + 1).drop_last() =~= views.take(i));
        assert(views.take(i + 1).last() == e);
        let DiskCacheEntry { cached, exists, icon } = entry;
        match installed_app_from_disk_cache(cached, exists, icon) {
            Some(app) => {
                apps.push(app);
                assert(rows(apps@) =~= rows_from_disk_entries(views.take(i + 1)));
            },
            None => {
                assert(rows(apps@) =~= rows_from_disk_entries(views.take(i + 1)));
            },
        }
    }
    assert(views.take(views.len() as int) =~= views);
    if apps.len() == 0 {
        None
    } else {
        Some(apps)
    }
}

} // verus!
