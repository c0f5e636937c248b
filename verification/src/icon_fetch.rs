//! Fetching an app's icon, as decisions between outside steps: the icon
//! caches first; when they hold nothing, an export through NSWorkspace into
//! the current cache file; when that fails, a conversion of the bundle's own
//! `.icns` file with `sips`. The caller performs each action and reports
//! what came of it as the next event.
use vstd::prelude::*;

use crate::bundle::{bundle_icon_path, bundle_icon_path_text, info_plist_path, info_plist_path_text};
use crate::codec::json_string_literal;
use crate::icons::{
    app_icon_cache_dir, app_icon_cache_path, icon_cache_dir_text, icon_cache_path_text,
    icon_conversion_failure_message, icon_export_script_text, icon_fallback_failure_message,
    icon_is_usable, missing_bundle_icon_message, nsworkspace_icon_script, usable_icon, IconSource,
};
use crate::metadata::read_bundle_icon_name;
use crate::text::{decimal_text, trim, trim_text};

verus! {

/// How an outside process ended: whether it reported success, and its
/// error output.
pub struct ProcessOutcome {
    pub succeeded: bool,
    pub stderr: String,
}

/// What came of the last action while fetching an icon.
pub enum IconFetchEvent {
    /// The icon was asked for.
    Started,
    /// The icon caches were read: a usable cached icon, if any.
    CacheRead(Option<Vec<u8>>),
    /// The cache directory was created, or why not.
    CacheDirCreated(Result<(), String>),
    /// The NSWorkspace export script ran, or why it could not be started.
    WorkspaceExportRan(Result<ProcessOutcome, String>),
    /// The exported icon file was read, or why not.
    WorkspaceIconRead(Result<Vec<u8>, String>),
    /// The bundle's `CFBundleIconFile` value, if it could be read.
    BundleIconNameRead(Option<String>),
    /// Whether the bundle's icon file exists.
    BundleIconChecked(bool),
    /// `sips` ran on the bundle's icon file, or why it could not be started.
    ConversionRan(Result<ProcessOutcome, String>),
    /// The converted icon file was read, or why not.
    ConvertedIconRead(Result<Vec<u8>, String>),
}

/// What to do next while fetching an icon.
pub enum IconFetchAction {
    /// Read the icon caches (migrating an earlier cache file) and report `CacheRead`.
    ReadCache,
    /// Create this directory and report `CacheDirCreated`.
    CreateCacheDir(String),
    /// Run this script with `osascript -l JavaScript -e` and report `WorkspaceExportRan`.
    RunWorkspaceExport(String),
    /// Read this file and report `WorkspaceIconRead`.
    ReadWorkspaceIcon(String),
    /// Read `CFBundleIconFile` from this `Info.plist` and report `BundleIconNameRead`.
    ReadBundleIconName(String),
    /// Check that this icon file exists and report `BundleIconChecked`.
    CheckBundleIcon(String),
    /// Convert `icon_path` to a 256-pixel PNG at `output_path` with `sips`
    /// and report `ConversionRan`.
    RunConversion { icon_path: String, output_path: String },
    /// Read this file and report `ConvertedIconRead`.
    ReadConvertedIcon(String),
    /// The fetch is over: the icon's PNG bytes, or why there are none.
    Finish(Result<Vec<u8>, String>),
}

/// The state of fetching the icon of one app.
pub struct IconFetch {
    temp_dir: String,
    app_path: String,
    icon_path: String,
    workspace_error: String,
}

/// The fetch's state as text: the temporary directory, the app's path, the
/// bundle icon file found so far, and why NSWorkspace gave no icon.
pub type IconFetchView = (Seq<char>, Seq<char>, Seq<char>, Seq<char>);

impl View for IconFetch {
    type V = IconFetchView;

    closed spec fn view(&self) -> IconFetchView {
        (self.temp_dir@, self.app_path@, self.icon_path@, self.workspace_error@)
    }
}

/// Why icon data of `len` bytes is not usable.
pub open spec fn icon_too_small_text(len: nat) -> Seq<char> {
    "icon data is too small ("@ + decimal_text(len) + " bytes)"@
}

/// Why neither NSWorkspace nor the bundle's own icon gave an icon.
pub open spec fn icon_fallback_text(workspace_error: Seq<char>, bundle_error: Seq<char>) -> Seq<
    char,
> {
    "NSWorkspace icon failed: "@ + workspace_error + "; bundle icon fallback failed: "@
        + bundle_error
}

/// The state after NSWorkspace failed with `error`.
pub open spec fn after_workspace_failure(s: IconFetchView, error: Seq<char>) -> IconFetchView {
    (s.0, s.1, s.2, error)
}

/// NSWorkspace failed with `error`: the fetch goes on with the bundle's icon.
pub open spec fn falls_back(
    s: IconFetchView,
    t: IconFetchView,
    r: IconFetchAction,
    error: Seq<char>,
) -> bool {
    &&& t == after_workspace_failure(s, error)
    &&& r matches IconFetchAction::ReadBundleIconName(plist) && plist@ == info_plist_path_text(s.1)
}

/// The bundle's icon failed with `error` after NSWorkspace had failed: the
/// fetch ends with both reasons.
pub open spec fn fails_both(s: IconFetchView, r: IconFetchAction, error: Seq<char>) -> bool {
    r matches IconFetchAction::Finish(Err(m)) && m@ == icon_fallback_text(s.3, error)
}

impl IconFetch {
    /// The fetch of the icon of the app at `app_path`, converted icons being
    /// cached under `temp_dir`.
    pub fn new(temp_dir: &str, app_path: &str) -> (r: IconFetch)
        ensures
            r@ == (temp_dir@, app_path@, Seq::<char>::empty(), Seq::<char>::empty()),
    {
        IconFetch {
            temp_dir: temp_dir.to_owned(),
            app_path: app_path.to_owned(),
            icon_path: String::new(),
            workspace_error: String::new(),
        }
    }

    /// Records why NSWorkspace failed and turns to the bundle's icon.
    fn fall_back(&mut self, error: String) -> (r: IconFetchAction)
        ensures
            falls_back(old(self)@, final(self)@, r, error@),
    {
        self.workspace_error = error;
        IconFetchAction::ReadBundleIconName(info_plist_path(&self.app_path))
    }

    /// Ends the fetch after the bundle's icon failed too.
    fn fail_both(&self, error: &str) -> (r: IconFetchAction)
        ensures
            fails_both(self@, r, error@),
    {
        IconFetchAction::Finish(Err(icon_fallback_failure_message(&self.workspace_error, error)))
    }

    /// One step of fetching the icon. A usable cached icon ends the fetch.
    /// Otherwise the cache directory is created (its failure ends the fetch)
    /// and NSWorkspace exports the icon into the cache file; a failed export
    /// reports the trimmed error output of `osascript`. An export that fails,
    /// cannot be read or is too small turns the fetch to the bundle's
    /// declared icon file, converted by `sips`; when that fails too, the
    /// fetch ends with both reasons.
    #[verifier::rlimit(30)]
    pub fn step(&mut self, event: IconFetchEvent) -> (r: IconFetchAction)
        ensures
            match event {
                IconFetchEvent::Started => {
                    &&& r is ReadCache
                    &&& final(self)@ == old(self)@
                },
                IconFetchEvent::CacheRead(Some(bytes)) => {
                    &&& r == IconFetchAction::Finish(Ok(bytes))
                    &&& final(self)@ == old(self)@
                },
                IconFetchEvent::CacheRead(None) => {
                    &&& r matches IconFetchAction::CreateCacheDir(dir) && dir@ == icon_cache_dir_text(
                        old(self)@.0,
                    )
                    &&& final(self)@ == old(self)@
                },
                IconFetchEvent::CacheDirCreated(Err(e)) => {
                    &&& r matches IconFetchAction::Finish(Err(m)) && m@ == "Failed to create icon cache: "@
                        + e@
                    &&& final(self)@ == old(self)@
                },
                IconFetchEvent::CacheDirCreated(Ok(())) => {
                    &&& r matches IconFetchAction::RunWorkspaceExport(script) && script@
                        == icon_export_script_text(
                        json_string_literal(old(self)@.1),
                        json_string_literal(icon_cache_path_text(old(self)@.0, old(self)@.1)),
                    )
                    &&& final(self)@ == old(self)@
                },
                IconFetchEvent::WorkspaceExportRan(Err(e)) => falls_back(
                    old(self)@,
                    final(self)@,
                    r,
                    "Failed to run NSWorkspace icon fallback: "@ + e@,
                ),
                IconFetchEvent::WorkspaceExportRan(Ok(outcome)) => if outcome.succeeded {
                    &&& r matches IconFetchAction::ReadWorkspaceIcon(p) && p@ == icon_cache_path_text(
                        old(self)@.0,
                        old(self)@.1,
                    )
                    &&& final(self)@ == old(self)@
                } else {
                    falls_back(old(self)@, final(self)@, r, trim(outcome.stderr@))
                },
                IconFetchEvent::WorkspaceIconRead(Err(e)) => falls_back(
                    old(self)@,
                    final(self)@,
                    r,
                    "Failed to read NSWorkspace app icon: "@ + e@,
                ),
                IconFetchEvent::WorkspaceIconRead(Ok(bytes)) => if icon_is_usable(bytes@.len()) {
                    &&& r matches IconFetchAction::Finish(Ok(icon)) && icon@ == bytes@
                    &&& final(self)@ == old(self)@
                } else {
                    falls_back(
                        old(self)@,
                        final(self)@,
                        r,
                        "NSWorkspace app icon is not usable: "@ + icon_too_small_text(bytes@.len()),
                    )
                },
                IconFetchEvent::BundleIconNameRead(None) => {
                    &&& fails_both(
                        old(self)@,
                        r,
                        "Failed to read icon metadata from "@ + info_plist_path_text(old(self)@.1),
                    )
                    &&& final(self)@ == old(self)@
                },
                IconFetchEvent::BundleIconNameRead(Some(name)) => if name@.len() == 0 {
                    &&& fails_both(
                        old(self)@,
                        r,
                        "No app icon declared in "@ + info_plist_path_text(old(self)@.1),
                    )
                    &&& final(self)@ == old(self)@
                } else {
                    &&& final(self)@ == (
                        old(self)@.0,
                        old(self)@.1,
                        bundle_icon_path_text(old(self)@.1, name@),
                        old(self)@.3,
                    )
                    &&& r matches IconFetchAction::CheckBundleIcon(p) && p@ == bundle_icon_path_text(
                        old(self)@.1,
                        name@,
                    )
                },
                IconFetchEvent::BundleIconChecked(found) => {
                    &&& final(self)@ == old(self)@
                    &&& if found {
                        r matches IconFetchAction::RunConversion { icon_path, output_path } && icon_path@
                            == old(self)@.2 && output_path@ == icon_cache_path_text(
                            old(self)@.0,
                            old(self)@.1,
                        )
                    } else {
                        fails_both(old(self)@, r, "App icon not found at "@ + old(self)@.2)
                    }
                },
                IconFetchEvent::ConversionRan(Err(e)) => {
                    &&& fails_both(old(self)@, r, "Failed to convert app icon: "@ + e@)
                    &&& final(self)@ == old(self)@
                },
                IconFetchEvent::ConversionRan(Ok(outcome)) => {
                    &&& final(self)@ == old(self)@
                    &&& if outcome.succeeded {
                        r matches IconFetchAction::ReadConvertedIcon(p) && p@ == icon_cache_path_text(
                            old(self)@.0,
                            old(self)@.1,
                        )
                    } else {
                        fails_both(
                            old(self)@,
                            r,
                            "Failed to convert "@ + old(self)@.2 + ": "@ + trim(outcome.stderr@),
                        )
                    }
                },
                IconFetchEvent::ConvertedIconRead(Err(e)) => {
                    &&& fails_both(old(self)@, r, "Failed to read converted app icon: "@ + e@)
                    &&& final(self)@ == old(self)@
                },
                IconFetchEvent::ConvertedIconRead(Ok(bytes)) => {
                    &&& final(self)@ == old(self)@
                    &&& if icon_is_usable(bytes@.len()) {
                        r matches IconFetchAction::Finish(Ok(icon)) && icon@ == bytes@
                    } else {
                        fails_both(
                            old(self)@,
                            r,
                            "Converted app icon is not usable: "@ + icon_too_small_text(
                                bytes@.len(),
                            ),
                        )
                    }
                },
            },
    {
        match event {
            IconFetchEvent::Started => IconFetchAction::ReadCache,
            IconFetchEvent::CacheRead(Some(bytes)) => IconFetchAction::Finish(Ok(bytes)),
            IconFetchEvent::CacheRead(None) => IconFetchAction::CreateCacheDir(
                app_icon_cache_dir(&self.temp_dir),
            ),
            IconFetchEvent::CacheDirCreated(Err(e)) => {
                let mut message = String::from_str("Failed to create icon cache: ");
                message.append(&e);
                IconFetchAction::Finish(Err(message))
            },
            IconFetchEvent::CacheDirCreated(Ok(())) => {
                let output_path = app_icon_cache_path(&self.temp_dir, &self.app_path);
                match nsworkspace_icon_script(&self.app_path, &output_path) {
                    Ok(script) => IconFetchAction::RunWorkspaceExport(script),
                    Err(message) => self.fall_back(message),
                }
            },
            IconFetchEvent::WorkspaceExportRan(Err(e)) => {
                let mut message = String::from_str("Failed to run NSWorkspace icon fallback: ");
                message.append(&e);
                self.fall_back(message)
            },
            IconFetchEvent::WorkspaceExportRan(Ok(outcome)) => {
                if outcome.succeeded {
                    IconFetchAction::ReadWorkspaceIcon(
                        app_icon_cache_path(&self.temp_dir, &self.app_path),
                    )
                } else {
                    let message = trim_text(&outcome.stderr);
                    self.fall_back(message)
                }
            },
            IconFetchEvent::WorkspaceIconRead(Err(e)) => {
                let mut message = String::from_str("Failed to read NSWorkspace app icon: ");
                message.append(&e);
                self.fall_back(message)
            },
            IconFetchEvent::WorkspaceIconRead(Ok(bytes)) => {
                let ghost len = bytes@.len();
                match usable_icon(bytes, IconSource::Workspace) {
                    Ok(icon) => IconFetchAction::Finish(Ok(icon)),
                    Err(message) => {
                        assert(message@ =~= "NSWorkspace app icon is not usable: "@
                            + icon_too_small_text(len));
                        self.fall_back(message)
                    },
                }
            },
            IconFetchEvent::BundleIconNameRead(icon_file) => {
                let info_plist = info_plist_path(&self.app_path);
                match read_bundle_icon_name(icon_file, &info_plist) {
                    Ok(name) => {
                        let icon_path = bundle_icon_path(&self.app_path, &name);
                        self.icon_path = icon_path.clone();
                        IconFetchAction::CheckBundleIcon(icon_path)
                    },
                    Err(message) => self.fail_both(&message),
                }
            },
            IconFetchEvent::BundleIconChecked(found) => {
                if found {
                    IconFetchAction::RunConversion {
                        icon_path: self.icon_path.clone(),
                        output_path: app_icon_cache_path(&self.temp_dir, &self.app_path),
                    }
                } else {
                    let message = missing_bundle_icon_message(&self.icon_path);
                    self.fail_both(&message)
                }
            },
            IconFetchEvent::ConversionRan(Err(e)) => {
                let mut message = String::from_str("Failed to convert app icon: ");
                message.append(&e);
                self.fail_both(&message)
            },
            IconFetchEvent::ConversionRan(Ok(outcome)) => {
                if outcome.succeeded {
                    IconFetchAction::ReadConvertedIcon(
                        app_icon_cache_path(&self.temp_dir, &self.app_path),
                    )
                } else {
                    let message = icon_conversion_failure_message(&self.icon_path, &outcome.stderr);
                    self.fail_both(&message)
                }
            },
            IconFetchEvent::ConvertedIconRead(Err(e)) => {
                let mut message = String::from_str("Failed to read converted app icon: ");
                message.append(&e);
                self.fail_both(&message)
            },
            IconFetchEvent::ConvertedIconRead(Ok(bytes)) => {
                let ghost len = bytes@.len();
                match usable_icon(bytes, IconSource::BundleConversion) {
                    Ok(icon) => IconFetchAction::Finish(Ok(icon)),
                    Err(message) => {
                        assert(message@ =~= "Converted app icon is not usable: "@
                            + icon_too_small_text(len));
                        self.fail_both(&message)
                    },
                }
            },
        }
    }
}

} // verus!
